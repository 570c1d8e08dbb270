use locbox::engine::{load, LoadOutcome};

fn bytes_of(s: &str) -> Vec<u8> {
    s.as_bytes().to_vec()
}

#[test]
fn legacy_compact_text_loads_without_passphrase() {
    let text = "{\"next_id\":3,\"vault_items\":[{\"id\":1,\"service\":\"mail\",\"username\":\"bob\",\"password\":\"pw1\"},{\"id\":2,\"service\":\"bank\",\"username\":\"carol\",\"password\":\"pw2\"}]}";
    match load(&bytes_of(text), None) {
        LoadOutcome::Loaded(st) => {
            assert_eq!(st.next_id(), 3);
            let items = st.list();
            assert_eq!(items.len(), 2);
            assert_eq!(items[0].id, 1);
            assert_eq!(items[0].service, "mail");
            assert_eq!(items[1].id, 2);
            assert_eq!(items[1].username, "carol");
        }
        _ => panic!("expected Loaded"),
    }
}

#[test]
fn legacy_pretty_text_loads() {
    // the layout a pretty printer writes: newlines and indentation
    let text = "{\n  \"next_id\": 2,\n  \"vault_items\": [\n    {\n      \"id\": 1,\n      \"service\": \"s\",\n      \"username\": \"u\",\n      \"password\": \"p\"\n    }\n  ]\n}\n";
    match load(&bytes_of(text), None) {
        LoadOutcome::Loaded(st) => {
            let items = st.list();
            assert_eq!(items.len(), 1);
            assert_eq!(items[0].service, "s");
        }
        _ => panic!("expected Loaded"),
    }
}

#[test]
fn legacy_text_loads_even_with_a_passphrase() {
    let text = "{\"next_id\":2,\"vault_items\":[{\"id\":1,\"service\":\"s\",\"username\":\"u\",\"password\":\"p\"}]}";
    let p = b"ignored-pass".to_vec();
    assert!(matches!(
        load(&bytes_of(text), Some(&p)),
        LoadOutcome::Loaded(_)
    ));
}

#[test]
fn legacy_escapes_are_decoded() {
    let text = "{\"next_id\":2,\"vault_items\":[{\"id\":1,\"service\":\"a\\\"b\\\\c\",\"username\":\"x\\ny\\tz\",\"password\":\"h\\u0001i\\u000Bj\"}]}";
    match load(&bytes_of(text), None) {
        LoadOutcome::Loaded(st) => {
            let items = st.list();
            assert_eq!(items[0].service, "a\"b\\c");
            assert_eq!(items[0].username, "x\ny\tz");
            assert_eq!(items[0].password, "h\u{1}i\u{b}j");
        }
        _ => panic!("expected Loaded"),
    }
}

#[test]
fn legacy_empty_items_loads() {
    let text = "{\"next_id\":1,\"vault_items\":[]}";
    match load(&bytes_of(text), None) {
        LoadOutcome::Loaded(st) => {
            assert_eq!(st.next_id(), 1);
            assert_eq!(st.list().len(), 0);
        }
        _ => panic!("expected Loaded"),
    }
}

#[test]
fn legacy_with_duplicate_ids_starts_fresh() {
    let text = "{\"next_id\":5,\"vault_items\":[{\"id\":1,\"service\":\"a\",\"username\":\"b\",\"password\":\"c\"},{\"id\":1,\"service\":\"d\",\"username\":\"e\",\"password\":\"f\"}]}";
    assert!(matches!(load(&bytes_of(text), None), LoadOutcome::EmptyDefault));
}

#[test]
fn legacy_with_id_above_counter_starts_fresh() {
    let text = "{\"next_id\":1,\"vault_items\":[{\"id\":7,\"service\":\"a\",\"username\":\"b\",\"password\":\"c\"}]}";
    assert!(matches!(load(&bytes_of(text), None), LoadOutcome::EmptyDefault));
}

#[test]
fn container_with_missing_field_starts_fresh() {
    let text = "{\"salt_b64\":\"AAAA\",\"kdf_iterations\":3,\"blob_b64\":\"AAAA\"}";
    assert!(matches!(load(&bytes_of(text), None), LoadOutcome::EmptyDefault));
    let p = b"pw".to_vec();
    assert!(matches!(
        load(&bytes_of(text), Some(&p)),
        LoadOutcome::EmptyDefault
    ));
}

#[test]
fn container_with_invalid_base64_starts_fresh() {
    let text = "{\"salt_b64\":\"!notb64!\",\"kdf_iterations\":3,\"kdf_memory_kib\":64,\"blob_b64\":\"AAAA\"}";
    let p = b"pw".to_vec();
    assert!(matches!(
        load(&bytes_of(text), Some(&p)),
        LoadOutcome::EmptyDefault
    ));
}

#[test]
fn truncated_text_starts_fresh() {
    let text = "{\"next_id\":2,\"vault_items\":[{\"id\":1,\"service\":\"s\"";
    assert!(matches!(load(&bytes_of(text), None), LoadOutcome::EmptyDefault));
}

#[test]
fn trailing_content_is_rejected() {
    let text = "{\"next_id\":1,\"vault_items\":[]}extra";
    assert!(matches!(load(&bytes_of(text), None), LoadOutcome::EmptyDefault));
}

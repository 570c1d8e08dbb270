use locbox::engine::{
    decode_container, encode_container, load, serialize_for_save, serialize_for_save_with,
    LoadOutcome, SaveError,
};
use locbox::vault::Store;

// Small cost parameters keep the key derivation fast in tests; orion's
// minimums are 3 iterations and 8 KiB.
const ITER: u32 = 3;
const MEM: u32 = 64;

fn sample_store() -> Store {
    let mut st = Store::new();
    st.add(
        String::from("github"),
        String::from("alice"),
        String::from("p@ss1"),
    );
    st
}

fn pass(s: &str) -> Vec<u8> {
    s.as_bytes().to_vec()
}

#[test]
fn save_and_reload_with_same_passphrase() {
    let st = sample_store();
    let p = pass("hunter2secret");
    let bytes = serialize_for_save_with(&st, Some(&p), ITER, MEM).unwrap();
    match load(&bytes, Some(&p)) {
        LoadOutcome::Loaded(st2) => {
            let items = st2.list();
            assert_eq!(st2.next_id(), 2);
            assert_eq!(items.len(), 1);
            assert_eq!(items[0].id, 1);
            assert_eq!(items[0].service, "github");
            assert_eq!(items[0].username, "alice");
            assert_eq!(items[0].password, "p@ss1");
        }
        _ => panic!("expected Loaded"),
    }
}

#[test]
fn default_parameters_roundtrip() {
    // One test exercises the default (64 MiB) cost parameters.
    let st = sample_store();
    let p = pass("with-defaults");
    let bytes = serialize_for_save(&st, Some(&p)).unwrap();
    assert!(matches!(load(&bytes, Some(&p)), LoadOutcome::Loaded(_)));
}

#[test]
fn wrong_passphrase_is_reported_and_file_still_opens() {
    let st = sample_store();
    let good = pass("correct123");
    let bad = pass("wrong456");
    let bytes = serialize_for_save_with(&st, Some(&good), ITER, MEM).unwrap();
    assert!(matches!(
        load(&bytes, Some(&bad)),
        LoadOutcome::WrongPassphraseOrCorrupt
    ));
    // the stored bytes are unchanged and still open under the right one
    assert!(matches!(load(&bytes, Some(&good)), LoadOutcome::Loaded(_)));
}

#[test]
fn tampered_blob_fails_to_open() {
    let st = sample_store();
    let p = pass("tamper-check");
    let bytes = serialize_for_save_with(&st, Some(&p), ITER, MEM).unwrap();
    let parts = decode_container(&bytes).expect("container shape");
    let positions = [0, parts.blob.len() / 2, parts.blob.len() - 1];
    for &pos in positions.iter() {
        let mut blob = parts.blob.clone();
        blob[pos] ^= 0x01;
        let tampered = encode_container(&parts.salt, parts.iterations, parts.memory_kib, &blob);
        assert!(matches!(
            load(&tampered, Some(&p)),
            LoadOutcome::WrongPassphraseOrCorrupt
        ));
    }
}

#[test]
fn tampered_salt_fails_to_open() {
    let st = sample_store();
    let p = pass("tamper-check-2");
    let bytes = serialize_for_save_with(&st, Some(&p), ITER, MEM).unwrap();
    let parts = decode_container(&bytes).expect("container shape");
    let mut salt = parts.salt.clone();
    salt[0] ^= 0xff;
    let tampered = encode_container(&salt, parts.iterations, parts.memory_kib, &parts.blob);
    assert!(matches!(
        load(&tampered, Some(&p)),
        LoadOutcome::WrongPassphraseOrCorrupt
    ));
}

#[test]
fn container_without_passphrase_is_not_emptied() {
    let st = sample_store();
    let p = pass("some-pass");
    let bytes = serialize_for_save_with(&st, Some(&p), ITER, MEM).unwrap();
    assert!(matches!(
        load(&bytes, None),
        LoadOutcome::WrongPassphraseOrCorrupt
    ));
}

#[test]
fn fresh_salt_on_every_save() {
    let st = sample_store();
    let p = pass("salted");
    let b1 = serialize_for_save_with(&st, Some(&p), ITER, MEM).unwrap();
    let b2 = serialize_for_save_with(&st, Some(&p), ITER, MEM).unwrap();
    let p1 = decode_container(&b1).unwrap();
    let p2 = decode_container(&b2).unwrap();
    assert_eq!(p1.salt.len(), 16);
    assert_ne!(p1.salt, p2.salt);
}

#[test]
fn cost_parameters_are_kept_in_the_container() {
    let st = sample_store();
    let p = pass("costly");
    let bytes = serialize_for_save_with(&st, Some(&p), 4, 128).unwrap();
    let parts = decode_container(&bytes).unwrap();
    assert_eq!(parts.iterations, 4);
    assert_eq!(parts.memory_kib, 128);
}

#[test]
fn empty_passphrase_fails_derivation_on_save() {
    let st = sample_store();
    let p: Vec<u8> = Vec::new();
    assert!(matches!(
        serialize_for_save_with(&st, Some(&p), ITER, MEM),
        Err(SaveError::DerivationFailed)
    ));
}

#[test]
fn too_few_iterations_fail_derivation_on_save() {
    let st = sample_store();
    let p = pass("pw");
    assert!(matches!(
        serialize_for_save_with(&st, Some(&p), 2, MEM),
        Err(SaveError::DerivationFailed)
    ));
}

#[test]
fn too_little_memory_fails_derivation_on_save() {
    let st = sample_store();
    let p = pass("pw");
    assert!(matches!(
        serialize_for_save_with(&st, Some(&p), ITER, 4),
        Err(SaveError::DerivationFailed)
    ));
}

#[test]
fn container_with_low_iterations_fails_derivation_on_load() {
    // a container whose stored cost parameters are below Argon2i's bounds
    let st = sample_store();
    let p = pass("somepass");
    let bytes = serialize_for_save_with(&st, Some(&p), ITER, MEM).unwrap();
    let parts = decode_container(&bytes).unwrap();
    let doctored = encode_container(&parts.salt, 2, parts.memory_kib, &parts.blob);
    assert!(matches!(
        load(&doctored, Some(&p)),
        LoadOutcome::DerivationFailed
    ));
}

#[test]
fn container_with_short_salt_fails_derivation_on_load() {
    let st = sample_store();
    let p = pass("somepass");
    let bytes = serialize_for_save_with(&st, Some(&p), ITER, MEM).unwrap();
    let parts = decode_container(&bytes).unwrap();
    let short_salt = vec![1u8, 2, 3, 4];
    let doctored = encode_container(&short_salt, parts.iterations, parts.memory_kib, &parts.blob);
    assert!(matches!(
        load(&doctored, Some(&p)),
        LoadOutcome::DerivationFailed
    ));
}

#[test]
fn empty_passphrase_fails_derivation_on_load() {
    let st = sample_store();
    let good = pass("somepass");
    let bytes = serialize_for_save_with(&st, Some(&good), ITER, MEM).unwrap();
    let empty: Vec<u8> = Vec::new();
    assert!(matches!(
        load(&bytes, Some(&empty)),
        LoadOutcome::DerivationFailed
    ));
}

#[test]
fn empty_bytes_start_fresh() {
    let bytes: Vec<u8> = Vec::new();
    assert!(matches!(load(&bytes, None), LoadOutcome::EmptyDefault));
    let p = pass("anything");
    assert!(matches!(load(&bytes, Some(&p)), LoadOutcome::EmptyDefault));
}

#[test]
fn garbage_bytes_start_fresh() {
    let bytes = b"not a vault file at all".to_vec();
    assert!(matches!(load(&bytes, None), LoadOutcome::EmptyDefault));
    let invalid_utf8 = vec![0xff, 0xfe, 0x00, 0x80];
    assert!(matches!(load(&invalid_utf8, None), LoadOutcome::EmptyDefault));
}

#[test]
fn no_passphrase_roundtrip_is_bare_text() {
    let mut st = Store::new();
    st.add(
        String::from("svc \"quoted\"\\slash"),
        String::from("line\nbreak\ttab"),
        String::from("ctrl\u{1}char"),
    );
    let bytes = serialize_for_save(&st, None).unwrap();
    // the bare format is plain text, not a container
    assert!(decode_container(&bytes).is_none());
    match load(&bytes, None) {
        LoadOutcome::Loaded(st2) => {
            let items = st2.list();
            assert_eq!(items.len(), 1);
            assert_eq!(items[0].service, "svc \"quoted\"\\slash");
            assert_eq!(items[0].username, "line\nbreak\ttab");
            assert_eq!(items[0].password, "ctrl\u{1}char");
        }
        _ => panic!("expected Loaded"),
    }
}

#[test]
fn unicode_fields_roundtrip() {
    let mut st = Store::new();
    st.add(
        String::from("caf\u{e9} \u{2603}"),
        String::from("\u{1F512}lock"),
        String::from("p\u{416}w"),
    );
    let p = pass("unicode-pass");
    let bytes = serialize_for_save_with(&st, Some(&p), ITER, MEM).unwrap();
    match load(&bytes, Some(&p)) {
        LoadOutcome::Loaded(st2) => {
            let items = st2.list();
            assert_eq!(items[0].service, "caf\u{e9} \u{2603}");
            assert_eq!(items[0].username, "\u{1F512}lock");
            assert_eq!(items[0].password, "p\u{416}w");
        }
        _ => panic!("expected Loaded"),
    }
}

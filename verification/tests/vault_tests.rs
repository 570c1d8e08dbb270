use locbox::vault::{Store, Vault};

#[test]
fn vault_new_fields() {
    let v = Vault::new(
        7,
        String::from("svc"),
        String::from("user"),
        String::from("secret"),
    );
    assert_eq!(v.id, 7);
    assert_eq!(v.service, "svc");
    assert_eq!(v.username, "user");
    assert_eq!(v.password, "secret");
}

#[test]
fn first_add_gets_id_one() {
    let mut st = Store::new();
    let r = st.add(
        String::from("github"),
        String::from("alice"),
        String::from("p@ss1"),
    );
    assert_eq!(r.id, 1);
    assert_eq!(st.next_id(), 2);
    let items = st.list();
    assert_eq!(items.len(), 1);
    assert_eq!(items[0].id, 1);
    assert_eq!(items[0].service, "github");
    assert_eq!(items[0].username, "alice");
    assert_eq!(items[0].password, "p@ss1");
}

#[test]
fn removed_id_is_never_reused() {
    let mut st = Store::new();
    let a = st.add(String::from("s1"), String::from("u1"), String::from("p1"));
    let b = st.add(String::from("s2"), String::from("u2"), String::from("p2"));
    assert_eq!(a.id, 1);
    assert_eq!(b.id, 2);
    assert!(st.remove(1));
    let c = st.add(String::from("s3"), String::from("u3"), String::from("p3"));
    assert_eq!(c.id, 3);
    let items = st.list();
    assert_eq!(items.len(), 2);
    assert_eq!(items[0].id, 2);
    assert_eq!(items[1].id, 3);
}

#[test]
fn remove_missing_returns_false() {
    let mut st = Store::new();
    st.add(String::from("s"), String::from("u"), String::from("p"));
    assert!(!st.remove(5));
    assert_eq!(st.list().len(), 1);
    assert_eq!(st.next_id(), 2);
}

#[test]
fn list_keeps_insertion_order() {
    let mut st = Store::new();
    for k in 0..5 {
        st.add(
            format!("svc{k}"),
            format!("user{k}"),
            format!("pw{k}"),
        );
    }
    let items = st.list();
    assert_eq!(items.len(), 5);
    for k in 0..5 {
        assert_eq!(items[k].id, k + 1);
        assert_eq!(items[k].service, format!("svc{k}"));
    }
}

#[test]
fn check_wf_accepts_fresh_store() {
    let st = Store::new();
    assert!(st.check_wf());
}

#[test]
fn check_wf_rejects_duplicate_ids() {
    let items = vec![
        Vault::new(1, String::from("a"), String::from("b"), String::from("c")),
        Vault::new(1, String::from("d"), String::from("e"), String::from("f")),
    ];
    let st = Store::from_parts(5, items);
    assert!(!st.check_wf());
}

#[test]
fn check_wf_rejects_id_at_or_above_counter() {
    let items = vec![Vault::new(
        9,
        String::from("a"),
        String::from("b"),
        String::from("c"),
    )];
    let st = Store::from_parts(3, items);
    assert!(!st.check_wf());
}

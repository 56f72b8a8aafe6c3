use tootmirror::snapshot::Snapshot;

fn s(text: &str) -> String {
    text.to_string()
}

#[test]
fn new_snapshot_is_empty() {
    let snapshot = Snapshot::new();
    assert_eq!(snapshot.len(), 0);
    assert!(snapshot.get(0).is_none());
    assert!(!snapshot.contains_id(&s("1")));
    assert_eq!(snapshot.handle_of(&s("1")), None);
}

#[test]
fn insert_adds_in_order_of_arrival() {
    let mut snapshot = Snapshot::new();
    snapshot.insert(s("2"), s("b@x"));
    snapshot.insert(s("1"), s("a@x"));
    assert_eq!(snapshot.len(), 2);
    assert_eq!(snapshot.get(0).unwrap().id, "2");
    assert_eq!(snapshot.get(0).unwrap().handle, "b@x");
    assert_eq!(snapshot.get(1).unwrap().id, "1");
    assert_eq!(snapshot.get(1).unwrap().handle, "a@x");
    assert!(snapshot.get(2).is_none());
}

#[test]
fn insert_overwrites_handle_of_known_id() {
    let mut snapshot = Snapshot::new();
    snapshot.insert(s("1"), s("old@x"));
    snapshot.insert(s("2"), s("b@x"));
    snapshot.insert(s("1"), s("new@x"));
    assert_eq!(snapshot.len(), 2);
    assert_eq!(snapshot.handle_of(&s("1")), Some(&s("new@x")));
    assert_eq!(snapshot.get(0).unwrap().id, "1");
    assert_eq!(snapshot.get(0).unwrap().handle, "new@x");
    assert_eq!(snapshot.handle_of(&s("2")), Some(&s("b@x")));
}

#[test]
fn contains_id_tells_ids_apart() {
    let mut snapshot = Snapshot::new();
    snapshot.insert(s("10"), s("a@x"));
    assert!(snapshot.contains_id(&s("10")));
    assert!(!snapshot.contains_id(&s("1")));
    assert!(!snapshot.contains_id(&s("100")));
    assert!(!snapshot.contains_id(&s("")));
}

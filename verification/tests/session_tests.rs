use media_dispatch::choice::{Choice, ChoiceKind};
use media_dispatch::session::SessionStore;

fn sample_groups() -> Vec<Vec<Choice>> {
    vec![
        vec![
            Choice { kind: ChoiceKind::Track, id: "t1".to_string() },
            Choice { kind: ChoiceKind::Album, id: "a1".to_string() },
        ],
        vec![Choice { kind: ChoiceKind::Artist, id: "r1".to_string() }],
    ]
}

#[test]
fn take_after_create_returns_stored_groups() {
    let mut store = SessionStore::new();
    let id = store.create(sample_groups());
    let taken = store.take(&id);
    let groups = taken.expect("first take must return the stored groups");
    assert_eq!(groups.len(), 2);
    assert_eq!(groups[0].len(), 2);
    assert_eq!(groups[0][0].id, "t1");
    assert_eq!(groups[0][1].id, "a1");
    assert_eq!(groups[1][0].id, "r1");
}

#[test]
fn second_take_finds_nothing() {
    let mut store = SessionStore::new();
    let id = store.create(sample_groups());
    let first = store.take(&id);
    assert!(first.is_some());
    let second = store.take(&id);
    assert!(second.is_none());
}

#[test]
fn take_of_unknown_id_finds_nothing() {
    let mut store = SessionStore::new();
    let missing = "no-such-session".to_string();
    assert!(store.take(&missing).is_none());
}

#[test]
fn session_ids_have_uuid_length() {
    let mut store = SessionStore::new();
    let id = store.create(sample_groups());
    assert_eq!(id.chars().count(), 36);
}

#[test]
fn sessions_do_not_disturb_each_other() {
    let mut store = SessionStore::new();
    let id_a = store.create(vec![vec![Choice { kind: ChoiceKind::Track, id: "a".to_string() }]]);
    let id_b = store.create(vec![vec![Choice { kind: ChoiceKind::Track, id: "b".to_string() }]]);
    assert_ne!(id_a, id_b);
    let got_a = store.take(&id_a).expect("session a must still be pending");
    assert_eq!(got_a[0][0].id, "a");
    let got_b = store.take(&id_b).expect("session b must still be pending");
    assert_eq!(got_b[0][0].id, "b");
}

#[test]
fn insert_replaces_groups_under_same_id() {
    let mut store = SessionStore::new();
    store.insert("fixed".to_string(), vec![vec![Choice {
        kind: ChoiceKind::Track,
        id: "old".to_string(),
    }]]);
    store.insert("fixed".to_string(), vec![vec![Choice {
        kind: ChoiceKind::Track,
        id: "new".to_string(),
    }]]);
    let got = store.take(&"fixed".to_string()).expect("entry must be pending");
    assert_eq!(got.len(), 1);
    assert_eq!(got[0][0].id, "new");
    assert!(store.take(&"fixed".to_string()).is_none());
}

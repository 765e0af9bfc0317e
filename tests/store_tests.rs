use chat::protocol::StoredMessage;
use chat::store::{Store, StoreError, User};
use chat::timestamp::Timestamp;

fn msg(id: &str, user: &str, content: &str, secs: i64) -> StoredMessage {
    StoredMessage {
        id: id.to_string(),
        user_id: format!("id-{}", user),
        username: user.to_string(),
        content: content.to_string(),
        timestamp: Timestamp { secs, nanos: 0 },
    }
}

fn contents(v: &[StoredMessage]) -> Vec<String> {
    v.iter().map(|m| m.content.clone()).collect()
}

#[test]
fn register_then_case_variant_is_taken() {
    let mut s = Store::new();
    let u = s.register_user("alice", "pw1").unwrap();
    assert_eq!(u.username, "alice");
    match s.register_user("Alice", "pw2") {
        Err(StoreError::AlreadyExists(n)) => assert_eq!(n, "Alice"),
        other => panic!("unexpected {:?}", other),
    }
    match s.register_user("ALICE", "pw1") {
        Err(StoreError::AlreadyExists(_)) => {}
        other => panic!("unexpected {:?}", other),
    }
    assert_eq!(s.users().len(), 1);
}

#[test]
fn password_is_stored_as_sha256_hex() {
    let mut s = Store::new();
    let u = s.register_user("bob", "abc").unwrap();
    assert_eq!(
        u.password_hash,
        "ba7816bf8f01cfea414140de5dae2223b00361a396177a9cb410ff61f20015ad"
    );
    assert_ne!(u.password_hash, "abc");
}

#[test]
fn register_at_keeps_given_id_and_time() {
    let mut s = Store::new();
    let at = Timestamp { secs: 1_700_000_000, nanos: 5 };
    let u = s.register_user_at("Carol", "pw", "u-1".to_string(), at).unwrap();
    assert_eq!(u.id, "u-1");
    assert_eq!(u.username, "Carol");
    assert_eq!(u.created_at, at);
}

#[test]
fn authenticate_outcomes() {
    let mut s = Store::new();
    s.register_user("alice", "pw1").unwrap();
    let u = s.authenticate("ALICE", "pw1").unwrap();
    assert_eq!(u.username, "alice");
    match s.authenticate("alice", "pw2") {
        Err(StoreError::WrongPassword) => {}
        other => panic!("unexpected {:?}", other),
    }
    match s.authenticate("nobody", "pw1") {
        Err(StoreError::NotFound(n)) => assert_eq!(n, "nobody"),
        other => panic!("unexpected {:?}", other),
    }
}

#[test]
fn remove_user_takes_back_a_registration() {
    let mut s = Store::new();
    s.register_user("alice", "pw").unwrap();
    s.register_user("bob", "pw").unwrap();
    s.remove_user("ALICE");
    let names: Vec<String> = s.users().iter().map(|u| u.username.clone()).collect();
    assert_eq!(names, vec!["bob".to_string()]);
    s.remove_user("nobody");
    assert_eq!(s.users().len(), 1);
    assert!(s.register_user("alice", "pw").is_ok());
}

#[test]
fn history_windows() {
    let mut s = Store::new();
    assert!(s.get_history(0).is_empty());
    for i in 0..5 {
        s.save_message(msg(&i.to_string(), "a", &format!("m{}", i), i));
    }
    assert_eq!(contents(&s.get_history(2)), vec!["m3", "m4"]);
    assert_eq!(contents(&s.get_history(0)).len(), 5);
    assert_eq!(contents(&s.get_history(5)), vec!["m0", "m1", "m2", "m3", "m4"]);
    assert_eq!(contents(&s.get_history(99)).len(), 5);
    assert_eq!(contents(&s.get_history(1)), vec!["m4"]);
}

#[test]
fn hundred_saved_messages_keep_submission_order() {
    let mut s = Store::new();
    for i in 0..100 {
        s.save_message(msg(&i.to_string(), "w", &format!("job {}", i), i));
    }
    let all = s.get_history(0);
    assert_eq!(all.len(), 100);
    for (i, m) in all.iter().enumerate() {
        assert_eq!(m.content, format!("job {}", i));
    }
}

fn search_store() -> Store {
    let mut s = Store::new();
    s.save_message(msg("1", "alice", "Hello World", 100));
    s.save_message(msg("2", "Bob", "hello there", 200));
    s.save_message(msg("3", "alice", "bye", 300));
    s
}

#[test]
fn search_by_query_ignores_case() {
    let s = search_store();
    assert_eq!(contents(&s.search("HELLO", "", None, None)), vec!["Hello World", "hello there"]);
    assert!(s.search("xyz", "", None, None).is_empty());
}

#[test]
fn search_by_username_is_exact_without_case() {
    let s = search_store();
    assert_eq!(contents(&s.search("", "ALICE", None, None)), vec!["Hello World", "bye"]);
    assert!(s.search("", "ali", None, None).is_empty());
    assert_eq!(contents(&s.search("", "bob", None, None)), vec!["hello there"]);
}

#[test]
fn search_time_bounds_are_inclusive() {
    let s = search_store();
    let t = |secs| Some(Timestamp { secs, nanos: 0 });
    assert_eq!(contents(&s.search("", "", t(200), None)), vec!["hello there", "bye"]);
    assert_eq!(contents(&s.search("", "", None, t(200))), vec!["Hello World", "hello there"]);
    assert_eq!(contents(&s.search("", "", t(200), t(200))), vec!["hello there"]);
    assert!(s
        .search("", "", Some(Timestamp { secs: 200, nanos: 1 }), t(299))
        .is_empty());
}

#[test]
fn search_criteria_combine_with_and() {
    let s = search_store();
    assert_eq!(contents(&s.search("hello", "alice", None, None)), vec!["Hello World"]);
    assert!(s.search("bye", "bob", None, None).is_empty());
    let t = |secs| Some(Timestamp { secs, nanos: 0 });
    assert_eq!(contents(&s.search("hello", "", t(150), None)), vec!["hello there"]);
}

#[test]
fn restore_keeps_last_of_same_name_and_messages() {
    let u = |id: &str, name: &str| User {
        id: id.to_string(),
        username: name.to_string(),
        password_hash: String::new(),
        created_at: Timestamp { secs: 0, nanos: 0 },
    };
    let s = Store::restore(
        vec![u("1", "alice"), u("2", "bob"), u("3", "ALICE")],
        vec![msg("1", "alice", "hi", 1)],
    );
    let users = s.users();
    assert_eq!(users.len(), 2);
    assert_eq!(users[0].id, "3");
    assert_eq!(users[1].id, "2");
    assert_eq!(contents(&s.get_history(0)), vec!["hi"]);
}

#[test]
fn message_ids_strictly_increase_along_the_log() {
    let mut s = Store::new();
    assert!(s.save_message(msg("x", "a", "first", 5)));
    assert!(s.save_message(msg("x", "a", "same instant", 5)));
    assert!(s.save_message(msg("x", "a", "earlier clock", 1)));
    assert!(s.save_message(msg("x", "a", "later", 9)));
    assert!(s.save_message(msg("x", "a", "before the epoch", -3)));
    let ids: Vec<String> = s.get_history(0).iter().map(|m| m.id.clone()).collect();
    assert_eq!(
        ids,
        vec!["5000000000", "5000000001", "5000000002", "9000000000", "9000000001"]
    );
    let mut fresh = Store::new();
    assert!(fresh.save_message(msg("x", "a", "old", -3)));
    assert_eq!(fresh.get_history(0)[0].id, "0");
}

#[test]
fn restore_gives_back_the_same_ids() {
    let mut s = Store::new();
    s.save_message(msg("x", "a", "one", 7));
    s.save_message(msg("x", "a", "two", 7));
    s.save_message(msg("x", "b", "three", 3));
    let saved = s.get_history(0);
    let back = Store::restore(Vec::new(), saved.clone());
    let again = back.get_history(0);
    assert_eq!(again.len(), 3);
    for (a, b) in saved.iter().zip(again.iter()) {
        assert_eq!(a.id, b.id);
        assert_eq!(a.content, b.content);
    }
}

#[test]
fn registered_users_get_distinct_ids() {
    let mut s = Store::new();
    let a = s.register_user("a", "pw").unwrap();
    let b = s.register_user("b", "pw").unwrap();
    assert_ne!(a.id, b.id);
    assert!(a.id.contains('-'));
}

#[test]
fn restore_of_a_written_store_is_unchanged() {
    let mut s = Store::new();
    s.register_user("alice", "pw").unwrap();
    s.register_user("bob", "pw").unwrap();
    s.save_message(msg("x", "alice", "hi", 4));
    s.save_message(msg("x", "bob", "yo", 4));
    let users = s.users();
    let log = s.get_history(0);
    let back = Store::restore(users.clone(), log.clone());
    let again = back.users();
    assert_eq!(again.len(), 2);
    for (a, b) in users.iter().zip(again.iter()) {
        assert_eq!(a.id, b.id);
        assert_eq!(a.username, b.username);
        assert_eq!(a.password_hash, b.password_hash);
    }
    let ids: Vec<String> = back.get_history(0).iter().map(|m| m.id.clone()).collect();
    assert_eq!(ids, vec!["4000000000", "4000000001"]);
    assert_eq!(log[1].id, "4000000001");
}

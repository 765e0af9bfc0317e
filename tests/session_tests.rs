use chat::hub::{ClientHandle, Hub};
use chat::protocol::{AuthPayload, ChatPayload, HistoryPayload, ResponseData, SearchPayload, StoredMessage};
use chat::session::{changes_state, Action, Request, ServerState, Session};
use chat::store::Store;
use chat::timestamp::Timestamp;
use tokio::sync::mpsc;

const AT: Timestamp = Timestamp { secs: 1_700_000_000, nanos: 42 };

fn auth(name: &str, pw: &str) -> Option<AuthPayload> {
    Some(AuthPayload { username: name.to_string(), password: pw.to_string() })
}

fn reply(actions: &[Action]) -> (bool, String, Option<ResponseData>) {
    assert_eq!(actions.len(), 1);
    match &actions[0] {
        Action::Reply(p) => (p.success, p.message.clone(), p.data.clone()),
        _ => panic!("expected a reply"),
    }
}

/// Registers through the two steps, with the users saved.
fn register(state: &mut ServerState, session: &mut Session, name: &str, pw: &str) -> Vec<Action> {
    let first = state.dispatch(session, Request::Register(auth(name, pw)), AT);
    match first.into_iter().next() {
        Some(Action::SaveUsers(u)) => state.finish_registration(session, u, true),
        Some(other) => vec![other],
        None => panic!("no action"),
    }
}

fn search(query: &str, username: &str) -> Request {
    Request::Search(Some(SearchPayload {
        query: query.to_string(),
        username: username.to_string(),
        from: None,
        to: None,
    }))
}

#[test]
fn register_login_chat_search_scenario() {
    let mut state = ServerState::new(Store::new());
    let mut a = Session::new("conn-0".to_string());
    let mut b = Session::new("conn-1".to_string());

    let acts = register(&mut state, &mut a, "alice", "pw1");
    assert_eq!(acts.len(), 2);
    match &acts[0] {
        Action::Reply(p) => {
            assert!(p.success);
            assert_eq!(p.message, "registered and logged in as \"alice\"");
        }
        _ => panic!("expected a reply"),
    }
    match &acts[1] {
        Action::Announce(t) => assert_eq!(t, "alice joined the chat"),
        _ => panic!("expected an announcement"),
    }
    assert!(a.is_authenticated());

    let acts = register(&mut state, &mut b, "Alice", "pw2");
    let (ok, text, _) = reply(&acts);
    assert!(!ok);
    assert_eq!(text, "error: username \"Alice\" is already taken");
    assert!(!b.is_authenticated());

    let acts = register(&mut state, &mut b, "bob", "pw2");
    assert_eq!(acts.len(), 2);

    let acts = state.dispatch(&mut a, Request::Chat(Some(ChatPayload { content: "hello".to_string() })), AT);
    assert_eq!(acts.len(), 2);
    let persisted: StoredMessage = match (&acts[0], &acts[1]) {
        (Action::Broadcast(line), Action::Persist(m)) => {
            assert_eq!(line.username, "alice");
            assert_eq!(line.content, "hello");
            assert_eq!(line.timestamp, AT);
            assert_eq!(m.id, "1700000000000000042");
            m.clone()
        }
        _ => panic!("expected a broadcast then a persistence job"),
    };
    state.save_message(persisted);

    let (ok, text, data) = reply(&state.dispatch(&mut a, search("", "alice"), AT));
    assert!(ok);
    assert_eq!(text, "1 result(s)");
    match data {
        Some(ResponseData::Messages(v)) => {
            assert_eq!(v.len(), 1);
            assert_eq!(v[0].content, "hello");
            assert_eq!(v[0].username, "alice");
        }
        _ => panic!("expected messages"),
    }
}

#[test]
fn unauthenticated_requests_are_refused() {
    let mut state = ServerState::new(Store::new());
    let mut s = Session::new("c".to_string());
    let chat = Request::Chat(Some(ChatPayload { content: "hi".to_string() }));
    let (ok, text, _) = reply(&state.dispatch(&mut s, chat, AT));
    assert!(!ok);
    assert_eq!(text, "error: you must login or register first");
    for req in [search("x", ""), Request::History(Some(HistoryPayload { limit: 3 })), Request::Users] {
        let (ok, text, _) = reply(&state.dispatch(&mut s, req, AT));
        assert!(!ok);
        assert_eq!(text, "error: you must login first");
    }
    assert!(state.store().get_history(0).is_empty());
    assert!(state.online_users().is_empty());
    assert!(!s.is_authenticated());
}

#[test]
fn empty_search_is_refused() {
    let mut state = ServerState::new(Store::new());
    let mut s = Session::new("c".to_string());
    register(&mut state, &mut s, "alice", "pw");
    let (ok, text, data) = reply(&state.dispatch(&mut s, search("", ""), AT));
    assert!(!ok);
    assert_eq!(text, "error: provide at least one search criterion (query, username, from, or to)");
    assert!(data.is_none());
    let (ok, text, _) = reply(&state.dispatch(&mut s, Request::Search(None), AT));
    assert!(!ok);
    assert_eq!(text, "error: malformed search payload");
}

#[test]
fn bad_payloads_and_unknown_packets() {
    let mut state = ServerState::new(Store::new());
    let mut s = Session::new("c".to_string());
    let (_, text, _) = reply(&state.dispatch(&mut s, Request::Register(auth("", "pw")), AT));
    assert_eq!(text, "error: register requires {username, password}");
    let (_, text, _) = reply(&state.dispatch(&mut s, Request::Login(None), AT));
    assert_eq!(text, "error: login requires {username, password}");
    let (_, text, _) = reply(&state.dispatch(&mut s, Request::Unexpected, AT));
    assert_eq!(text, "error: unknown packet type");
    let (_, text, _) = reply(&state.dispatch(&mut s, Request::Malformed, AT));
    assert_eq!(text, "error: malformed packet");
    assert!(state.dispatch(&mut s, Request::Quit, AT).is_empty());
    register(&mut state, &mut s, "alice", "pw");
    let (_, text, _) = reply(&state.dispatch(&mut s, Request::Chat(Some(ChatPayload { content: String::new() })), AT));
    assert_eq!(text, "error: chat requires {content}");
}

#[test]
fn login_errors_and_success() {
    let mut state = ServerState::new(Store::new());
    let mut a = Session::new("a".to_string());
    register(&mut state, &mut a, "alice", "pw1");
    let mut b = Session::new("b".to_string());
    let (_, text, _) = reply(&state.dispatch(&mut b, Request::Login(auth("zed", "pw")), AT));
    assert_eq!(text, "error: user \"zed\" not found");
    let (_, text, _) = reply(&state.dispatch(&mut b, Request::Login(auth("ALICE", "bad")), AT));
    assert_eq!(text, "error: incorrect password");
    let acts = state.dispatch(&mut b, Request::Login(auth("ALICE", "pw1")), AT);
    assert_eq!(acts.len(), 2);
    match &acts[0] {
        Action::Reply(p) => assert_eq!(p.message, "logged in as \"alice\""),
        _ => panic!("expected a reply"),
    }
    assert_eq!(b.get_identity().unwrap().username, "alice");
    // The later login holds the registry entry; closing the earlier
    // connection leaves it in place.
    state.close(&a);
    assert_eq!(state.online_users().len(), 1);
    state.close(&b);
    assert!(state.online_users().is_empty());
}

#[test]
fn history_defaults_and_users_listing() {
    let mut state = ServerState::new(Store::new());
    let mut s = Session::new("c".to_string());
    register(&mut state, &mut s, "alice", "pw");
    for i in 0..25 {
        state.save_message(StoredMessage {
            id: i.to_string(),
            user_id: "u".to_string(),
            username: "alice".to_string(),
            content: format!("m{}", i),
            timestamp: Timestamp { secs: i, nanos: 0 },
        });
    }
    let (ok, text, data) = reply(&state.dispatch(&mut s, Request::History(Some(HistoryPayload { limit: 0 })), AT));
    assert!(ok);
    assert_eq!(text, "last 25 message(s)");
    match data {
        Some(ResponseData::Messages(v)) => assert_eq!(v[0].content, "m0"),
        _ => panic!("expected messages"),
    }
    let (_, text, data) = reply(&state.dispatch(&mut s, Request::History(None), AT));
    assert_eq!(text, "last 20 message(s)");
    match data {
        Some(ResponseData::Messages(v)) => assert_eq!(v[0].content, "m5"),
        _ => panic!("expected messages"),
    }
    let (_, text, _) = reply(&state.dispatch(&mut s, Request::History(Some(HistoryPayload { limit: 3 })), AT));
    assert_eq!(text, "last 3 message(s)");
    let (ok, text, data) = reply(&state.dispatch(&mut s, Request::Users, AT));
    assert!(ok);
    assert_eq!(text, "1 user(s) online");
    match data {
        Some(ResponseData::Users(v)) => assert_eq!(v[0].username, "alice"),
        _ => panic!("expected users"),
    }
}

#[test]
fn unsaved_registration_is_taken_back() {
    let mut state = ServerState::new(Store::new());
    let mut s = Session::new("c".to_string());
    let first = state.dispatch(&mut s, Request::Register(auth("alice", "pw")), AT);
    let user = match first.into_iter().next() {
        Some(Action::SaveUsers(u)) => u,
        _ => panic!("expected a save request"),
    };
    assert_eq!(state.store().users().len(), 1);
    let (ok, text, _) = reply(&state.finish_registration(&mut s, user, false));
    assert!(!ok);
    assert_eq!(text, "error: registration could not be saved");
    assert!(state.store().users().is_empty());
    assert!(!s.is_authenticated());
}

#[test]
fn chat_line_reaches_every_connected_client_through_the_hub() {
    let mut state = ServerState::new(Store::new());
    let mut hub = Hub::new();
    let mut a = Session::new("conn-a".to_string());
    let mut b = Session::new("conn-b".to_string());
    let (tx_a, mut rx_a) = mpsc::channel::<Vec<u8>>(8);
    let (tx_b, mut rx_b) = mpsc::channel::<Vec<u8>>(8);
    hub.register(ClientHandle { id: a.conn_id.clone(), username: String::new(), tx: tx_a });
    hub.register(ClientHandle { id: b.conn_id.clone(), username: String::new(), tx: tx_b });

    register(&mut state, &mut a, "alice", "pw1");
    let refused = register(&mut state, &mut b, "Alice", "pw2");
    assert!(matches!(&refused[0], Action::Reply(p) if !p.success));
    register(&mut state, &mut b, "bob", "pw2");

    let acts = state.dispatch(&mut a, Request::Chat(Some(ChatPayload { content: "hello".to_string() })), AT);
    for act in acts {
        if let Action::Broadcast(line) = act {
            let wire = format!("{}|{}", line.username, line.content).into_bytes();
            let report = hub.broadcast(&wire);
            assert_eq!(report.delivered, vec![true, true]);
        }
    }
    assert_eq!(rx_a.try_recv().unwrap(), b"alice|hello".to_vec());
    assert_eq!(rx_b.try_recv().unwrap(), b"alice|hello".to_vec());
}

#[test]
fn read_only_requests_are_answered_without_changes() {
    let mut state = ServerState::new(Store::new());
    let mut s = Session::new("c".to_string());
    assert!(changes_state(&Request::Register(None)));
    assert!(changes_state(&Request::Login(None)));
    assert!(!changes_state(&Request::Users));
    assert!(!changes_state(&Request::Chat(None)));
    let (ok, text, _) = reply(&state.answer(&s, Request::Users, AT));
    assert!(!ok);
    assert_eq!(text, "error: you must login first");
    register(&mut state, &mut s, "alice", "pw");
    let (ok, text, _) = reply(&state.answer(&s, Request::Users, AT));
    assert!(ok);
    assert_eq!(text, "1 user(s) online");
    let acts = state.answer(&s, Request::Chat(Some(ChatPayload { content: "x".to_string() })), AT);
    assert_eq!(acts.len(), 2);
    assert!(state.store().get_history(0).is_empty());
}

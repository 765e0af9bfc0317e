use chat::client::{
    active_search_field, handle_key, handle_net, parse_datetime, App, ChatLine, Input, Key, KeyCode,
    NetEvent, Outgoing, ResponseRows, Screen,
};

fn key(code: KeyCode) -> Key {
    Key { code, ctrl: false }
}

fn ctrl(c: char) -> Key {
    Key { code: KeyCode::Char(c), ctrl: true }
}

fn line(text: &str) -> ChatLine {
    ChatLine { username: "u".to_string(), content: text.to_string(), timestamp: "00:00:00".to_string(), is_system: false }
}

fn type_text(app: &mut App, text: &str) {
    for c in text.chars() {
        assert!(handle_key(app, key(KeyCode::Char(c))).is_none());
    }
}

#[test]
fn input_edits_at_the_end() {
    let mut i = Input::default();
    i.insert('a');
    i.insert('é');
    i.insert('b');
    assert_eq!(i.as_str(), "aéb");
    i.delete_back();
    assert_eq!(i.as_str(), "aé");
    i.delete_back();
    assert_eq!(i.as_str(), "a");
    i.delete_back();
    i.delete_back();
    assert_eq!(i.as_str(), "");
    i.insert('z');
    i.clear();
    assert_eq!(i.as_str(), "");
}

#[test]
fn new_app_starts_on_login() {
    let app = App::new();
    assert!(app.screen == Screen::Login);
    assert_eq!(app.viewport_height, 20);
    assert!(app.messages.is_empty());
    assert!(!app.quit);
}

#[test]
fn scrolling_is_bounded() {
    let mut app = App::new();
    app.viewport_height = 2;
    for i in 0..6 {
        app.push_message(line(&i.to_string()));
    }
    app.scroll_up();
    assert_eq!(app.scroll, 3);
    app.scroll_up();
    assert_eq!(app.scroll, 4);
    app.scroll_down();
    assert_eq!(app.scroll, 1);
    app.scroll_down();
    assert_eq!(app.scroll, 0);
    app.search_scroll_up();
    assert_eq!(app.search_scroll, 0);
    app.search_results.push(line("r"));
    app.search_results.push(line("s"));
    app.search_results.push(line("t"));
    app.search_scroll_up();
    assert_eq!(app.search_scroll, 1);
    app.search_scroll_down();
    assert_eq!(app.search_scroll, 0);
}

#[test]
fn login_form_sends_trimmed_credentials() {
    let mut app = App::new();
    assert!(handle_key(&mut app, key(KeyCode::Enter)).is_none());
    assert_eq!(app.login_error, "Username and password are required");
    type_text(&mut app, "  al ");
    handle_key(&mut app, key(KeyCode::Tab));
    type_text(&mut app, "pw");
    match handle_key(&mut app, key(KeyCode::Enter)) {
        Some(Outgoing::Login(p)) => {
            assert_eq!(p.username, "al");
            assert_eq!(p.password, "pw");
        }
        _ => panic!("expected a login"),
    }
    handle_key(&mut app, ctrl('r'));
    assert!(app.is_register);
    assert!(matches!(handle_key(&mut app, key(KeyCode::Enter)), Some(Outgoing::Register(_))));
    handle_key(&mut app, key(KeyCode::Backspace));
    assert_eq!(app.login_password.as_str(), "p");
    handle_key(&mut app, ctrl('q'));
    assert!(app.quit);
}

#[test]
fn chat_and_search_keys() {
    let mut app = App::new();
    app.screen = Screen::Chat;
    type_text(&mut app, " hi ");
    match handle_key(&mut app, key(KeyCode::Enter)) {
        Some(Outgoing::Chat(p)) => assert_eq!(p.content, "hi"),
        _ => panic!("expected a chat line"),
    }
    assert_eq!(app.chat_input.as_str(), "");
    assert!(handle_key(&mut app, key(KeyCode::Enter)).is_none());
    handle_key(&mut app, ctrl('f'));
    assert!(app.screen == Screen::Search);
    assert!(handle_key(&mut app, key(KeyCode::Enter)).is_none());
    handle_key(&mut app, key(KeyCode::Tab));
    type_text(&mut app, "bob");
    handle_key(&mut app, key(KeyCode::Tab));
    type_text(&mut app, "2024-01-02");
    assert_eq!(app.search_field, 2);
    match handle_key(&mut app, key(KeyCode::Enter)) {
        Some(Outgoing::Search(p)) => {
            assert_eq!(p.query, "");
            assert_eq!(p.username, "bob");
            assert_eq!(p.from.unwrap().secs, 1_704_153_600);
            assert!(p.to.is_none());
        }
        _ => panic!("expected a search"),
    }
    handle_key(&mut app, key(KeyCode::BackTab));
    handle_key(&mut app, key(KeyCode::BackTab));
    handle_key(&mut app, key(KeyCode::BackTab));
    assert_eq!(app.search_field, 3);
    active_search_field(&mut app).insert('x');
    assert_eq!(app.search_to.as_str(), "x");
    handle_key(&mut app, key(KeyCode::Esc));
    assert!(app.screen == Screen::Chat);
}

#[test]
fn datetime_parsing() {
    assert!(parse_datetime("   ").is_none());
    assert_eq!(parse_datetime(" 1970-01-02 ").unwrap().secs, 86_400);
    let t = parse_datetime("2024-01-02T00:00:01+01:00").unwrap();
    assert_eq!(t.secs, 1_704_153_601 - 3_600);
    assert!(parse_datetime("yesterday").is_none());
}

#[test]
fn network_events_update_the_state() {
    let mut app = App::new();
    let out = handle_net(&mut app, NetEvent::Response(false, "error: nope".to_string(), None));
    assert!(out.is_empty());
    assert_eq!(app.login_error, "error: nope");
    let out = handle_net(&mut app, NetEvent::Response(true, "ok".to_string(), None));
    assert_eq!(out.len(), 2);
    assert!(matches!(&out[0], Outgoing::History(h) if h.limit == 50));
    assert!(matches!(&out[1], Outgoing::Users));
    assert!(app.screen == Screen::Chat);
    handle_net(&mut app, NetEvent::Broadcast(line("live")));
    handle_net(&mut app, NetEvent::Response(true, "h".to_string(), Some(ResponseRows::Messages(vec![line("old")]))));
    let texts: Vec<String> = app.messages.iter().map(|l| l.content.clone()).collect();
    assert_eq!(texts, vec!["old", "live"]);
    handle_net(&mut app, NetEvent::Response(true, "u".to_string(), Some(ResponseRows::Users(3))));
    assert_eq!(app.online_count, 3);
    handle_net(&mut app, NetEvent::System("welcome".to_string()));
    handle_net(&mut app, NetEvent::Disconnected);
    let last = app.messages.last().unwrap();
    assert!(last.is_system);
    assert_eq!(last.content, "Disconnected from server.");
    app.screen = Screen::Search;
    handle_net(&mut app, NetEvent::Response(true, "r".to_string(), Some(ResponseRows::Messages(vec![line("hit")]))));
    assert_eq!(app.search_results.len(), 1);
    handle_net(&mut app, NetEvent::Response(true, "r".to_string(), Some(ResponseRows::Users(1))));
    assert!(app.search_results.is_empty());
}

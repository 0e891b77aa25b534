use tspchat::protocol::Status;
use tspchat::text::decimal_string;
use tspchat::ui::{
    line_color, status_color, unread_badge, App, AppEvent, Color, Key, KeyAction, LineKind, Mode,
    Pane,
};

fn peer(app: &mut App, nick: &str, status: Status) {
    app.handle_app_event(AppEvent::PeerUpdate { nick: nick.to_string(), status });
}

fn history(app: &App, nick: &str) -> Vec<(String, LineKind)> {
    app.messages
        .get(nick)
        .map(|v| v.iter().map(|l| (l.text.clone(), l.kind)).collect())
        .unwrap_or_default()
}

#[test]
fn new_app_is_empty() {
    let app = App::new();
    assert!(app.chats.is_empty());
    assert_eq!(app.selected, 0);
    assert_eq!(app.active, None);
    assert_eq!(app.mode, Mode::Navigate);
    assert!(!app.should_quit);
    assert!(app.input.is_empty());
    assert!(app.chat_entries().is_empty());
}

#[test]
fn peer_update_adds_chat_once() {
    let mut app = App::new();
    peer(&mut app, "Bob", Status::Online);
    peer(&mut app, "Ann", Status::Away);
    peer(&mut app, "Bob", Status::Invisible);
    assert_eq!(app.chats, vec!["Bob".to_string(), "Ann".to_string()]);
    assert_eq!(app.statuses.get("Bob"), Some(&Status::Invisible));
    assert_eq!(app.statuses.get("Ann"), Some(&Status::Away));
    assert!(history(&app, "Bob").is_empty());
}

#[test]
fn incoming_text_counts_unread_and_records_line() {
    let mut app = App::new();
    peer(&mut app, "Bob", Status::Online);
    app.handle_app_event(AppEvent::IncomingText { from: "Bob".into(), text: "привіт".into() });
    app.handle_app_event(AppEvent::IncomingText { from: "Bob".into(), text: "як ти?".into() });
    assert_eq!(app.unread.get("Bob"), Some(&2));
    assert_eq!(
        history(&app, "Bob"),
        vec![
            ("Bob: привіт".to_string(), LineKind::Incoming),
            ("Bob: як ти?".to_string(), LineKind::Incoming)
        ]
    );
}

#[test]
fn incoming_to_open_chat_is_not_unread() {
    let mut app = App::new();
    peer(&mut app, "Bob", Status::Online);
    app.handle_key(Key::Enter, Status::Online);
    assert_eq!(app.active, Some(0));
    app.handle_app_event(AppEvent::IncomingText { from: "Bob".into(), text: "hi".into() });
    assert_eq!(app.unread.get("Bob"), None);
    assert_eq!(history(&app, "Bob").len(), 1);
}

#[test]
fn incoming_image_line() {
    let mut app = App::new();
    app.handle_app_event(AppEvent::IncomingImage { from: "Ann".into(), size: 1024 });
    assert_eq!(
        history(&app, "Ann"),
        vec![("Ann: [фото, 1024 байтів]".to_string(), LineKind::Incoming)]
    );
    assert_eq!(app.unread.get("Ann"), Some(&1));
    assert!(app.chats.is_empty());
}

#[test]
fn connection_closed_adds_system_line() {
    let mut app = App::new();
    app.handle_app_event(AppEvent::ConnectionClosed("Bob".into()));
    assert_eq!(
        history(&app, "Bob"),
        vec![("-- з'єднання розірвано --".to_string(), LineKind::System)]
    );
    assert_eq!(app.unread.get("Bob"), None);
}

#[test]
fn peer_update_resets_history_of_new_chat() {
    let mut app = App::new();
    app.handle_app_event(AppEvent::ConnectionClosed("Bob".into()));
    peer(&mut app, "Bob", Status::Online);
    assert!(history(&app, "Bob").is_empty());
}

#[test]
fn peer_left_forgets_everything() {
    let mut app = App::new();
    peer(&mut app, "Ann", Status::Online);
    peer(&mut app, "Bob", Status::Away);
    peer(&mut app, "Cid", Status::Online);
    app.handle_app_event(AppEvent::IncomingText { from: "Bob".into(), text: "x".into() });
    app.handle_app_event(AppEvent::PeerLeft("Bob".into()));
    assert_eq!(app.chats, vec!["Ann".to_string(), "Cid".to_string()]);
    assert_eq!(app.statuses.get("Bob"), None);
    assert_eq!(app.unread.get("Bob"), None);
    assert!(app.messages.get("Bob").is_none());
}

#[test]
fn peer_left_clears_active_out_of_range() {
    let mut app = App::new();
    peer(&mut app, "Ann", Status::Online);
    peer(&mut app, "Bob", Status::Online);
    app.handle_key(Key::Char('j'), Status::Online);
    app.handle_key(Key::Enter, Status::Online);
    assert_eq!(app.active, Some(1));
    app.handle_app_event(AppEvent::PeerLeft("Bob".into()));
    assert_eq!(app.active, None);
}

#[test]
fn peer_left_keeps_active_index_in_range() {
    let mut app = App::new();
    peer(&mut app, "Ann", Status::Online);
    peer(&mut app, "Bob", Status::Online);
    peer(&mut app, "Cid", Status::Online);
    app.handle_key(Key::Char('j'), Status::Online);
    app.handle_key(Key::Enter, Status::Online);
    assert_eq!(app.active, Some(1));
    app.handle_app_event(AppEvent::PeerLeft("Ann".into()));
    assert_eq!(app.active, Some(1));
    assert_eq!(app.chats[1], "Cid");
}

#[test]
fn navigation_keys() {
    let mut app = App::new();
    app.handle_key(Key::Char('j'), Status::Online);
    assert_eq!(app.selected, 0);
    app.handle_key(Key::Enter, Status::Online);
    assert_eq!(app.mode, Mode::Navigate);
    peer(&mut app, "Ann", Status::Online);
    peer(&mut app, "Bob", Status::Online);
    app.handle_key(Key::Char('j'), Status::Online);
    app.handle_key(Key::Char('j'), Status::Online);
    assert_eq!(app.selected, 1);
    app.handle_key(Key::Char('k'), Status::Online);
    app.handle_key(Key::Char('k'), Status::Online);
    assert_eq!(app.selected, 0);
    app.handle_key(Key::Char('x'), Status::Online);
    assert_eq!(app.selected, 0);
    assert!(app.input.is_empty());
}

#[test]
fn quit_and_status_keys() {
    let mut app = App::new();
    match app.handle_key(Key::Char('s'), Status::Away) {
        KeyAction::SetStatus(s) => assert_eq!(s, Status::Invisible),
        _ => panic!("expected a status change"),
    }
    assert!(!app.should_quit);
    app.handle_key(Key::Char('q'), Status::Online);
    assert!(app.should_quit);
}

#[test]
fn opening_a_chat_clears_its_unread() {
    let mut app = App::new();
    peer(&mut app, "Bob", Status::Online);
    app.handle_app_event(AppEvent::IncomingText { from: "Bob".into(), text: "a".into() });
    assert_eq!(app.unread.get("Bob"), Some(&1));
    app.handle_key(Key::Enter, Status::Online);
    assert_eq!(app.mode, Mode::Chatting);
    assert_eq!(app.unread.get("Bob"), None);
}

#[test]
fn typing_and_sending() {
    let mut app = App::new();
    peer(&mut app, "Bob", Status::Online);
    app.handle_key(Key::Enter, Status::Online);
    for c in "hey!".chars() {
        app.handle_key(Key::Char(c), Status::Online);
    }
    app.handle_key(Key::Backspace, Status::Online);
    assert_eq!(app.input, "hey");
    match app.handle_key(Key::Enter, Status::Online) {
        KeyAction::Send { to, text } => {
            assert_eq!(to, "Bob");
            assert_eq!(text, "hey");
        }
        _ => panic!("expected a send"),
    }
    assert!(app.input.is_empty());
    assert_eq!(history(&app, "Bob"), vec![("я: hey".to_string(), LineKind::Own)]);
    assert!(matches!(app.handle_key(Key::Enter, Status::Online), KeyAction::Nothing));
    assert_eq!(history(&app, "Bob").len(), 1);
    app.handle_key(Key::Backspace, Status::Online);
    assert!(app.input.is_empty());
    app.handle_key(Key::Esc, Status::Online);
    assert_eq!(app.mode, Mode::Navigate);
}

#[test]
fn view_helpers() {
    let mut app = App::new();
    assert_eq!(app.chat_title(), "(нема активного чату)");
    assert!(app.open_lines().is_empty());
    peer(&mut app, "Ann", Status::Away);
    peer(&mut app, "Bob", Status::Online);
    app.handle_app_event(AppEvent::IncomingText { from: "Bob".into(), text: "hi".into() });
    let entries = app.chat_entries();
    assert_eq!(entries.len(), 2);
    assert_eq!(entries[0].nick, "Ann");
    assert_eq!(entries[0].status, Status::Away);
    assert_eq!(entries[0].unread, 0);
    assert!(entries[0].highlighted);
    assert_eq!(entries[1].nick, "Bob");
    assert_eq!(entries[1].unread, 1);
    assert!(!entries[1].highlighted);
    app.handle_key(Key::Char('j'), Status::Online);
    app.handle_key(Key::Enter, Status::Online);
    assert_eq!(app.chat_title(), "Bob");
    let lines = app.open_lines();
    assert_eq!(lines.len(), 1);
    assert_eq!(lines[0].text, "Bob: hi");
    assert_eq!(lines[0].kind, LineKind::Incoming);
}

#[test]
fn colours_and_hints() {
    assert_eq!(status_color(Status::Online), Color::Green);
    assert_eq!(status_color(Status::Away), Color::Yellow);
    assert_eq!(status_color(Status::Invisible), Color::DarkGray);
    assert_eq!(line_color(LineKind::Own), Color::Cyan);
    assert_eq!(line_color(LineKind::Incoming), Color::White);
    assert_eq!(line_color(LineKind::System), Color::DarkGray);
    assert_eq!(Mode::Navigate.hint(), "j/k: рух  Enter: відкрити чат  s: змінити статус  q: вихід");
    assert_eq!(Mode::Chatting.hint(), "Enter: надіслати  Esc: до списку чатів");
}

#[test]
fn decimal_numbers() {
    assert_eq!(decimal_string(0), "0");
    assert_eq!(decimal_string(7), "7");
    assert_eq!(decimal_string(10), "10");
    assert_eq!(decimal_string(1024), "1024");
    assert_eq!(decimal_string(usize::MAX), usize::MAX.to_string());
}

#[test]
fn badges_and_focus() {
    assert_eq!(unread_badge(0), None);
    assert_eq!(unread_badge(3), Some("  (3)".to_string()));
    assert_eq!(unread_badge(12), Some("  (12)".to_string()));
    let mut app = App::new();
    assert_eq!(app.focused_pane(), Pane::ChatList);
    peer(&mut app, "Bob", Status::Online);
    app.handle_key(Key::Enter, Status::Online);
    assert_eq!(app.focused_pane(), Pane::Chat);
}

#[test]
fn preconditions_are_checkable() {
    let mut app = App::new();
    peer(&mut app, "Bob", Status::Online);
    let text = AppEvent::IncomingText { from: "Bob".into(), text: "x".into() };
    assert!(app.can_take(&text));
    assert!(app.can_take(&AppEvent::PeerLeft("Bob".into())));
    assert!(app.can_handle_key(Key::Char('j')));
    assert!(app.open_chat_listed());
    app.selected = usize::MAX;
    assert!(!app.can_handle_key(Key::Char('j')));
    assert!(app.can_handle_key(Key::Char('k')));
    app.selected = 0;
    app.handle_key(Key::Enter, Status::Online);
    app.active = Some(5);
    assert!(!app.open_chat_listed());
    assert!(!app.can_handle_key(Key::Enter));
    assert!(app.can_handle_key(Key::Esc));
    app.active = Some(0);
    assert!(app.can_handle_key(Key::Enter));
    app.unread.insert("Ann".to_string(), usize::MAX);
    let from_ann = AppEvent::IncomingImage { from: "Ann".into(), size: 1 };
    assert!(!app.can_take(&from_ann));
    // the open chat's count is never raised, so it may be full
    app.unread.insert("Bob".to_string(), usize::MAX);
    assert!(app.can_take(&text));
}

use minitools::chat_client::{server_message_event, App, Event, Step};
use minitools::chat_server::{
    chat_message, join_message, leave_message, session_step, username_from_reply,
    username_prompt, ServerState, SessionAction, SessionEvent,
};
use minitools::input::Key;

fn type_text(app: &mut App, text: &str) {
    for c in text.chars() {
        assert!(app.handle_key_event(Key::Char(c)).is_none());
    }
}

#[test]
fn new_client() {
    let app = App::new();
    assert_eq!(app.input, "");
    assert!(app.messages.is_empty());
    assert_eq!(app.tick_count, 0);
    assert!(!app.should_quit);
    assert!(!app.connected);
}

#[test]
fn tick_counts() {
    let mut app = App::new();
    app.tick();
    app.tick();
    assert_eq!(app.tick_count, 2);
    assert_eq!(app.messages_title(), "Messages (Ticks : 2)");
}

#[test]
fn quit_command_quits_and_keeps_line() {
    let mut app = App::new();
    type_text(&mut app, "  /quit ");
    assert!(app.handle_key_event(Key::Enter).is_none());
    assert!(app.should_quit);
    assert_eq!(app.input, "  /quit ");
    assert!(app.messages.is_empty());
}

#[test]
fn offline_enter_shows_line() {
    let mut app = App::new();
    type_text(&mut app, "hello");
    assert!(app.handle_key_event(Key::Enter).is_none());
    assert_eq!(app.messages, vec!["hello".to_string()]);
    assert_eq!(app.input, "");
    assert!(!app.should_quit);
}

#[test]
fn online_enter_sends_line() {
    let mut app = App::new();
    app.connection_result(true);
    assert_eq!(app.messages, vec!["Connected to server.".to_string()]);
    type_text(&mut app, "hi all");
    let sent = app.handle_key_event(Key::Enter);
    assert_eq!(sent, Some("hi all\n".to_string()));
    assert_eq!(app.input, "");
    assert_eq!(app.messages.len(), 1);
    app.report_send_failure();
    assert_eq!(app.messages[1], "Failed to send message.");
}

#[test]
fn unreachable_server_is_reported() {
    let mut app = App::new();
    app.connection_result(false);
    assert!(!app.connected);
    assert_eq!(app.messages, vec!["Failed to connect to server.".to_string()]);
}

#[test]
fn events_drive_the_client() {
    let mut app = App::new();
    assert!(matches!(app.handle_event(Some(Event::Tick)), Step::Continue));
    assert_eq!(app.tick_count, 1);
    assert!(matches!(app.handle_event(Some(Event::ServerMessage("bob: hey\n".to_string()))), Step::Continue));
    assert_eq!(app.messages, vec!["bob: hey\n".to_string()]);
    assert!(matches!(app.handle_event(Some(Event::Key(Key::Char('x')))), Step::Continue));
    assert_eq!(app.input, "x");
    app.connected = true;
    match app.handle_event(Some(Event::Key(Key::Enter))) {
        Step::Send(m) => assert_eq!(m, "x\n"),
        _ => panic!("expected a message to send"),
    }
    assert!(matches!(app.handle_event(None), Step::Stop));
}

#[test]
fn server_bytes_become_a_message() {
    match server_message_event(b"alice: hi\n") {
        Event::ServerMessage(m) => assert_eq!(m, "alice: hi\n"),
        _ => panic!("expected a server message"),
    }
    match server_message_event(&[0xe2, 0x82]) {
        Event::ServerMessage(m) => assert_eq!(m, "\u{fffd}"),
        _ => panic!("expected a server message"),
    }
}

#[test]
fn server_texts() {
    assert_eq!(username_prompt(), "Please enter your username: ");
    assert_eq!(username_from_reply("  alice \r\n"), "alice");
    assert_eq!(join_message("alice"), "alice has joined the chat.\n");
    assert_eq!(chat_message("alice", "hi\n"), "alice: hi\n");
    assert_eq!(leave_message("alice"), "alice has left the chat.\n");
}

#[test]
fn registry_join_and_leave() {
    let mut state = ServerState::new();
    state.join(1, "alice".to_string());
    state.join(2, "bob".to_string());
    assert_eq!(state.clients.len(), 2);
    assert_eq!(state.clients.get(&1), Some(&"alice".to_string()));
    state.leave(1);
    assert_eq!(state.clients.len(), 1);
    assert!(state.clients.get(&1).is_none());
    state.leave(2);
    assert!(state.clients.is_empty());
}

#[test]
fn session_steps() {
    match session_step("alice", SessionEvent::Broadcast("bob: yo\n".to_string())) {
        SessionAction::Write(w) => assert_eq!(w, "bob: yo\n"),
        _ => panic!("expected a write"),
    }
    match session_step("alice", SessionEvent::LineRead("hi\n".to_string())) {
        SessionAction::Broadcast(b) => assert_eq!(b, "alice: hi\n"),
        _ => panic!("expected a broadcast"),
    }
    assert!(matches!(session_step("alice", SessionEvent::EndOfInput), SessionAction::Close));
    assert!(matches!(session_step("alice", SessionEvent::ReadFailed), SessionAction::Close));
    assert!(matches!(session_step("alice", SessionEvent::WriteFailed), SessionAction::Close));
}

use tokio_chat::client::{display_line, entry_action, EntryAction};
use tokio_chat::message::{ClientMessage, Handshake, ServerMessage};

#[test]
fn handshake_carries_name() {
    assert_eq!(Handshake::new("alice").name, "alice");
}

#[test]
fn client_message_carries_text() {
    assert_eq!(ClientMessage::new("hello there").0, "hello there");
}

#[test]
fn display_chat_message() {
    let m = ServerMessage::Message("bob".to_string(), "hi all".to_string());
    assert_eq!(display_line(&m), "bob: hi all");
}

#[test]
fn display_user_connected() {
    let m = ServerMessage::UserConnected("carol".to_string());
    assert_eq!(display_line(&m), "* carol connected");
}

#[test]
fn display_user_disconnected() {
    let m = ServerMessage::UserDisconnected("dave".to_string());
    assert_eq!(display_line(&m), "* dave disconnected");
}

#[test]
fn quit_entry_quits() {
    assert!(matches!(entry_action("/quit"), EntryAction::Quit));
}

#[test]
fn other_entry_is_sent() {
    match entry_action("/quit now") {
        EntryAction::Send(m) => assert_eq!(m.0, "/quit now"),
        EntryAction::Quit => panic!("not the quit command"),
    }
    match entry_action("") {
        EntryAction::Send(m) => assert_eq!(m.0, ""),
        EntryAction::Quit => panic!("not the quit command"),
    }
}

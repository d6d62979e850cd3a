use tokio_chat::message::{ClientMessage, Handshake, ServerMessage};
use tokio_chat::server::{Client, ConnectError, ConnectedClients};

fn sorted(mut v: Vec<u64>) -> Vec<u64> {
    v.sort();
    v
}

#[test]
fn client_new_keeps_channel_and_name() {
    let c = Client::new(7u32, "eve");
    assert_eq!(c.tx, 7);
    assert_eq!(c.name, "eve");
}

#[test]
fn insert_then_remove_gives_client_back() {
    let mut clients: ConnectedClients<u32> = ConnectedClients::new();
    clients.insert(1, Client::new(10, "a"));
    assert_eq!(clients.len(), 1);
    let c = clients.remove(&1).unwrap();
    assert_eq!(c.tx, 10);
    assert_eq!(c.name, "a");
    assert_eq!(clients.len(), 0);
    assert!(clients.remove(&1).is_none());
}

#[test]
fn insert_replaces_same_address() {
    let mut clients: ConnectedClients<u32> = ConnectedClients::new();
    clients.insert(1, Client::new(10, "a"));
    clients.insert(1, Client::new(11, "b"));
    assert_eq!(clients.len(), 1);
    assert_eq!(clients.get(&1).unwrap().name, "b");
}

#[test]
fn broadcast_reaches_everyone_once() {
    let mut clients: ConnectedClients<u32> = ConnectedClients::new();
    clients.insert(3, Client::new(0, "c"));
    clients.insert(1, Client::new(0, "a"));
    clients.insert(2, Client::new(0, "b"));
    let b = clients.broadcast(ServerMessage::UserConnected("z".to_string()));
    assert_eq!(sorted(b.recipients), vec![1, 2, 3]);
}

#[test]
fn handshake_announces_to_all_including_newcomer() {
    let mut clients: ConnectedClients<u32> = ConnectedClients::new();
    clients.insert(1, Client::new(0, "a"));
    let b = clients.connect(2, 5, Some(Handshake::new("bob"))).ok().unwrap();
    assert_eq!(sorted(b.recipients), vec![1, 2]);
    match b.message {
        ServerMessage::UserConnected(n) => assert_eq!(n, "bob"),
        _ => panic!("wrong announcement"),
    }
    assert_eq!(clients.get(&2).unwrap().tx, 5);
    assert_eq!(clients.get(&2).unwrap().name, "bob");
}

#[test]
fn missing_handshake_never_joins() {
    let mut clients: ConnectedClients<u32> = ConnectedClients::new();
    clients.insert(1, Client::new(0, "a"));
    match clients.connect(2, 5, None) {
        Err(ConnectError::UnexpectedEof) => {}
        Ok(_) => panic!("joined without a handshake"),
    }
    assert_eq!(clients.len(), 1);
    assert!(clients.disconnect(2).is_none());
    assert_eq!(clients.len(), 1);
}

#[test]
fn relay_reaches_everyone_with_sender_name() {
    let mut clients: ConnectedClients<u32> = ConnectedClients::new();
    clients.insert(1, Client::new(0, "a"));
    clients.insert(2, Client::new(0, "b"));
    let b = clients.relay(&"a".to_string(), ClientMessage::new("hello"));
    assert_eq!(sorted(b.recipients), vec![1, 2]);
    match b.message {
        ServerMessage::Message(from, text) => {
            assert_eq!(from, "a");
            assert_eq!(text, "hello");
        }
        _ => panic!("wrong message"),
    }
}

#[test]
fn leave_announced_to_the_others_only() {
    let mut clients: ConnectedClients<u32> = ConnectedClients::new();
    clients.insert(1, Client::new(0, "a"));
    clients.insert(2, Client::new(0, "b"));
    clients.insert(3, Client::new(0, "c"));
    let b = clients.disconnect(2).unwrap();
    assert_eq!(sorted(b.recipients), vec![1, 3]);
    match b.message {
        ServerMessage::UserDisconnected(n) => assert_eq!(n, "b"),
        _ => panic!("wrong announcement"),
    }
    assert!(clients.get(&2).is_none());
}

#[test]
fn last_one_leaving_tells_nobody() {
    let mut clients: ConnectedClients<u32> = ConnectedClients::new();
    let _ = clients.connect(9, 0, Some(Handshake::new("solo")));
    let b = clients.disconnect(9).unwrap();
    assert!(b.recipients.is_empty());
    assert_eq!(clients.len(), 0);
}

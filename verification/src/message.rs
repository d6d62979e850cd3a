use vstd::prelude::*;

verus! {

/// Sent by a client to the server right after it connects; names the user.
#[derive(Clone, Debug)]
pub struct Handshake {
    pub name: String,
}

impl Handshake {
    /// A handshake announcing the user `name`.
    pub fn new(name: &str) -> (h: Handshake)
        ensures
            h.name@ == name@,
    {
        Handshake { name: name.to_owned() }
    }
}

/// A line of chat text sent by a client to the server.
#[derive(Clone, Debug)]
pub struct ClientMessage(pub String);

impl ClientMessage {
    /// A chat message carrying `message`.
    pub fn new(message: &str) -> (m: ClientMessage)
        ensures
            m.0@ == message@,
    {
        ClientMessage(message.to_owned())
    }
}

/// A `ServerMessage` with its text as character sequences.
pub enum SpecServerMessage {
    Message(Seq<char>, Seq<char>),
    UserConnected(Seq<char>),
    UserDisconnected(Seq<char>),
}

/// What the server sends to its clients.
#[derive(Clone, Debug)]
pub enum ServerMessage {
    /// A message from a user (first field) with arbitrary content (second field).
    Message(String, String),
    /// A user completed its handshake under the given name.
    UserConnected(String),
    /// A user who had completed its handshake went away.
    UserDisconnected(String),
}

impl View for ServerMessage {
    type V = SpecServerMessage;

    open spec fn view(&self) -> SpecServerMessage {
        match self {
            ServerMessage::Message(from, text) => SpecServerMessage::Message(from@, text@),
            ServerMessage::UserConnected(name) => SpecServerMessage::UserConnected(name@),
            ServerMessage::UserDisconnected(name) => SpecServerMessage::UserDisconnected(name@),
        }
    }
}

} // verus!

use crate::message::{ClientMessage, Handshake, ServerMessage, SpecServerMessage};
use std::collections::HashMap;
use vstd::std_specs::hash::spec_keys_iter;
use vstd::std_specs::iter::IteratorSpec;
use vstd::prelude::*;

verus! {

broadcast use {vstd::std_specs::hash::group_hash_axioms, vstd::std_specs::hash::axiom_random_state_builds_valid_hashers};

/// A connected client that completed its handshake: the channel the server reaches it
/// through, and the name it gave.
pub struct Client<T> {
    pub tx: T,
    pub name: String,
}

impl<T> Client<T> {
    pub fn new(tx: T, name: &str) -> (c: Client<T>)
        ensures
            c.tx == tx,
            c.name@ == name@,
    {
        Client { tx, name: name.to_owned() }
    }
}

/// A message to deliver to each of `recipients`, every one of them once.
pub struct Broadcast {
    pub message: ServerMessage,
    pub recipients: Vec<u64>,
}

impl Broadcast {
    /// `message` goes to exactly the addresses in `to`, each once.
    pub open spec fn delivers(&self, message: SpecServerMessage, to: Set<u64>) -> bool {
        &&& self.message@ == message
        &&& self.recipients@.to_set() == to
        &&& self.recipients@.no_duplicates()
    }
}

/// Why a connection never joined the chat.
pub enum ConnectError {
    /// The connection ended before it sent its handshake.
    UnexpectedEof,
}

/// The clients that completed their handshake, by connection address.
pub struct ConnectedClients<T> {
    clients: HashMap<u64, Client<T>>,
}

impl<T> View for ConnectedClients<T> {
    type V = Map<u64, Client<T>>;

    closed spec fn view(&self) -> Map<u64, Client<T>> {
        self.clients@
    }
}

impl<T> ConnectedClients<T> {
    /// No client yet.
    pub fn new() -> (c: ConnectedClients<T>)
        ensures
            c@ == Map::<u64, Client<T>>::empty(),
    {
        ConnectedClients { clients: HashMap::new() }
    }

    /// Records `client` under `addr`, replacing any client recorded there before.
    pub fn insert(&mut self, addr: u64, client: Client<T>)
        ensures
            final(self)@ == old(self)@.insert(addr, client),
    {
        self.clients.insert(addr, client);
    }

    /// Forgets the client at `addr`, returning it if there was one: there is exactly when
    /// that connection had completed its handshake.
    pub fn remove(&mut self, addr: &u64) -> (removed: Option<Client<T>>)
        ensures
            final(self)@ == old(self)@.remove(*addr),
            match removed {
                Some(c) => old(self)@.contains_key(*addr) && c == old(self)@[*addr],
                None => !old(self)@.contains_key(*addr),
            },
    {
        self.clients.remove(addr)
    }

    /// The client recorded at `addr`.
    pub fn get(&self, addr: &u64) -> (client: Option<&Client<T>>)
        ensures
            match client {
                Some(c) => self@.contains_key(*addr) && *c == self@[*addr],
                None => !self@.contains_key(*addr),
            },
    {
        self.clients.get(addr)
    }

    /// How many clients are connected.
    pub fn len(&self) -> (n: usize)
        ensures
            n == self@.len(),
    {
        self.clients.len()
    }

    /// Sends `message` to every connected client: the broadcast names each connected
    /// address once, in no particular order.
    pub fn broadcast(&self, message: ServerMessage) -> (b: Broadcast)
        ensures
            b.delivers(message@, self@.dom()),
    {
        let mut recipients: Vec<u64> = Vec::new();
        let keys = self.clients.keys();
        let ghost walk = keys.remaining();
        proof {
            vstd::std_specs::hash::axiom_spec_keys_iter(&self.clients);
        }
        for addr in it: keys
            invariant
                it.seq() == walk,
                walk == spec_keys_iter(&self.clients).remaining(),
                recipients@ == it.seq().take(it.index()).unref(),
        {
            assert(it.seq().take(it.index() + 1) =~= it.seq().take(it.index()).push(addr));
            recipients.push(*addr);
        }
        assert(walk.take(walk.len() as int) =~= walk);
        Broadcast { message, recipients }
    }

    /// The handshake step of the connection at `addr` ended. With a handshake, its client
    /// joins under the name it gave and every connected client, the newcomer included, is
    /// told. Without one the connection never joins and nobody is told.
    pub fn connect(&mut self, addr: u64, tx: T, handshake: Option<Handshake>) -> (r: Result<
        Broadcast,
        ConnectError,
    >)
        ensures
            match handshake {
                None => r is Err && final(self)@ == old(self)@,
                Some(h) => r matches Ok(b) && final(self)@ == old(self)@.insert(
                    addr,
                    Client { tx, name: h.name },
                ) && b.delivers(SpecServerMessage::UserConnected(h.name@), final(self)@.dom()),
            },
    {
        match handshake {
            None => Err(ConnectError::UnexpectedEof),
            Some(h) => {
                let announced = h.name.clone();
                self.insert(addr, Client { tx, name: h.name });
                Ok(self.broadcast(ServerMessage::UserConnected(announced)))
            },
        }
    }

    /// A joined client named `name` sent `message`: every connected client, the sender
    /// included, gets it with the sender's name attached.
    pub fn relay(&self, name: &String, message: ClientMessage) -> (b: Broadcast)
        ensures
            b.delivers(SpecServerMessage::Message(name@, message.0@), self@.dom()),
    {
        self.broadcast(ServerMessage::Message(name.clone(), message.0))
    }

    /// The connection at `addr` went away. If its client had joined, it is forgotten and
    /// the clients that remain are told; otherwise nothing changes and nobody is told.
    pub fn disconnect(&mut self, addr: u64) -> (r: Option<Broadcast>)
        ensures
            final(self)@ == old(self)@.remove(addr),
            old(self)@.contains_key(addr) ==> (r matches Some(b) && b.delivers(
                SpecServerMessage::UserDisconnected(old(self)@[addr].name@),
                final(self)@.dom(),
            )),
            !old(self)@.contains_key(addr) ==> r is None,
    {
        match self.remove(&addr) {
            None => None,
            Some(client) => Some(self.broadcast(ServerMessage::UserDisconnected(client.name))),
        }
    }
}

/// A broadcast to a room reaches each member of it; in particular a message relayed from
/// a joined client reaches its sender too.
pub proof fn lemma_delivered_to_member(b: Broadcast, message: SpecServerMessage, room: Set<u64>, addr: u64)
    requires
        b.delivers(message, room),
        room.contains(addr),
    ensures
        b.recipients@.contains(addr),
{
    assert(b.recipients@.to_set().contains(addr));
}

/// A client that joins is told of its own arrival.
pub proof fn lemma_join_reaches_newcomer<T>(room: Map<u64, Client<T>>, addr: u64, client: Client<T>)
    ensures
        room.insert(addr, client).dom().contains(addr),
        room.insert(addr, client).dom() == room.dom().insert(addr),
{
}

/// A client that leaves is not told of its own departure, and everybody else is.
pub proof fn lemma_leave_reaches_others<T>(room: Map<u64, Client<T>>, addr: u64)
    ensures
        !room.remove(addr).dom().contains(addr),
        room.remove(addr).dom() == room.dom().remove(addr),
{
}

/// Joining and then leaving gives the client back and leaves the room as it was before,
/// when the address was not in it.
pub proof fn lemma_join_then_leave<T>(room: Map<u64, Client<T>>, addr: u64, client: Client<T>)
    requires
        !room.contains_key(addr),
    ensures
        room.insert(addr, client).contains_key(addr),
        room.insert(addr, client)[addr] == client,
        room.insert(addr, client).remove(addr) == room,
{
    assert(room.insert(addr, client).remove(addr) =~= room);
}

} // verus!

//! The tunnel: two endpoint addresses, the connection cache of the sending
//! endpoint and the Active / Destroyed lifecycle.
//!
//! The transport is not reached from here. Every operation that needs it
//! is a pair of steps: one decides what the transport is to do, the other
//! takes what the transport answered. Between the two the caller does the
//! transport's work.

use vstd::prelude::*;

use crate::cache::{
    connection_after_create, connection_ids, drains, entries_after_create, no_entries, Connection,
    ConnectionCache,
};
use crate::error::TunnelError;
use crate::identity::PublicKey;

verus! {

/// The code with which the tunnel closes its connections.
pub const CLOSE_CODE: u32 = 0;

/// The reason the tunnel gives when it closes a connection.
pub const CLOSE_REASON: &'static str = "user_request";

/// What the transport has to do next for a send.
#[derive(Clone, Copy, Debug, PartialEq, Eq)]
pub enum SendStep {
    /// No connection to the address is cached: connect to `address` under
    /// the protocol tag and report the outcome with `Tunnel::connected`.
    Connect { address: PublicKey },
    /// Open a stream on `connection`, write the payload, finish the stream
    /// and wait for the peer to stop it.
    Write { connection: Connection },
}

/// What `Tunnel::connected` made of a new connection.
#[derive(Clone, Copy, Debug, PartialEq, Eq, Structural)]
pub struct Attached {
    /// The connection to write on.
    pub connection: Connection,
    /// A connection that the cache did not take because the address had
    /// one already. The caller closes it.
    pub surplus: Option<Connection>,
}

/// A tunnel as the contracts see it.
pub struct TunnelView {
    pub sender: Seq<u8>,
    pub receiver: Seq<u8>,
    pub connections: Map<Seq<u8>, u64>,
    pub destroyed: bool,
}

impl TunnelView {
    /// The tunnel after `close(address)`.
    pub open spec fn after_close(self, address: Seq<u8>) -> TunnelView {
        if self.destroyed {
            self
        } else {
            TunnelView { connections: self.connections.remove(address), ..self }
        }
    }

    /// The tunnel after `close_all()`.
    pub open spec fn after_close_all(self) -> TunnelView {
        if self.destroyed {
            self
        } else {
            TunnelView { connections: no_entries(), ..self }
        }
    }

    /// The tunnel after `destroy()`.
    pub open spec fn after_destroy(self) -> TunnelView {
        if self.destroyed {
            self
        } else {
            TunnelView { connections: no_entries(), destroyed: true, ..self }
        }
    }

    /// The tunnel after `connected(address, dialed)`, where `dialed` is
    /// the id of the new connection, if the transport made one.
    pub open spec fn after_connected(self, address: Seq<u8>, dialed: Option<u64>) -> TunnelView {
        if self.destroyed || dialed.is_none() {
            self
        } else {
            TunnelView {
                connections: entries_after_create(self.connections, address, dialed.unwrap()),
                ..self
            }
        }
    }

    /// The error with which the tunnel refuses every operation, if it
    /// refuses them.
    pub open spec fn refusal(self) -> Option<TunnelError> {
        if self.destroyed {
            Some(TunnelError::Destroyed)
        } else {
            None
        }
    }

    /// What `send` decides for `address`.
    pub open spec fn send_step(self, address: PublicKey) -> Result<SendStep, TunnelError> {
        if self.destroyed {
            Err(TunnelError::Destroyed)
        } else if self.connections.contains_key(address@) {
            Ok(SendStep::Write { connection: Connection { id: self.connections[address@] } })
        } else {
            Ok(SendStep::Connect { address })
        }
    }

    /// What `connected` returns for `address` and `dialed`.
    pub open spec fn connected_outcome(self, address: Seq<u8>, dialed: Option<Connection>) -> Result<
        Attached,
        TunnelError,
    > {
        if self.destroyed {
            Err(TunnelError::Destroyed)
        } else if dialed.is_none() {
            Err(TunnelError::Connect)
        } else {
            Ok(
                Attached {
                    connection: Connection {
                        id: connection_after_create(
                            self.connections,
                            address,
                            dialed.unwrap().id,
                        ),
                    },
                    surplus: if self.connections.contains_key(address) {
                        dialed
                    } else {
                        None
                    },
                },
            )
        }
    }

    /// What `close` returns for `address`.
    pub open spec fn close_outcome(self, address: Seq<u8>) -> Result<
        Option<Connection>,
        TunnelError,
    > {
        if self.destroyed {
            Err(TunnelError::Destroyed)
        } else if self.connections.contains_key(address) {
            Ok(Some(Connection { id: self.connections[address] }))
        } else {
            Ok(None)
        }
    }
}

/// What a send comes to once the peer has answered: `stop` is the stop
/// code of the peer, or `None` if it took the whole stream.
pub open spec fn send_outcome(stop: Option<u64>) -> Result<(), TunnelError> {
    match stop {
        Some(code) => Err(TunnelError::Send { code }),
        None => Ok(()),
    }
}

/// The id of a connection, if there is one.
pub open spec fn id_of(connection: Option<Connection>) -> Option<u64> {
    match connection {
        Some(c) => Some(c.id),
        None => None,
    }
}

/// A tunnel used to send and receive data.
#[derive(Debug)]
pub struct Tunnel {
    sender: PublicKey,
    receiver: PublicKey,
    connections: ConnectionCache,
    destroyed: bool,
}

impl View for Tunnel {
    type V = TunnelView;

    closed spec fn view(&self) -> TunnelView {
        TunnelView {
            sender: self.sender@,
            receiver: self.receiver@,
            connections: self.connections@,
            destroyed: self.destroyed,
        }
    }
}

impl Tunnel {
    /// Assembles a tunnel from the addresses of its two bound endpoints.
    /// `None` stands for an endpoint that could not be bound.
    pub fn new(sender: Option<PublicKey>, receiver: Option<PublicKey>) -> (built: Result<
        Tunnel,
        TunnelError,
    >)
        ensures
            built.is_ok() <==> sender.is_some() && receiver.is_some(),
            built.is_err() ==> built.unwrap_err() == TunnelError::Creation,
            built.is_ok() ==> built.unwrap()@ == (TunnelView {
                sender: sender.unwrap()@,
                receiver: receiver.unwrap()@,
                connections: no_entries(),
                destroyed: false,
            }),
    {
        match (sender, receiver) {
            (Some(sender), Some(receiver)) => Ok(
                Tunnel { sender, receiver, connections: ConnectionCache::new(), destroyed: false },
            ),
            _ => Err(TunnelError::Creation),
        }
    }

    /// Begins a send to `address`: says whether a cached connection is to
    /// be written on or a new one is to be made first.
    pub fn send(&self, address: PublicKey) -> (step: Result<SendStep, TunnelError>)
        ensures
            step == self@.send_step(address),
    {
        if self.destroyed {
            return Err(TunnelError::Destroyed);
        }
        match self.connections.get(&address) {
            Some(connection) => Ok(SendStep::Write { connection }),
            None => Ok(SendStep::Connect { address }),
        }
    }

    /// Takes the outcome of the connect that `send` asked for: `dialed` is
    /// the new connection, or `None` if the transport could not make one.
    /// A new connection enters the cache unless the address has one by
    /// now; a failed connect leaves the cache as it was.
    pub fn connected(&mut self, address: PublicKey, dialed: Option<Connection>) -> (outcome: Result<
        Attached,
        TunnelError,
    >)
        ensures
            outcome == old(self)@.connected_outcome(address@, dialed),
            final(self)@ == old(self)@.after_connected(address@, id_of(dialed)),
    {
        if self.destroyed {
            return Err(TunnelError::Destroyed);
        }
        match dialed {
            None => Err(TunnelError::Connect),
            Some(connection) => {
                let cached = self.connections.get(&address).is_some();
                let kept = self.connections.insert_if_absent(address, connection);
                let surplus = if cached {
                    Some(connection)
                } else {
                    None
                };
                Ok(Attached { connection: kept, surplus })
            },
        }
    }

    /// Ends a send: `stop` is the stop code that the peer gave for the
    /// stream, or `None` if it took the stream whole.
    pub fn sent(stop: Option<u64>) -> (outcome: Result<(), TunnelError>)
        ensures
            outcome == send_outcome(stop),
    {
        match stop {
            Some(code) => Err(TunnelError::Send { code }),
            None => Ok(()),
        }
    }

    /// Closes the connection to `address`: takes it out of the cache and
    /// hands it to the caller, who closes it with `CLOSE_CODE` and
    /// `CLOSE_REASON`. Without such a connection nothing happens.
    pub fn close(&mut self, address: PublicKey) -> (outcome: Result<Option<Connection>, TunnelError>)
        ensures
            outcome == old(self)@.close_outcome(address@),
            final(self)@ == old(self)@.after_close(address@),
    {
        if self.destroyed {
            return Err(TunnelError::Destroyed);
        }
        let removed = self.connections.remove(&address);
        Ok(removed)
    }

    /// Closes every connection: empties the cache and hands its
    /// connections to the caller, each once, who closes them with
    /// `CLOSE_CODE` and `CLOSE_REASON`.
    pub fn close_all(&mut self) -> (outcome: Result<Vec<Connection>, TunnelError>)
        ensures
            match old(self)@.refusal() {
                Some(e) => outcome == Err::<Vec<Connection>, TunnelError>(e),
                None => outcome.is_ok(),
            },
            outcome.is_ok() ==> drains(
                connection_ids(outcome.unwrap()@),
                old(self)@.connections,
            ),
            final(self)@ == old(self)@.after_close_all(),
    {
        if self.destroyed {
            return Err(TunnelError::Destroyed);
        }
        let drained = self.connections.clear();
        Ok(drained)
    }

    /// Destroys the tunnel. The cache is emptied and its connections are
    /// handed to the caller, each once; they go down with the sending
    /// endpoint, which the caller closes before it shuts the receiving
    /// side down. From then on every operation but the two address
    /// accessors fails.
    pub fn destroy(&mut self) -> (outcome: Result<Vec<Connection>, TunnelError>)
        ensures
            match old(self)@.refusal() {
                Some(e) => outcome == Err::<Vec<Connection>, TunnelError>(e),
                None => outcome.is_ok(),
            },
            outcome.is_ok() ==> drains(
                connection_ids(outcome.unwrap()@),
                old(self)@.connections,
            ),
            final(self)@ == old(self)@.after_destroy(),
            final(self)@.destroyed,
    {
        if self.destroyed {
            return Err(TunnelError::Destroyed);
        }
        let drained = self.connections.clear();
        self.destroyed = true;
        Ok(drained)
    }

    /// Whether the tunnel was destroyed.
    pub fn is_destroyed(&self) -> (destroyed: bool)
        ensures
            destroyed == self@.destroyed,
    {
        self.destroyed
    }

    /// The connection cached for `address`, if there is one.
    pub fn connection(&self, address: PublicKey) -> (found: Option<Connection>)
        ensures
            id_of(found) == (if self@.connections.contains_key(address@) {
                Some(self@.connections[address@])
            } else {
                None
            }),
    {
        self.connections.get(&address)
    }

    /// Returns the address of the sender endpoint of this tunnel: the
    /// source of everything the tunnel sends.
    pub fn sender_address(&self) -> (address: PublicKey)
        ensures
            address@ == self@.sender,
    {
        self.sender
    }

    /// Returns the address of the receiver endpoint of this tunnel: the
    /// address that peers send to.
    pub fn receiver_address(&self) -> (address: PublicKey)
        ensures
            address@ == self@.receiver,
    {
        self.receiver
    }
}

/// Once destroyed, a tunnel refuses every operation and no operation
/// changes it; its two addresses stay what they were.
pub proof fn lemma_destroyed_is_terminal(
    tunnel: TunnelView,
    address: PublicKey,
    dialed: Option<Connection>,
)
    ensures
        tunnel.after_destroy().destroyed,
        tunnel.after_destroy().refusal() == Some(TunnelError::Destroyed),
        tunnel.after_destroy().sender == tunnel.sender,
        tunnel.after_destroy().receiver == tunnel.receiver,
        tunnel.after_destroy().send_step(address) == Err::<SendStep, TunnelError>(
            TunnelError::Destroyed,
        ),
        tunnel.after_destroy().close_outcome(address@) == Err::<Option<Connection>, TunnelError>(
            TunnelError::Destroyed,
        ),
        tunnel.after_destroy().connected_outcome(address@, dialed) == Err::<Attached, TunnelError>(
            TunnelError::Destroyed,
        ),
        tunnel.after_destroy().after_close(address@) == tunnel.after_destroy(),
        tunnel.after_destroy().after_close_all() == tunnel.after_destroy(),
        tunnel.after_destroy().after_connected(address@, id_of(dialed)) == tunnel.after_destroy(),
        tunnel.after_destroy().after_destroy() == tunnel.after_destroy(),
{
}

/// No operation changes the two addresses of a tunnel.
pub proof fn lemma_addresses_are_fixed(
    tunnel: TunnelView,
    address: Seq<u8>,
    dialed: Option<u64>,
)
    ensures
        tunnel.after_close(address).sender == tunnel.sender,
        tunnel.after_close(address).receiver == tunnel.receiver,
        tunnel.after_close_all().sender == tunnel.sender,
        tunnel.after_close_all().receiver == tunnel.receiver,
        tunnel.after_connected(address, dialed).sender == tunnel.sender,
        tunnel.after_connected(address, dialed).receiver == tunnel.receiver,
        tunnel.after_destroy().sender == tunnel.sender,
        tunnel.after_destroy().receiver == tunnel.receiver,
{
}

/// After `close(address)` on a live tunnel the next send to `address`
/// asks for a new connection, and once that connection is reported the
/// send after it writes on it without connecting again.
pub proof fn lemma_close_then_send_connects_once(
    tunnel: TunnelView,
    address: PublicKey,
    dialed: Connection,
)
    requires
        !tunnel.destroyed,
    ensures
        tunnel.after_close(address@).send_step(address) == Ok::<SendStep, TunnelError>(
            SendStep::Connect { address },
        ),
        tunnel.after_close(address@).connected_outcome(address@, Some(dialed)) == Ok::<
            Attached,
            TunnelError,
        >(Attached { connection: dialed, surplus: None }),
        tunnel.after_close(address@).after_connected(address@, Some(dialed.id)).send_step(address)
            == Ok::<SendStep, TunnelError>(SendStep::Write { connection: dialed }),
{
}

/// After `close_all()` the cache of a live tunnel is empty and the tunnel
/// still takes sends: the next one to any address asks for a connection.
pub proof fn lemma_close_all_leaves_tunnel_usable(tunnel: TunnelView, address: PublicKey)
    requires
        !tunnel.destroyed,
    ensures
        tunnel.after_close_all().connections == no_entries(),
        !tunnel.after_close_all().destroyed,
        tunnel.after_close_all().send_step(address) == Ok::<SendStep, TunnelError>(
            SendStep::Connect { address },
        ),
{
}

/// A connect that fails leaves no entry behind: the cache is what it was.
pub proof fn lemma_failed_connect_leaves_cache(tunnel: TunnelView, address: Seq<u8>)
    ensures
        tunnel.after_connected(address, None) == tunnel,
        !tunnel.destroyed ==> tunnel.connected_outcome(address, None) == Err::<
            Attached,
            TunnelError,
        >(TunnelError::Connect),
{
}

/// While a connection to an address is cached, every send to it writes
/// on that connection, and reporting another connection for the address
/// neither replaces it nor loses the other: the newcomer comes back as
/// surplus.
pub proof fn lemma_cached_connection_is_reused(
    tunnel: TunnelView,
    address: PublicKey,
    dialed: Connection,
)
    requires
        !tunnel.destroyed,
        tunnel.connections.contains_key(address@),
    ensures
        tunnel.send_step(address) == Ok::<SendStep, TunnelError>(
            SendStep::Write { connection: Connection { id: tunnel.connections[address@] } },
        ),
        tunnel.after_connected(address@, Some(dialed.id)) == tunnel,
        tunnel.connected_outcome(address@, Some(dialed)) == Ok::<Attached, TunnelError>(
            Attached {
                connection: Connection { id: tunnel.connections[address@] },
                surplus: Some(dialed),
            },
        ),
{
}

} // verus!

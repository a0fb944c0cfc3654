//! The engine: the single authority that owns the local identity key, knows
//! every live connection by peer identity, and presents one event stream
//! outward.
//!
//! The engine itself is a value, not a task: callers feed it engine events
//! and perform the directives it hands back (enqueue an event on a
//! connection's inbox, reply to a signature request).  Inboxes are named by
//! plain numeric handles; the surrounding runtime maps a handle to the
//! channel it stands for.

use vstd::prelude::*;

verus! {

use crate::chat::ChatMessage;
use crate::identity::{ServiceId, ed_sign, ed_verify, sign_message, signing_vk_of};
use crate::logger::LogMessage;

/// Which side opened the connection.
#[derive(Clone, Copy, Debug, PartialEq, Eq, Structural)]
pub enum ConnectionDirection {
    Incoming,
    Outgoing,
}

/// The immutable description of one authenticated connection: the peer's
/// address, its identity, and which side dialed.
#[derive(Debug)]
pub struct ConnectionInfo {
    address: String,
    id: ServiceId,
    direction: ConnectionDirection,
}

/// The mathematical content of a [`ConnectionInfo`].
pub struct ConnectionInfoView {
    pub address: Seq<char>,
    pub id: Seq<char>,
    pub direction: ConnectionDirection,
}

impl View for ConnectionInfo {
    type V = ConnectionInfoView;

    closed spec fn view(&self) -> ConnectionInfoView {
        ConnectionInfoView { address: self.address@, id: self.id@, direction: self.direction }
    }
}

impl ConnectionInfo {
    /// Describes a connection to `id` at `address`.
    pub fn new(address: String, id: &ServiceId, direction: ConnectionDirection) -> (r:
        ConnectionInfo)
        ensures
            r@.address == address@,
            r@.id == id@,
            r@.direction == direction,
    {
        ConnectionInfo { address, id: id.clone(), direction }
    }

    /// The peer's identity.
    pub fn id(&self) -> (r: ServiceId)
        ensures
            r@ == self@.id,
    {
        self.id.clone()
    }

    /// The peer's address.
    pub fn address(&self) -> (r: String)
        ensures
            r@ == self@.address,
    {
        self.address.clone()
    }

    /// Which side dialed.
    pub fn direction(&self) -> (r: &ConnectionDirection)
        ensures
            r == self@.direction,
    {
        &self.direction
    }
}

impl Clone for ConnectionInfo {
    fn clone(&self) -> (r: Self)
        ensures
            r@ == self@,
    {
        let r = ConnectionInfo {
            address: self.address.clone(),
            id: self.id.clone(),
            direction: self.direction,
        };
        proof {
            assert(r@ == self@);
        }
        r
    }
}

/// One event on a connection's inbox, placed there by the engine and
/// drained by the connection's actor.
#[derive(Debug)]
pub enum ConnectionEvent {
    /// A chat message to serialize and send.
    Message(ChatMessage),
    /// The oracle's reply to a signature request.
    SignatureResponse(Vec<u8>),
    /// The upper layer admitted the peer: send the go-ahead record.
    ConnectionAuthorized,
    /// Tear the connection down.
    CloseConnection,
}

/// One event fed to the engine: what connections and callers report
/// inward.  An inbox is named by the plain handle the runtime assigned it.
#[derive(Debug)]
pub enum EngineEvent {
    /// A connection finished its handshake; its inbox is the given handle.
    NewConnection(ConnectionInfo, u64),
    /// Handshake code asks the identity holder to sign `data`; the reply
    /// goes to the given handle.
    SignatureRequest { reply_to: u64, data: Vec<u8> },
    /// A connection delivered a chat message.
    Message(ChatMessage),
    /// A connection reported a fatal error.
    Error(String),
    /// A connection ended.
    ConnectionClosed(ConnectionInfo),
    /// A log line from a connection's task.
    LogMessage(LogMessage),
}

/// One event the engine presents outward.
#[derive(Debug)]
pub enum NetworkEvent {
    NewConnection(ConnectionInfo),
    Message(ChatMessage),
    ConnectionClosed(ConnectionInfo),
}

/// The identity's route to an inbox handle in a routing table, scanning
/// front to back.
pub open spec fn route_lookup(entries: Seq<(ServiceId, u64)>, id: Seq<char>) -> Option<u64>
    decreases entries.len(),
{
    if entries.len() == 0 {
        None
    } else if entries[0].0@ == id {
        Some(entries[0].1)
    } else {
        route_lookup(entries.drop_first(), id)
    }
}

/// Scanning a table whose first `i` entries do not carry `id` finds the
/// same route as scanning from entry `i` on.
proof fn lemma_route_lookup_skip(entries: Seq<(ServiceId, u64)>, id: Seq<char>, i: int)
    requires
        0 <= i <= entries.len(),
        forall|j: int| 0 <= j < i ==> #[trigger] entries[j].0@ != id,
    ensures
        route_lookup(entries, id) == route_lookup(entries.skip(i), id),
    decreases i,
{
    if i > 0 {
        assert(entries[0].0@ != id);
        assert forall|j: int| 0 <= j < i - 1 implies #[trigger] entries.drop_first()[j].0@
            != id by {
            assert(entries.drop_first()[j] == entries[j + 1]);
        }
        lemma_route_lookup_skip(entries.drop_first(), id, i - 1);
        assert(entries.drop_first().skip(i - 1) =~= entries.skip(i));
    } else {
        assert(entries.skip(0) =~= entries);
    }
}

/// A table without `id` among its first `i` entries and anywhere after
/// them routes `id` nowhere.
proof fn lemma_route_lookup_none(entries: Seq<(ServiceId, u64)>, id: Seq<char>)
    requires
        forall|j: int| 0 <= j < entries.len() ==> #[trigger] entries[j].0@ != id,
    ensures
        route_lookup(entries, id) is None,
    decreases entries.len(),
{
    if entries.len() > 0 {
        lemma_route_lookup_none(entries.drop_first(), id);
    }
}

/// The engine: owner of the identity signing key and of the map from peer
/// identity to connection inbox.
pub struct Engine {
    id: ServiceId,
    onion_service_address: String,
    signing_key: Vec<u8>,
    channels: Vec<(ServiceId, u64)>,
}

impl Engine {
    /// The local identity's text.
    pub closed spec fn id_view(&self) -> Seq<char> {
        self.id@
    }

    /// The address of the local hidden service.
    pub closed spec fn address_view(&self) -> Seq<char> {
        self.onion_service_address@
    }

    /// The signing key's bytes.
    pub closed spec fn key(&self) -> Seq<u8> {
        self.signing_key@
    }

    /// The inbox handle a peer identity routes to, if any.
    pub closed spec fn routed(&self, id: Seq<char>) -> Option<u64> {
        route_lookup(self.channels@, id)
    }

    /// The engine's invariant: a 64-byte signing key.
    pub open spec fn wf(&self) -> bool {
        self.key().len() == 64
    }

    /// An engine for the given identity: its 64-byte expanded signing key,
    /// its identity text, and the address its hidden service listens at.
    /// No connection is routed yet.
    pub fn new(id: ServiceId, onion_service_address: String, signing_key: Vec<u8>) -> (r: Engine)
        requires
            signing_key@.len() == 64,
        ensures
            r.wf(),
            r.id_view() == id@,
            r.address_view() == onion_service_address@,
            r.key() == signing_key@,
            forall|x: Seq<char>| r.routed(x) is None,
    {
        let e = Engine { id, onion_service_address, signing_key, channels: Vec::new() };
        proof {
            assert forall|x: Seq<char>| e.routed(x) is None by {
                assert(e.channels@.len() == 0);
            }
        }
        e
    }

    /// The local identity.
    pub fn id(&self) -> (r: ServiceId)
        ensures
            r@ == self.id_view(),
    {
        self.id.clone()
    }

    /// The address of the local hidden service.
    pub fn onion_service_address(&self) -> (r: String)
        ensures
            r@ == self.address_view(),
    {
        self.onion_service_address.clone()
    }

    /// The inbox handle a peer identity routes to.
    fn lookup(&self, id: &ServiceId) -> (r: Option<u64>)
        ensures
            r == self.routed(id@),
    {
        let mut i: usize = 0;
        while i < self.channels.len()
            invariant
                i <= self.channels@.len(),
                forall|j: int| 0 <= j < i ==> #[trigger] self.channels@[j].0@ != id@,
            decreases self.channels@.len() - i,
        {
            if self.channels[i].0.matches(id) {
                proof {
                    lemma_route_lookup_skip(self.channels@, id@, i as int);
                }
                return Some(self.channels[i].1);
            }
            i = i + 1;
        }
        proof {
            lemma_route_lookup_none(self.channels@, id@);
        }
        None
    }

    /// Removes every route of `id`.
    fn remove_route(&mut self, id: &ServiceId)
        ensures
            final(self).id_view() == old(self).id_view(),
            final(self).address_view() == old(self).address_view(),
            final(self).key() == old(self).key(),
            forall|x: Seq<char>|
                #[trigger] final(self).routed(x) == if x == id@ {
                    None::<u64>
                } else {
                    old(self).routed(x)
                },
    {
        let mut kept: Vec<(ServiceId, u64)> = Vec::new();
        let mut i: usize = 0;
        while i < self.channels.len()
            invariant
                i <= self.channels@.len(),
                forall|x: Seq<char>|
                    #[trigger] route_lookup(kept@, x) == if x == id@ {
                        None::<u64>
                    } else {
                        route_lookup(self.channels@.take(i as int), x)
                    },
            decreases self.channels@.len() - i,
        {
            let entry_id: ServiceId = self.channels[i].0.clone();
            let handle: u64 = self.channels[i].1;
            let ghost eview = entry_id@;
            let ghost kept_before = kept@;
            let keep_it: bool = !entry_id.matches(id);
            if keep_it {
                kept.push((entry_id, handle));
            }
            proof {
                assert(self.channels@.take(i + 1) =~= self.channels@.take(i as int).push(
                    self.channels@[i as int],
                ));
                assert forall|x: Seq<char>| #[trigger] route_lookup(kept@, x) == (if x == id@ {
                    None::<u64>
                } else {
                    route_lookup(self.channels@.take(i + 1), x)
                }) by {
                    lemma_route_lookup_push(
                        self.channels@.take(i as int),
                        self.channels@[i as int],
                        x,
                    );
                    if keep_it {
                        lemma_route_lookup_push(kept_before, (kept@.last().0, handle), x);
                        assert(kept@ =~= kept_before.push(kept@.last()));
                        assert(kept@.last().0@ == eview && kept@.last().1 == handle);
                        assert(eview == self.channels@[i as int].0@);
                    }
                }
            }
            i = i + 1;
        }
        proof {
            assert(self.channels@.take(self.channels@.len() as int) =~= self.channels@);
        }
        self.channels = kept;
    }

    /// Signs a byte string with the engine's identity key, servicing one
    /// oracle request.  The signature verifies under the key's own
    /// verifying key.
    pub fn sign(&self, data: &Vec<u8>) -> (r: Vec<u8>)
        requires
            self.wf(),
        ensures
            r@ == ed_sign(self.key(), data@),
            r@.len() == 64,
            ed_verify(signing_vk_of(self.key()), data@, r@),
    {
        sign_message(&self.signing_key, data)
    }

    /// Routes a chat message to its recipient's inbox: the returned handle
    /// is where the runtime must enqueue the returned event.  Fails exactly
    /// when no connection to the recipient is routed.
    pub fn send_message(&self, message: &ChatMessage) -> (r: Result<(u64, ConnectionEvent), ()>)
        ensures
            r is Ok <==> self.routed(message@.recipient) is Some,
            r matches Ok((h, ev)) ==> Some(h) == self.routed(message@.recipient) && (ev matches
                ConnectionEvent::Message(m) && m@ == message@),
    {
        match self.lookup(&message.recipient) {
            Some(handle) => Ok((handle, ConnectionEvent::Message(message.clone()))),
            None => Err(()),
        }
    }

    /// Routes the go-ahead mark to a peer's inbox, after the upper layer
    /// admitted the peer.  Fails exactly when no connection to the peer is
    /// routed.
    pub fn send_connection_authorized_message(&self, id: &ServiceId) -> (r: Result<
        (u64, ConnectionEvent),
        (),
    >)
        ensures
            r is Ok <==> self.routed(id@) is Some,
            r matches Ok((h, ev)) ==> Some(h) == self.routed(id@)
                && ev is ConnectionAuthorized,
    {
        match self.lookup(id) {
            Some(handle) => Ok((handle, ConnectionEvent::ConnectionAuthorized)),
            None => Err(()),
        }
    }

    /// Routes a close order to a peer's inbox.  Fails exactly when no
    /// connection to the peer is routed — so once a close has removed the
    /// route, every further disconnect for that peer observes the error.
    pub fn disconnect(&self, id: &ServiceId) -> (r: Result<(u64, ConnectionEvent), ()>)
        ensures
            r is Ok <==> self.routed(id@) is Some,
            r matches Ok((h, ev)) ==> Some(h) == self.routed(id@) && ev is CloseConnection,
    {
        match self.lookup(id) {
            Some(handle) => Ok((handle, ConnectionEvent::CloseConnection)),
            None => Err(()),
        }
    }

    /// Digests one inward event: updates the routing table, services
    /// signature requests, and says what to present outward and what to
    /// enqueue on which inbox.
    pub fn handle_engine_event(&mut self, event: EngineEvent) -> (r: (
        Option<NetworkEvent>,
        Option<(u64, ConnectionEvent)>,
    ))
        requires
            old(self).wf(),
        ensures
            final(self).wf(),
            final(self).id_view() == old(self).id_view(),
            final(self).key() == old(self).key(),
            match event {
                EngineEvent::NewConnection(info, handle) => {
                    &&& (forall|x: Seq<char>|
                        #[trigger] final(self).routed(x) == if x == info@.id {
                            Some(handle)
                        } else {
                            old(self).routed(x)
                        })
                    &&& r.0 matches Some(NetworkEvent::NewConnection(out)) && out@ == info@
                    &&& r.1 is None
                },
                EngineEvent::SignatureRequest { reply_to, data } => {
                    &&& (forall|x: Seq<char>|
                        #[trigger] final(self).routed(x) == old(self).routed(x))
                    &&& r.0 is None
                    &&& r.1 matches Some((h, ev)) && h == reply_to && (ev matches
                        ConnectionEvent::SignatureResponse(sig) && sig@ == ed_sign(
                        old(self).key(),
                        data@,
                    ) && ed_verify(signing_vk_of(old(self).key()), data@, sig@))
                },
                EngineEvent::Message(m) => {
                    &&& (forall|x: Seq<char>|
                        #[trigger] final(self).routed(x) == old(self).routed(x))
                    &&& r.0 matches Some(NetworkEvent::Message(out)) && out@ == m@
                    &&& r.1 is None
                },
                EngineEvent::Error(_) => {
                    &&& (forall|x: Seq<char>|
                        #[trigger] final(self).routed(x) == old(self).routed(x))
                    &&& r.0 is None
                    &&& r.1 is None
                },
                EngineEvent::ConnectionClosed(info) => {
                    &&& (forall|x: Seq<char>|
                        #[trigger] final(self).routed(x) == if x == info@.id {
                            None::<u64>
                        } else {
                            old(self).routed(x)
                        })
                    &&& r.0 matches Some(NetworkEvent::ConnectionClosed(out)) && out@ == info@
                    &&& r.1 is None
                },
                EngineEvent::LogMessage(_) => {
                    &&& (forall|x: Seq<char>|
                        #[trigger] final(self).routed(x) == old(self).routed(x))
                    &&& r.0 is None
                    &&& r.1 is None
                },
            },
    {
        match event {
            EngineEvent::NewConnection(info, handle) => {
                let id: ServiceId = info.id();
                self.remove_route(&id);
                let ghost inter = *self;
                self.channels.push((id, handle));
                proof {
                    assert(self.channels@ =~= inter.channels@.push((id, handle)));
                    assert forall|x: Seq<char>| #[trigger] self.routed(x) == (if x == info@.id {
                        Some(handle)
                    } else {
                        old(self).routed(x)
                    }) by {
                        lemma_route_lookup_push(inter.channels@, (id, handle), x);
                        assert(inter.routed(x) == if x == id@ {
                            None::<u64>
                        } else {
                            old(self).routed(x)
                        });
                    }
                }
                (Some(NetworkEvent::NewConnection(info)), None)
            },
            EngineEvent::SignatureRequest { reply_to, data } => {
                let signature: Vec<u8> = self.sign(&data);
                (None, Some((reply_to, ConnectionEvent::SignatureResponse(signature))))
            },
            EngineEvent::Message(m) => (Some(NetworkEvent::Message(m)), None),
            EngineEvent::Error(_) => (None, None),
            EngineEvent::ConnectionClosed(info) => {
                let id: ServiceId = info.id();
                self.remove_route(&id);
                (Some(NetworkEvent::ConnectionClosed(info)), None)
            },
            EngineEvent::LogMessage(_) => (None, None),
        }
    }
}

/// Appending an entry to a routing table leaves every earlier route as it
/// was and routes the new entry's identity to it only where no earlier
/// entry already did.
proof fn lemma_route_lookup_push(entries: Seq<(ServiceId, u64)>, entry: (ServiceId, u64), x: Seq<
    char,
>)
    ensures
        route_lookup(entries.push(entry), x) == match route_lookup(entries, x) {
            Some(h) => Some(h),
            None => {
                if entry.0@ == x {
                    Some(entry.1)
                } else {
                    None
                }
            },
        },
    decreases entries.len(),
{
    let pushed = entries.push(entry);
    assert(pushed.len() == entries.len() + 1);
    if entries.len() == 0 {
        assert(pushed[0] == entry);
        assert(pushed.drop_first() =~= Seq::<(ServiceId, u64)>::empty());
        assert(route_lookup(pushed.drop_first(), x) is None);
        if entry.0@ == x {
            assert(route_lookup(pushed, x) == Some(entry.1));
        } else {
            assert(route_lookup(pushed, x) is None);
        }
    } else {
        assert(pushed[0] == entries[0]);
        assert(pushed.drop_first() =~= entries.drop_first().push(entry));
        lemma_route_lookup_push(entries.drop_first(), entry, x);
        assert(route_lookup(pushed.drop_first(), x) == route_lookup(
            entries.drop_first().push(entry),
            x,
        ));
    }
}

/// Once the close of a connection has removed its route, a later
/// disconnect for the same peer observes the routing error: its route is
/// absent, and [`Engine::disconnect`] fails exactly on absent routes.
pub proof fn lemma_disconnect_idempotent(before: Engine, after: Engine, id: Seq<char>)
    requires
        forall|x: Seq<char>|
            #[trigger] after.routed(x) == if x == id {
                None::<u64>
            } else {
                before.routed(x)
            },
    ensures
        after.routed(id) is None,
{
}

} // verus!

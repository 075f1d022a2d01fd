//! Server implementation for the `bore` service.

use crate::auth::{client_reply_view, key_views, unix_time, AuthError, ServerAuthenticator};
use crate::connections::Connections;
use crate::keys::VerifyingKey;
use crate::outside::random_port;
use crate::ports::{first_port, next_port, BindError, PortError, PortSearch, PortStep};
use crate::session::{
    asks_clock, can_come, close, is_outcome, makes_step, on_request, refuse, searching,
    session_next, Action, Event, Session,
};
use crate::shared::{decoded_key, ClientMessage, KeyFault, PeerKey, ReceiveError, ServerMessage};
use std::ops::RangeInclusive;
use vstd::prelude::*;

verus! {

/// For how many milliseconds the server waits for a connection between two heartbeats.
pub const HEARTBEAT_INTERVAL: u64 = 500;

/// An IP address.
#[derive(Copy, Clone, Debug, PartialEq, Eq)]
pub enum IpAddress {
    /// Four bytes.
    V4([u8; 4]),
    /// Sixteen bytes.
    V6([u8; 16]),
}

/// State structure for the server.
pub struct Server {
    /// Range of TCP ports that can be forwarded.
    port_range: RangeInclusive<u16>,
    /// Authenticator used to authenticate clients.
    auth: ServerAuthenticator,
    /// IP address where the control server will bind to.
    bind_addr: IpAddress,
    /// IP address where tunnels will listen on.
    bind_tunnels: IpAddress,
    control_port: u16,
}

/// A `Server` as a value.
pub struct ServerView {
    pub min_port: u16,
    pub max_port: u16,
    pub allowed: Seq<Seq<u8>>,
    pub bind_addr: IpAddress,
    pub bind_tunnels: IpAddress,
    pub control_port: u16,
}

impl View for Server {
    type V = ServerView;

    closed spec fn view(&self) -> ServerView {
        ServerView {
            min_port: self.port_range@.start,
            max_port: self.port_range@.end,
            allowed: self.auth@,
            bind_addr: self.bind_addr,
            bind_tunnels: self.bind_tunnels,
            control_port: self.control_port,
        }
    }
}

/// The keys that peer keys stand for, in their order. A peer key that stands for none is left out:
/// nobody can answer under it.
pub open spec fn decoded_keys(keys: Seq<Seq<u8>>) -> Seq<Seq<u8>>
    decreases keys.len(),
{
    if keys.len() == 0 {
        Seq::empty()
    } else {
        let others = decoded_keys(keys.drop_last());
        match decoded_key(keys.last()) {
            Ok(key) => others.push(key),
            Err(_) => others,
        }
    }
}

/// A key is allowed exactly if one of the peer keys stands for it.
pub proof fn allowed_keys_are_the_listed(keys: Seq<Seq<u8>>, key: Seq<u8>)
    ensures
        decoded_keys(keys).contains(key) <==> exists|i: int|
            0 <= i < keys.len() && #[trigger] decoded_key(keys[i]) == Ok::<Seq<u8>, KeyFault>(key),
    decreases keys.len(),
{
    if keys.len() > 0 {
        let others = keys.drop_last();
        allowed_keys_are_the_listed(others, key);
        let last = keys.len() - 1;
        assert(keys.last() == keys[last]);
        if decoded_keys(others).contains(key) {
            let i = choose|i: int|
                0 <= i < others.len() && #[trigger] decoded_key(others[i]) == Ok::<
                    Seq<u8>,
                    KeyFault,
                >(key);
            assert(decoded_key(keys[i]) == Ok::<Seq<u8>, KeyFault>(key));
            let j = choose|j: int|
                0 <= j < decoded_keys(others).len() && decoded_keys(others)[j] == key;
            assert(decoded_keys(keys)[j] == key);
        }
        if decoded_key(keys[last]) == Ok::<Seq<u8>, KeyFault>(key) {
            assert(decoded_keys(keys)[decoded_keys(others).len() as int] == key);
        }
        assert forall|i: int|
            0 <= i < keys.len() && #[trigger] decoded_key(keys[i]) == Ok::<Seq<u8>, KeyFault>(
                key,
            ) implies decoded_keys(keys).contains(key) by {
            if i < last {
                assert(decoded_key(others[i]) == Ok::<Seq<u8>, KeyFault>(key));
            }
        }
        if decoded_keys(keys).contains(key) && !decoded_keys(others).contains(key) {
            let j = choose|j: int| 0 <= j < decoded_keys(keys).len() && decoded_keys(keys)[j] == key;
            assert(j < decoded_keys(others).len() ==> decoded_keys(others)[j] == key);
            assert(decoded_key(keys[last]) == Ok::<Seq<u8>, KeyFault>(key));
        }
    }
}

/// The bytes of peer keys.
pub open spec fn peer_key_views(keys: Seq<PeerKey>) -> Seq<Seq<u8>> {
    Seq::new(keys.len(), |i: int| keys[i]@)
}

/// No address in particular.
pub open spec fn is_unspecified(address: IpAddress) -> bool {
    address matches IpAddress::V4(octets) && octets@ == seq![0u8, 0, 0, 0]
}

impl Server {
    /// The server has at least one port to forward.
    #[verifier::type_invariant]
    closed spec fn has_ports(&self) -> bool {
        self.port_range@.start <= self.port_range@.end && !self.port_range@.exhausted
    }

    /// Create a new server with a specified minimum port number.
    pub fn new(
        control_port: u16,
        peer_port_range: RangeInclusive<u16>,
        allowed_clients: Vec<PeerKey>,
    ) -> (server: Server)
        requires
            peer_port_range@.start <= peer_port_range@.end,
            !peer_port_range@.exhausted,
        ensures
            server@.min_port == peer_port_range@.start,
            server@.max_port == peer_port_range@.end,
            server@.allowed == decoded_keys(peer_key_views(allowed_clients@)),
            is_unspecified(server@.bind_addr),
            is_unspecified(server@.bind_tunnels),
            server@.control_port == control_port,
    {
        let mut keys: Vec<VerifyingKey> = Vec::new();
        let mut i: usize = 0;
        while i < allowed_clients.len()
            invariant
                i <= allowed_clients@.len(),
                key_views(keys@) == decoded_keys(peer_key_views(allowed_clients@).take(i as int)),
            decreases allowed_clients@.len() - i,
        {
            let ghost before = peer_key_views(allowed_clients@).take(i as int);
            let ghost after = peer_key_views(allowed_clients@).take(i + 1);
            assert(after.drop_last() =~= before);
            assert(after.last() == allowed_clients@[i as int]@);
            match allowed_clients[i].to_verifying_key() {
                Ok(key) => {
                    let ghost others = key_views(keys@);
                    keys.push(key);
                    assert(key_views(keys@) =~= others.push(key@));
                },
                Err(_) => {},
            }
            i = i + 1;
        }
        assert(peer_key_views(allowed_clients@).take(i as int) =~= peer_key_views(
            allowed_clients@,
        ));
        let unspecified: [u8; 4] = [0u8, 0u8, 0u8, 0u8];
        assert(unspecified@ =~= seq![0u8, 0, 0, 0]);
        Server {
            port_range: peer_port_range,
            auth: ServerAuthenticator::new(keys),
            bind_addr: IpAddress::V4(unspecified),
            bind_tunnels: IpAddress::V4(unspecified),
            control_port,
        }
    }

    /// Set the IP address where the control server will bind to.
    pub fn set_bind_addr(&mut self, bind_addr: IpAddress)
        ensures
            final(self)@ == (ServerView { bind_addr, ..old(self)@ }),
    {
        proof {
            use_type_invariant(&*self);
        }
        self.bind_addr = bind_addr;
    }

    /// Set the IP address where tunnels will listen on.
    pub fn set_bind_tunnels(&mut self, bind_tunnels: IpAddress)
        ensures
            final(self)@ == (ServerView { bind_tunnels, ..old(self)@ }),
    {
        proof {
            use_type_invariant(&*self);
        }
        self.bind_tunnels = bind_tunnels;
    }

    /// The address and the port on which the server listens for control connections.
    pub fn control_address(&self) -> (address: (IpAddress, u16))
        ensures
            address == (self@.bind_addr, self@.control_port),
    {
        (self.bind_addr, self.control_port)
    }

    /// The address on which tunnels listen.
    pub fn tunnel_address(&self) -> (address: IpAddress)
        ensures
            address == self@.bind_tunnels,
    {
        self.bind_tunnels
    }

    /// Whether a port can come of a random draw among those that can be forwarded.
    pub closed spec fn is_drawn_port(&self, port: u16) -> bool {
        call_ensures(random_port, (&self.port_range,), port)
    }

    /// A port drawn at random among those that can be forwarded.
    pub fn pick_port(&self) -> (port: u16)
        ensures
            self.is_drawn_port(port),
            self@.min_port <= port <= self@.max_port,
    {
        proof {
            use_type_invariant(self);
        }
        random_port(&self.port_range)
    }

    /// Whether a port can be forwarded.
    pub fn can_forward(&self, port: u16) -> (can: bool)
        ensures
            can == (self@.min_port <= port <= self@.max_port),
    {
        proof {
            use_type_invariant(self);
        }
        self.port_range.contains(&port)
    }

    /// How to start the search for the port that a client asked for, with the port to try if it
    /// asked for any.
    pub fn create_listener(&self, port: u16, pick: u16) -> (step: PortStep)
        ensures
            step == first_port(self@, port, pick),
    {
        if port > 0 {
            if !self.can_forward(port) {
                return PortStep::Refuse(PortError::OutOfRange);
            }
            PortStep::Bind(port)
        } else {
            PortStep::Bind(pick)
        }
    }
}

/// Goes on with the search for a port after one could not be bound.
fn search_on(key: PeerKey, search: PortSearch, error: BindError, pick: u16) -> (next: (
    Session,
    Action,
))
    ensures
        forall|connections: Map<Seq<u8>, u64>|
            makes_step(
                next,
                connections,
                #[trigger] searching(
                    connections,
                    key@,
                    search.requested,
                    search.failures + 1,
                    next_port(search, error, pick),
                ),
            ),
{
    match search.retry(error, pick) {
        PortStep::Bind(port) => {
            let failures: u8 = search.failures + 1;
            let search = PortSearch { requested: search.requested, failures };
            (Session::Binding { key, search }, Action::Bind(port))
        },
        PortStep::Refuse(error) => refuse(error.message()),
    }
}

impl Server {
    /// Goes on with a control connection after an event, at a given moment and with a port to try
    /// where any will do.
    pub fn handle_connection_at(
        &self,
        session: Session,
        connections: &mut Connections,
        event: Event,
        now: u64,
        pick: u16,
    ) -> (next: (Session, Action))
        requires
            can_come(session@, event@),
        ensures
            makes_step(
                next,
                final(connections)@,
                session_next(self@, session@, old(connections)@, event@, now, pick),
            ),
    {
        match session {
            Session::Challenging { challenge, timestamp } => match event {
                Event::Failed(text) => refuse(text),
                _ => (Session::AwaitingAnswer { challenge, timestamp }, Action::Receive),
            },
            Session::AwaitingAnswer { challenge, timestamp } => {
                let reply = match event {
                    Event::Received(reply) => reply,
                    _ => Ok(None),
                };
                match self.auth.server_handshake_at(challenge.as_slice(), timestamp, reply, now) {
                    Ok(()) => (Session::AwaitingRequest, Action::Receive),
                    Err(error) => refuse(error.message()),
                }
            },
            Session::Refusing | Session::Forwarding => match event {
                Event::Failed(text) => close(Err(text)),
                _ => close(Ok(())),
            },
            Session::AwaitingRequest => {
                let request = match event {
                    Event::Received(request) => request,
                    _ => Ok(None),
                };
                self.handle_request(connections, request, pick)
            },
            Session::Binding { key, search } => match event {
                Event::Bound(port) => if self.can_forward(port) {
                    (Session::Announcing { key, port }, Action::Connected((key, port)))
                } else {
                    search_on(key, search, BindError::Other, pick)
                },
                Event::BindFailed(error) => search_on(key, search, error, pick),
                Event::Failed(text) => close(Err(text)),
                _ => close(Ok(())),
            },
            Session::Announcing { key, port } => (
                Session::Greeting { key },
                Action::Send(ServerMessage::Hello(port)),
            ),
            Session::Greeting { key } => match event {
                Event::Failed(text) => (
                    Session::Leaving { outcome: Err(text) },
                    Action::Disconnected(key),
                ),
                _ => (Session::Beating { key }, Action::Send(ServerMessage::Heartbeat)),
            },
            Session::Beating { key } => match event {
                // Assume that the TCP connection has been dropped.
                Event::Failed(_) => (
                    Session::Leaving { outcome: Ok(()) },
                    Action::Disconnected(key),
                ),
                _ => (Session::Listening { key }, Action::Listen),
            },
            Session::Listening { key } => match event {
                Event::Quiet => (Session::Beating { key }, Action::Send(ServerMessage::Heartbeat)),
                Event::Incoming(connection) => {
                    let replaced = connections.park(&key, connection);
                    (Session::Parking { key }, Action::Expire { key, replaced })
                },
                Event::Failed(text) => close(Err(text)),
                _ => close(Ok(())),
            },
            Session::Parking { key } => (
                Session::Inviting { key },
                Action::Send(ServerMessage::Connection(key)),
            ),
            Session::Inviting { key } => match event {
                Event::Failed(text) => (
                    Session::Leaving { outcome: Err(text) },
                    Action::Disconnected(key),
                ),
                _ => (Session::Beating { key }, Action::Send(ServerMessage::Heartbeat)),
            },
            Session::Leaving { outcome } => close(outcome),
            Session::Closed => close(Ok(())),
        }
    }

    /// Goes on with a control connection after an event, at the moment of the call where the clock
    /// is needed, and with a port drawn from those that can be forwarded where any will do. Where
    /// the clock is needed and set before the Unix epoch, the connection ends.
    pub fn handle_connection(
        &self,
        session: Session,
        connections: &mut Connections,
        event: Event,
    ) -> (next: (Session, Action))
        requires
            can_come(session@, event@),
        ensures
            is_outcome(*self, session@, old(connections)@, event@, next, final(connections)@),
    {
        let now: u64 = if self.asks_clock(&session, &event) {
            match unix_time() {
                Some(now) => now,
                None => {
                    return close(Err(AuthError::Clock.message()));
                },
            }
        } else {
            0
        };
        let pick = self.pick_port();
        self.handle_connection_at(session, connections, event, now, pick)
    }

    /// Whether what follows in a session depends on the clock.
    fn asks_clock(&self, session: &Session, event: &Event) -> (asks: bool)
        ensures
            asks == asks_clock(self@, session@, event@),
    {
        match session {
            Session::AwaitingAnswer { .. } => match event {
                Event::Received(reply) => self.auth.asks_clock(reply),
                _ => false,
            },
            _ => false,
        }
    }

    /// Answers the request of an authenticated client.
    fn handle_request(
        &self,
        connections: &mut Connections,
        request: Result<Option<ClientMessage>, ReceiveError>,
        pick: u16,
    ) -> (next: (Session, Action))
        ensures
            makes_step(
                next,
                final(connections)@,
                on_request(self@, old(connections)@, client_reply_view(request), pick),
            ),
    {
        match request {
            Ok(Some(ClientMessage::Hello(key, port))) => {
                let search = PortSearch { requested: port, failures: 0 };
                match self.create_listener(port, pick) {
                    PortStep::Bind(port) => (Session::Binding { key, search }, Action::Bind(port)),
                    PortStep::Refuse(error) => refuse(error.message()),
                }
            },
            Ok(Some(ClientMessage::Accept(key))) => {
                let ghost before = connections@;
                match connections.take(&key) {
                    Some(connection) => (Session::Forwarding, Action::Forward(connection)),
                    None => {
                        assert(before.remove(key@) =~= before);
                        close(Ok(()))
                    },
                }
            },
            Ok(_) => close(Ok(())),
            Err(error) => close(Err(error.message())),
        }
    }
}

/// The keys that a server is made with are those of the peer keys, in their order, and a server
/// that was given no address listens on every one.
pub proof fn server_is_made_of_what_it_is_given(keys: Seq<PeerKey>, i: int, address: IpAddress)
    ensures
        peer_key_views(keys).len() == keys.len(),
        0 <= i < keys.len() ==> peer_key_views(keys)[i] == keys[i]@,
        is_unspecified(address) ==> (address matches IpAddress::V4(octets) && octets@[0] == 0
            && octets@[1] == 0 && octets@[2] == 0 && octets@[3] == 0),
{
}

/// A drawn port is one that the random draw gave on the range of ports that can be forwarded.
pub(crate) proof fn drawn_port_is_what_was_drawn(server: Server, port: u16)
    requires
        server.is_drawn_port(port),
    ensures
        exists|range: RangeInclusive<u16>|
            #[trigger] call_ensures(random_port, (&range,), port) && range@.start
                == server@.min_port && range@.end == server@.max_port,
{
    assert(call_ensures(random_port, (&server.port_range,), port));
}

} // verus!

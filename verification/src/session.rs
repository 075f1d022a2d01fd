//! What the server does on a control connection, one step after another.

use crate::auth::{
    challenge_bytes, client_reply_view, generate_challenge, is_challenge_of, is_clock_reading,
    is_drawn_nonce, is_timed, reply_verdict, AuthError, AuthFault,
};
use crate::connections::waiting;
use crate::outside::text_verdict;
use crate::ports::{first_port, next_port, BindError, PortSearch, PortStep};
use crate::server::{Server, ServerView};
use crate::shared::{
    ClientMessage, ClientMessageView, PeerInfo, PeerKey, ReceiveError, ServerMessage,
    ServerMessageView,
};
use crate::text::copy_bytes;
use vstd::prelude::*;

verus! {

/// How far the server has come with a control connection.
#[derive(Debug, PartialEq, Eq)]
pub enum Session {
    /// The challenge is being sent.
    Challenging { challenge: Vec<u8>, timestamp: u64 },
    /// The answer to the challenge is awaited.
    AwaitingAnswer { challenge: Vec<u8>, timestamp: u64 },
    /// The client is being told why it is turned away.
    Refusing,
    /// The client is authenticated, and its request is awaited.
    AwaitingRequest,
    /// A port is being bound for the client.
    Binding { key: PeerKey, search: PortSearch },
    /// The peer is being reported as connected.
    Announcing { key: PeerKey, port: u16 },
    /// The client is being told its port.
    Greeting { key: PeerKey },
    /// A heartbeat is being sent.
    Beating { key: PeerKey },
    /// A connection to the client's port is awaited.
    Listening { key: PeerKey },
    /// A connection waits for the client, and its removal is being arranged.
    Parking { key: PeerKey },
    /// The client is being asked to accept a connection.
    Inviting { key: PeerKey },
    /// The peer is being reported as disconnected, before the connection ends so.
    Leaving { outcome: Result<(), String> },
    /// The connection is being forwarded.
    Forwarding,
    /// The connection has ended.
    Closed,
}

/// A `Session` as a value.
pub enum SessionView {
    Challenging { challenge: Seq<u8>, timestamp: u64 },
    AwaitingAnswer { challenge: Seq<u8>, timestamp: u64 },
    Refusing,
    AwaitingRequest,
    Binding { key: Seq<u8>, search: PortSearch },
    Announcing { key: Seq<u8>, port: u16 },
    Greeting { key: Seq<u8> },
    Beating { key: Seq<u8> },
    Listening { key: Seq<u8> },
    Parking { key: Seq<u8> },
    Inviting { key: Seq<u8> },
    Leaving { outcome: Result<(), Seq<char>> },
    Forwarding,
    Closed,
}

impl View for Session {
    type V = SessionView;

    open spec fn view(&self) -> SessionView {
        match self {
            Session::Challenging { challenge, timestamp } => SessionView::Challenging {
                challenge: challenge@,
                timestamp: *timestamp,
            },
            Session::AwaitingAnswer { challenge, timestamp } => SessionView::AwaitingAnswer {
                challenge: challenge@,
                timestamp: *timestamp,
            },
            Session::Refusing => SessionView::Refusing,
            Session::AwaitingRequest => SessionView::AwaitingRequest,
            Session::Binding { key, search } => SessionView::Binding {
                key: key@,
                search: *search,
            },
            Session::Announcing { key, port } => SessionView::Announcing { key: key@, port: *port },
            Session::Greeting { key } => SessionView::Greeting { key: key@ },
            Session::Beating { key } => SessionView::Beating { key: key@ },
            Session::Listening { key } => SessionView::Listening { key: key@ },
            Session::Parking { key } => SessionView::Parking { key: key@ },
            Session::Inviting { key } => SessionView::Inviting { key: key@ },
            Session::Leaving { outcome } => SessionView::Leaving { outcome: text_verdict(*outcome) },
            Session::Forwarding => SessionView::Forwarding,
            Session::Closed => SessionView::Closed,
        }
    }
}

/// What is to be done for a control connection.
#[derive(Debug, PartialEq, Eq)]
pub enum Action {
    /// Send a message.
    Send(ServerMessage),
    /// Receive a message, but do not wait longer than for the first messages of a stream.
    Receive,
    /// Bind a port on the address where tunnels listen.
    Bind(u16),
    /// Report that a peer has connected, and the port that it was given.
    Connected(PeerInfo),
    /// Report that a peer has disconnected.
    Disconnected(PeerKey),
    /// Wait for a connection to the port that was bound, until the next heartbeat is due.
    Listen,
    /// Drop the connection whose place was taken, if any, and remove the one that waits under the
    /// key when its lifetime is over.
    Expire { key: PeerKey, replaced: Option<u64> },
    /// Forward this connection, starting with what was read of the control connection already.
    Forward(u64),
    /// End the connection.
    Close(Result<(), String>),
}

/// An `Action` as a value.
pub enum ActionView {
    Send(ServerMessageView),
    Receive,
    Bind(u16),
    Connected(Seq<u8>, u16),
    Disconnected(Seq<u8>),
    Listen,
    Expire { key: Seq<u8>, replaced: Option<u64> },
    Forward(u64),
    Close(Result<(), Seq<char>>),
}

impl View for Action {
    type V = ActionView;

    open spec fn view(&self) -> ActionView {
        match self {
            Action::Send(message) => ActionView::Send(message@),
            Action::Receive => ActionView::Receive,
            Action::Bind(port) => ActionView::Bind(*port),
            Action::Connected(peer) => ActionView::Connected(peer.0@, peer.1),
            Action::Disconnected(key) => ActionView::Disconnected(key@),
            Action::Listen => ActionView::Listen,
            Action::Expire { key, replaced } => ActionView::Expire {
                key: key@,
                replaced: *replaced,
            },
            Action::Forward(connection) => ActionView::Forward(*connection),
            Action::Close(outcome) => ActionView::Close(text_verdict(*outcome)),
        }
    }
}

/// How an action went.
#[derive(Debug, PartialEq, Eq)]
pub enum Event {
    /// It was done.
    Done,
    /// It failed, with the words of the error.
    Failed(String),
    /// A message was received, or not.
    Received(Result<Option<ClientMessage>, ReceiveError>),
    /// A port was bound: this one, which the system may have chosen.
    Bound(u16),
    /// The port could not be bound.
    BindFailed(BindError),
    /// Nobody connected before the next heartbeat was due.
    Quiet,
    /// Somebody connected.
    Incoming(u64),
}

/// An `Event` as a value.
pub enum EventView {
    Done,
    Failed(Seq<char>),
    Received(Result<Option<ClientMessageView>, ReceiveError>),
    Bound(u16),
    BindFailed(BindError),
    Quiet,
    Incoming(u64),
}

impl View for Event {
    type V = EventView;

    open spec fn view(&self) -> EventView {
        match self {
            Event::Done => EventView::Done,
            Event::Failed(text) => EventView::Failed(text@),
            Event::Received(reply) => EventView::Received(client_reply_view(*reply)),
            Event::Bound(port) => EventView::Bound(*port),
            Event::BindFailed(error) => EventView::BindFailed(*error),
            Event::Quiet => EventView::Quiet,
            Event::Incoming(connection) => EventView::Incoming(*connection),
        }
    }
}

/// Whether an event can come in a session: each is an outcome of the session's last action.
pub open spec fn can_come(session: SessionView, event: EventView) -> bool {
    match session {
        SessionView::Challenging { .. } | SessionView::Refusing | SessionView::Greeting { .. }
        | SessionView::Beating { .. } | SessionView::Inviting { .. } | SessionView::Forwarding =>
            event is Done || event is Failed,
        SessionView::AwaitingAnswer { .. } | SessionView::AwaitingRequest => event is Received,
        SessionView::Binding { .. } => event is Bound || event is BindFailed || event is Failed,
        SessionView::Announcing { .. } | SessionView::Parking { .. }
        | SessionView::Leaving { .. } => event is Done,
        SessionView::Listening { .. } => event is Quiet || event is Incoming || event is Failed,
        SessionView::Closed => false,
    }
}

/// A session, the connections that wait, and what is to be done.
pub struct Step {
    pub session: SessionView,
    pub connections: Map<Seq<u8>, u64>,
    pub action: ActionView,
}

/// The session ends.
pub open spec fn closing(connections: Map<Seq<u8>, u64>, outcome: Result<(), Seq<char>>) -> Step {
    Step { session: SessionView::Closed, connections, action: ActionView::Close(outcome) }
}

/// The client is turned away.
pub open spec fn refusing(connections: Map<Seq<u8>, u64>, text: Seq<char>) -> Step {
    Step {
        session: SessionView::Refusing,
        connections,
        action: ActionView::Send(ServerMessageView::Error(text)),
    }
}

/// The peer is reported as disconnected, and then the session ends.
pub open spec fn leaving(
    connections: Map<Seq<u8>, u64>,
    key: Seq<u8>,
    outcome: Result<(), Seq<char>>,
) -> Step {
    Step {
        session: SessionView::Leaving { outcome },
        connections,
        action: ActionView::Disconnected(key),
    }
}

/// A heartbeat is sent.
pub open spec fn beating(connections: Map<Seq<u8>, u64>, key: Seq<u8>) -> Step {
    Step {
        session: SessionView::Beating { key },
        connections,
        action: ActionView::Send(ServerMessageView::Heartbeat),
    }
}

/// The search for a client's port goes on, or ends.
pub open spec fn searching(
    connections: Map<Seq<u8>, u64>,
    key: Seq<u8>,
    requested: u16,
    failures: int,
    step: PortStep,
) -> Step {
    match step {
        PortStep::Bind(port) => Step {
            session: SessionView::Binding {
                key,
                search: PortSearch { requested, failures: failures as u8 },
            },
            connections,
            action: ActionView::Bind(port),
        },
        PortStep::Refuse(error) => refusing(connections, error.text()),
    }
}

/// What follows on the verdict on a client's answer.
pub open spec fn on_verdict(
    connections: Map<Seq<u8>, u64>,
    verdict: Result<(), AuthFault>,
) -> Step {
    match verdict {
        Ok(()) => Step {
            session: SessionView::AwaitingRequest,
            connections,
            action: ActionView::Receive,
        },
        Err(fault) => refusing(connections, fault.text()),
    }
}

/// What follows on the request of an authenticated client.
pub open spec fn on_request(
    server: ServerView,
    connections: Map<Seq<u8>, u64>,
    request: Result<Option<ClientMessageView>, ReceiveError>,
    pick: u16,
) -> Step {
    match request {
        Ok(Some(ClientMessageView::Hello(key, port))) => searching(
            connections,
            key,
            port,
            0,
            first_port(server, port, pick),
        ),
        Ok(Some(ClientMessageView::Accept(key))) => match waiting(connections, key) {
            Some(connection) => Step {
                session: SessionView::Forwarding,
                connections: connections.remove(key),
                action: ActionView::Forward(connection),
            },
            None => closing(connections, Ok(())),
        },
        Ok(_) => closing(connections, Ok(())),
        Err(error) => closing(connections, Err(error.text())),
    }
}

/// What follows in a session on an event that can come in it: at the moment `now`, and with the
/// port `pick` to try where any will do.
pub open spec fn session_next(
    server: ServerView,
    session: SessionView,
    connections: Map<Seq<u8>, u64>,
    event: EventView,
    now: u64,
    pick: u16,
) -> Step {
    match (session, event) {
        (SessionView::Challenging { challenge, timestamp }, EventView::Done) => Step {
            session: SessionView::AwaitingAnswer { challenge, timestamp },
            connections,
            action: ActionView::Receive,
        },
        (SessionView::Challenging { .. }, EventView::Failed(text)) => refusing(connections, text),
        (SessionView::AwaitingAnswer { challenge, timestamp }, EventView::Received(reply)) =>
            on_verdict(
            connections,
            reply_verdict(server.allowed, challenge, timestamp, reply, now),
        ),
        (SessionView::Refusing, EventView::Failed(text)) => closing(connections, Err(text)),
        (SessionView::AwaitingRequest, EventView::Received(request)) => on_request(
            server,
            connections,
            request,
            pick,
        ),
        (SessionView::Binding { key, search }, EventView::Bound(port)) => if server.min_port
            <= port <= server.max_port {
            Step {
                session: SessionView::Announcing { key, port },
                connections,
                action: ActionView::Connected(key, port),
            }
        } else {
            searching(
                connections,
                key,
                search.requested,
                search.failures + 1,
                next_port(search, BindError::Other, pick),
            )
        },
        (SessionView::Binding { key, search }, EventView::BindFailed(error)) => searching(
            connections,
            key,
            search.requested,
            search.failures + 1,
            next_port(search, error, pick),
        ),
        (SessionView::Binding { .. }, EventView::Failed(text)) => closing(connections, Err(text)),
        (SessionView::Announcing { key, port }, _) => Step {
            session: SessionView::Greeting { key },
            connections,
            action: ActionView::Send(ServerMessageView::Hello(port)),
        },
        (SessionView::Greeting { key }, EventView::Done) => beating(connections, key),
        (SessionView::Greeting { key }, EventView::Failed(text)) => leaving(
            connections,
            key,
            Err(text),
        ),
        (SessionView::Beating { key }, EventView::Done) => Step {
            session: SessionView::Listening { key },
            connections,
            action: ActionView::Listen,
        },
        (SessionView::Beating { key }, EventView::Failed(_)) => leaving(connections, key, Ok(())),
        (SessionView::Listening { key }, EventView::Quiet) => beating(connections, key),
        (SessionView::Listening { key }, EventView::Incoming(connection)) => Step {
            session: SessionView::Parking { key },
            connections: connections.insert(key, connection),
            action: ActionView::Expire { key, replaced: waiting(connections, key) },
        },
        (SessionView::Listening { .. }, EventView::Failed(text)) => closing(connections, Err(text)),
        (SessionView::Parking { key }, _) => Step {
            session: SessionView::Inviting { key },
            connections,
            action: ActionView::Send(ServerMessageView::Connection(key)),
        },
        (SessionView::Inviting { key }, EventView::Done) => beating(connections, key),
        (SessionView::Inviting { key }, EventView::Failed(text)) => leaving(
            connections,
            key,
            Err(text),
        ),
        (SessionView::Leaving { outcome }, _) => closing(connections, outcome),
        (SessionView::Forwarding, EventView::Failed(text)) => closing(connections, Err(text)),
        (_, _) => closing(connections, Ok(())),
    }
}

/// How a session starts: with a challenge of some moment.
pub open spec fn session_start(
    connections: Map<Seq<u8>, u64>,
    challenge: Seq<u8>,
    timestamp: u64,
) -> Step {
    Step {
        session: SessionView::Challenging { challenge, timestamp },
        connections,
        action: ActionView::Send(ServerMessageView::Challenge(challenge)),
    }
}

impl Session {
    /// Starts a session with a given challenge of a given moment.
    pub fn start(challenge: Vec<u8>, timestamp: u64) -> (first: (Session, Action))
        ensures
            forall|connections: Map<Seq<u8>, u64>|
                ({
                    let step = #[trigger] session_start(connections, challenge@, timestamp);
                    first.0@ == step.session && first.1@ == step.action
                }),
    {
        let message = ServerMessage::Challenge(copy_bytes(challenge.as_slice()));
        (Session::Challenging { challenge, timestamp }, Action::Send(message))
    }

    /// Starts a session with a fresh challenge. Where the clock is set before the Unix epoch it
    /// ends at once.
    pub fn open() -> (first: (Session, Action))
        ensures
            match first.0@ {
                SessionView::Challenging { challenge, timestamp } => {
                    &&& is_clock_reading(Some(timestamp))
                    &&& is_challenge_of(challenge, timestamp)
                    &&& exists|nonce: [u8; 32]| #[trigger]
                        is_drawn_nonce(nonce) && challenge == challenge_bytes(timestamp, nonce@)
                    &&& first.1@ == ActionView::Send(ServerMessageView::Challenge(challenge))
                },
                SessionView::Closed => is_clock_reading(None) && first.1@ == ActionView::Close(
                    Err(AuthFault::Clock.text()),
                ),
                _ => false,
            },
    {
        match generate_challenge() {
            Some((challenge, timestamp)) => {
                let first = Session::start(challenge, timestamp);
                assert(session_start(Map::empty(), challenge@, timestamp).session == first.0@);
                first
            },
            None => (Session::Closed, Action::Close(Err(AuthError::Clock.message()))),
        }
    }

    /// Whether an event can come in the session.
    pub fn expects(&self, event: &Event) -> (expected: bool)
        ensures
            expected == can_come(self@, event@),
    {
        match self {
            Session::Challenging { .. } | Session::Refusing | Session::Greeting { .. }
            | Session::Beating { .. } | Session::Inviting { .. } | Session::Forwarding =>
                match event {
                Event::Done | Event::Failed(_) => true,
                _ => false,
            },
            Session::AwaitingAnswer { .. } | Session::AwaitingRequest => match event {
                Event::Received(_) => true,
                _ => false,
            },
            Session::Binding { .. } => match event {
                Event::Bound(_) | Event::BindFailed(_) | Event::Failed(_) => true,
                _ => false,
            },
            Session::Announcing { .. } | Session::Parking { .. } | Session::Leaving { .. } =>
                match event {
                Event::Done => true,
                _ => false,
            },
            Session::Listening { .. } => match event {
                Event::Quiet | Event::Incoming(_) | Event::Failed(_) => true,
                _ => false,
            },
            Session::Closed => false,
        }
    }
}

/// Whether a session, the connections that wait and an action are those of a step.
pub open spec fn makes_step(
    next: (Session, Action),
    connections: Map<Seq<u8>, u64>,
    step: Step,
) -> bool {
    next.0@ == step.session && connections == step.connections && next.1@ == step.action
}

/// Whether what follows in a session depends on the clock.
pub open spec fn asks_clock(server: ServerView, session: SessionView, event: EventView) -> bool {
    session is AwaitingAnswer && (event matches EventView::Received(reply) && is_timed(
        server.allowed,
        reply,
    ))
}

/// Whether a session, an action and the connections that wait can follow on an event: at a moment
/// that the clock gave, if it is needed, and with a port drawn from those that can be forwarded
/// where any will do; or because the clock is needed and set before the Unix epoch.
pub open spec fn is_outcome(
    server: Server,
    session: SessionView,
    before: Map<Seq<u8>, u64>,
    event: EventView,
    next: (Session, Action),
    after: Map<Seq<u8>, u64>,
) -> bool {
    ||| exists|now: u64, pick: u16|
        {
            &&& asks_clock(server@, session, event) ==> is_clock_reading(Some(now))
            &&& server@.min_port <= pick <= server@.max_port
            &&& server.is_drawn_port(pick)
            &&& makes_step(
                next,
                after,
                #[trigger] session_next(server@, session, before, event, now, pick),
            )
        }
    ||| asks_clock(server@, session, event) && is_clock_reading(None) && makes_step(
        next,
        after,
        closing(before, Err(AuthFault::Clock.text())),
    )
}

/// Ends a session.
pub(crate) fn close(outcome: Result<(), String>) -> (next: (Session, Action))
    ensures
        forall|connections: Map<Seq<u8>, u64>|
            makes_step(next, connections, #[trigger] closing(connections, text_verdict(outcome))),
{
    (Session::Closed, Action::Close(outcome))
}

/// Turns a client away.
pub(crate) fn refuse(text: String) -> (next: (Session, Action))
    ensures
        forall|connections: Map<Seq<u8>, u64>|
            makes_step(next, connections, #[trigger] refusing(connections, text@)),
{
    (Session::Refusing, Action::Send(ServerMessage::Error(text)))
}

} // verus!

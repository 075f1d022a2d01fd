//! Client implementation for the `bore` service.

use crate::auth::{
    answer_message, is_convincing, is_degenerate, AuthFault, ClientAuthenticator,
};
use crate::keys::SigningKey;
use crate::outside::text_verdict;
use crate::shared::{
    encoded_key, server_view, ClientMessage, ClientMessageView, KeyError, PeerKey, ReceiveError,
    ServerMessage, ServerMessageView,
};
use crate::text::{decimal, decimal_text};
use vstd::prelude::*;
use vstd::string::*;

verus! {

/// Proxy that performs the bi-directional streaming between server and client
pub struct Proxy {
    to: String,
    local_host: String,
    local_port: u16,
    auth: ClientAuthenticator,
    control_port: u16,
}

/// A `Proxy` as a value: where the server and the local service are, and the client's secret.
pub struct ProxyView {
    pub to: Seq<char>,
    pub local_host: Seq<char>,
    pub local_port: u16,
    pub seed: Seq<u8>,
    pub control_port: u16,
}

impl View for Proxy {
    type V = ProxyView;

    closed spec fn view(&self) -> ProxyView {
        ProxyView {
            to: self.to@,
            local_host: self.local_host@,
            local_port: self.local_port,
            seed: self.auth@,
            control_port: self.control_port,
        }
    }
}

/// State structure for the client.
pub struct Client {
    public_key: PeerKey,
    /// Proxy to handle remote connections.
    proxy: Proxy,
}

impl View for Client {
    type V = ProxyView;

    closed spec fn view(&self) -> ProxyView {
        self.proxy@
    }
}

/// How far a connection of the client to the server has come.
#[derive(Copy, Clone, Debug, PartialEq, Eq)]
pub enum Stage {
    /// The connection to the server is being made.
    Connecting,
    /// The challenge is awaited.
    AwaitingChallenge,
    /// The answer is being sent.
    Answering,
    /// The request is being sent.
    Requesting,
    /// The port that the server gave is awaited.
    AwaitingPort,
    /// The connection to the local service is being made.
    ConnectingLocal,
    /// The two connections are being relayed to each other.
    Relaying,
    /// There is nothing more to do.
    Over,
}

/// What is to be done for a connection of the client to the server.
#[derive(Debug, PartialEq, Eq)]
pub enum ClientAction {
    /// Connect to a port of a host, but do not wait longer than is allowed for that.
    Connect(String, u16),
    /// Receive a message, but do not wait longer than for the first messages of a stream.
    Receive,
    /// Send a message.
    Send(ClientMessage),
    /// Relay the two connections to each other, starting with what was read of the server's
    /// already.
    Relay,
    /// Keep the connection: the server listens for the client on this port.
    Keep(u16),
    /// End the connection.
    Close(Result<(), String>),
}

/// A `ClientAction` as a value.
pub enum ClientActionView {
    Connect(Seq<char>, u16),
    Receive,
    Send(ClientMessageView),
    Relay,
    Keep(u16),
    Close(Result<(), Seq<char>>),
}

impl View for ClientAction {
    type V = ClientActionView;

    open spec fn view(&self) -> ClientActionView {
        match self {
            ClientAction::Connect(host, port) => ClientActionView::Connect(host@, *port),
            ClientAction::Receive => ClientActionView::Receive,
            ClientAction::Send(message) => ClientActionView::Send(message@),
            ClientAction::Relay => ClientActionView::Relay,
            ClientAction::Keep(port) => ClientActionView::Keep(*port),
            ClientAction::Close(outcome) => ClientActionView::Close(text_verdict(*outcome)),
        }
    }
}

/// How an action of the client went.
#[derive(Debug, PartialEq, Eq)]
pub enum ClientEvent {
    /// It was done.
    Done,
    /// It failed, with the words of the error.
    Failed(String),
    /// A message was received, or not.
    Received(Result<Option<ServerMessage>, ReceiveError>),
}

/// A `ClientEvent` as a value.
pub enum ClientEventView {
    Done,
    Failed(Seq<char>),
    Received(Result<Option<ServerMessageView>, ReceiveError>),
}

/// What arrived from the server, or why nothing did.
pub open spec fn server_reply_view(
    reply: Result<Option<ServerMessage>, ReceiveError>,
) -> Result<Option<ServerMessageView>, ReceiveError> {
    match reply {
        Ok(message) => Ok(server_view(message)),
        Err(error) => Err(error),
    }
}

impl View for ClientEvent {
    type V = ClientEventView;

    open spec fn view(&self) -> ClientEventView {
        match self {
            ClientEvent::Done => ClientEventView::Done,
            ClientEvent::Failed(text) => ClientEventView::Failed(text@),
            ClientEvent::Received(reply) => ClientEventView::Received(server_reply_view(*reply)),
        }
    }
}

/// Whether an event can come at a stage: each is an outcome of the stage's action.
pub open spec fn client_can_get(stage: Stage, event: ClientEventView) -> bool {
    match stage {
        Stage::AwaitingChallenge | Stage::AwaitingPort => event is Received,
        Stage::Over => false,
        _ => event is Done || event is Failed,
    }
}

impl Stage {
    /// Whether an event can come at the stage.
    pub fn expects(&self, event: &ClientEvent) -> (expected: bool)
        ensures
            expected == client_can_get(*self, event@),
    {
        match self {
            Stage::AwaitingChallenge | Stage::AwaitingPort => match event {
                ClientEvent::Received(_) => true,
                _ => false,
            },
            Stage::Over => false,
            _ => match event {
                ClientEvent::Received(_) => false,
                _ => true,
            },
        }
    }
}

/// The words that report that a host could not be reached.
pub open spec fn unreachable_text(to: Seq<char>, port: u16) -> Seq<char> {
    "could not connect to "@ + to + ":"@ + decimal_text(port as nat)
}

/// Says that a host could not be reached.
pub fn unreachable_message(to: &str, port: u16) -> (text: String)
    ensures
        text@ == unreachable_text(to@, port),
{
    let mut text = "could not connect to ".to_owned();
    text.append(to);
    text.append(":");
    text.append(decimal(port as usize).as_str());
    text
}

/// The port that the server's reply to the client's greeting gives, or the words of the error.
pub open spec fn given_port(
    reply: Result<Option<ServerMessageView>, ReceiveError>,
) -> Result<u16, Seq<char>> {
    match reply {
        Ok(Some(ServerMessageView::Hello(port))) => Ok(port),
        Ok(Some(ServerMessageView::Error(message))) => Err("server error: "@ + message),
        Ok(Some(ServerMessageView::Challenge(_))) => Err(
            "server requires authentication, but no client secret was provided"@,
        ),
        Ok(Some(_)) => Err("unexpected initial non-hello message"@),
        Ok(None) => Err("unexpected EOF"@),
        Err(error) => Err(error.text()),
    }
}

/// The port that the server's reply to the client's greeting gives, or the words of the error.
pub fn read_port(reply: Result<Option<ServerMessage>, ReceiveError>) -> (port: Result<u16, String>)
    ensures
        match port {
            Ok(port) => given_port(server_reply_view(reply)) == Ok::<u16, Seq<char>>(port),
            Err(text) => given_port(server_reply_view(reply)) == Err::<u16, Seq<char>>(text@),
        },
{
    match reply {
        Ok(Some(ServerMessage::Hello(port))) => Ok(port),
        Ok(Some(ServerMessage::Error(message))) => {
            let mut text = "server error: ".to_owned();
            text.append(message.as_str());
            Err(text)
        },
        Ok(Some(ServerMessage::Challenge(_))) => Err(
            "server requires authentication, but no client secret was provided".to_owned(),
        ),
        Ok(Some(_)) => Err("unexpected initial non-hello message".to_owned()),
        Ok(None) => Err("unexpected EOF".to_owned()),
        Err(error) => Err(error.message()),
    }
}

/// What the client sends on what arrived where a challenge was due, or the words of the error.
pub open spec fn handshake_reply(
    seed: Seq<u8>,
    message: Result<Option<ServerMessageView>, ReceiveError>,
) -> Result<ClientMessageView, AuthFault> {
    match message {
        Ok(Some(ServerMessageView::Challenge(challenge))) => Ok(answer_message(seed, challenge)),
        Ok(_) => Err(AuthFault::NoChallenge),
        Err(error) => Err(AuthFault::Receive(error)),
    }
}

/// The connection ends with an error.
pub open spec fn failing(text: Seq<char>) -> (Stage, ClientActionView) {
    (Stage::Over, ClientActionView::Close(Err(text)))
}

/// The common start of the client's connections to the server: connect, answer the challenge, and
/// send a request.
pub open spec fn opening_next(
    proxy: ProxyView,
    request: ClientMessageView,
    stage: Stage,
    event: ClientEventView,
) -> (Stage, ClientActionView) {
    match (stage, event) {
        (Stage::Connecting, ClientEventView::Failed(_)) => failing(
            unreachable_text(proxy.to, proxy.control_port),
        ),
        (Stage::Connecting, _) => (Stage::AwaitingChallenge, ClientActionView::Receive),
        (Stage::AwaitingChallenge, ClientEventView::Received(message)) => match handshake_reply(
            proxy.seed,
            message,
        ) {
            Ok(reply) => (Stage::Answering, ClientActionView::Send(reply)),
            Err(fault) => failing(fault.text()),
        },
        (Stage::Answering, ClientEventView::Done) => (
            Stage::Requesting,
            ClientActionView::Send(request),
        ),
        (_, ClientEventView::Failed(text)) => failing(text),
        _ => (Stage::Over, ClientActionView::Close(Ok(()))),
    }
}

/// What follows for the client's control connection on an event that can come.
pub open spec fn connect_next(
    client: ProxyView,
    stage: Stage,
    event: ClientEventView,
) -> (Stage, ClientActionView) {
    match (stage, event) {
        (Stage::Requesting, ClientEventView::Done) => (
            Stage::AwaitingPort,
            ClientActionView::Receive,
        ),
        (Stage::AwaitingPort, ClientEventView::Received(reply)) => match given_port(reply) {
            Ok(port) => (Stage::Over, ClientActionView::Keep(port)),
            Err(text) => failing(text),
        },
        _ => opening_next(
            client,
            ClientMessageView::Hello(encoded_key(client.seed), client.local_port),
            stage,
            event,
        ),
    }
}

/// What follows for a connection that the client accepts, on an event that can come.
pub open spec fn accept_next(
    proxy: ProxyView,
    key: Seq<u8>,
    stage: Stage,
    event: ClientEventView,
) -> (Stage, ClientActionView) {
    match (stage, event) {
        (Stage::Requesting, ClientEventView::Done) => (
            Stage::ConnectingLocal,
            ClientActionView::Connect(proxy.local_host, proxy.local_port),
        ),
        (Stage::ConnectingLocal, ClientEventView::Failed(_)) => failing(
            unreachable_text(proxy.local_host, proxy.local_port),
        ),
        (Stage::ConnectingLocal, _) => (Stage::Relaying, ClientActionView::Relay),
        _ => opening_next(proxy, ClientMessageView::Accept(key), stage, event),
    }
}

/// Whether a stage and an action are those of a step.
pub open spec fn is_client_step(
    next: (Stage, ClientAction),
    step: (Stage, ClientActionView),
) -> bool {
    next.0 == step.0 && next.1@ == step.1
}

/// Whether the answer to the challenge that arrived, if one did, convinces every server that allows
/// the client's key, but in the degenerate case.
pub open spec fn is_well_answered(seed: Seq<u8>, stage: Stage, event: ClientEventView) -> bool {
    stage is AwaitingChallenge ==> (event matches ClientEventView::Received(
        Ok(Some(ServerMessageView::Challenge(challenge))),
    ) ==> is_degenerate(seed, challenge) || is_convincing(seed, challenge))
}

/// Ends a connection with an error.
fn fail(text: String) -> (next: (Stage, ClientAction))
    ensures
        is_client_step(next, failing(text@)),
{
    (Stage::Over, ClientAction::Close(Err(text)))
}

impl Proxy {
    /// How each connection of the client to the server starts.
    pub fn start(&self) -> (first: (Stage, ClientAction))
        ensures
            is_client_step(
                first,
                (Stage::Connecting, ClientActionView::Connect(self@.to, self@.control_port)),
            ),
    {
        (Stage::Connecting, ClientAction::Connect(self.to.clone(), self.control_port))
    }

    /// The common start of the client's connections to the server.
    fn open(&self, request: ClientMessage, stage: Stage, event: ClientEvent) -> (next: (
        Stage,
        ClientAction,
    ))
        ensures
            is_client_step(next, opening_next(self@, request@, stage, event@)),
            is_well_answered(self@.seed, stage, event@),
    {
        match (stage, event) {
            (Stage::Connecting, ClientEvent::Failed(_)) => fail(
                unreachable_message(self.to.as_str(), self.control_port),
            ),
            (Stage::Connecting, _) => (Stage::AwaitingChallenge, ClientAction::Receive),
            (Stage::AwaitingChallenge, ClientEvent::Received(message)) => {
                match self.auth.client_handshake(message) {
                    Ok(reply) => (Stage::Answering, ClientAction::Send(reply)),
                    Err(error) => fail(error.message()),
                }
            },
            (Stage::Answering, ClientEvent::Done) => (
                Stage::Requesting,
                ClientAction::Send(request),
            ),
            (_, ClientEvent::Failed(text)) => fail(text),
            _ => (Stage::Over, ClientAction::Close(Ok(()))),
        }
    }

    /// Goes on with a connection that the client accepts under a key, after an event.
    pub fn handle_connection(&self, peer_key: PeerKey, stage: Stage, event: ClientEvent) -> (next: (
        Stage,
        ClientAction,
    ))
        requires
            client_can_get(stage, event@),
        ensures
            is_client_step(next, accept_next(self@, peer_key@, stage, event@)),
            is_well_answered(self@.seed, stage, event@),
    {
        match (stage, event) {
            (Stage::Requesting, ClientEvent::Done) => (
                Stage::ConnectingLocal,
                ClientAction::Connect(self.local_host.clone(), self.local_port),
            ),
            (Stage::ConnectingLocal, ClientEvent::Failed(_)) => fail(
                unreachable_message(self.local_host.as_str(), self.local_port),
            ),
            (Stage::ConnectingLocal, _) => (Stage::Relaying, ClientAction::Relay),
            (stage, event) => self.open(ClientMessage::Accept(peer_key), stage, event),
        }
    }
}

/// What the client does on what arrived on its control connection.
#[derive(Debug, PartialEq, Eq)]
pub enum ListenAction {
    /// Nothing.
    Ignore,
    /// Warn about a message that is out of place.
    Warn(String),
    /// Accept a connection under a key.
    Accept(PeerKey),
    /// Report an error of the server.
    Report(String),
    /// Stop listening.
    Close(Result<(), String>),
}

/// A `ListenAction` as a value.
pub enum ListenActionView {
    Ignore,
    Warn(Seq<char>),
    Accept(Seq<u8>),
    Report(Seq<char>),
    Close(Result<(), Seq<char>>),
}

impl View for ListenAction {
    type V = ListenActionView;

    open spec fn view(&self) -> ListenActionView {
        match self {
            ListenAction::Ignore => ListenActionView::Ignore,
            ListenAction::Warn(text) => ListenActionView::Warn(text@),
            ListenAction::Accept(key) => ListenActionView::Accept(key@),
            ListenAction::Report(text) => ListenActionView::Report(text@),
            ListenAction::Close(outcome) => ListenActionView::Close(text_verdict(*outcome)),
        }
    }
}

/// What the client does on what arrived on its control connection.
pub open spec fn listen_next(
    message: Result<Option<ServerMessageView>, ReceiveError>,
) -> ListenActionView {
    match message {
        Ok(Some(ServerMessageView::Hello(_))) => ListenActionView::Warn("unexpected hello"@),
        Ok(Some(ServerMessageView::Challenge(_))) => ListenActionView::Warn(
            "unexpected challenge"@,
        ),
        Ok(Some(ServerMessageView::Heartbeat)) => ListenActionView::Ignore,
        Ok(Some(ServerMessageView::Connection(key))) => ListenActionView::Accept(key),
        Ok(Some(ServerMessageView::Error(text))) => ListenActionView::Report(text),
        Ok(None) => ListenActionView::Close(Ok(())),
        Err(error) => ListenActionView::Close(Err(error.text())),
    }
}

impl Client {
    /// The client's public key belongs to its secret.
    #[verifier::type_invariant]
    closed spec fn has_own_key(&self) -> bool {
        self.public_key@ == encoded_key(self.proxy@.seed)
    }

    /// Create a new client.
    pub fn new(
        local_host: &str,
        local_port: u16,
        to: &str,
        control_port: u16,
        signing_key: SigningKey,
    ) -> (client: Result<Client, KeyError>)
        ensures
            client matches Ok(client) && client@ == (ProxyView {
                to: to@,
                local_host: local_host@,
                local_port,
                seed: signing_key@,
                control_port,
            }),
    {
        let public_key = match PeerKey::from_signing_key(&signing_key) {
            Ok(public_key) => public_key,
            Err(error) => {
                return Err(error);
            },
        };
        let auth = ClientAuthenticator::new(signing_key);
        let proxy = Proxy {
            to: to.to_owned(),
            local_host: local_host.to_owned(),
            local_port,
            auth,
            control_port,
        };
        Ok(Client { public_key, proxy })
    }

    /// The proxy that handles remote connections.
    pub fn proxy(&self) -> (proxy: &Proxy)
        ensures
            proxy@ == self@,
    {
        &self.proxy
    }

    /// Goes on with the connection to the server after an event.
    pub fn connect(&self, stage: Stage, event: ClientEvent) -> (next: (Stage, ClientAction))
        requires
            client_can_get(stage, event@),
        ensures
            is_client_step(next, connect_next(self@, stage, event@)),
            is_well_answered(self@.seed, stage, event@),
    {
        proof {
            use_type_invariant(self);
        }
        match (stage, event) {
            (Stage::Requesting, ClientEvent::Done) => (Stage::AwaitingPort, ClientAction::Receive),
            (Stage::AwaitingPort, ClientEvent::Received(reply)) => {
                match read_port(reply) {
                    Ok(port) => (Stage::Over, ClientAction::Keep(port)),
                    Err(text) => fail(text),
                }
            },
            (stage, event) => self.proxy.open(
                ClientMessage::Hello(self.public_key, self.proxy.local_port),
                stage,
                event,
            ),
        }
    }

    /// Decides on what arrived on the control connection.
    pub fn listen(&self, message: Result<Option<ServerMessage>, ReceiveError>) -> (action:
        ListenAction)
        ensures
            action@ == listen_next(server_reply_view(message)),
    {
        match message {
            Ok(Some(ServerMessage::Hello(_))) => ListenAction::Warn("unexpected hello".to_owned()),
            Ok(Some(ServerMessage::Challenge(_))) => ListenAction::Warn(
                "unexpected challenge".to_owned(),
            ),
            Ok(Some(ServerMessage::Heartbeat)) => ListenAction::Ignore,
            Ok(Some(ServerMessage::Connection(key))) => ListenAction::Accept(key),
            Ok(Some(ServerMessage::Error(text))) => ListenAction::Report(text),
            Ok(None) => ListenAction::Close(Ok(())),
            Err(error) => ListenAction::Close(Err(error.message())),
        }
    }
}

} // verus!

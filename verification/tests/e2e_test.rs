use bore::client::{Client, ClientAction, ClientEvent, ListenAction, Stage};
use bore::connections::Connections;
use bore::keys::SigningKey;
use bore::server::Server;
use bore::session::{Action, Event, Session};
use bore::shared::{generate_signing_key, ClientMessage, PeerKey, ReceiveError, ServerMessage};

const CLIENT_PORT: u16 = 8080;

fn spawn_server(peer_key: PeerKey) -> Server {
    Server::new(7835, CLIENT_PORT..=CLIENT_PORT, vec![peer_key])
}

fn new_client(signing_key: SigningKey) -> Client {
    Client::new("localhost", CLIENT_PORT, "relay", 7835, signing_key).unwrap()
}

/// A server and the connections that wait for its clients.
struct Relay {
    server: Server,
    connections: Connections,
}

impl Relay {
    fn on(&mut self, session: Session, event: Event) -> (Session, Action) {
        assert!(session.expects(&event));
        self.server.handle_connection(session, &mut self.connections, event)
    }
}

fn sent_by_server(action: Action) -> ClientEvent {
    match action {
        Action::Send(message) => ClientEvent::Received(Ok(Some(message))),
        other => panic!("{:?}", other),
    }
}

fn sent_by_client(action: ClientAction) -> Event {
    match action {
        ClientAction::Send(message) => Event::Received(Ok(Some(message))),
        other => panic!("{:?}", other),
    }
}

/// Lets a client connect to a server, as far as its answer to the challenge.
fn handshake(
    relay: &mut Relay,
    on: &dyn Fn(Stage, ClientEvent) -> (Stage, ClientAction),
    first: (Stage, ClientAction),
) -> (Session, Action, Stage) {
    let (session, offered) = Session::open();
    let (session, _) = relay.on(session, Event::Done);
    assert_eq!(first.1, ClientAction::Connect("relay".to_string(), 7835));
    let (stage, action) = on(first.0, ClientEvent::Done);
    assert_eq!(action, ClientAction::Receive);
    let (stage, action) = on(stage, sent_by_server(offered));
    let (session, reaction) = relay.on(session, sent_by_client(action));
    (session, reaction, stage)
}

fn connect(relay: &mut Relay, client: &Client) -> (Session, ClientAction) {
    let on = |stage: Stage, event: ClientEvent| client.connect(stage, event);
    let (session, reaction, stage) = handshake(relay, &on, client.proxy().start());
    let (stage, action) = on(stage, ClientEvent::Done);
    if session == Session::Refusing {
        let (stage, _) = on(stage, ClientEvent::Done);
        let (_, action) = on(stage, sent_by_server(reaction));
        return (session, action);
    }
    let (session, reaction) = relay.on(session, sent_by_client(action));
    let port = match reaction {
        Action::Bind(port) => port,
        other => panic!("{:?}", other),
    };
    let (session, _) = relay.on(session, Event::Bound(port));
    let (session, greeting) = relay.on(session, Event::Done);
    let (stage, action) = on(stage, ClientEvent::Done);
    assert_eq!(action, ClientAction::Receive);
    let (stage, action) = on(stage, sent_by_server(greeting));
    assert_eq!(stage, Stage::Over);
    (session, action)
}

#[test]
fn connection_is_proxied() {
    let client_key = generate_signing_key();
    let peer_key = PeerKey::from_signing_key(&client_key).unwrap();
    let mut relay = Relay { server: spawn_server(peer_key), connections: Connections::new() };
    let client = new_client(client_key);
    let (session, action) = connect(&mut relay, &client);
    assert_eq!(action, ClientAction::Keep(CLIENT_PORT));

    // Somebody connects to the client's port.
    let (session, _) = relay.on(session, Event::Done);
    let (session, _) = relay.on(session, Event::Done);
    let (session, _) = relay.on(session, Event::Incoming(42));
    let (_, invitation) = relay.on(session, Event::Done);
    let message = match invitation {
        Action::Send(message) => message,
        other => panic!("{:?}", other),
    };
    let key = match client.listen(Ok(Some(message))) {
        ListenAction::Accept(key) => key,
        other => panic!("{:?}", other),
    };
    assert_eq!(key, peer_key);

    // The client accepts, and connects to its local service.
    let on = |stage: Stage, event: ClientEvent| client.proxy().handle_connection(key, stage, event);
    let (session, _, stage) = handshake(&mut relay, &on, client.proxy().start());
    let (stage, action) = on(stage, ClientEvent::Done);
    let (_, reaction) = relay.on(session, sent_by_client(action));
    assert_eq!(reaction, Action::Forward(42));
    let (stage, action) = on(stage, ClientEvent::Done);
    assert_eq!(action, ClientAction::Connect("localhost".to_string(), CLIENT_PORT));
    let (stage, action) = on(stage, ClientEvent::Done);
    assert_eq!(action, ClientAction::Relay);
    assert_eq!(on(stage, ClientEvent::Done), (Stage::Over, ClientAction::Close(Ok(()))));

    // The connection was taken: nobody else gets it.
    assert_eq!(relay.connections.take(&peer_key), None);
}

#[test]
fn mismatched_secret() {
    let client_key = generate_signing_key();
    let other_peer_key = PeerKey::from_signing_key(&generate_signing_key()).unwrap();
    let mut relay = Relay { server: spawn_server(other_peer_key), connections: Connections::new() };
    let (session, action) = connect(&mut relay, &new_client(client_key));
    assert_eq!(session, Session::Refusing);
    assert_eq!(action, ClientAction::Close(Err("server error: Invalid client key".to_string())));
}

#[test]
fn unreachable_server_is_named() {
    for to in ["google.com", "nonexistent.domain.for.demonstration", "malformed !$uri$%"] {
        let client = Client::new("localhost", 5000, to, 0, generate_signing_key()).unwrap();
        let (stage, action) = client.proxy().start();
        assert_eq!(action, ClientAction::Connect(to.to_string(), 0));
        let event = ClientEvent::Failed("no such host".to_string());
        assert_eq!(
            client.connect(stage, event),
            (Stage::Over, ClientAction::Close(Err(format!("could not connect to {}:0", to))))
        );
    }
}

#[test]
fn replies_to_the_greeting() {
    let client = new_client(generate_signing_key());
    let on = |reply: Result<Option<ServerMessage>, ReceiveError>| {
        match client.connect(Stage::AwaitingPort, ClientEvent::Received(reply)).1 {
            ClientAction::Keep(port) => Ok(port),
            ClientAction::Close(Err(text)) => Err(text),
            other => panic!("{:?}", other),
        }
    };
    assert_eq!(on(Ok(Some(ServerMessage::Hello(9)))), Ok(9));
    assert_eq!(
        on(Ok(Some(ServerMessage::Error("no port".to_string())))),
        Err("server error: no port".to_string())
    );
    assert_eq!(
        on(Ok(Some(ServerMessage::Challenge(vec![])))),
        Err("server requires authentication, but no client secret was provided".to_string())
    );
    let unexpected = || Err("unexpected initial non-hello message".to_string());
    assert_eq!(on(Ok(Some(ServerMessage::Heartbeat))), unexpected());
    assert_eq!(on(Ok(Some(ServerMessage::Connection(PeerKey([0; 44]))))), unexpected());
    assert_eq!(on(Ok(None)), Err("unexpected EOF".to_string()));
    assert_eq!(on(Err(ReceiveError::Parse)), Err("unable to parse message".to_string()));
}

#[test]
fn client_greets_with_its_own_key() {
    let client_key = generate_signing_key();
    let peer_key = PeerKey::from_signing_key(&client_key).unwrap();
    let client = new_client(client_key);
    let (stage, action) = client.connect(Stage::Answering, ClientEvent::Done);
    assert_eq!(stage, Stage::Requesting);
    assert_eq!(action, ClientAction::Send(ClientMessage::Hello(peer_key, CLIENT_PORT)));
}

#[test]
fn client_that_gets_no_challenge() {
    let client = new_client(generate_signing_key());
    let next = client.connect(
        Stage::AwaitingChallenge,
        ClientEvent::Received(Ok(Some(ServerMessage::Heartbeat))),
    );
    let text = "expected authentication challenge, but no challenge was sent".to_string();
    assert_eq!(next, (Stage::Over, ClientAction::Close(Err(text))));
}

#[test]
fn client_connections_that_break() {
    let client = new_client(generate_signing_key());
    let failed = || ClientEvent::Failed("reset".to_string());
    let over = || (Stage::Over, ClientAction::Close(Err("reset".to_string())));
    assert_eq!(client.connect(Stage::Answering, failed()), over());
    assert_eq!(client.connect(Stage::Requesting, failed()), over());
    let key = PeerKey([1; 44]);
    let proxy = client.proxy();
    for stage in [Stage::Answering, Stage::Requesting, Stage::Relaying] {
        assert_eq!(proxy.handle_connection(key, stage, failed()), over());
    }
    assert_eq!(
        proxy.handle_connection(key, Stage::ConnectingLocal, failed()).1,
        ClientAction::Close(Err("could not connect to localhost:8080".to_string()))
    );
    assert_eq!(
        proxy.handle_connection(key, Stage::Connecting, failed()).1,
        ClientAction::Close(Err("could not connect to relay:7835".to_string()))
    );
}

#[test]
fn client_events_out_of_place() {
    assert!(!Stage::Over.expects(&ClientEvent::Done));
    assert!(!Stage::AwaitingPort.expects(&ClientEvent::Done));
    assert!(Stage::AwaitingPort.expects(&ClientEvent::Received(Ok(None))));
    assert!(!Stage::Relaying.expects(&ClientEvent::Received(Ok(None))));
    assert!(Stage::Relaying.expects(&ClientEvent::Failed(String::new())));
}

#[test]
fn what_a_listening_client_does() {
    let client = new_client(generate_signing_key());
    let key = PeerKey([6; 44]);
    let on = |message: ServerMessage| client.listen(Ok(Some(message)));
    assert_eq!(on(ServerMessage::Hello(1)), ListenAction::Warn("unexpected hello".to_string()));
    assert_eq!(
        on(ServerMessage::Challenge(vec![])),
        ListenAction::Warn("unexpected challenge".to_string())
    );
    assert_eq!(on(ServerMessage::Heartbeat), ListenAction::Ignore);
    assert_eq!(on(ServerMessage::Connection(key)), ListenAction::Accept(key));
    assert_eq!(
        on(ServerMessage::Error("gone".to_string())),
        ListenAction::Report("gone".to_string())
    );
    assert_eq!(client.listen(Ok(None)), ListenAction::Close(Ok(())));
    assert_eq!(
        client.listen(Err(ReceiveError::Frame)),
        ListenAction::Close(Err("frame error, invalid byte length".to_string()))
    );
}

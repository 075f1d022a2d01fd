use bore::auth::{compose_challenge, ClientAuthenticator};
use bore::connections::Connections;
use bore::keys::SigningKey;
use bore::ports::{BindError, PortError, PortSearch, PortStep, PORT_ATTEMPTS};
use bore::server::{IpAddress, Server};
use bore::session::{Action, Event, Session};
use bore::shared::{
    generate_signing_key, ClientMessage, PeerKey, ReceiveError, ServerMessage,
};

const MOMENT: u64 = 5000;

fn key_of(signing: &SigningKey) -> PeerKey {
    PeerKey::from_signing_key(signing).unwrap()
}

fn server_for(keys: Vec<PeerKey>) -> Server {
    Server::new(7835, 8000..=8002, keys)
}

fn challenge() -> Vec<u8> {
    compose_challenge(MOMENT, &[3; 32])
}

fn answer(signing: SigningKey) -> Event {
    let client = ClientAuthenticator::new(signing);
    let message = client.client_handshake(Ok(Some(ServerMessage::Challenge(challenge()))));
    Event::Received(Ok(Some(message.unwrap())))
}

fn said(message: ClientMessage) -> Event {
    Event::Received(Ok(Some(message)))
}

fn step(
    server: &Server,
    session: Session,
    connections: &mut Connections,
    event: Event,
) -> (Session, Action) {
    assert!(session.expects(&event));
    server.handle_connection_at(session, connections, event, MOMENT, 8001)
}

fn error(text: &str) -> Action {
    Action::Send(ServerMessage::Error(text.to_string()))
}

fn failed() -> Event {
    Event::Failed("broken pipe".to_string())
}

#[test]
fn new_server() {
    let mut server = server_for(vec![]);
    assert_eq!(server.control_address(), (IpAddress::V4([0, 0, 0, 0]), 7835));
    assert_eq!(server.tunnel_address(), IpAddress::V4([0, 0, 0, 0]));
    server.set_bind_tunnels(IpAddress::V4([127, 0, 0, 2]));
    assert_eq!(server.tunnel_address(), IpAddress::V4([127, 0, 0, 2]));
    assert_eq!(server.control_address(), (IpAddress::V4([0, 0, 0, 0]), 7835));
    server.set_bind_addr(IpAddress::V6([1; 16]));
    assert_eq!(server.control_address(), (IpAddress::V6([1; 16]), 7835));
    assert_eq!(server.tunnel_address(), IpAddress::V4([127, 0, 0, 2]));
}

#[test]
fn ports_are_picked_in_the_range() {
    let server = server_for(vec![]);
    let mut seen = [false; 3];
    for _ in 0..1000 {
        let port = server.pick_port();
        assert!((8000..=8002).contains(&port));
        seen[(port - 8000) as usize] = true;
    }
    assert_eq!(seen, [true; 3]);
    assert_eq!(Server::new(1, 9..=9, vec![]).pick_port(), 9);
}

#[test]
fn first_port_of_a_search() {
    let server = server_for(vec![]);
    assert_eq!(server.create_listener(8000, 8001), PortStep::Bind(8000));
    assert_eq!(server.create_listener(8002, 8001), PortStep::Bind(8002));
    assert_eq!(server.create_listener(0, 8001), PortStep::Bind(8001));
    assert_eq!(server.create_listener(7999, 8001), PortStep::Refuse(PortError::OutOfRange));
    assert_eq!(server.create_listener(8003, 8001), PortStep::Refuse(PortError::OutOfRange));
}

#[test]
fn next_port_of_a_search() {
    let search = PortSearch { requested: 8000, failures: 0 };
    for error in [BindError::AddrInUse, BindError::PermissionDenied, BindError::Other] {
        assert_eq!(search.retry(error, 8001), PortStep::Refuse(PortError::Bind(error)));
    }
    let search = PortSearch { requested: 0, failures: 148 };
    assert_eq!(search.retry(BindError::AddrInUse, 8001), PortStep::Bind(8001));
    let search = PortSearch { requested: 0, failures: 149 };
    assert_eq!(
        search.retry(BindError::AddrInUse, 8001),
        PortStep::Refuse(PortError::NoneAvailable)
    );
}

#[test]
fn words_of_port_errors() {
    assert_eq!(PortError::OutOfRange.message(), "client port number not in allowed range");
    assert_eq!(PortError::Bind(BindError::AddrInUse).message(), "port already in use");
    assert_eq!(PortError::Bind(BindError::PermissionDenied).message(), "permission denied");
    assert_eq!(PortError::Bind(BindError::Other).message(), "failed to bind to port");
    assert_eq!(PortError::NoneAvailable.message(), "failed to find an available port");
}

#[test]
fn connections_wait_under_their_keys() {
    let a = PeerKey([1; 44]);
    let b = PeerKey([2; 44]);
    let mut connections = Connections::new();
    assert_eq!(connections.take(&a), None);
    assert_eq!(connections.park(&a, 10), None);
    assert_eq!(connections.park(&b, 20), None);
    assert_eq!(connections.park(&a, 11), Some(10));
    assert_eq!(connections.take(&a), Some(11));
    assert_eq!(connections.take(&a), None);
    assert_eq!(connections.take(&b), Some(20));
}

#[test]
fn session_starts_with_its_challenge() {
    let (session, action) = Session::start(challenge(), MOMENT);
    assert_eq!(session, Session::Challenging { challenge: challenge(), timestamp: MOMENT });
    assert_eq!(action, Action::Send(ServerMessage::Challenge(challenge())));
    match Session::open() {
        (Session::Challenging { challenge, timestamp }, Action::Send(message)) => {
            assert_eq!(challenge.len(), 62);
            assert_eq!(challenge[22..30], timestamp.to_be_bytes());
            assert_eq!(message, ServerMessage::Challenge(challenge));
        },
        other => panic!("{:?}", other),
    }
}

#[test]
fn client_gets_a_port_and_a_connection() {
    let signing = generate_signing_key();
    let key = key_of(&signing);
    let server = server_for(vec![key]);
    let mut connections = Connections::new();

    let (session, _) = Session::start(challenge(), MOMENT);
    let (session, action) = step(&server, session, &mut connections, Event::Done);
    assert_eq!(action, Action::Receive);
    let (session, action) = step(&server, session, &mut connections, answer(signing));
    assert_eq!(session, Session::AwaitingRequest);
    assert_eq!(action, Action::Receive);
    let (session, action) =
        step(&server, session, &mut connections, said(ClientMessage::Hello(key, 8002)));
    assert_eq!(action, Action::Bind(8002));
    let (session, action) = step(&server, session, &mut connections, Event::Bound(8002));
    assert_eq!(action, Action::Connected((key, 8002)));
    let (session, action) = step(&server, session, &mut connections, Event::Done);
    assert_eq!(action, Action::Send(ServerMessage::Hello(8002)));
    let (session, action) = step(&server, session, &mut connections, Event::Done);
    assert_eq!(action, Action::Send(ServerMessage::Heartbeat));
    let (session, action) = step(&server, session, &mut connections, Event::Done);
    assert_eq!(action, Action::Listen);
    let (session, action) = step(&server, session, &mut connections, Event::Quiet);
    assert_eq!(action, Action::Send(ServerMessage::Heartbeat));
    let (session, _) = step(&server, session, &mut connections, Event::Done);
    let (session, action) = step(&server, session, &mut connections, Event::Incoming(77));
    assert_eq!(action, Action::Expire { key, replaced: None });
    let (session, action) = step(&server, session, &mut connections, Event::Done);
    assert_eq!(action, Action::Send(ServerMessage::Connection(key)));
    let (session, action) = step(&server, session, &mut connections, Event::Done);
    assert_eq!(action, Action::Send(ServerMessage::Heartbeat));
    assert_eq!(session, Session::Beating { key });

    // Somebody else connects before the first connection is accepted.
    let (session, _) = step(&server, session, &mut connections, Event::Done);
    let (_, action) = step(&server, session, &mut connections, Event::Incoming(78));
    assert_eq!(action, Action::Expire { key, replaced: Some(77) });

    // The client accepts on a connection of its own.
    let accept = || said(ClientMessage::Accept(key));
    let (session, action) = step(&server, Session::AwaitingRequest, &mut connections, accept());
    assert_eq!(action, Action::Forward(78));
    let (session, action) = step(&server, session, &mut connections, Event::Done);
    assert_eq!((session, action), (Session::Closed, Action::Close(Ok(()))));

    // There is nothing left to accept.
    let next = step(&server, Session::AwaitingRequest, &mut connections, accept());
    assert_eq!(next, (Session::Closed, Action::Close(Ok(()))));
}

#[test]
fn session_goes_by_the_clock() {
    let signing = generate_signing_key();
    let server = server_for(vec![key_of(&signing)]);
    let mut connections = Connections::new();
    let (session, _) = Session::start(challenge(), MOMENT);
    let (session, _) = server.handle_connection(session, &mut connections, Event::Done);
    let (session, action) =
        server.handle_connection(session, &mut connections, answer(signing));
    assert_eq!(session, Session::Refusing);
    assert_eq!(action, error("Challenge has expired"));

    let signing = generate_signing_key();
    let server = server_for(vec![key_of(&signing)]);
    let (session, action) = Session::open();
    let (session, _) = server.handle_connection(session, &mut connections, Event::Done);
    let message = match action {
        Action::Send(message) => message,
        other => panic!("{:?}", other),
    };
    let reply = ClientAuthenticator::new(signing).client_handshake(Ok(Some(message))).unwrap();
    let (session, action) = server.handle_connection(session, &mut connections, said(reply));
    assert_eq!((session, action), (Session::AwaitingRequest, Action::Receive));
}

#[test]
fn client_that_is_not_listed() {
    let server = server_for(vec![key_of(&generate_signing_key())]);
    let mut connections = Connections::new();
    let (session, _) = Session::start(challenge(), MOMENT);
    let (session, _) = step(&server, session, &mut connections, Event::Done);
    let (session, action) =
        step(&server, session, &mut connections, answer(generate_signing_key()));
    assert_eq!(action, error("Invalid client key"));
    let (session, action) = step(&server, session, &mut connections, Event::Done);
    assert_eq!((session, action), (Session::Closed, Action::Close(Ok(()))));
}

#[test]
fn listed_key_that_is_none_lets_nobody_in() {
    let signing = generate_signing_key();
    let server = server_for(vec![PeerKey([0; 44]), key_of(&signing), PeerKey([1; 44])]);
    let mut connections = Connections::new();
    let (session, _) = Session::start(challenge(), MOMENT);
    let (session, _) = step(&server, session, &mut connections, Event::Done);
    let (session, _) = step(&server, session, &mut connections, answer(signing));
    assert_eq!(session, Session::AwaitingRequest);
}

#[test]
fn challenge_that_cannot_be_sent() {
    let server = server_for(vec![]);
    let mut connections = Connections::new();
    let (session, _) = Session::start(challenge(), MOMENT);
    let (session, action) = step(&server, session, &mut connections, failed());
    assert_eq!(action, error("broken pipe"));
    let next = step(&server, session, &mut connections, failed());
    assert_eq!(next, (Session::Closed, Action::Close(Err("broken pipe".to_string()))));
}

#[test]
fn silence_in_place_of_an_answer() {
    let server = server_for(vec![]);
    let mut connections = Connections::new();
    let waiting = || Session::AwaitingAnswer { challenge: challenge(), timestamp: MOMENT };
    let (_, action) =
        step(&server, waiting(), &mut connections, Event::Received(Err(ReceiveError::TimedOut)));
    assert_eq!(action, error("timed out waiting for initial message"));
    let (_, action) = step(&server, waiting(), &mut connections, Event::Received(Ok(None)));
    assert_eq!(action, error("server requires secret, but no secret was provided"));
    let (_, action) =
        server.handle_connection(waiting(), &mut connections, Event::Received(Ok(None)));
    assert_eq!(action, error("server requires secret, but no secret was provided"));
}

#[test]
fn requests_that_lead_nowhere() {
    let server = server_for(vec![]);
    let key = PeerKey([5; 44]);
    let mut connections = Connections::new();
    let mut on = |event: Event| step(&server, Session::AwaitingRequest, &mut connections, event);
    let closed = || (Session::Closed, Action::Close(Ok(())));
    assert_eq!(on(Event::Received(Ok(None))), closed());
    let again = ClientMessage::Authenticate { public_key: key, signature: String::new() };
    assert_eq!(on(said(again)), closed());
    assert_eq!(on(said(ClientMessage::Accept(key))), closed());
    assert_eq!(
        on(Event::Received(Err(ReceiveError::Parse))),
        (Session::Closed, Action::Close(Err("unable to parse message".to_string())))
    );
    assert_eq!(
        on(said(ClientMessage::Hello(key, 9000))),
        (Session::Refusing, error("client port number not in allowed range"))
    );
}

#[test]
fn port_that_cannot_be_bound() {
    let server = server_for(vec![]);
    let key = PeerKey([5; 44]);
    let mut connections = Connections::new();
    let hello = said(ClientMessage::Hello(key, 8000));
    let (session, action) = step(&server, Session::AwaitingRequest, &mut connections, hello);
    assert_eq!(action, Action::Bind(8000));
    let next =
        step(&server, session, &mut connections, Event::BindFailed(BindError::PermissionDenied));
    assert_eq!(next, (Session::Refusing, error("permission denied")));
}

#[test]
fn any_port_is_tried_often_enough() {
    let server = server_for(vec![]);
    let key = PeerKey([5; 44]);
    let mut connections = Connections::new();
    let hello = said(ClientMessage::Hello(key, 0));
    let (mut session, mut action) =
        server.handle_connection(Session::AwaitingRequest, &mut connections, hello);
    let mut attempts = 0;
    while let Action::Bind(port) = action {
        assert!((8000..=8002).contains(&port));
        attempts += 1;
        let event = Event::BindFailed(BindError::AddrInUse);
        (session, action) = server.handle_connection(session, &mut connections, event);
    }
    assert_eq!(attempts, 150);
    assert_eq!(attempts, PORT_ATTEMPTS as i32);
    assert_eq!(session, Session::Refusing);
    assert_eq!(action, error("failed to find an available port"));
}

#[test]
fn port_that_the_system_chose_outside_the_range() {
    let server = Server::new(7835, 0..=10, vec![]);
    let key = PeerKey([5; 44]);
    let mut connections = Connections::new();
    let hello = said(ClientMessage::Hello(key, 0));
    let (session, action) =
        server.handle_connection_at(Session::AwaitingRequest, &mut connections, hello, MOMENT, 0);
    assert_eq!(action, Action::Bind(0));
    let (session, action) =
        server.handle_connection_at(session, &mut connections, Event::Bound(40000), MOMENT, 7);
    assert_eq!(action, Action::Bind(7));
    let search = PortSearch { requested: 0, failures: 1 };
    assert_eq!(session, Session::Binding { key, search });
    let (_, action) =
        server.handle_connection_at(session, &mut connections, Event::Bound(7), MOMENT, 0);
    assert_eq!(action, Action::Connected((key, 7)));

    // The last attempt, and a port that was asked for.
    for (search, text) in [
        (PortSearch { requested: 0, failures: 149 }, "failed to find an available port"),
        (PortSearch { requested: 3, failures: 0 }, "failed to bind to port"),
    ] {
        let session = Session::Binding { key, search };
        let next =
            server.handle_connection_at(session, &mut connections, Event::Bound(11), MOMENT, 0);
        assert_eq!(next, (Session::Refusing, error(text)));
    }
}

#[test]
fn ports_that_can_be_forwarded() {
    let server = server_for(vec![]);
    for (port, can) in [(0, false), (7999, false), (8000, true), (8002, true), (8003, false)] {
        assert_eq!(server.can_forward(port), can);
    }
}

#[test]
fn messages_of_a_session_in_their_order() {
    let signing = generate_signing_key();
    let key = key_of(&signing);
    let server = server_for(vec![key]);
    let mut connections = Connections::new();
    let (mut session, mut action) = Session::start(challenge(), MOMENT);
    let mut sent = Vec::new();
    for event in [
        Event::Done,
        answer(signing),
        said(ClientMessage::Hello(key, 8000)),
        Event::Bound(8000),
        Event::Done,
        Event::Done,
        Event::Done,
        Event::Incoming(1),
        Event::Done,
        Event::Done,
        Event::Done,
        Event::Quiet,
        failed(),
        Event::Done,
    ] {
        if let Action::Send(message) = action {
            sent.push(message);
        }
        (session, action) = step(&server, session, &mut connections, event);
    }
    assert_eq!((session, action), (Session::Closed, Action::Close(Ok(()))));
    assert_eq!(
        sent,
        vec![
            ServerMessage::Challenge(challenge()),
            ServerMessage::Hello(8000),
            ServerMessage::Heartbeat,
            ServerMessage::Connection(key),
            ServerMessage::Heartbeat,
            ServerMessage::Heartbeat,
        ]
    );
}

#[test]
fn peer_that_is_lost() {
    let server = server_for(vec![]);
    let key = PeerKey([5; 44]);
    let mut connections = Connections::new();
    let text = || Err("broken pipe".to_string());
    for (session, outcome) in [
        (Session::Greeting { key }, text()),
        (Session::Beating { key }, Ok(())),
        (Session::Inviting { key }, text()),
    ] {
        let (session, action) = step(&server, session, &mut connections, failed());
        assert_eq!(action, Action::Disconnected(key));
        let next = step(&server, session, &mut connections, Event::Done);
        assert_eq!(next, (Session::Closed, Action::Close(outcome)));
    }
}

#[test]
fn listener_and_tunnel_that_break() {
    let server = server_for(vec![]);
    let key = PeerKey([5; 44]);
    let search = PortSearch { requested: 0, failures: 0 };
    let mut connections = Connections::new();
    for session in [
        Session::Listening { key },
        Session::Forwarding,
        Session::Binding { key, search },
    ] {
        let next = step(&server, session, &mut connections, failed());
        assert_eq!(next, (Session::Closed, Action::Close(Err("broken pipe".to_string()))));
    }
}

#[test]
fn events_out_of_place() {
    let key = PeerKey([5; 44]);
    assert!(!Session::Closed.expects(&Event::Done));
    assert!(!Session::AwaitingRequest.expects(&Event::Done));
    assert!(Session::AwaitingRequest.expects(&Event::Received(Ok(None))));
    assert!(!Session::Listening { key }.expects(&Event::Done));
    assert!(Session::Listening { key }.expects(&Event::Incoming(1)));
    assert!(!Session::Announcing { key, port: 1 }.expects(&failed()));
    assert!(!Session::Refusing.expects(&Event::Quiet));
    let search = PortSearch { requested: 0, failures: 0 };
    assert!(!Session::Binding { key, search }.expects(&Event::Done));
}

//! What holds of a client and a server that talk to each other.

use crate::auth::{
    answer_message, is_convincing, is_degenerate, is_fresh, reply_verdict, AuthFault,
};
use crate::client::{
    accept_next, client_can_get, connect_next, given_port, is_client_step, is_well_answered,
    listen_next, server_reply_view, unreachable_text, ClientAction, ClientActionView, ClientEvent,
    ClientEventView, ListenAction, ListenActionView, ProxyView, Stage,
};
use crate::connections::CONNECTION_LIFETIME;
use crate::hex::hex_text;
use crate::outside::{ed25519_public_key, ed25519_signature, spki_head};
use crate::server::{allowed_keys_are_the_listed, decoded_keys, ServerView, HEARTBEAT_INTERVAL};
use crate::session::{session_start, ActionView, EventView, SessionView};
use crate::session_laws::{turned, Turn};
use crate::shared::{
    decoded_key, encoded_key, ClientMessage, ClientMessageView, KeyFault, PeerKey, ReceiveError,
    ServerMessage, ServerMessageView, NETWORK_TIMEOUT,
};
use crate::text::{decimal_round_trip, decimal_text, decimal_value};
use vstd::prelude::*;

verus! {

/// The event in which a client's message reaches the server.
pub open spec fn heard(action: ClientActionView) -> EventView {
    match action {
        ClientActionView::Send(message) => EventView::Received(Ok(Some(message))),
        _ => EventView::Received(Ok(None)),
    }
}

/// The event in which a server's message reaches the client.
pub open spec fn read(action: ActionView) -> ClientEventView {
    match action {
        ActionView::Send(message) => ClientEventView::Received(Ok(Some(message))),
        _ => ClientEventView::Received(Ok(None)),
    }
}

/// A client whose key is listed connects, waits for the challenge that the server sends first,
/// answers it in time and asks for its port. Where a port
/// that can be forwarded is bound, the server tells the client which it is, and the client keeps
/// the connection.
pub proof fn listed_client_gets_its_port(
    server: ServerView,
    keys: Seq<Seq<u8>>,
    client: ProxyView,
    challenge: Seq<u8>,
    timestamp: u64,
    offered: Turn,
    answered: Turn,
    asked: Turn,
    given: Turn,
    reported: Turn,
    bound: u16,
)
    requires
        server.allowed == decoded_keys(keys),
        keys.contains(encoded_key(client.seed)),
        is_convincing(client.seed, challenge),
        is_fresh(timestamp, answered.now),
        client.local_port == 0 || server.min_port <= client.local_port <= server.max_port,
        server.min_port <= bound <= server.max_port,
    ensures
        ({
            let offering = session_start(offered.connections, challenge, timestamp);
            let expecting = turned(
                server,
                offering.session,
                Turn { event: EventView::Done, ..offered },
            );
            let dialing = connect_next(client, Stage::Connecting, ClientEventView::Done);
            let answering = connect_next(client, dialing.0, read(offering.action));
            let waiting = turned(
                server,
                expecting.session,
                Turn { event: heard(answering.1), ..answered },
            );
            let requesting = connect_next(client, answering.0, ClientEventView::Done);
            let binding = turned(
                server,
                waiting.session,
                Turn { event: heard(requesting.1), ..asked },
            );
            let announcing = turned(
                server,
                binding.session,
                Turn { event: EventView::Bound(bound), ..given },
            );
            let greeting = turned(
                server,
                announcing.session,
                Turn { event: EventView::Done, ..reported },
            );
            let listening = connect_next(client, requesting.0, ClientEventView::Done);
            let connected = connect_next(client, listening.0, read(greeting.action));
            &&& dialing.1 is Receive
            &&& expecting.action is Receive
            &&& answering.1 == ClientActionView::Send(answer_message(client.seed, challenge))
            &&& waiting.session is AwaitingRequest
            &&& waiting.action is Receive
            &&& listening.1 is Receive
            &&& binding.action == ActionView::Bind(
                if client.local_port == 0 {
                    asked.pick
                } else {
                    client.local_port
                },
            )
            &&& announcing.action == ActionView::Connected(encoded_key(client.seed), bound)
            &&& connected.1 == ClientActionView::Keep(bound)
        }),
{
    let key = ed25519_public_key(client.seed);
    let only = seq![key];
    assert(only[0] == key);
    assert(reply_verdict(
        only,
        challenge,
        timestamp,
        Ok(Some(answer_message(client.seed, challenge))),
        answered.now,
    ) == Ok::<(), AuthFault>(()));
    let i = choose|i: int| 0 <= i < keys.len() && keys[i] == encoded_key(client.seed);
    assert(decoded_key(keys[i]) == Ok::<Seq<u8>, KeyFault>(key));
    allowed_keys_are_the_listed(keys, key);
    assert(reply_verdict(
        server.allowed,
        challenge,
        timestamp,
        Ok(Some(answer_message(client.seed, challenge))),
        answered.now,
    ) == Ok::<(), AuthFault>(()));
}

/// A client whose answer is not accepted learns why: the words of the fault reach it as an error
/// of the server in place of its port.
pub proof fn refused_client_learns_why(
    server: ServerView,
    client: ProxyView,
    challenge: Seq<u8>,
    timestamp: u64,
    answered: Turn,
)
    requires
        reply_verdict(
            server.allowed,
            challenge,
            timestamp,
            Ok(Some(answer_message(client.seed, challenge))),
            answered.now,
        ) is Err,
    ensures
        ({
            let fault = reply_verdict(
                server.allowed,
                challenge,
                timestamp,
                Ok(Some(answer_message(client.seed, challenge))),
                answered.now,
            )->Err_0;
            let offered = ClientEventView::Received(
                Ok(Some(ServerMessageView::Challenge(challenge))),
            );
            let dialing = connect_next(client, Stage::Connecting, ClientEventView::Done);
            let answering = connect_next(client, dialing.0, offered);
            let refusing = turned(
                server,
                SessionView::AwaitingAnswer { challenge, timestamp },
                Turn { event: heard(answering.1), ..answered },
            );
            let requesting = connect_next(client, answering.0, ClientEventView::Done);
            let listening = connect_next(client, requesting.0, ClientEventView::Done);
            connect_next(client, listening.0, read(refusing.action)).1 == ClientActionView::Close(
                Err("server error: "@ + fault.text()),
            )
        }),
{
}

/// A client that is asked to accept a connection accepts it under the key that it was asked with.
/// Where its answer is accepted and the connection still waits, the server forwards that
/// connection, and the client relays it to the local service.
pub proof fn invited_client_relays_the_connection(
    server: ServerView,
    client: ProxyView,
    key: Seq<u8>,
    connection: u64,
    challenge: Seq<u8>,
    timestamp: u64,
    parked: Turn,
    answered: Turn,
    accepted: Turn,
)
    requires
        parked.event is Done,
        reply_verdict(
            server.allowed,
            challenge,
            timestamp,
            Ok(Some(answer_message(client.seed, challenge))),
            answered.now,
        ) is Ok,
        accepted.connections.contains_pair(key, connection),
    ensures
        ({
            let inviting = turned(server, SessionView::Parking { key }, parked);
            let invitation = read(inviting.action)->Received_0;
            let offered = ClientEventView::Received(
                Ok(Some(ServerMessageView::Challenge(challenge))),
            );
            let dialing = accept_next(client, key, Stage::Connecting, ClientEventView::Done);
            let answering = accept_next(client, key, dialing.0, offered);
            let waiting = turned(
                server,
                SessionView::AwaitingAnswer { challenge, timestamp },
                Turn { event: heard(answering.1), ..answered },
            );
            let requesting = accept_next(client, key, answering.0, ClientEventView::Done);
            let forwarding = turned(
                server,
                waiting.session,
                Turn { event: heard(requesting.1), ..accepted },
            );
            let local = accept_next(client, key, requesting.0, ClientEventView::Done);
            let relaying = accept_next(client, key, local.0, ClientEventView::Done);
            &&& listen_next(invitation) == ListenActionView::Accept(key)
            &&& dialing.1 is Receive
            &&& answering.1 == ClientActionView::Send(answer_message(client.seed, challenge))
            &&& requesting.1 == ClientActionView::Send(ClientMessageView::Accept(key))
            &&& forwarding.action == ActionView::Forward(connection)
            &&& local.1 == ClientActionView::Connect(client.local_host, client.local_port)
            &&& relaying.1 == ClientActionView::Relay
        }),
{
}

/// A client asks for nothing before it has answered a challenge: it sends its request only when
/// its answer was sent, and an answer only to the challenge that came.
pub proof fn client_answers_before_it_asks(
    client: ProxyView,
    key: Seq<u8>,
    stage: Stage,
    event: ClientEventView,
)
    requires
        client_can_get(stage, event),
    ensures
        asks_after_answering(client.seed, stage, event, connect_next(client, stage, event)),
        asks_after_answering(client.seed, stage, event, accept_next(client, key, stage, event)),
{
}

/// Whether a step of the client sends a request only when the answer was sent, and an answer only
/// to the challenge that came.
pub open spec fn asks_after_answering(
    seed: Seq<u8>,
    stage: Stage,
    event: ClientEventView,
    step: (Stage, ClientActionView),
) -> bool {
    step.1 matches ClientActionView::Send(message) ==> match message {
        ClientMessageView::Authenticate { .. } => stage is AwaitingChallenge && (event matches
            ClientEventView::Received(Ok(Some(ServerMessageView::Challenge(challenge))))
            && message == answer_message(seed, challenge)),
        _ => stage is Answering && event is Done,
    }
}

/// The challenge reaches the client as this event.
pub open spec fn challenged(challenge: Seq<u8>) -> ClientEventView {
    ClientEventView::Received(Ok(Some(ServerMessageView::Challenge(challenge))))
}

/// Once the connection to the server is made, the client waits for the server's challenge, whatever
/// it is there for. It signs the challenge that comes, and when the answer was sent it asks for
/// what it is there for: its port, under its own key, or the connection under the key that it was
/// invited with.
pub proof fn client_connects_then_answers_then_asks(
    client: ProxyView,
    key: Seq<u8>,
    challenge: Seq<u8>,
)
    ensures
        ({
            let awaiting = (Stage::AwaitingChallenge, ClientActionView::Receive);
            let answer = ClientMessageView::Authenticate {
                public_key: spki_head() + ed25519_public_key(client.seed),
                signature: hex_text(ed25519_signature(client.seed, challenge), true),
            };
            let answering = (Stage::Answering, ClientActionView::Send(answer));
            let hello = ClientMessageView::Hello(
                spki_head() + ed25519_public_key(client.seed),
                client.local_port,
            );
            let accept = ClientMessageView::Accept(key);
            let done = ClientEventView::Done;
            let event = challenged(challenge);
            &&& connect_next(client, Stage::Connecting, done) == awaiting
            &&& accept_next(client, key, Stage::Connecting, done) == awaiting
            &&& connect_next(client, Stage::AwaitingChallenge, event) == answering
            &&& accept_next(client, key, Stage::AwaitingChallenge, event) == answering
            &&& connect_next(client, Stage::Answering, done) == (
                Stage::Requesting,
                ClientActionView::Send(hello),
            )
            &&& accept_next(client, key, Stage::Answering, done) == (
                Stage::Requesting,
                ClientActionView::Send(accept),
            )
        }),
{
}

/// A client that asked for its port waits for the server's reply, and keeps the connection exactly
/// if the reply gives it a port. One that accepted a connection connects to the local service, and
/// when that is done relays; when the relay is over, so is the connection.
pub proof fn client_gets_what_it_asked_for(
    client: ProxyView,
    key: Seq<u8>,
    port: u16,
    reply: Result<Option<ServerMessageView>, ReceiveError>,
)
    ensures
        connect_next(client, Stage::Requesting, ClientEventView::Done) == (
            Stage::AwaitingPort,
            ClientActionView::Receive,
        ),
        connect_next(client, Stage::AwaitingPort, ClientEventView::Received(reply)).0 is Over,
        connect_next(client, Stage::AwaitingPort, ClientEventView::Received(reply)).1
            == ClientActionView::Keep(port) <==> reply == Ok::<_, ReceiveError>(
            Some(ServerMessageView::Hello(port)),
        ),
        accept_next(client, key, Stage::Requesting, ClientEventView::Done) == (
            Stage::ConnectingLocal,
            ClientActionView::Connect(client.local_host, client.local_port),
        ),
        accept_next(client, key, Stage::ConnectingLocal, ClientEventView::Done) == (
            Stage::Relaying,
            ClientActionView::Relay,
        ),
        accept_next(client, key, Stage::Relaying, ClientEventView::Done) == (
            Stage::Over,
            ClientActionView::Close(Ok(())),
        ),
{
}

/// What a client that gets no port reports: the words of the server's error, or that the reply was
/// none that could come there.
pub proof fn client_reports_why_it_got_no_port(
    client: ProxyView,
    message: Seq<char>,
    challenge: Seq<u8>,
    key: Seq<u8>,
    error: ReceiveError,
)
    ensures
        ({
            let on = |reply: Result<Option<ServerMessageView>, ReceiveError>|
                connect_next(client, Stage::AwaitingPort, ClientEventView::Received(reply)).1;
            let says = |text: Seq<char>| ClientActionView::Close(Err(text));
            let unexpected = says("unexpected initial non-hello message"@);
            &&& on(Ok(Some(ServerMessageView::Error(message)))) == says(
                "server error: "@ + message,
            )
            &&& on(Ok(Some(ServerMessageView::Challenge(challenge)))) == says(
                "server requires authentication, but no client secret was provided"@,
            )
            &&& on(Ok(Some(ServerMessageView::Heartbeat))) == unexpected
            &&& on(Ok(Some(ServerMessageView::Connection(key)))) == unexpected
            &&& on(Ok(None)) == says("unexpected EOF"@)
            &&& on(Err(error)) == says(error.text())
        }),
{
}

/// A port is read from a greeting and from nothing else; any other reply is reported.
pub proof fn ports_are_read_from_hellos(
    reply: Result<Option<ServerMessageView>, ReceiveError>,
    port: u16,
)
    ensures
        given_port(reply) == Ok::<u16, Seq<char>>(port) <==> reply == Ok::<_, ReceiveError>(
            Some(ServerMessageView::Hello(port)),
        ),
        given_port(reply) is Ok <==> (reply matches Ok(Some(message)) && message is Hello),
        given_port(reply) matches Err(text) ==> text == match reply {
            Ok(Some(ServerMessageView::Error(message))) => "server error: "@ + message,
            Ok(Some(ServerMessageView::Challenge(_))) =>
                "server requires authentication, but no client secret was provided"@,
            Ok(Some(_)) => "unexpected initial non-hello message"@,
            Ok(None) => "unexpected EOF"@,
            Err(error) => error.text(),
        },
{
}

/// A client that gets no challenge says so, and gives up.
pub proof fn client_needs_a_challenge(
    client: ProxyView,
    key: Seq<u8>,
    reply: Result<Option<ServerMessageView>, ReceiveError>,
)
    requires
        !(reply matches Ok(Some(message)) && message is Challenge),
    ensures
        ({
            let text = match reply {
                Ok(_) => "expected authentication challenge, but no challenge was sent"@,
                Err(error) => error.text(),
            };
            let over = (Stage::Over, ClientActionView::Close(Err(text)));
            let event = ClientEventView::Received(reply);
            &&& connect_next(client, Stage::AwaitingChallenge, event) == over
            &&& accept_next(client, key, Stage::AwaitingChallenge, event) == over
        }),
{
}

/// Whatever fails ends the client's connection with an error: a connection that could not be made
/// with the host and port that could not be reached, anything else with its own words. A
/// connection never ends so where nothing failed and nothing was received.
pub proof fn client_failures_are_reported(
    client: ProxyView,
    key: Seq<u8>,
    stage: Stage,
    text: Seq<char>,
)
    requires
        client_can_get(stage, ClientEventView::Failed(text)),
    ensures
        ({
            let failed = ClientEventView::Failed(text);
            let over = |words: Seq<char>| (Stage::Over, ClientActionView::Close(Err(words)));
            let server = unreachable_text(client.to, client.control_port);
            let local = unreachable_text(client.local_host, client.local_port);
            &&& connect_next(client, stage, failed) == if stage is Connecting {
                over(server)
            } else {
                over(text)
            }
            &&& accept_next(client, key, stage, failed) == if stage is Connecting {
                over(server)
            } else if stage is ConnectingLocal {
                over(local)
            } else {
                over(text)
            }
            &&& !(connect_next(client, stage, ClientEventView::Done).1 matches
                ClientActionView::Close(Err(_)))
            &&& !(accept_next(client, key, stage, ClientEventView::Done).1 matches
                ClientActionView::Close(Err(_)))
        }),
{
}

/// The words for a host that cannot be reached name the host and its port.
pub proof fn unreachable_hosts_are_named(to: Seq<char>, port: u16)
    ensures
        ({
            let head = "could not connect to "@ + to + ":"@;
            let text = unreachable_text(to, port);
            &&& text.len() >= head.len()
            &&& text.take(head.len() as int) == head
            &&& decimal_value(text.skip(head.len() as int)) == port
        }),
{
    let head = "could not connect to "@ + to + ":"@;
    let text = unreachable_text(to, port);
    decimal_round_trip(port as nat);
    assert(text.take(head.len() as int) =~= head);
    assert(text.skip(head.len() as int) =~= decimal_text(port as nat));
}

/// The stage of an accepted connection after some events.
pub open spec fn accept_after(
    client: ProxyView,
    key: Seq<u8>,
    events: Seq<ClientEventView>,
) -> Stage
    decreases events.len(),
{
    if events.len() == 0 {
        Stage::Connecting
    } else {
        accept_next(client, key, accept_after(client, key, events.drop_last()), events.last()).0
    }
}

/// What is to be done for an accepted connection on an event among some.
pub open spec fn accept_action(
    client: ProxyView,
    key: Seq<u8>,
    events: Seq<ClientEventView>,
    i: int,
) -> ClientActionView {
    accept_next(client, key, accept_after(client, key, events.take(i)), events[i]).1
}

/// The stage of the client's control connection after some events.
pub open spec fn connect_after(client: ProxyView, events: Seq<ClientEventView>) -> Stage
    decreases events.len(),
{
    if events.len() == 0 {
        Stage::Connecting
    } else {
        connect_next(client, connect_after(client, events.drop_last()), events.last()).0
    }
}

/// What is to be done for the client's control connection on an event among some.
pub open spec fn connect_action(
    client: ProxyView,
    events: Seq<ClientEventView>,
    i: int,
) -> ClientActionView {
    connect_next(client, connect_after(client, events.take(i)), events[i]).1
}

/// Whether an action sends an answer to a challenge that came.
pub open spec fn answers(
    seed: Seq<u8>,
    event: ClientEventView,
    action: ClientActionView,
) -> bool {
    event matches ClientEventView::Received(Ok(Some(ServerMessageView::Challenge(challenge))))
        && action == ClientActionView::Send(answer_message(seed, challenge))
}

/// Whether one of the first actions of an accepted connection answers the challenge.
pub open spec fn accept_answered(
    client: ProxyView,
    key: Seq<u8>,
    events: Seq<ClientEventView>,
) -> bool {
    exists|i: int|
        0 <= i < events.len() && answers(
            client.seed,
            events[i],
            #[trigger] accept_action(client, key, events, i),
        )
}

/// Whether one of the first actions of an accepted connection accepts it under the key.
pub open spec fn accept_asked(
    client: ProxyView,
    key: Seq<u8>,
    events: Seq<ClientEventView>,
) -> bool {
    exists|i: int|
        0 <= i < events.len() && #[trigger] accept_action(client, key, events, i)
            == ClientActionView::Send(ClientMessageView::Accept(key))
}

proof fn lemma_accept_prefix(
    client: ProxyView,
    key: Seq<u8>,
    events: Seq<ClientEventView>,
    i: int,
    n: int,
)
    requires
        0 <= i < n <= events.len(),
    ensures
        accept_action(client, key, events.take(n), i) == accept_action(client, key, events, i),
{
    assert(events.take(n).take(i) =~= events.take(i));
}

proof fn lemma_accepted_in_order(client: ProxyView, key: Seq<u8>, events: Seq<ClientEventView>)
    ensures
        ({
            let stage = accept_after(client, key, events);
            &&& stage is Answering || stage is Requesting || stage is ConnectingLocal
                || stage is Relaying ==> accept_answered(client, key, events)
            &&& stage is Requesting || stage is ConnectingLocal || stage is Relaying
                ==> accept_asked(client, key, events)
            &&& !(stage is AwaitingPort)
        }),
    decreases events.len(),
{
    if events.len() > 0 {
        let n = events.len() - 1;
        let before = events.drop_last();
        lemma_accepted_in_order(client, key, before);
        assert(events.take(n) =~= before);
        if accept_answered(client, key, before) {
            let i = choose|i: int|
                0 <= i < before.len() && answers(
                    client.seed,
                    before[i],
                    #[trigger] accept_action(client, key, before, i),
                );
            lemma_accept_prefix(client, key, events, i, n);
            assert(answers(client.seed, events[i], accept_action(client, key, events, i)));
        }
        if accept_asked(client, key, before) {
            let i = choose|i: int|
                0 <= i < before.len() && #[trigger] accept_action(client, key, before, i)
                    == ClientActionView::Send(ClientMessageView::Accept(key));
            lemma_accept_prefix(client, key, events, i, n);
        }
        let last = accept_action(client, key, events, n);
        assert(accept_after(client, key, before) is AwaitingChallenge && accept_after(
            client,
            key,
            events,
        ) is Answering ==> answers(client.seed, events[n], last));
    }
}

/// From its start on, an accepted connection reaches the local service, and is relayed to it, only
/// after the challenge was answered and the connection accepted under its key.
pub proof fn nothing_is_relayed_before_it_is_accepted(
    client: ProxyView,
    key: Seq<u8>,
    events: Seq<ClientEventView>,
    i: int,
)
    requires
        0 <= i < events.len(),
        accept_action(client, key, events, i) is Relay || accept_action(
            client,
            key,
            events,
            i,
        ) is Connect,
    ensures
        accept_answered(client, key, events.take(i)),
        accept_asked(client, key, events.take(i)),
{
    lemma_accepted_in_order(client, key, events.take(i));
}

/// An accepted connection where everything is done and the challenge comes: the client waits for
/// the challenge, answers it, accepts, connects to the local service, relays, and is done.
pub proof fn accepted_connection_is_relayed(client: ProxyView, key: Seq<u8>, challenge: Seq<u8>)
    ensures
        ({
            let done = ClientEventView::Done;
            let first = accept_next(client, key, Stage::Connecting, done);
            let second = accept_next(client, key, first.0, challenged(challenge));
            let third = accept_next(client, key, second.0, done);
            let fourth = accept_next(client, key, third.0, done);
            let fifth = accept_next(client, key, fourth.0, done);
            let sixth = accept_next(client, key, fifth.0, done);
            &&& first.1 is Receive
            &&& answers(client.seed, challenged(challenge), second.1)
            &&& third.1 == ClientActionView::Send(ClientMessageView::Accept(key))
            &&& fourth.1 == ClientActionView::Connect(client.local_host, client.local_port)
            &&& fifth.1 is Relay
            &&& sixth == (Stage::Over, ClientActionView::Close(Ok(())))
        }),
{
}

/// A control connection where everything is done, the challenge comes, and then a port: the client
/// waits for the challenge, answers it, asks for its port, waits for the reply, and keeps the
/// connection with the port that the server gave.
pub proof fn connected_client_keeps_its_port(client: ProxyView, challenge: Seq<u8>, port: u16)
    ensures
        ({
            let done = ClientEventView::Done;
            let given = ClientEventView::Received(Ok(Some(ServerMessageView::Hello(port))));
            let first = connect_next(client, Stage::Connecting, done);
            let second = connect_next(client, first.0, challenged(challenge));
            let third = connect_next(client, second.0, done);
            let fourth = connect_next(client, third.0, done);
            let fifth = connect_next(client, fourth.0, given);
            &&& first.1 is Receive
            &&& answers(client.seed, challenged(challenge), second.1)
            &&& third.1 == ClientActionView::Send(
                ClientMessageView::Hello(encoded_key(client.seed), client.local_port),
            )
            &&& fourth.1 is Receive
            &&& fifth == (Stage::Over, ClientActionView::Keep(port))
        }),
{
}

/// A control connection is kept only after the challenge was answered and the port asked for.
pub proof fn nothing_is_kept_before_it_is_asked_for(
    client: ProxyView,
    events: Seq<ClientEventView>,
    i: int,
)
    requires
        0 <= i < events.len(),
        connect_action(client, events, i) is Keep,
    ensures
        exists|a: int, b: int|
            {
                &&& 0 <= a < b < i
                &&& answers(client.seed, events[a], #[trigger] connect_action(client, events, a))
                &&& #[trigger] connect_action(client, events, b) == ClientActionView::Send(
                    ClientMessageView::Hello(encoded_key(client.seed), client.local_port),
                )
            },
{
    let n = i;
    assert(connect_after(client, events.take(n)) is AwaitingPort);
    assert(events.take(n).drop_last() =~= events.take(n - 1));
    assert(connect_after(client, events.take(n - 1)) is Requesting);
    assert(events.take(n - 1).drop_last() =~= events.take(n - 2));
    assert(connect_after(client, events.take(n - 2)) is Answering);
    assert(events.take(n - 2).drop_last() =~= events.take(n - 3));
    assert(connect_after(client, events.take(n - 3)) is AwaitingChallenge);
    assert(events.take(n - 1).last() == events[n - 2]);
    assert(events.take(n - 2).last() == events[n - 3]);
    assert(answers(client.seed, events[n - 3], connect_action(client, events, n - 3)));
    assert(connect_action(client, events, n - 2) == ClientActionView::Send(
        ClientMessageView::Hello(encoded_key(client.seed), client.local_port),
    ));
}

/// What a client does that listens on its control connection: it accepts each connection under the
/// key that it is asked with, passes over heartbeats, warns about messages that are out of place,
/// reports errors of the server, and stops at the end of the stream or when nothing can be
/// received.
pub proof fn listening_client_heeds_each_message(
    port: u16,
    challenge: Seq<u8>,
    key: Seq<u8>,
    text: Seq<char>,
    error: ReceiveError,
)
    ensures
        listen_next(Ok(Some(ServerMessageView::Connection(key)))) == ListenActionView::Accept(key),
        listen_next(Ok(Some(ServerMessageView::Heartbeat))) == ListenActionView::Ignore,
        listen_next(Ok(Some(ServerMessageView::Hello(port)))) == ListenActionView::Warn(
            "unexpected hello"@,
        ),
        listen_next(Ok(Some(ServerMessageView::Challenge(challenge)))) == ListenActionView::Warn(
            "unexpected challenge"@,
        ),
        listen_next(Ok(Some(ServerMessageView::Error(text)))) == ListenActionView::Report(text),
        listen_next(Ok(None)) == ListenActionView::Close(Ok(())),
        listen_next(Err(error)) == ListenActionView::Close(Err(error.text())),
{
}

/// Each outcome of the client's last action can come, and nothing else can.
pub proof fn client_can_get_each_outcome(stage: Stage, event: ClientEventView)
    ensures
        client_can_get(stage, event) <==> match stage {
            Stage::AwaitingChallenge | Stage::AwaitingPort => event is Received,
            Stage::Connecting | Stage::Answering | Stage::Requesting | Stage::ConnectingLocal
            | Stage::Relaying => !(event is Received),
            Stage::Over => false,
        },
{
}

/// Where the answer is well given, it convinces, but in the degenerate case.
pub proof fn well_given_answers_convince(seed: Seq<u8>, challenge: Seq<u8>)
    requires
        is_well_answered(seed, Stage::AwaitingChallenge, challenged(challenge)),
    ensures
        is_degenerate(seed, challenge) || is_convincing(seed, challenge),
{
}

/// The client's actions and events are seen as what they are, and a step is the stage and the
/// action that it names.
pub proof fn client_values_are_seen_as_they_are(
    host: String,
    port: u16,
    message: ClientMessage,
    text: String,
    received: ServerMessage,
    error: ReceiveError,
    key: PeerKey,
    next: (Stage, ClientAction),
    step: (Stage, ClientActionView),
)
    ensures
        ClientAction::Connect(host, port)@ == ClientActionView::Connect(host@, port),
        ClientAction::Receive@ == ClientActionView::Receive,
        ClientAction::Send(message)@ == ClientActionView::Send(message@),
        ClientAction::Relay@ == ClientActionView::Relay,
        ClientAction::Keep(port)@ == ClientActionView::Keep(port),
        ClientAction::Close(Ok(()))@ == ClientActionView::Close(Ok(())),
        ClientAction::Close(Err(text))@ == ClientActionView::Close(Err(text@)),
        ClientEvent::Done@ == ClientEventView::Done,
        ClientEvent::Failed(text)@ == ClientEventView::Failed(text@),
        ClientEvent::Received(Ok(Some(received)))@ == ClientEventView::Received(
            Ok(Some(received@)),
        ),
        ClientEvent::Received(Ok(None))@ == ClientEventView::Received(Ok(None)),
        ClientEvent::Received(Err(error))@ == ClientEventView::Received(Err(error)),
        server_reply_view(Ok(Some(received))) == Ok::<_, ReceiveError>(Some(received@)),
        server_reply_view(Ok(None)) == Ok::<Option<ServerMessageView>, ReceiveError>(None),
        server_reply_view(Err(error)) == Err::<Option<ServerMessageView>, _>(error),
        ListenAction::Ignore@ == ListenActionView::Ignore,
        ListenAction::Warn(text)@ == ListenActionView::Warn(text@),
        ListenAction::Accept(key)@ == ListenActionView::Accept(key@),
        ListenAction::Report(text)@ == ListenActionView::Report(text@),
        ListenAction::Close(Ok(()))@ == ListenActionView::Close(Ok(())),
        ListenAction::Close(Err(text))@ == ListenActionView::Close(Err(text@)),
        is_client_step(next, step) <==> next.0 == step.0 && next.1@ == step.1,
{
}

/// How long is waited: half a second between heartbeats, three seconds for a connection or a first
/// message, ten seconds for a client to accept. So a client is sent heartbeats more often than
/// anybody waits for it, and has time to connect and answer before its visitor is dropped.
pub proof fn waits_fit_into_each_other()
    ensures
        HEARTBEAT_INTERVAL == 500,
        NETWORK_TIMEOUT == 3,
        CONNECTION_LIFETIME == 10,
        HEARTBEAT_INTERVAL < NETWORK_TIMEOUT * 1000 < CONNECTION_LIFETIME * 1000,
{
}

} // verus!

//! What holds of every session of the server.

use crate::auth::{is_clock_time, reply_verdict};
use crate::connections::waiting;
use crate::ports::{BindError, PortError, PortSearch, PORT_ATTEMPTS};
use crate::outside::spki_public_key;
use crate::server::{Server, ServerView};
use crate::session::{
    asks_clock, can_come, is_outcome, makes_step, session_next, session_start, Action, ActionView,
    Event, EventView, Session, SessionView, Step,
};
use crate::shared::{
    ClientMessage, ClientMessageView, PeerKey, ReceiveError, ServerMessage, ServerMessageView,
};
use vstd::prelude::*;

verus! {

/// One turn of a session: the connections that wait when an event comes, which other sessions may
/// have changed, the event, the moment, and the port to try where any will do.
pub struct Turn {
    pub connections: Map<Seq<u8>, u64>,
    pub event: EventView,
    pub now: u64,
    pub pick: u16,
}

/// What follows in a session on a turn.
pub open spec fn turned(server: ServerView, session: SessionView, turn: Turn) -> Step {
    session_next(server, session, turn.connections, turn.event, turn.now, turn.pick)
}

/// The session after some turns.
pub open spec fn session_after(
    server: ServerView,
    first: SessionView,
    turns: Seq<Turn>,
) -> SessionView
    decreases turns.len(),
{
    if turns.len() == 0 {
        first
    } else {
        turned(server, session_after(server, first, turns.drop_last()), turns.last()).session
    }
}

/// What follows on a turn among some.
pub open spec fn step_at(
    server: ServerView,
    first: SessionView,
    turns: Seq<Turn>,
    i: int,
) -> Step {
    turned(server, session_after(server, first, turns.take(i)), turns[i])
}

/// Whether a turn can come in a session.
pub open spec fn turn_can_come(server: ServerView, session: SessionView, turn: Turn) -> bool {
    can_come(session, turn.event) && server.min_port <= turn.pick <= server.max_port
}

/// Whether turns can come one after another.
pub open spec fn is_run(server: ServerView, first: SessionView, turns: Seq<Turn>) -> bool
    decreases turns.len(),
{
    turns.len() == 0 || is_run(server, first, turns.drop_last()) && turn_can_come(
        server,
        session_after(server, first, turns.drop_last()),
        turns.last(),
    )
}

/// Whether a turn brings an answer that is accepted.
pub open spec fn is_accepted(
    server: ServerView,
    challenge: Seq<u8>,
    timestamp: u64,
    turn: Turn,
) -> bool {
    turn.event matches EventView::Received(reply) && reply_verdict(
        server.allowed,
        challenge,
        timestamp,
        reply,
        turn.now,
    ) is Ok
}

/// Whether some turn brings an answer that is accepted.
pub open spec fn is_admitted(
    server: ServerView,
    challenge: Seq<u8>,
    timestamp: u64,
    turns: Seq<Turn>,
) -> bool {
    exists|i: int|
        0 <= i < turns.len() && is_accepted(server, challenge, timestamp, #[trigger] turns[i])
}

/// Whether only an authenticated client gets so far.
pub open spec fn is_authenticated(session: SessionView) -> bool {
    match session {
        SessionView::Challenging { .. } | SessionView::AwaitingAnswer { .. }
        | SessionView::Refusing | SessionView::Closed => false,
        _ => true,
    }
}

/// Whether an action may be done for a client that is not authenticated: it is sent its challenge
/// or an error, heard, and let go.
pub open spec fn is_harmless(action: ActionView) -> bool {
    match action {
        ActionView::Send(ServerMessageView::Challenge(_))
        | ActionView::Send(ServerMessageView::Error(_)) | ActionView::Receive
        | ActionView::Close(_) => true,
        _ => false,
    }
}

/// A session gets beyond the challenge only with an accepted answer to this very challenge.
pub proof fn session_needs_an_answer(
    server: ServerView,
    challenge: Seq<u8>,
    timestamp: u64,
    turns: Seq<Turn>,
)
    requires
        is_run(server, SessionView::Challenging { challenge, timestamp }, turns),
    ensures
        ({
            let first = SessionView::Challenging { challenge, timestamp };
            let last = session_after(server, first, turns);
            &&& is_authenticated(last) ==> is_admitted(server, challenge, timestamp, turns)
            &&& last is Challenging ==> last == first
            &&& last is AwaitingAnswer ==> last == (SessionView::AwaitingAnswer {
                challenge,
                timestamp,
            })
        }),
    decreases turns.len(),
{
    if turns.len() > 0 {
        let first = SessionView::Challenging { challenge, timestamp };
        let before = turns.drop_last();
        session_needs_an_answer(server, challenge, timestamp, before);
        if is_admitted(server, challenge, timestamp, before) {
            let i = choose|i: int|
                0 <= i < before.len() && is_accepted(
                    server,
                    challenge,
                    timestamp,
                    #[trigger] before[i],
                );
            assert(turns[i] == before[i]);
        } else if is_authenticated(session_after(server, first, turns)) {
            assert(is_accepted(server, challenge, timestamp, turns[turns.len() - 1]));
        }
    }
}

/// Before a client has answered its challenge with an accepted answer, it is sent nothing but the
/// challenge and errors, no port is bound, nothing is reported or forwarded, and the connections
/// that wait stay as they are.
pub proof fn nothing_is_done_for_strangers(
    server: ServerView,
    challenge: Seq<u8>,
    timestamp: u64,
    turns: Seq<Turn>,
    i: int,
)
    requires
        is_run(server, SessionView::Challenging { challenge, timestamp }, turns),
        0 <= i < turns.len(),
        !is_admitted(server, challenge, timestamp, turns.take(i)),
    ensures
        ({
            let step = step_at(
                server,
                SessionView::Challenging { challenge, timestamp },
                turns,
                i,
            );
            is_harmless(step.action) && step.connections == turns[i].connections
        }),
{
    let first = SessionView::Challenging { challenge, timestamp };
    lemma_run_prefix(server, first, turns, i);
    session_needs_an_answer(server, challenge, timestamp, turns.take(i));
}

/// A part of a run is a run, and the next turn can come.
proof fn lemma_run_prefix(server: ServerView, first: SessionView, turns: Seq<Turn>, i: int)
    requires
        is_run(server, first, turns),
        0 <= i < turns.len(),
    ensures
        is_run(server, first, turns.take(i)),
        turn_can_come(server, session_after(server, first, turns.take(i)), turns[i]),
    decreases turns.len(),
{
    let before = turns.drop_last();
    if i == turns.len() - 1 {
        assert(turns.take(i) =~= before);
    } else {
        lemma_run_prefix(server, first, before, i);
        assert(before.take(i) =~= turns.take(i));
        assert(before[i] == turns[i]);
    }
}

/// Only ports of the range that can be forwarded are asked for, and a peer is reported as connected
/// only with a port of that range, whichever port the system bound.
pub proof fn bound_ports_can_be_forwarded(server: ServerView, session: SessionView, turn: Turn)
    requires
        turn_can_come(server, session, turn),
    ensures
        match turned(server, session, turn).action {
            ActionView::Bind(port) => server.min_port <= port <= server.max_port,
            ActionView::Connected(_, port) => server.min_port <= port <= server.max_port,
            _ => true,
        },
{
}

/// No client is told a port outside the range that can be forwarded.
pub proof fn told_ports_can_be_forwarded(
    server: ServerView,
    challenge: Seq<u8>,
    timestamp: u64,
    turns: Seq<Turn>,
    i: int,
)
    requires
        is_run(server, SessionView::Challenging { challenge, timestamp }, turns),
        0 <= i < turns.len(),
    ensures
        step_at(server, SessionView::Challenging { challenge, timestamp }, turns, i).action matches
            ActionView::Send(ServerMessageView::Hello(port)) ==> server.min_port <= port
            <= server.max_port,
{
    let first = SessionView::Challenging { challenge, timestamp };
    lemma_run_prefix(server, first, turns, i);
    lemma_announced_port(server, challenge, timestamp, turns.take(i));
}

proof fn lemma_announced_port(
    server: ServerView,
    challenge: Seq<u8>,
    timestamp: u64,
    turns: Seq<Turn>,
)
    requires
        is_run(server, SessionView::Challenging { challenge, timestamp }, turns),
    ensures
        session_after(server, SessionView::Challenging { challenge, timestamp }, turns) matches
            SessionView::Announcing { port, .. } ==> server.min_port <= port <= server.max_port,
    decreases turns.len(),
{
    if turns.len() > 0 {
        lemma_announced_port(server, challenge, timestamp, turns.drop_last());
    }
}

/// Why a port counts as not bound, if it does: it could not be bound, or the system chose one
/// outside the range that can be forwarded.
pub open spec fn bind_error(server: ServerView, event: EventView) -> Option<BindError> {
    match event {
        EventView::BindFailed(error) => Some(error),
        EventView::Bound(port) => if server.min_port <= port <= server.max_port {
            None
        } else {
            Some(BindError::Other)
        },
        _ => None,
    }
}

/// How the search for a port ends where no port can be bound. A port that the client asked for is
/// tried once, and the reason is reported; if the client asked for any, as many ports are tried as
/// are to be, and the failure is reported.
pub proof fn port_search_ends(
    server: ServerView,
    key: Seq<u8>,
    requested: u16,
    turns: Seq<Turn>,
)
    requires
        forall|i: int|
            0 <= i < turns.len() ==> bind_error(server, (#[trigger] turns[i]).event) is Some,
        turns.len() <= (if requested == 0 {
            PORT_ATTEMPTS as int
        } else {
            1
        }),
    ensures
        ({
            let first = SessionView::Binding { key, search: PortSearch { requested, failures: 0 } };
            let last = session_after(server, first, turns);
            let n = turns.len() as int;
            if requested == 0 && n < PORT_ATTEMPTS || n == 0 {
                &&& last == (SessionView::Binding {
                    key,
                    search: PortSearch { requested, failures: n as u8 },
                })
                &&& n > 0 ==> step_at(server, first, turns, n - 1).action == ActionView::Bind(
                    turns[n - 1].pick,
                )
            } else {
                let error = if requested == 0 {
                    PortError::NoneAvailable
                } else {
                    PortError::Bind(bind_error(server, turns[0].event)->Some_0)
                };
                &&& last == SessionView::Refusing
                &&& step_at(server, first, turns, n - 1).action == ActionView::Send(
                    ServerMessageView::Error(error.text()),
                )
            }
        }),
    decreases turns.len(),
{
    if turns.len() > 0 {
        let before = turns.drop_last();
        assert forall|i: int| 0 <= i < before.len() implies bind_error(
            server,
            (#[trigger] before[i]).event,
        ) is Some by {
            assert(turns[i] == before[i]);
        }
        port_search_ends(server, key, requested, before);
        assert(turns.take(turns.len() - 1) =~= before);
        assert(bind_error(server, turns[turns.len() - 1].event) is Some);
    }
}

/// Whether an event is the end of sending something.
pub open spec fn is_sent(event: EventView) -> bool {
    event is Done || event is Failed
}

/// A client whose answer is not accepted is told why, in the words of the fault, and then the
/// connection ends.
pub proof fn refused_answer_is_answered(
    server: ServerView,
    challenge: Seq<u8>,
    timestamp: u64,
    turn: Turn,
    sent: Turn,
)
    requires
        turn.event is Received,
        is_sent(sent.event),
        reply_verdict(
            server.allowed,
            challenge,
            timestamp,
            turn.event->Received_0,
            turn.now,
        ) is Err,
    ensures
        ({
            let fault = reply_verdict(
                server.allowed,
                challenge,
                timestamp,
                turn.event->Received_0,
                turn.now,
            )->Err_0;
            let told = turned(server, SessionView::AwaitingAnswer { challenge, timestamp }, turn);
            let ended = turned(server, told.session, sent);
            &&& told.action == ActionView::Send(ServerMessageView::Error(fault.text()))
            &&& ended.session is Closed
            &&& ended.action is Close
            &&& told.connections == turn.connections
            &&& ended.connections == sent.connections
        }),
{
}

/// A client that asks for a port that cannot be forwarded is told so, and then the connection
/// ends.
pub proof fn port_out_of_range_is_refused(
    server: ServerView,
    key: Seq<u8>,
    port: u16,
    turn: Turn,
    sent: Turn,
)
    requires
        port != 0,
        !(server.min_port <= port <= server.max_port),
        turn.event == EventView::Received(Ok(Some(ClientMessageView::Hello(key, port)))),
        is_sent(sent.event),
    ensures
        ({
            let told = turned(server, SessionView::AwaitingRequest, turn);
            let ended = turned(server, told.session, sent);
            &&& told.action == ActionView::Send(
                ServerMessageView::Error("client port number not in allowed range"@),
            )
            &&& ended.session is Closed
            &&& ended.action is Close
        }),
{
}

/// A client that asks for a port gets it, if one that can be forwarded is bound: the peer is
/// reported with its port, the client is told the port, and then heartbeats start.
pub proof fn client_gets_its_port(
    server: ServerView,
    key: Seq<u8>,
    port: u16,
    bound: u16,
    asked: Turn,
    given: Turn,
    reported: Turn,
    told: Turn,
)
    requires
        port == 0 || server.min_port <= port <= server.max_port,
        asked.event == EventView::Received(Ok(Some(ClientMessageView::Hello(key, port)))),
        given.event == EventView::Bound(bound),
        server.min_port <= bound <= server.max_port,
        reported.event is Done,
        told.event is Done,
    ensures
        ({
            let binding = turned(server, SessionView::AwaitingRequest, asked);
            let announcing = turned(server, binding.session, given);
            let greeting = turned(server, announcing.session, reported);
            let beating = turned(server, greeting.session, told);
            &&& binding.action == ActionView::Bind(
                if port == 0 {
                    asked.pick
                } else {
                    port
                },
            )
            &&& announcing.action == ActionView::Connected(key, bound)
            &&& greeting.action == ActionView::Send(ServerMessageView::Hello(bound))
            &&& beating.action == ActionView::Send(ServerMessageView::Heartbeat)
            &&& beating.session == SessionView::Beating { key }
        }),
{
}

/// How many peers a run reports as connected.
pub open spec fn connects(server: ServerView, first: SessionView, turns: Seq<Turn>) -> nat
    decreases turns.len(),
{
    if turns.len() == 0 {
        0
    } else {
        connects(server, first, turns.drop_last()) + if step_at(
            server,
            first,
            turns,
            turns.len() - 1,
        ).action is Connected {
            1nat
        } else {
            0nat
        }
    }
}

/// How many peers a run reports as disconnected.
pub open spec fn disconnects(server: ServerView, first: SessionView, turns: Seq<Turn>) -> nat
    decreases turns.len(),
{
    if turns.len() == 0 {
        0
    } else {
        disconnects(server, first, turns.drop_last()) + if step_at(
            server,
            first,
            turns,
            turns.len() - 1,
        ).action is Disconnected {
            1nat
        } else {
            0nat
        }
    }
}

/// The key under which a session has reported a peer as connected, but not yet as disconnected.
pub open spec fn peer_of(session: SessionView) -> Option<Seq<u8>> {
    match session {
        SessionView::Announcing { key, .. } | SessionView::Greeting { key }
        | SessionView::Beating { key } | SessionView::Listening { key }
        | SessionView::Parking { key } | SessionView::Inviting { key } => Some(key),
        _ => None,
    }
}

/// A session reports at most one peer as connected, and at most one as disconnected: while the
/// peer is there only the first, and never the second without the first.
pub proof fn peers_come_and_go_once(
    server: ServerView,
    challenge: Seq<u8>,
    timestamp: u64,
    turns: Seq<Turn>,
)
    requires
        is_run(server, SessionView::Challenging { challenge, timestamp }, turns),
    ensures
        ({
            let first = SessionView::Challenging { challenge, timestamp };
            let last = session_after(server, first, turns);
            let came = connects(server, first, turns);
            let went = disconnects(server, first, turns);
            &&& went <= came <= 1
            &&& peer_of(last) is Some ==> came == 1 && went == 0
            &&& last is Leaving ==> came == 1 && went == 1
            &&& peer_of(last) is None && !(last is Leaving) && !(last is Closed) ==> came == 0
        }),
    decreases turns.len(),
{
    if turns.len() > 0 {
        peers_come_and_go_once(server, challenge, timestamp, turns.drop_last());
        assert(turns.take(turns.len() - 1) =~= turns.drop_last());
    }
}

/// The peer that a session reports as disconnected is the one that it reported as connected.
pub proof fn the_peer_that_goes_is_the_one_that_came(
    server: ServerView,
    challenge: Seq<u8>,
    timestamp: u64,
    turns: Seq<Turn>,
    j: int,
)
    requires
        is_run(server, SessionView::Challenging { challenge, timestamp }, turns),
        0 <= j < turns.len(),
        step_at(server, SessionView::Challenging { challenge, timestamp }, turns, j).action
            is Disconnected,
    ensures
        ({
            let first = SessionView::Challenging { challenge, timestamp };
            exists|i: int|
                0 <= i < j && ((#[trigger] step_at(server, first, turns, i)).action matches
                    ActionView::Connected(key, _) && step_at(server, first, turns, j).action
                    == ActionView::Disconnected(key))
        }),
{
    let first = SessionView::Challenging { challenge, timestamp };
    lemma_run_prefix(server, first, turns, j);
    let before = turns.take(j);
    lemma_peer_was_reported(server, challenge, timestamp, before);
    let key = peer_of(session_after(server, first, before))->Some_0;
    let i = choose|i: int|
        0 <= i < before.len() && ((#[trigger] step_at(server, first, before, i)).action matches
            ActionView::Connected(k, _) && k == key);
    assert(before.take(i) =~= turns.take(i));
    assert(step_at(server, first, turns, i) == step_at(server, first, before, i));
}

proof fn lemma_peer_was_reported(
    server: ServerView,
    challenge: Seq<u8>,
    timestamp: u64,
    turns: Seq<Turn>,
)
    requires
        is_run(server, SessionView::Challenging { challenge, timestamp }, turns),
    ensures
        ({
            let first = SessionView::Challenging { challenge, timestamp };
            peer_of(session_after(server, first, turns)) matches Some(key) ==> exists|i: int|
                0 <= i < turns.len() && ((#[trigger] step_at(server, first, turns, i)).action
                    matches ActionView::Connected(k, _) && k == key)
        }),
    decreases turns.len(),
{
    if turns.len() > 0 {
        let first = SessionView::Challenging { challenge, timestamp };
        let before = turns.drop_last();
        lemma_peer_was_reported(server, challenge, timestamp, before);
        assert(turns.take(turns.len() - 1) =~= before);
        if let Some(key) = peer_of(session_after(server, first, turns)) {
            if peer_of(session_after(server, first, before)) is Some {
                let i = choose|i: int|
                    0 <= i < before.len() && ((#[trigger] step_at(server, first, before, i)).action
                        matches ActionView::Connected(k, _) && k == key);
                assert(before.take(i) =~= turns.take(i));
                assert(step_at(server, first, turns, i) == step_at(server, first, before, i));
            } else {
                assert(step_at(server, first, turns, turns.len() - 1).action is Connected);
            }
        }
    }
}

/// A peer that can no longer be sent anything is reported as disconnected, and then the connection
/// ends.
pub proof fn lost_peer_is_reported(
    server: ServerView,
    session: SessionView,
    key: Seq<u8>,
    turn: Turn,
    sent: Turn,
)
    requires
        session == (SessionView::Greeting { key }) || session == (SessionView::Beating { key })
            || session == (SessionView::Inviting { key }),
        turn.event is Failed,
        sent.event is Done,
    ensures
        ({
            let leaving = turned(server, session, turn);
            let ended = turned(server, leaving.session, sent);
            &&& leaving.action == ActionView::Disconnected(key)
            &&& ended.session is Closed
            &&& ended.action is Close
        }),
{
}

/// Somebody who connects to a client's port waits under the client's key, and the client is asked
/// to accept. Where nothing else happens to the key meanwhile, whoever accepts under the key gets
/// that connection, and nobody waits under it any more; the other keys are left alone.
pub proof fn connection_reaches_its_client(
    server: ServerView,
    key: Seq<u8>,
    connection: u64,
    incoming: Turn,
    parked: Turn,
    accepting: Turn,
    late: Turn,
)
    requires
        incoming.event == EventView::Incoming(connection),
        parked.event is Done,
        accepting.event == EventView::Received(Ok(Some(ClientMessageView::Accept(key)))),
        late.event == EventView::Received(Ok(Some(ClientMessageView::Accept(key)))),
        ({
            let parking = turned(server, SessionView::Listening { key }, incoming);
            waiting(accepting.connections, key) == waiting(parking.connections, key)
        }),
        ({
            let forwarding = turned(server, SessionView::AwaitingRequest, accepting);
            waiting(late.connections, key) == waiting(forwarding.connections, key)
        }),
    ensures
        ({
            let parking = turned(server, SessionView::Listening { key }, incoming);
            let inviting = turned(server, parking.session, parked);
            let forwarding = turned(server, SessionView::AwaitingRequest, accepting);
            let missing = turned(server, SessionView::AwaitingRequest, late);
            &&& waiting(parking.connections, key) == Some(connection)
            &&& parking.action == (ActionView::Expire {
                key,
                replaced: waiting(incoming.connections, key),
            })
            &&& inviting.action == ActionView::Send(ServerMessageView::Connection(key))
            &&& forwarding.action == ActionView::Forward(connection)
            &&& waiting(forwarding.connections, key) is None
            &&& missing.action == ActionView::Close(Ok(()))
            &&& forall|other: Seq<u8>| #![auto]
                other != key ==> waiting(parking.connections, other) == waiting(
                    incoming.connections,
                    other,
                ) && waiting(forwarding.connections, other) == waiting(accepting.connections, other)
        }),
{
}

/// Whether what follows in a session depends on the port to try where any will do.
pub open spec fn asks_port(server: ServerView, session: SessionView, event: EventView) -> bool {
    match (session, event) {
        (
            SessionView::AwaitingRequest,
            EventView::Received(Ok(Some(ClientMessageView::Hello(_, port)))),
        ) => port == 0,
        (SessionView::Binding { search, .. }, _) => search.requested == 0 && bind_error(
            server,
            event,
        ) is Some,
        _ => false,
    }
}

/// What follows in a session depends on the moment only where an answer under an allowed key came,
/// and on the port to try only where the client asked for any.
pub proof fn session_is_determined(
    server: ServerView,
    session: SessionView,
    connections: Map<Seq<u8>, u64>,
    event: EventView,
    now: u64,
    pick: u16,
    other_now: u64,
    other_pick: u16,
)
    requires
        now == other_now || !asks_clock(server, session, event),
        pick == other_pick || !asks_port(server, session, event),
    ensures
        session_next(server, session, connections, event, now, pick) == session_next(
            server,
            session,
            connections,
            event,
            other_now,
            other_pick,
        ),
{
}

/// The connections that wait change in two ways only: one that comes in waits under the key of the
/// session's client, and one that is accepted leaves the key that it is accepted under.
pub proof fn waiting_connections_are_kept(server: ServerView, session: SessionView, turn: Turn)
    requires
        turn_can_come(server, session, turn),
    ensures
        ({
            let after = turned(server, session, turn).connections;
            ||| after == turn.connections
            ||| session matches SessionView::Listening { key } && (turn.event matches
                EventView::Incoming(connection) && after == turn.connections.insert(
                key,
                connection,
            ))
            ||| session is AwaitingRequest && (turn.event matches EventView::Received(
                Ok(Some(ClientMessageView::Accept(key))),
            ) && turn.connections.contains_key(key) && after == turn.connections.remove(key))
        }),
{
}

/// The server waits for connections only after a heartbeat was sent, and a session that beats
/// sends a heartbeat.
pub proof fn heartbeats_come_between_waits(server: ServerView, session: SessionView, turn: Turn)
    requires
        turn_can_come(server, session, turn),
    ensures
        ({
            let step = turned(server, session, turn);
            &&& step.action is Listen ==> session is Beating && turn.event is Done
            &&& step.session is Beating ==> step.action == ActionView::Send(
                ServerMessageView::Heartbeat,
            )
        }),
{
}

/// The challenge is the first message of a session and is not sent again; an error is the last.
pub proof fn challenge_is_first_and_error_is_last(
    server: ServerView,
    session: SessionView,
    turn: Turn,
    sent: Turn,
)
    requires
        turn_can_come(server, session, turn),
        turn_can_come(server, turned(server, session, turn).session, sent),
    ensures
        ({
            let step = turned(server, session, turn);
            step.action matches ActionView::Send(message) ==> !(message is Challenge) && (
            message is Error ==> turned(server, step.session, sent).session is Closed)
        }),
{
}

/// A session is closed exactly when its connection is to be ended, and nothing can come then.
pub proof fn closed_sessions_stay_closed(
    server: ServerView,
    session: SessionView,
    turn: Turn,
    event: EventView,
)
    requires
        turn_can_come(server, session, turn),
    ensures
        ({
            let step = turned(server, session, turn);
            &&& step.session is Closed <==> step.action is Close
            &&& step.session is Closed ==> !can_come(step.session, event)
        }),
{
}

/// Messages, and the one that an action sends, if it sends one.
pub open spec fn with_sent(
    messages: Seq<ServerMessageView>,
    action: ActionView,
) -> Seq<ServerMessageView> {
    match action {
        ActionView::Send(message) => messages.push(message),
        _ => messages,
    }
}

/// The messages that a session sends, from its challenge on, in their order.
pub open spec fn sent_messages(
    server: ServerView,
    challenge: Seq<u8>,
    timestamp: u64,
    turns: Seq<Turn>,
) -> Seq<ServerMessageView>
    decreases turns.len(),
{
    if turns.len() == 0 {
        with_sent(Seq::empty(), session_start(Map::empty(), challenge, timestamp).action)
    } else {
        with_sent(
            sent_messages(server, challenge, timestamp, turns.drop_last()),
            step_at(
                server,
                SessionView::Challenging { challenge, timestamp },
                turns,
                turns.len() - 1,
            ).action,
        )
    }
}

/// Whether messages start as those of every session do: the challenge, and then either one error,
/// or a greeting followed by heartbeats, with at most one invitation after each.
pub open spec fn is_orderly(messages: Seq<ServerMessageView>) -> bool {
    &&& messages.len() > 0 ==> messages[0] is Challenge
    &&& messages.len() > 1 ==> if messages[1] is Error {
        messages.len() == 2
    } else {
        messages[1] is Hello
    }
    &&& forall|i: int|
        2 <= i < messages.len() ==> {
            ||| (#[trigger] messages[i]) is Heartbeat
            ||| messages[i] is Connection && messages[i - 1] is Heartbeat
        }
}

/// Whether messages are those that a session has sent when it has come so far.
spec fn fits_stage(session: SessionView, messages: Seq<ServerMessageView>) -> bool {
    match session {
        SessionView::Refusing => messages.len() == 2 && messages[1] is Error,
        SessionView::Greeting { .. } => messages.len() == 2 && messages[1] is Hello,
        SessionView::Beating { .. } | SessionView::Listening { .. }
        | SessionView::Parking { .. } => messages.len() > 2 && messages[1] is Hello
            && messages.last() is Heartbeat,
        SessionView::Inviting { .. } => messages.len() > 2 && messages[1] is Hello,
        SessionView::Leaving { .. } | SessionView::Closed => true,
        _ => messages.len() == 1,
    }
}

/// The messages of a session come in order: the challenge first and once; then either an error,
/// which is the last, or a greeting, once and before any heartbeat or invitation; then heartbeats,
/// with at most one invitation after each.
pub proof fn messages_come_in_order(
    server: ServerView,
    challenge: Seq<u8>,
    timestamp: u64,
    turns: Seq<Turn>,
)
    requires
        is_run(server, SessionView::Challenging { challenge, timestamp }, turns),
    ensures
        is_orderly(sent_messages(server, challenge, timestamp, turns)),
        sent_messages(server, challenge, timestamp, turns).len() > 0,
        sent_messages(server, challenge, timestamp, turns)[0] == ServerMessageView::Challenge(
            challenge,
        ),
{
    lemma_messages_in_order(server, challenge, timestamp, turns);
}

proof fn lemma_messages_in_order(
    server: ServerView,
    challenge: Seq<u8>,
    timestamp: u64,
    turns: Seq<Turn>,
)
    requires
        is_run(server, SessionView::Challenging { challenge, timestamp }, turns),
    ensures
        ({
            let first = SessionView::Challenging { challenge, timestamp };
            let messages = sent_messages(server, challenge, timestamp, turns);
            &&& is_orderly(messages)
            &&& messages.len() > 0
            &&& messages[0] == ServerMessageView::Challenge(challenge)
            &&& fits_stage(session_after(server, first, turns), messages)
        }),
    decreases turns.len(),
{
    if turns.len() > 0 {
        lemma_messages_in_order(server, challenge, timestamp, turns.drop_last());
        assert(turns.take(turns.len() - 1) =~= turns.drop_last());
    }
}

/// A challenge that was sent is waited upon, and stays the one that the answer is held against; the
/// words of a failure to send it are sent to the client.
pub proof fn challenge_is_waited_upon(
    server: ServerView,
    challenge: Seq<u8>,
    timestamp: u64,
    text: Seq<char>,
    connections: Map<Seq<u8>, u64>,
    now: u64,
    pick: u16,
)
    ensures
        session_next(
            server,
            SessionView::Challenging { challenge, timestamp },
            connections,
            EventView::Done,
            now,
            pick,
        ) == (Step {
            session: SessionView::AwaitingAnswer { challenge, timestamp },
            connections,
            action: ActionView::Receive,
        }),
        session_next(
            server,
            SessionView::Challenging { challenge, timestamp },
            connections,
            EventView::Failed(text),
            now,
            pick,
        ) == (Step {
            session: SessionView::Refusing,
            connections,
            action: ActionView::Send(ServerMessageView::Error(text)),
        }),
{
}

/// A client whose answer is accepted is heard next; any other is told why not.
pub proof fn verdict_is_carried_out(
    server: ServerView,
    challenge: Seq<u8>,
    timestamp: u64,
    reply: Result<Option<ClientMessageView>, ReceiveError>,
    connections: Map<Seq<u8>, u64>,
    now: u64,
    pick: u16,
)
    ensures
        match reply_verdict(server.allowed, challenge, timestamp, reply, now) {
            Ok(()) => session_next(
                server,
                SessionView::AwaitingAnswer { challenge, timestamp },
                connections,
                EventView::Received(reply),
                now,
                pick,
            ) == (Step {
                session: SessionView::AwaitingRequest,
                connections,
                action: ActionView::Receive,
            }),
            Err(fault) => session_next(
                server,
                SessionView::AwaitingAnswer { challenge, timestamp },
                connections,
                EventView::Received(reply),
                now,
                pick,
            ) == (Step {
                session: SessionView::Refusing,
                connections,
                action: ActionView::Send(ServerMessageView::Error(fault.text())),
            }),
        },
{
}

/// A client that asks for a port has that port bound, if it can be forwarded, or the one that was
/// picked if it asked for any; otherwise it is told that the port is out of range.
pub proof fn requests_for_ports_are_served(
    server: ServerView,
    key: Seq<u8>,
    port: u16,
    connections: Map<Seq<u8>, u64>,
    now: u64,
    pick: u16,
)
    ensures
        port == 0 ==> session_next(
            server,
            SessionView::AwaitingRequest,
            connections,
            EventView::Received(Ok(Some(ClientMessageView::Hello(key, port)))),
            now,
            pick,
        ) == (Step {
            session: SessionView::Binding { key, search: PortSearch { requested: 0, failures: 0 } },
            connections,
            action: ActionView::Bind(pick),
        }),
        port != 0 && server.min_port <= port <= server.max_port ==> session_next(
            server,
            SessionView::AwaitingRequest,
            connections,
            EventView::Received(Ok(Some(ClientMessageView::Hello(key, port)))),
            now,
            pick,
        ) == (Step {
            session: SessionView::Binding {
                key,
                search: PortSearch { requested: port, failures: 0 },
            },
            connections,
            action: ActionView::Bind(port),
        }),
        port != 0 && !(server.min_port <= port <= server.max_port) ==> session_next(
            server,
            SessionView::AwaitingRequest,
            connections,
            EventView::Received(Ok(Some(ClientMessageView::Hello(key, port)))),
            now,
            pick,
        ) == (Step {
            session: SessionView::Refusing,
            connections,
            action: ActionView::Send(
                ServerMessageView::Error("client port number not in allowed range"@),
            ),
        }),
{
}

/// Whoever accepts under a key is given the connection that waits under it, which then waits no
/// more; where none does, the connection just ends.
pub proof fn acceptances_are_served(
    server: ServerView,
    key: Seq<u8>,
    connections: Map<Seq<u8>, u64>,
    now: u64,
    pick: u16,
)
    ensures
        connections.contains_key(key) ==> session_next(
            server,
            SessionView::AwaitingRequest,
            connections,
            EventView::Received(Ok(Some(ClientMessageView::Accept(key)))),
            now,
            pick,
        ) == (Step {
            session: SessionView::Forwarding,
            connections: connections.remove(key),
            action: ActionView::Forward(connections[key]),
        }),
        !connections.contains_key(key) ==> session_next(
            server,
            SessionView::AwaitingRequest,
            connections,
            EventView::Received(Ok(Some(ClientMessageView::Accept(key)))),
            now,
            pick,
        ) == (Step {
            session: SessionView::Closed,
            connections,
            action: ActionView::Close(Ok(())),
        }),
{
}

/// A second answer and the end of the stream end the connection, and so does a failure to receive,
/// which is reported.
pub proof fn requests_for_nothing_end_the_connection(
    server: ServerView,
    key: Seq<u8>,
    signature: Seq<char>,
    error: ReceiveError,
    connections: Map<Seq<u8>, u64>,
    now: u64,
    pick: u16,
)
    ensures
        session_next(
            server,
            SessionView::AwaitingRequest,
            connections,
            EventView::Received(
                Ok(Some(ClientMessageView::Authenticate { public_key: key, signature })),
            ),
            now,
            pick,
        ) == (Step {
            session: SessionView::Closed,
            connections,
            action: ActionView::Close(Ok(())),
        }),
        session_next(
            server,
            SessionView::AwaitingRequest,
            connections,
            EventView::Received(Ok(None)),
            now,
            pick,
        ) == (Step {
            session: SessionView::Closed,
            connections,
            action: ActionView::Close(Ok(())),
        }),
        session_next(
            server,
            SessionView::AwaitingRequest,
            connections,
            EventView::Received(Err(error)),
            now,
            pick,
        ) == (Step {
            session: SessionView::Closed,
            connections,
            action: ActionView::Close(Err(error.text())),
        }),
{
}

/// A port that was bound and can be forwarded is the client's: the peer is reported with it, and
/// then the client is told. A failure of the listener ends the connection and is reported.
pub proof fn bound_port_is_given_to_the_client(
    server: ServerView,
    key: Seq<u8>,
    search: PortSearch,
    port: u16,
    text: Seq<char>,
    connections: Map<Seq<u8>, u64>,
    now: u64,
    pick: u16,
)
    ensures
        server.min_port <= port <= server.max_port ==> session_next(
            server,
            SessionView::Binding { key, search },
            connections,
            EventView::Bound(port),
            now,
            pick,
        ) == (Step {
            session: SessionView::Announcing { key, port },
            connections,
            action: ActionView::Connected(key, port),
        }),
        session_next(
            server,
            SessionView::Announcing { key, port },
            connections,
            EventView::Done,
            now,
            pick,
        ) == (Step {
            session: SessionView::Greeting { key },
            connections,
            action: ActionView::Send(ServerMessageView::Hello(port)),
        }),
        session_next(
            server,
            SessionView::Binding { key, search },
            connections,
            EventView::Failed(text),
            now,
            pick,
        ) == (Step {
            session: SessionView::Closed,
            connections,
            action: ActionView::Close(Err(text)),
        }),
{
}

/// Where a port could not be bound, or the system chose one that cannot be forwarded, a client that
/// asked for any gets another try, up to a hundred and fifty in all, and one that asked for a
/// certain port is told the reason.
pub proof fn unbound_ports_are_tried_again_or_reported(
    server: ServerView,
    key: Seq<u8>,
    search: PortSearch,
    event: EventView,
    connections: Map<Seq<u8>, u64>,
    now: u64,
    pick: u16,
)
    requires
        event is BindFailed || (event matches EventView::Bound(port) && !(server.min_port <= port
            <= server.max_port)),
    ensures
        search.requested == 0 && search.failures < 149 ==> session_next(
            server,
            SessionView::Binding { key, search },
            connections,
            event,
            now,
            pick,
        ) == (Step {
            session: SessionView::Binding {
                key,
                search: PortSearch { requested: 0, failures: (search.failures + 1) as u8 },
            },
            connections,
            action: ActionView::Bind(pick),
        }),
        search.requested == 0 && search.failures >= 149 ==> session_next(
            server,
            SessionView::Binding { key, search },
            connections,
            event,
            now,
            pick,
        ) == (Step {
            session: SessionView::Refusing,
            connections,
            action: ActionView::Send(ServerMessageView::Error("failed to find an available port"@)),
        }),
        search.requested != 0
            && event == EventView::BindFailed(BindError::AddrInUse) ==> session_next(
            server,
            SessionView::Binding { key, search },
            connections,
            event,
            now,
            pick,
        ) == (Step {
            session: SessionView::Refusing,
            connections,
            action: ActionView::Send(ServerMessageView::Error("port already in use"@)),
        }),
        search.requested != 0
            && event == EventView::BindFailed(BindError::PermissionDenied) ==> session_next(
            server,
            SessionView::Binding { key, search },
            connections,
            event,
            now,
            pick,
        ) == (Step {
            session: SessionView::Refusing,
            connections,
            action: ActionView::Send(ServerMessageView::Error("permission denied"@)),
        }),
        search.requested != 0
            && (event is Bound || event == EventView::BindFailed(BindError::Other))
            ==> session_next(
            server,
            SessionView::Binding { key, search },
            connections,
            event,
            now,
            pick,
        ) == (Step {
            session: SessionView::Refusing,
            connections,
            action: ActionView::Send(ServerMessageView::Error("failed to bind to port"@)),
        }),
{
}

/// A client that was told its port is sent a heartbeat. After a heartbeat was sent the server waits
/// for a connection; where nobody connects before the next heartbeat is due, that heartbeat is
/// sent. So the tunnel stays open, with a wait between any two heartbeats.
pub proof fn heartbeats_and_waits_take_turns(
    server: ServerView,
    key: Seq<u8>,
    connections: Map<Seq<u8>, u64>,
    now: u64,
    pick: u16,
)
    ensures
        session_next(
            server,
            SessionView::Greeting { key },
            connections,
            EventView::Done,
            now,
            pick,
        ) == (Step {
            session: SessionView::Beating { key },
            connections,
            action: ActionView::Send(ServerMessageView::Heartbeat),
        }),
        session_next(
            server,
            SessionView::Beating { key },
            connections,
            EventView::Done,
            now,
            pick,
        ) == (Step {
            session: SessionView::Listening { key },
            connections,
            action: ActionView::Listen,
        }),
        session_next(
            server,
            SessionView::Listening { key },
            connections,
            EventView::Quiet,
            now,
            pick,
        ) == (Step {
            session: SessionView::Beating { key },
            connections,
            action: ActionView::Send(ServerMessageView::Heartbeat),
        }),
{
}

/// Whoever connects to the client's port waits under the client's key, in place of whoever waited
/// there; the client is then asked to accept, and then the heartbeats go on.
pub proof fn visitors_wait_and_are_announced(
    server: ServerView,
    key: Seq<u8>,
    connection: u64,
    connections: Map<Seq<u8>, u64>,
    now: u64,
    pick: u16,
)
    ensures
        session_next(
            server,
            SessionView::Listening { key },
            connections,
            EventView::Incoming(connection),
            now,
            pick,
        ) == (Step {
            session: SessionView::Parking { key },
            connections: connections.insert(key, connection),
            action: ActionView::Expire {
                key,
                replaced: if connections.contains_key(key) { Some(connections[key]) } else { None },
            },
        }),
        session_next(
            server,
            SessionView::Parking { key },
            connections,
            EventView::Done,
            now,
            pick,
        ) == (Step {
            session: SessionView::Inviting { key },
            connections,
            action: ActionView::Send(ServerMessageView::Connection(key)),
        }),
        session_next(
            server,
            SessionView::Inviting { key },
            connections,
            EventView::Done,
            now,
            pick,
        ) == (Step {
            session: SessionView::Beating { key },
            connections,
            action: ActionView::Send(ServerMessageView::Heartbeat),
        }),
{
}

/// A peer that cannot be sent a message is reported as disconnected, and then the connection ends:
/// as it should after a heartbeat, with the words of the failure after any other message. A listener
/// that fails ends the connection at once.
pub proof fn lost_peers_leave(
    server: ServerView,
    key: Seq<u8>,
    text: Seq<char>,
    outcome: Result<(), Seq<char>>,
    connections: Map<Seq<u8>, u64>,
    now: u64,
    pick: u16,
)
    ensures
        session_next(
            server,
            SessionView::Greeting { key },
            connections,
            EventView::Failed(text),
            now,
            pick,
        ) == (Step {
            session: SessionView::Leaving { outcome: Err(text) },
            connections,
            action: ActionView::Disconnected(key),
        }),
        session_next(
            server,
            SessionView::Beating { key },
            connections,
            EventView::Failed(text),
            now,
            pick,
        ) == (Step {
            session: SessionView::Leaving { outcome: Ok(()) },
            connections,
            action: ActionView::Disconnected(key),
        }),
        session_next(
            server,
            SessionView::Inviting { key },
            connections,
            EventView::Failed(text),
            now,
            pick,
        ) == (Step {
            session: SessionView::Leaving { outcome: Err(text) },
            connections,
            action: ActionView::Disconnected(key),
        }),
        session_next(
            server,
            SessionView::Listening { key },
            connections,
            EventView::Failed(text),
            now,
            pick,
        ) == (Step {
            session: SessionView::Closed,
            connections,
            action: ActionView::Close(Err(text)),
        }),
        session_next(
            server,
            SessionView::Leaving { outcome },
            connections,
            EventView::Done,
            now,
            pick,
        ) == (Step {
            session: SessionView::Closed,
            connections,
            action: ActionView::Close(outcome),
        }),
{
}

/// A client that was turned away and a connection that was forwarded are done with; a failure is
/// reported.
pub proof fn finished_connections_end(
    server: ServerView,
    text: Seq<char>,
    connections: Map<Seq<u8>, u64>,
    now: u64,
    pick: u16,
)
    ensures
        session_next(
            server,
            SessionView::Refusing,
            connections,
            EventView::Done,
            now,
            pick,
        ) == (Step {
            session: SessionView::Closed,
            connections,
            action: ActionView::Close(Ok(())),
        }),
        session_next(
            server,
            SessionView::Refusing,
            connections,
            EventView::Failed(text),
            now,
            pick,
        ) == (Step {
            session: SessionView::Closed,
            connections,
            action: ActionView::Close(Err(text)),
        }),
        session_next(
            server,
            SessionView::Forwarding,
            connections,
            EventView::Done,
            now,
            pick,
        ) == (Step {
            session: SessionView::Closed,
            connections,
            action: ActionView::Close(Ok(())),
        }),
        session_next(
            server,
            SessionView::Forwarding,
            connections,
            EventView::Failed(text),
            now,
            pick,
        ) == (Step {
            session: SessionView::Closed,
            connections,
            action: ActionView::Close(Err(text)),
        }),
{
}

/// A peer is reported as disconnected only when something failed, and while nothing fails a peer
/// that came stays, under the same key.
pub proof fn peers_stay_while_nothing_fails(server: ServerView, session: SessionView, turn: Turn)
    requires
        turn_can_come(server, session, turn),
    ensures
        turned(server, session, turn).action is Disconnected ==> turn.event is Failed,
        peer_of(session) is Some && !(turn.event is Failed) ==> peer_of(
            turned(server, session, turn).session,
        ) == peer_of(session),
{
}

/// Whether each turn is that of a quiet tunnel: heartbeats are sent, and nobody connects.
pub open spec fn is_quiet(turns: Seq<Turn>) -> bool {
    forall|i: int|
        0 <= i < turns.len() ==> (#[trigger] turns[i]).event == if i % 2 == 0 {
            EventView::Done
        } else {
            EventView::Quiet
        }
}

/// A tunnel on which nobody connects stays open for as long as heartbeats can be sent: the server
/// waits for a connection after each heartbeat, and sends a heartbeat after each wait.
pub proof fn quiet_tunnels_stay_open(server: ServerView, key: Seq<u8>, turns: Seq<Turn>)
    requires
        is_quiet(turns),
    ensures
        ({
            let first = SessionView::Beating { key };
            let last = turns.len() - 1;
            &&& session_after(server, first, turns) == if turns.len() % 2 == 0 {
                first
            } else {
                SessionView::Listening { key }
            }
            &&& turns.len() > 0 ==> step_at(server, first, turns, last).action == if last % 2
                == 0 {
                ActionView::Listen
            } else {
                ActionView::Send(ServerMessageView::Heartbeat)
            }
        }),
    decreases turns.len(),
{
    if turns.len() > 0 {
        let before = turns.drop_last();
        assert forall|i: int| 0 <= i < before.len() implies (#[trigger] before[i]).event == if i % 2
            == 0 {
            EventView::Done
        } else {
            EventView::Quiet
        } by {
            assert(turns[i] == before[i]);
        }
        quiet_tunnels_stay_open(server, key, before);
        assert(turns.take(turns.len() - 1) =~= before);
        assert(turns[turns.len() - 1].event is Done || turns[turns.len() - 1].event is Quiet);
    }
}

/// Each outcome of a session's last action can come, and nothing else can.
pub proof fn outcomes_of_the_last_action_can_come(session: SessionView, event: EventView)
    ensures
        can_come(session, event) <==> match event {
            EventView::Done => match session {
                SessionView::AwaitingAnswer { .. } | SessionView::AwaitingRequest
                | SessionView::Binding { .. } | SessionView::Listening { .. }
                | SessionView::Closed => false,
                _ => true,
            },
            EventView::Failed(_) => match session {
                SessionView::AwaitingAnswer { .. } | SessionView::AwaitingRequest
                | SessionView::Announcing { .. } | SessionView::Parking { .. }
                | SessionView::Leaving { .. } | SessionView::Closed => false,
                _ => true,
            },
            EventView::Received(_) => session is AwaitingAnswer || session is AwaitingRequest,
            EventView::Bound(_) | EventView::BindFailed(_) => session is Binding,
            EventView::Quiet | EventView::Incoming(_) => session is Listening,
        },
{
}

/// The clock is asked exactly where an answer under an allowed key came.
pub proof fn clock_is_asked_for_answers(server: ServerView, session: SessionView, event: EventView)
    ensures
        asks_clock(server, session, event) <==> session is AwaitingAnswer && (event matches
            EventView::Received(Ok(Some(ClientMessageView::Authenticate { public_key, .. }))) && (
        spki_public_key(public_key) matches Ok(key) && server.allowed.contains(key))),
{
}

/// What can follow on an event is what follows at a moment of the clock and with a drawn port that
/// can be forwarded; only where the clock is needed and set before the Unix epoch does the
/// connection end for that.
pub proof fn outcomes_follow_from_the_event(
    server: Server,
    session: SessionView,
    before: Map<Seq<u8>, u64>,
    event: EventView,
    next: (Session, Action),
    after: Map<Seq<u8>, u64>,
)
    requires
        is_outcome(server, session, before, event, next, after),
    ensures
        (exists|now: u64, pick: u16|
            {
                let step = #[trigger] session_next(server@, session, before, event, now, pick);
                &&& server@.min_port <= pick <= server@.max_port
                &&& server.is_drawn_port(pick)
                &&& asks_clock(server@, session, event) ==> exists|elapsed: nat|
                    #[trigger] is_clock_time(Some(elapsed)) && now * 1_000_000_000 <= elapsed < (now
                        + 1) * 1_000_000_000
                &&& next.0@ == step.session
                &&& next.1@ == step.action
                &&& after == step.connections
            }) || (asks_clock(server@, session, event) && is_clock_time(None)
            && next.0@ == SessionView::Closed && next.1@ == ActionView::Close(
            Err("system clock is set before the Unix epoch"@),
        ) && after == before),
{
}

/// A session starts by sending its challenge, and a step is the session, the connections and the
/// action that it names.
pub proof fn steps_are_what_they_name(
    challenge: Seq<u8>,
    timestamp: u64,
    next: (Session, Action),
    connections: Map<Seq<u8>, u64>,
    step: Step,
)
    ensures
        session_start(connections, challenge, timestamp) == (Step {
            session: SessionView::Challenging { challenge, timestamp },
            connections,
            action: ActionView::Send(ServerMessageView::Challenge(challenge)),
        }),
        makes_step(next, connections, step) <==> next.0@ == step.session && connections
            == step.connections && next.1@ == step.action,
{
}

/// Sessions are seen as what they are, with everything that they hold.
pub proof fn sessions_are_seen_as_they_are(
    challenge: Vec<u8>,
    timestamp: u64,
    key: PeerKey,
    search: PortSearch,
    port: u16,
    text: String,
)
    ensures
        (Session::Challenging { challenge, timestamp })@ == (SessionView::Challenging {
            challenge: challenge@,
            timestamp,
        }),
        (Session::AwaitingAnswer { challenge, timestamp })@ == (SessionView::AwaitingAnswer {
            challenge: challenge@,
            timestamp,
        }),
        Session::Refusing@ == SessionView::Refusing,
        Session::AwaitingRequest@ == SessionView::AwaitingRequest,
        (Session::Binding { key, search })@ == (SessionView::Binding { key: key@, search }),
        (Session::Announcing { key, port })@ == (SessionView::Announcing { key: key@, port }),
        (Session::Greeting { key })@ == (SessionView::Greeting { key: key@ }),
        (Session::Beating { key })@ == (SessionView::Beating { key: key@ }),
        (Session::Listening { key })@ == (SessionView::Listening { key: key@ }),
        (Session::Parking { key })@ == (SessionView::Parking { key: key@ }),
        (Session::Inviting { key })@ == (SessionView::Inviting { key: key@ }),
        (Session::Leaving { outcome: Ok(()) })@ == (SessionView::Leaving { outcome: Ok(()) }),
        (Session::Leaving { outcome: Err(text) })@ == (SessionView::Leaving {
            outcome: Err(text@),
        }),
        Session::Forwarding@ == SessionView::Forwarding,
        Session::Closed@ == SessionView::Closed,
{
}

/// Actions and events are seen as what they are, with everything that they carry.
pub proof fn actions_and_events_are_seen_as_they_are(
    message: ServerMessage,
    request: ClientMessage,
    key: PeerKey,
    port: u16,
    connection: u64,
    replaced: Option<u64>,
    text: String,
    bind_error: BindError,
    receive_error: ReceiveError,
)
    ensures
        Action::Send(message)@ == ActionView::Send(message@),
        Action::Receive@ == ActionView::Receive,
        Action::Bind(port)@ == ActionView::Bind(port),
        Action::Connected((key, port))@ == ActionView::Connected(key@, port),
        Action::Disconnected(key)@ == ActionView::Disconnected(key@),
        Action::Listen@ == ActionView::Listen,
        (Action::Expire { key, replaced })@ == (ActionView::Expire { key: key@, replaced }),
        Action::Forward(connection)@ == ActionView::Forward(connection),
        Action::Close(Ok(()))@ == ActionView::Close(Ok(())),
        Action::Close(Err(text))@ == ActionView::Close(Err(text@)),
        Event::Done@ == EventView::Done,
        Event::Failed(text)@ == EventView::Failed(text@),
        Event::Received(Ok(Some(request)))@ == EventView::Received(Ok(Some(request@))),
        Event::Received(Ok(None))@ == EventView::Received(Ok(None)),
        Event::Received(Err(receive_error))@ == EventView::Received(Err(receive_error)),
        Event::Bound(port)@ == EventView::Bound(port),
        Event::BindFailed(bind_error)@ == EventView::BindFailed(bind_error),
        Event::Quiet@ == EventView::Quiet,
        Event::Incoming(connection)@ == EventView::Incoming(connection),
{
}

} // verus!

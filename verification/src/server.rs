//! How a session serves the clients that connect to its socket.
//!
//! The server performs one action at a time and reports how it went; the
//! answer is the next action. A connection is closed when the server goes back
//! to accepting before the connection was registered.

use crate::peer_credentials::{verify_peer_uid, PeerError, PeerReply};
use crate::protocol::{Request, RequestError, WindowSize};
use crate::text::join;
use vstd::prelude::*;

verus! {

/// What the server is waiting for.
#[derive(Clone, Copy, Debug, PartialEq, Eq, Structural)]
pub enum ServeState {
    /// A connection.
    Accepting,
    /// The identity of the peer.
    Verifying,
    /// The request of the client.
    Reading,
    /// The new terminal size, after which the connection ends.
    Resizing,
    /// The terminal size of a client that attaches.
    Sizing,
    /// A second handle of the connection, for output.
    Cloning,
    /// The output that was kept for replay.
    Collecting,
    /// The end of the replay.
    Replaying,
    /// The place of the client among those that get output.
    Registering,
    /// The redraw signal.
    Redrawing,
    /// The thread that copies the client's input.
    Spawning,
    /// Nothing more.
    Stopped,
}

/// How an action went. A text is the system's own word on a failure.
#[derive(Debug, PartialEq, Eq)]
pub enum ServeEvent {
    Accepted,
    AcceptFailed(String),
    /// The answer on the peer, and the own effective user.
    Peer { reply: PeerReply, own: u32 },
    /// The bytes of the request.
    RequestBytes(Vec<u8>),
    RequestFailed(String),
    Resized,
    ResizeFailed(String),
    Cloned,
    CloneFailed(String),
    /// The output that was kept for replay.
    History(Vec<u8>),
    Replayed,
    ReplayFailed(String),
    Registered,
    RegisterFailed(String),
    Redrawn,
    Spawned,
}

/// What the server does next.
#[derive(Debug, PartialEq, Eq)]
pub enum ServeAction {
    /// Take the next connection, and close one that was not registered.
    Accept,
    /// Ask the system who the peer is.
    VerifyPeer,
    /// Read the bytes of one request.
    ReadRequest,
    /// Give the session's terminal this size.
    Resize(WindowSize),
    /// Make a second handle of the connection.
    CloneStream,
    /// Take the output that was kept for replay.
    CollectHistory,
    /// Send these bytes to the client.
    SendReplay(Vec<u8>),
    /// Add the client to those that get output.
    Register,
    /// Have the programs in the session redraw their screens.
    Redraw,
    /// Start copying the client's input to the session.
    SpawnInput,
    /// Keep waiting: the event did not belong to the action under way.
    Await,
    /// Stop serving.
    Stop(ServeError),
}

/// Something to tell, while the server goes on.
#[derive(Debug, PartialEq, Eq)]
pub enum ServeNotice {
    AcceptFailed(String),
    PeerRefused(PeerError),
    BadRequest(RequestError),
    RequestLost(String),
    ResizeFailed(String),
    /// The client went away before it had its replay.
    ReplayFailed(String),
}

/// Why the server stops.
#[derive(Debug, PartialEq, Eq)]
pub enum ServeError {
    CloneFailed(String),
    RegisterFailed(String),
}

/// The answer to an event.
#[derive(Debug, PartialEq, Eq)]
pub struct ServeStep {
    pub state: ServeState,
    pub notice: Option<ServeNotice>,
    pub action: ServeAction,
}

impl ServeStep {
    /// Go on with `action`.
    pub open spec fn go(state: ServeState, action: ServeAction) -> ServeStep {
        ServeStep { state, notice: None, action }
    }

    /// Drop the connection, say why, and take the next one.
    pub open spec fn turn_away(notice: ServeNotice) -> ServeStep {
        ServeStep {
            state: ServeState::Accepting,
            notice: Some(notice),
            action: ServeAction::Accept,
        }
    }

    /// Stop serving.
    pub open spec fn stop(error: ServeError) -> ServeStep {
        ServeStep {
            state: ServeState::Stopped,
            notice: None,
            action: ServeAction::Stop(error),
        }
    }
}

/// The answer to an event in some state.
pub open spec fn serve_next(state: ServeState, event: ServeEvent) -> ServeStep {
    match (state, event) {
        (ServeState::Accepting, ServeEvent::Accepted) => ServeStep::go(
            ServeState::Verifying,
            ServeAction::VerifyPeer,
        ),
        (ServeState::Accepting, ServeEvent::AcceptFailed(text)) => ServeStep::turn_away(
            ServeNotice::AcceptFailed(text),
        ),
        (ServeState::Verifying, ServeEvent::Peer { reply, own }) => match crate::peer_credentials::peer_verdict(
            reply,
            own,
        ) {
            Ok(_) => ServeStep::go(ServeState::Reading, ServeAction::ReadRequest),
            Err(error) => ServeStep::turn_away(ServeNotice::PeerRefused(error)),
        },
        (ServeState::Reading, ServeEvent::RequestBytes(bytes)) => match crate::protocol::parse_request(
            bytes@,
        ) {
            Ok(Request::Attach(size)) => ServeStep::go(
                ServeState::Sizing,
                ServeAction::Resize(size),
            ),
            Ok(Request::Resize(size)) => ServeStep::go(
                ServeState::Resizing,
                ServeAction::Resize(size),
            ),
            Err(error) => ServeStep::turn_away(ServeNotice::BadRequest(error)),
        },
        (ServeState::Reading, ServeEvent::RequestFailed(text)) => ServeStep::turn_away(
            ServeNotice::RequestLost(text),
        ),
        (ServeState::Resizing, ServeEvent::Resized) => ServeStep::go(
            ServeState::Accepting,
            ServeAction::Accept,
        ),
        (ServeState::Resizing, ServeEvent::ResizeFailed(text)) => ServeStep::turn_away(
            ServeNotice::ResizeFailed(text),
        ),
        (ServeState::Sizing, ServeEvent::Resized) => ServeStep::go(
            ServeState::Cloning,
            ServeAction::CloneStream,
        ),
        (ServeState::Sizing, ServeEvent::ResizeFailed(text)) => ServeStep {
            state: ServeState::Cloning,
            notice: Some(ServeNotice::ResizeFailed(text)),
            action: ServeAction::CloneStream,
        },
        (ServeState::Cloning, ServeEvent::Cloned) => ServeStep::go(
            ServeState::Collecting,
            ServeAction::CollectHistory,
        ),
        (ServeState::Cloning, ServeEvent::CloneFailed(text)) => ServeStep::stop(
            ServeError::CloneFailed(text),
        ),
        (ServeState::Collecting, ServeEvent::History(bytes)) => if bytes@.len() == 0 {
            ServeStep::go(ServeState::Registering, ServeAction::Register)
        } else {
            ServeStep::go(ServeState::Replaying, ServeAction::SendReplay(bytes))
        },
        (ServeState::Replaying, ServeEvent::Replayed) => ServeStep::go(
            ServeState::Registering,
            ServeAction::Register,
        ),
        (ServeState::Replaying, ServeEvent::ReplayFailed(text)) => ServeStep::turn_away(
            ServeNotice::ReplayFailed(text),
        ),
        (ServeState::Registering, ServeEvent::Registered) => ServeStep::go(
            ServeState::Redrawing,
            ServeAction::Redraw,
        ),
        (ServeState::Registering, ServeEvent::RegisterFailed(text)) => ServeStep::stop(
            ServeError::RegisterFailed(text),
        ),
        (ServeState::Redrawing, ServeEvent::Redrawn) => ServeStep::go(
            ServeState::Spawning,
            ServeAction::SpawnInput,
        ),
        (ServeState::Spawning, ServeEvent::Spawned) => ServeStep::go(
            ServeState::Accepting,
            ServeAction::Accept,
        ),
        _ => ServeStep::go(state, ServeAction::Await),
    }
}

/// Goes on with `action`.
fn go(state: ServeState, action: ServeAction) -> (step: ServeStep)
    ensures
        step == ServeStep::go(state, action),
{
    ServeStep { state, notice: None, action }
}

/// Drops the connection, says why, and takes the next one.
fn turn_away(notice: ServeNotice) -> (step: ServeStep)
    ensures
        step == ServeStep::turn_away(notice),
{
    ServeStep { state: ServeState::Accepting, notice: Some(notice), action: ServeAction::Accept }
}

/// Stops serving.
fn stop(error: ServeError) -> (step: ServeStep)
    ensures
        step == ServeStep::stop(error),
{
    ServeStep { state: ServeState::Stopped, notice: None, action: ServeAction::Stop(error) }
}

/// Answers an event: accepts attach and resize requests, one connection after
/// the other.
pub fn serve_session(state: ServeState, event: ServeEvent) -> (step: ServeStep)
    ensures
        step == serve_next(state, event),
{
    match (state, event) {
        (ServeState::Accepting, ServeEvent::Accepted) => {
            go(ServeState::Verifying, ServeAction::VerifyPeer)
        },
        (ServeState::Accepting, ServeEvent::AcceptFailed(text)) => {
            turn_away(ServeNotice::AcceptFailed(text))
        },
        (ServeState::Verifying, ServeEvent::Peer { reply, own }) => {
            match verify_peer_uid(reply, own) {
                Ok(_) => go(ServeState::Reading, ServeAction::ReadRequest),
                Err(error) => turn_away(ServeNotice::PeerRefused(error)),
            }
        },
        (ServeState::Reading, ServeEvent::RequestBytes(bytes)) => {
            match Request::read_from(bytes.as_slice()) {
                Ok(Request::Attach(size)) => go(ServeState::Sizing, ServeAction::Resize(size)),
                Ok(Request::Resize(size)) => go(ServeState::Resizing, ServeAction::Resize(size)),
                Err(error) => turn_away(ServeNotice::BadRequest(error)),
            }
        },
        (ServeState::Reading, ServeEvent::RequestFailed(text)) => {
            turn_away(ServeNotice::RequestLost(text))
        },
        (ServeState::Resizing, ServeEvent::Resized) => {
            go(ServeState::Accepting, ServeAction::Accept)
        },
        (ServeState::Resizing, ServeEvent::ResizeFailed(text)) => {
            turn_away(ServeNotice::ResizeFailed(text))
        },
        (ServeState::Sizing, ServeEvent::Resized) => {
            go(ServeState::Cloning, ServeAction::CloneStream)
        },
        (ServeState::Sizing, ServeEvent::ResizeFailed(text)) => {
            ServeStep {
                state: ServeState::Cloning,
                notice: Some(ServeNotice::ResizeFailed(text)),
                action: ServeAction::CloneStream,
            }
        },
        (ServeState::Cloning, ServeEvent::Cloned) => {
            go(ServeState::Collecting, ServeAction::CollectHistory)
        },
        (ServeState::Cloning, ServeEvent::CloneFailed(text)) => {
            stop(ServeError::CloneFailed(text))
        },
        (ServeState::Collecting, ServeEvent::History(bytes)) => {
            if bytes.is_empty() {
                go(ServeState::Registering, ServeAction::Register)
            } else {
                go(ServeState::Replaying, ServeAction::SendReplay(bytes))
            }
        },
        (ServeState::Replaying, ServeEvent::Replayed) => {
            go(ServeState::Registering, ServeAction::Register)
        },
        (ServeState::Replaying, ServeEvent::ReplayFailed(text)) => {
            turn_away(ServeNotice::ReplayFailed(text))
        },
        (ServeState::Registering, ServeEvent::Registered) => {
            go(ServeState::Redrawing, ServeAction::Redraw)
        },
        (ServeState::Registering, ServeEvent::RegisterFailed(text)) => {
            stop(ServeError::RegisterFailed(text))
        },
        (ServeState::Redrawing, ServeEvent::Redrawn) => {
            go(ServeState::Spawning, ServeAction::SpawnInput)
        },
        (ServeState::Spawning, ServeEvent::Spawned) => {
            go(ServeState::Accepting, ServeAction::Accept)
        },
        _ => go(state, ServeAction::Await),
    }
}

impl ServeNotice {
    /// The words of the notice.
    pub open spec fn text(self) -> Seq<char> {
        match self {
            ServeNotice::AcceptFailed(text) => "dtch: accept failed: "@ + text@,
            ServeNotice::PeerRefused(error) => "dtch: "@ + error.text(),
            ServeNotice::BadRequest(error) => "dtch: invalid client request: "@ + error.text(),
            ServeNotice::RequestLost(text) => "dtch: invalid client request: "@ + text@,
            ServeNotice::ResizeFailed(text) => "dtch: failed to resize pty: "@ + text@,
            ServeNotice::ReplayFailed(text) => "dtch: failed to replay output: "@ + text@,
        }
    }

    /// The words of the notice.
    pub fn message(&self) -> (message: String)
        ensures
            message@ == self.text(),
    {
        match self {
            ServeNotice::AcceptFailed(text) => join("dtch: accept failed: ", text.as_str()),
            ServeNotice::PeerRefused(error) => join("dtch: ", error.message().as_str()),
            ServeNotice::BadRequest(error) => {
                join("dtch: invalid client request: ", error.message().as_str())
            },
            ServeNotice::RequestLost(text) => {
                join("dtch: invalid client request: ", text.as_str())
            },
            ServeNotice::ResizeFailed(text) => join("dtch: failed to resize pty: ", text.as_str()),
            ServeNotice::ReplayFailed(text) => {
                join("dtch: failed to replay output: ", text.as_str())
            },
        }
    }
}

impl ServeError {
    /// The words that tell a person what was wrong.
    pub open spec fn text(self) -> Seq<char> {
        match self {
            ServeError::CloneFailed(text) => "failed to clone client stream for output: "@ + text@,
            ServeError::RegisterFailed(text) => text@,
        }
    }

    /// The words that tell a person what was wrong.
    pub fn message(&self) -> (message: String)
        ensures
            message@ == self.text(),
    {
        match self {
            ServeError::CloneFailed(text) => {
                join("failed to clone client stream for output: ", text.as_str())
            },
            ServeError::RegisterFailed(text) => text.clone(),
        }
    }
}

/// The state of a server after all these events.
pub open spec fn serve_state_after(events: Seq<ServeEvent>) -> ServeState
    decreases events.len(),
{
    if events.len() == 0 {
        ServeState::Accepting
    } else {
        serve_next(serve_state_after(events.drop_last()), events.last()).state
    }
}

/// The states that a server goes through.
pub open spec fn serve_states(events: Seq<ServeEvent>) -> Seq<ServeState> {
    Seq::new(events.len() + 1, |j: int| serve_state_after(events.take(j)))
}

/// The server deals with a client whose identity it has settled.
pub open spec fn is_past_verification(state: ServeState) -> bool {
    state != ServeState::Accepting && state != ServeState::Verifying
}

/// The server deals with a client that it attaches.
pub open spec fn is_attaching(state: ServeState) -> bool {
    is_past_verification(state) && state != ServeState::Reading && state != ServeState::Resizing
}

/// The event says that the peer runs as the own user.
pub open spec fn shows_own_user(event: ServeEvent) -> bool {
    event matches ServeEvent::Peer { reply, own } && crate::peer_credentials::peer_verdict(
        reply,
        own,
    ) is Ok
}

/// The event brings an attach request.
pub open spec fn brings_attach(event: ServeEvent) -> bool {
    event matches ServeEvent::RequestBytes(bytes) && crate::protocol::parse_request(
        bytes@,
    ) matches Ok(Request::Attach(_))
}

/// Step `i` is the one that settled the identity of the peer served since.
pub open spec fn settles_identity(events: Seq<ServeEvent>, i: int) -> bool {
    &&& crate::trace::entered_at(
        serve_states(events),
        |state: ServeState| is_past_verification(state),
        i,
    )
    &&& serve_states(events)[i] == ServeState::Verifying
    &&& shows_own_user(events[i])
}

/// Step `i` is the one that brought the attach request dealt with since.
pub open spec fn settles_attach(events: Seq<ServeEvent>, i: int) -> bool {
    &&& crate::trace::entered_at(
        serve_states(events),
        |state: ServeState| is_attaching(state),
        i,
    )
    &&& serve_states(events)[i] == ServeState::Reading
    &&& brings_attach(events[i])
}

proof fn lemma_serve_step(events: Seq<ServeEvent>, i: int)
    requires
        0 <= i < events.len(),
    ensures
        serve_states(events)[i + 1] == serve_next(serve_states(events)[i], events[i]).state,
{
    assert(events.take(i + 1).drop_last() =~= events.take(i));
}

/// Only the own user is served: while the server reads a request, changes the
/// terminal, sends output or takes input, the peer of this very connection was
/// shown to run as the own user.
pub proof fn law_only_own_user_is_served(events: Seq<ServeEvent>)
    requires
        is_past_verification(serve_state_after(events)),
    ensures
        exists|i: int| settles_identity(events, i),
{
    assert(events.take(events.len() as int) =~= events);
    let i: int = crate::trace::lemma_entered(
        serve_states(events),
        |state: ServeState| is_past_verification(state),
    );
    lemma_serve_step(events, i);
    assert(settles_identity(events, i));
}

/// Only a client that asked to attach is attached: one that asked for a resize
/// gets no output, and its input is not taken.
pub proof fn law_only_attach_requests_attach(events: Seq<ServeEvent>)
    requires
        is_attaching(serve_state_after(events)),
    ensures
        exists|i: int| settles_attach(events, i),
{
    assert(events.take(events.len() as int) =~= events);
    let i: int = crate::trace::lemma_entered(
        serve_states(events),
        |state: ServeState| is_attaching(state),
    );
    lemma_serve_step(events, i);
    assert(settles_attach(events, i));
}

/// Another user, and one that the system does not name, is turned away with a
/// notice, and so is a client whose bytes are no request. The server then takes
/// the next connection.
pub proof fn law_refused_clients_are_turned_away(
    reply: PeerReply,
    own: u32,
    peer_error: PeerError,
    bytes: Vec<u8>,
    request_error: RequestError,
)
    ensures
        crate::peer_credentials::peer_verdict(reply, own) == Err::<(), PeerError>(peer_error)
            ==> serve_next(ServeState::Verifying, ServeEvent::Peer { reply, own })
            == ServeStep::turn_away(ServeNotice::PeerRefused(peer_error)),
        crate::protocol::parse_request(bytes@) == Err::<Request, RequestError>(request_error)
            ==> serve_next(ServeState::Reading, ServeEvent::RequestBytes(bytes))
            == ServeStep::turn_away(ServeNotice::BadRequest(request_error)),
{
}

/// A client that attaches is sent the history as it is, and only if there is
/// some.
pub proof fn law_replay_is_the_history(state: ServeState, event: ServeEvent, bytes: Vec<u8>)
    ensures
        serve_next(state, event).action == ServeAction::SendReplay(bytes) <==> state
            == ServeState::Collecting && event == ServeEvent::History(bytes) && bytes@.len() > 0,
{
}

/// The terminal is given no size but the one of the request just read.
pub proof fn law_size_is_the_requested_one(state: ServeState, event: ServeEvent, size: WindowSize)
    requires
        serve_next(state, event).action == ServeAction::Resize(size),
    ensures
        event matches ServeEvent::RequestBytes(bytes) && crate::protocol::parse_request(
            bytes@,
        ) matches Ok(request) && request.size() == size,
{
}

/// No client ends a session, by what it sends or by going away: the server
/// stops only where it cannot make another handle of a connection.
pub proof fn law_server_stops_only_for_want_of_handles(state: ServeState, event: ServeEvent)
    requires
        state != ServeState::Stopped,
        serve_next(state, event).state == ServeState::Stopped,
    ensures
        event is CloneFailed || event is RegisterFailed,
        serve_next(state, event).action is Stop,
{
}

/// A client that goes away before it sent its request or had its replay is
/// given up, alone: the server says so and takes the next connection.
pub proof fn law_lost_client_does_not_end_the_session(
    state: ServeState,
    event: ServeEvent,
    text: String,
)
    requires
        state != ServeState::Stopped,
        event == ServeEvent::ReplayFailed(text) || event == ServeEvent::RequestFailed(text),
    ensures
        serve_next(state, event).state != ServeState::Stopped,
        state == ServeState::Replaying && event == ServeEvent::ReplayFailed(text) ==> serve_next(
            state,
            event,
        ) == ServeStep::turn_away(ServeNotice::ReplayFailed(text)),
        state == ServeState::Reading && event == ServeEvent::RequestFailed(text) ==> serve_next(
            state,
            event,
        ) == ServeStep::turn_away(ServeNotice::RequestLost(text)),
{
}

/// Every attach request of the own user ends in registration, whatever size it
/// tells, whether or not the terminal takes that size, and whatever was kept for
/// replay. On the way the terminal is resized, a second handle is made, and the
/// history is collected and, where there is some, sent; then the client is
/// registered, the screens are redrawn, its input is taken, and the server takes
/// the next connection.
pub proof fn law_attach_request_ends_in_registration(
    reply: PeerReply,
    own: u32,
    bytes: Vec<u8>,
    size: WindowSize,
    sized: ServeEvent,
    history: Vec<u8>,
)
    requires
        reply matches PeerReply::Credentials { rc, uid } && rc != -1 && uid == own,
        crate::protocol::parse_request(bytes@) == Ok::<Request, RequestError>(
            Request::Attach(size),
        ),
        sized is Resized || sized is ResizeFailed,
    ensures
        ({
            let accepted = serve_next(ServeState::Accepting, ServeEvent::Accepted);
            let verified = serve_next(accepted.state, ServeEvent::Peer { reply, own });
            let requested = serve_next(verified.state, ServeEvent::RequestBytes(bytes));
            let resized = serve_next(requested.state, sized);
            let cloned = serve_next(resized.state, ServeEvent::Cloned);
            let collected = serve_next(cloned.state, ServeEvent::History(history));
            let replayed = if history@.len() == 0 {
                collected
            } else {
                serve_next(collected.state, ServeEvent::Replayed)
            };
            let registered = serve_next(replayed.state, ServeEvent::Registered);
            let redrawn = serve_next(registered.state, ServeEvent::Redrawn);
            let spawned = serve_next(redrawn.state, ServeEvent::Spawned);
            &&& accepted.action == ServeAction::VerifyPeer
            &&& verified.action == ServeAction::ReadRequest
            &&& requested.action == ServeAction::Resize(size)
            &&& resized.action == ServeAction::CloneStream
            &&& cloned.action == ServeAction::CollectHistory
            &&& history@.len() > 0 ==> collected.action == ServeAction::SendReplay(history)
            &&& replayed.action == ServeAction::Register
            &&& registered.action == ServeAction::Redraw
            &&& redrawn.action == ServeAction::SpawnInput
            &&& spawned.action == ServeAction::Accept
            &&& spawned.state == ServeState::Accepting
        }),
{
}

/// A resize request of the own user changes the terminal and does nothing else:
/// the connection ends, whether or not the terminal takes the size.
pub proof fn law_resize_request_only_resizes(
    reply: PeerReply,
    own: u32,
    bytes: Vec<u8>,
    size: WindowSize,
    sized: ServeEvent,
)
    requires
        reply matches PeerReply::Credentials { rc, uid } && rc != -1 && uid == own,
        crate::protocol::parse_request(bytes@) == Ok::<Request, RequestError>(
            Request::Resize(size),
        ),
        sized is Resized || sized is ResizeFailed,
    ensures
        ({
            let accepted = serve_next(ServeState::Accepting, ServeEvent::Accepted);
            let verified = serve_next(accepted.state, ServeEvent::Peer { reply, own });
            let requested = serve_next(verified.state, ServeEvent::RequestBytes(bytes));
            let resized = serve_next(requested.state, sized);
            &&& requested.action == ServeAction::Resize(size)
            &&& resized.action == ServeAction::Accept
            &&& resized.state == ServeState::Accepting
        }),
{
}

/// What each action of the server is the answer to. An action comes there and
/// nowhere else.
pub proof fn law_each_action_has_its_occasion(
    state: ServeState,
    event: ServeEvent,
    size: WindowSize,
    text: String,
)
    ensures
        ({
            let action = serve_next(state, event).action;
            &&& action == ServeAction::VerifyPeer <==> state == ServeState::Accepting && event
                == ServeEvent::Accepted
            &&& action == ServeAction::ReadRequest <==> (state == ServeState::Verifying && (event
                matches ServeEvent::Peer { reply, own } && (reply matches PeerReply::Credentials {
                rc,
                uid,
            } && rc != -1 && uid == own)))
            &&& action == ServeAction::Resize(size) <==> (state == ServeState::Reading && (event
                matches ServeEvent::RequestBytes(bytes) && (crate::protocol::parse_request(bytes@)
                == Ok::<Request, RequestError>(Request::Attach(size))
                || crate::protocol::parse_request(bytes@) == Ok::<Request, RequestError>(
                Request::Resize(size),
            ))))
            &&& action == ServeAction::CloneStream <==> state == ServeState::Sizing && (event
                is Resized || event is ResizeFailed)
            &&& action == ServeAction::CollectHistory <==> state == ServeState::Cloning && event
                == ServeEvent::Cloned
            &&& action == ServeAction::Register <==> (state == ServeState::Replaying && event
                == ServeEvent::Replayed) || (state == ServeState::Collecting && (event matches
                ServeEvent::History(bytes) && bytes@.len() == 0))
            &&& action == ServeAction::Redraw <==> state == ServeState::Registering && event
                == ServeEvent::Registered
            &&& action == ServeAction::SpawnInput <==> state == ServeState::Redrawing && event
                == ServeEvent::Redrawn
            &&& action == ServeAction::Stop(ServeError::CloneFailed(text)) <==> state
                == ServeState::Cloning && event == ServeEvent::CloneFailed(text)
            &&& action == ServeAction::Stop(ServeError::RegisterFailed(text)) <==> state
                == ServeState::Registering && event == ServeEvent::RegisterFailed(text)
        }),
{
}

/// When the server takes the next connection: after one that it could not take,
/// after a client that it turned away or lost, after a resize, and when a client
/// has been attached.
pub proof fn law_next_connection_has_its_occasion(state: ServeState, event: ServeEvent)
    ensures
        serve_next(state, event).action == ServeAction::Accept <==> match event {
            ServeEvent::AcceptFailed(_) => state == ServeState::Accepting,
            ServeEvent::Peer { reply, own } => state == ServeState::Verifying && !(reply matches
                PeerReply::Credentials { rc, uid } && rc != -1 && uid == own),
            ServeEvent::RequestBytes(bytes) => state == ServeState::Reading
                && crate::protocol::parse_request(bytes@) is Err,
            ServeEvent::RequestFailed(_) => state == ServeState::Reading,
            ServeEvent::Resized | ServeEvent::ResizeFailed(_) => state == ServeState::Resizing,
            ServeEvent::ReplayFailed(_) => state == ServeState::Replaying,
            ServeEvent::Spawned => state == ServeState::Spawning,
            _ => false,
        },
{
}

/// After an action the server waits for the outcome of that action, and where an
/// event does not belong to the action under way nothing changes and nothing is
/// told.
pub proof fn law_server_waits_for_its_action(state: ServeState, event: ServeEvent)
    ensures
        ({
            let step = serve_next(state, event);
            match step.action {
                ServeAction::Accept => step.state == ServeState::Accepting,
                ServeAction::VerifyPeer => step.state == ServeState::Verifying,
                ServeAction::ReadRequest => step.state == ServeState::Reading,
                ServeAction::Resize(size) => step.state == if event matches
                    ServeEvent::RequestBytes(bytes) && crate::protocol::parse_request(bytes@)
                    == Ok::<Request, RequestError>(Request::Attach(size)) {
                    ServeState::Sizing
                } else {
                    ServeState::Resizing
                },
                ServeAction::CloneStream => step.state == ServeState::Cloning,
                ServeAction::CollectHistory => step.state == ServeState::Collecting,
                ServeAction::SendReplay(_) => step.state == ServeState::Replaying,
                ServeAction::Register => step.state == ServeState::Registering,
                ServeAction::Redraw => step.state == ServeState::Redrawing,
                ServeAction::SpawnInput => step.state == ServeState::Spawning,
                ServeAction::Await => step.state == state && step.notice is None,
                ServeAction::Stop(_) => step.state == ServeState::Stopped,
            }
        }),
{
}

/// What each notice tells of. What went wrong is told there and nowhere else, in
/// the words of the system where there are such.
pub proof fn law_each_notice_has_its_occasion(
    state: ServeState,
    event: ServeEvent,
    text: String,
    peer_error: PeerError,
    request_error: RequestError,
)
    ensures
        ({
            let notice = serve_next(state, event).notice;
            &&& notice == Some(ServeNotice::AcceptFailed(text)) <==> state == ServeState::Accepting
                && event == ServeEvent::AcceptFailed(text)
            &&& notice == Some(ServeNotice::PeerRefused(peer_error)) <==> (state
                == ServeState::Verifying && (event matches ServeEvent::Peer { reply, own }
                && crate::peer_credentials::peer_verdict(reply, own) == Err::<(), PeerError>(
                peer_error,
            )))
            &&& notice == Some(ServeNotice::BadRequest(request_error)) <==> (state
                == ServeState::Reading && (event matches ServeEvent::RequestBytes(bytes)
                && crate::protocol::parse_request(bytes@) == Err::<Request, RequestError>(
                request_error,
            )))
            &&& notice == Some(ServeNotice::RequestLost(text)) <==> state == ServeState::Reading
                && event == ServeEvent::RequestFailed(text)
            &&& notice == Some(ServeNotice::ResizeFailed(text)) <==> (state == ServeState::Resizing
                || state == ServeState::Sizing) && event == ServeEvent::ResizeFailed(text)
            &&& notice == Some(ServeNotice::ReplayFailed(text)) <==> state == ServeState::Replaying
                && event == ServeEvent::ReplayFailed(text)
        }),
{
}

/// A notice says what failed, behind the name of the program, and ends in the
/// words on how it failed. An error that stops the server ends in those words
/// too.
pub proof fn law_notices_end_in_the_cause(
    text: String,
    peer_error: PeerError,
    request_error: RequestError,
)
    ensures
        ServeNotice::AcceptFailed(text).text() == "dtch: accept failed: "@ + text@,
        ServeNotice::PeerRefused(peer_error).text() == "dtch: "@ + peer_error.text(),
        ServeNotice::BadRequest(request_error).text() == "dtch: invalid client request: "@
            + request_error.text(),
        ServeNotice::RequestLost(text).text() == "dtch: invalid client request: "@ + text@,
        ServeNotice::ResizeFailed(text).text() == "dtch: failed to resize pty: "@ + text@,
        ServeNotice::ReplayFailed(text).text() == "dtch: failed to replay output: "@ + text@,
        ServeError::CloneFailed(text).text() == "failed to clone client stream for output: "@
            + text@,
        ServeError::RegisterFailed(text).text() == text@,
{
}

/// The server takes a request for what its client wrote, whatever the size in it
/// and whatever bytes come behind it: an attach request leads on to attaching,
/// and a resize request to a resize alone, each with the size that was written.
pub proof fn law_written_request_is_understood(bytes: Vec<u8>, size: WindowSize, rest: Seq<u8>)
    ensures
        bytes@ == Request::Attach(size).wire() + rest ==> serve_next(
            ServeState::Reading,
            ServeEvent::RequestBytes(bytes),
        ) == (ServeStep {
            state: ServeState::Sizing,
            notice: None,
            action: ServeAction::Resize(size),
        }),
        bytes@ == Request::Resize(size).wire() + rest ==> serve_next(
            ServeState::Reading,
            ServeEvent::RequestBytes(bytes),
        ) == (ServeStep {
            state: ServeState::Resizing,
            notice: None,
            action: ServeAction::Resize(size),
        }),
{
    crate::protocol::law_request_round_trips(Request::Attach(size), rest);
    crate::protocol::law_request_round_trips(Request::Resize(size), rest);
}

} // verus!

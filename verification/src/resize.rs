//! Telling a session that the terminal of a client has changed its size.

use crate::peer_credentials::{verify_peer_uid, PeerReply};
use crate::protocol::{Request, WindowSize};
use vstd::prelude::*;

verus! {

/// How long the terminal is left alone between two looks at its size.
pub const POLL_MILLISECONDS: u64 = 100;

/// What the monitor is waiting for.
#[derive(Clone, Copy, Debug, PartialEq, Eq, Structural)]
pub enum ResizeState {
    /// The size of the terminal.
    Watching,
    /// A connection to the session.
    Connecting,
    /// The identity of the peer.
    Verifying,
    /// The request to be sent.
    Sending,
}

/// A monitor of the terminal size: what it waits for, and the last size seen.
#[derive(Clone, Copy, Debug, PartialEq, Eq, Structural)]
pub struct ResizeMonitor {
    pub state: ResizeState,
    pub last: WindowSize,
}

/// How an action went.
#[derive(Clone, Copy, Debug, PartialEq, Eq, Structural)]
pub enum ResizeEvent {
    /// The terminal has this size.
    Measured(WindowSize),
    MeasureFailed,
    Connected,
    ConnectFailed,
    /// The answer on the peer, and the own effective user.
    Peer { reply: PeerReply, own: u32 },
    /// The request was sent, or could not be.
    Sent,
}

/// What the monitor does next.
#[derive(Clone, Copy, Debug, PartialEq, Eq, Structural)]
pub enum ResizeAction {
    /// Wait a while, and then measure the terminal.
    Measure,
    /// Connect to the session.
    Connect,
    /// Ask the system who the peer is.
    VerifyPeer,
    /// Send this request, and close the connection.
    Send(Request),
    /// Keep waiting: the event did not belong to the action under way.
    Await,
}

/// The answer to an event.
pub open spec fn resize_next(monitor: ResizeMonitor, event: ResizeEvent) -> (
    ResizeMonitor,
    ResizeAction,
) {
    let go = |state: ResizeState| ResizeMonitor { state, last: monitor.last };
    match (monitor.state, event) {
        (ResizeState::Watching, ResizeEvent::Measured(size)) => if size == monitor.last {
            (monitor, ResizeAction::Measure)
        } else {
            (
                ResizeMonitor { state: ResizeState::Connecting, last: size },
                ResizeAction::Connect,
            )
        },
        (ResizeState::Watching, ResizeEvent::MeasureFailed) => (monitor, ResizeAction::Measure),
        (ResizeState::Connecting, ResizeEvent::Connected) => (
            go(ResizeState::Verifying),
            ResizeAction::VerifyPeer,
        ),
        (ResizeState::Connecting, ResizeEvent::ConnectFailed) => (
            go(ResizeState::Watching),
            ResizeAction::Measure,
        ),
        (
            ResizeState::Verifying,
            ResizeEvent::Peer { reply, own },
        ) => if crate::peer_credentials::peer_verdict(reply, own) is Ok {
            (go(ResizeState::Sending), ResizeAction::Send(Request::Resize(monitor.last)))
        } else {
            (go(ResizeState::Watching), ResizeAction::Measure)
        },
        (ResizeState::Sending, ResizeEvent::Sent) => (
            go(ResizeState::Watching),
            ResizeAction::Measure,
        ),
        _ => (monitor, ResizeAction::Await),
    }
}

impl ResizeMonitor {
    /// Starts with the size that the session was told first.
    pub fn start(initial_size: WindowSize) -> (monitor: Self)
        ensures
            monitor == (ResizeMonitor { state: ResizeState::Watching, last: initial_size }),
    {
        ResizeMonitor { state: ResizeState::Watching, last: initial_size }
    }

    /// Answers an event: forwards terminal size changes to the session.
    pub fn step(self, event: ResizeEvent) -> (step: (ResizeMonitor, ResizeAction))
        ensures
            step == resize_next(self, event),
    {
        match (self.state, event) {
            (ResizeState::Watching, ResizeEvent::Measured(size)) => {
                if size == self.last {
                    (self, ResizeAction::Measure)
                } else {
                    (
                        ResizeMonitor { state: ResizeState::Connecting, last: size },
                        ResizeAction::Connect,
                    )
                }
            },
            (ResizeState::Watching, ResizeEvent::MeasureFailed) => (self, ResizeAction::Measure),
            (ResizeState::Connecting, ResizeEvent::Connected) => {
                (self.go(ResizeState::Verifying), ResizeAction::VerifyPeer)
            },
            (ResizeState::Connecting, ResizeEvent::ConnectFailed) => {
                (self.go(ResizeState::Watching), ResizeAction::Measure)
            },
            (ResizeState::Verifying, ResizeEvent::Peer { reply, own }) => {
                match verify_peer_uid(reply, own) {
                    Ok(_) => {
                        (
                            self.go(ResizeState::Sending),
                            ResizeAction::Send(Request::Resize(self.last)),
                        )
                    },
                    Err(_) => (self.go(ResizeState::Watching), ResizeAction::Measure),
                }
            },
            (ResizeState::Sending, ResizeEvent::Sent) => {
                (self.go(ResizeState::Watching), ResizeAction::Measure)
            },
            _ => (self, ResizeAction::Await),
        }
    }

    /// Goes on to `state`.
    fn go(self, state: ResizeState) -> (monitor: Self)
        ensures
            monitor == (ResizeMonitor { state, last: self.last }),
    {
        ResizeMonitor { state, last: self.last }
    }
}

/// A monitor after all these events.
pub open spec fn monitor_after(initial: WindowSize, events: Seq<ResizeEvent>) -> ResizeMonitor
    decreases events.len(),
{
    if events.len() == 0 {
        ResizeMonitor { state: ResizeState::Watching, last: initial }
    } else {
        resize_next(monitor_after(initial, events.drop_last()), events.last()).0
    }
}

/// The sizes that a monitor has seen, the initial one first.
pub open spec fn seen_sizes(initial: WindowSize, events: Seq<ResizeEvent>) -> Seq<WindowSize>
    decreases events.len(),
{
    if events.len() == 0 {
        seq![initial]
    } else {
        let before = seen_sizes(initial, events.drop_last());
        match events.last() {
            ResizeEvent::Measured(size) => if monitor_after(initial, events.drop_last()).state
                == ResizeState::Watching {
                before.push(size)
            } else {
                before
            },
            _ => before,
        }
    }
}

/// The sizes for which a monitor has tried to connect to the session.
pub open spec fn attempted_sizes(initial: WindowSize, events: Seq<ResizeEvent>) -> Seq<WindowSize>
    decreases events.len(),
{
    if events.len() == 0 {
        Seq::empty()
    } else {
        let before = attempted_sizes(initial, events.drop_last());
        let (monitor, action) = resize_next(
            monitor_after(initial, events.drop_last()),
            events.last(),
        );
        if action == ResizeAction::Connect {
            before.push(monitor.last)
        } else {
            before
        }
    }
}

/// The sizes of the requests that a monitor has had sent.
pub open spec fn sent_sizes(initial: WindowSize, events: Seq<ResizeEvent>) -> Seq<WindowSize>
    decreases events.len(),
{
    if events.len() == 0 {
        Seq::empty()
    } else {
        let before = sent_sizes(initial, events.drop_last());
        match resize_next(monitor_after(initial, events.drop_last()), events.last()).1 {
            ResizeAction::Send(request) => before.push(request.size()),
            _ => before,
        }
    }
}

/// Every connection comes about, and leads to the own user.
pub open spec fn connections_work(events: Seq<ResizeEvent>) -> bool {
    forall|i: int|
        0 <= i < events.len() ==> {
            &&& #[trigger] events[i] != ResizeEvent::ConnectFailed
            &&& events[i] matches ResizeEvent::Peer { reply, own }
                ==> crate::peer_credentials::peer_verdict(reply, own) is Ok
        }
}

/// The sizes of a sequence that differ from the one before them.
pub open spec fn changes(sizes: Seq<WindowSize>) -> Seq<WindowSize>
    decreases sizes.len(),
{
    if sizes.len() <= 1 {
        Seq::empty()
    } else if sizes.last() != sizes[sizes.len() - 2] {
        changes(sizes.drop_last()).push(sizes.last())
    } else {
        changes(sizes.drop_last())
    }
}

/// The monitor tries to connect for each change of the terminal size, once, and
/// for nothing else.
pub proof fn law_each_change_is_attempted(initial: WindowSize, events: Seq<ResizeEvent>)
    ensures
        attempted_sizes(initial, events) == changes(seen_sizes(initial, events)),
        seen_sizes(initial, events).len() > 0,
        monitor_after(initial, events).last == seen_sizes(initial, events).last(),
    decreases events.len(),
{
    if events.len() > 0 {
        law_each_change_is_attempted(initial, events.drop_last());
        let before: Seq<WindowSize> = seen_sizes(initial, events.drop_last());
        if let ResizeEvent::Measured(size) = events.last() {
            assert(before.push(size).drop_last() =~= before);
        }
    }
}

/// Where connections to the session work, the requests sent are those for the
/// changes of the terminal size, each once and in order; the last change is
/// missing only while its connection is being made.
pub proof fn law_each_change_is_sent(initial: WindowSize, events: Seq<ResizeEvent>)
    requires
        connections_work(events),
    ensures
        ({
            let monitor = monitor_after(initial, events);
            let sent = sent_sizes(initial, events);
            changes(seen_sizes(initial, events)) == if monitor.state == ResizeState::Connecting
                || monitor.state == ResizeState::Verifying {
                sent.push(monitor.last)
            } else {
                sent
            }
        }),
    decreases events.len(),
{
    if events.len() > 0 {
        let head: Seq<ResizeEvent> = events.drop_last();
        assert(connections_work(head)) by {
            assert forall|i: int| 0 <= i < head.len() implies {
                &&& #[trigger] head[i] != ResizeEvent::ConnectFailed
                &&& head[i] matches ResizeEvent::Peer { reply, own }
                    ==> crate::peer_credentials::peer_verdict(reply, own) is Ok
            } by {
                assert(head[i] == events[i]);
            }
        }
        assert(events[events.len() - 1] == events.last());
        law_each_change_is_sent(initial, head);
        law_each_change_is_attempted(initial, head);
        let before: Seq<WindowSize> = seen_sizes(initial, head);
        if let ResizeEvent::Measured(size) = events.last() {
            assert(before.push(size).drop_last() =~= before);
        }
    }
}

/// What is sent is the resize request for the size seen last, and it is sent
/// only to a peer that was just shown to run as the own user.
pub proof fn law_resize_goes_to_own_user(
    initial: WindowSize,
    events: Seq<ResizeEvent>,
    event: ResizeEvent,
    request: Request,
)
    requires
        resize_next(monitor_after(initial, events), event).1 == ResizeAction::Send(request),
    ensures
        request == Request::Resize(seen_sizes(initial, events).last()),
        event matches ResizeEvent::Peer { reply, own } && crate::peer_credentials::peer_verdict(
            reply,
            own,
        ) is Ok,
{
    law_each_change_is_attempted(initial, events);
}

/// What each action of the monitor is the answer to. It connects for every size
/// that differs from the last one in anything, and for no other.
pub proof fn law_each_action_has_its_occasion(
    monitor: ResizeMonitor,
    event: ResizeEvent,
    request: Request,
)
    ensures
        ({
            let action = resize_next(monitor, event).1;
            &&& action == ResizeAction::Connect <==> (monitor.state == ResizeState::Watching && (
            event matches ResizeEvent::Measured(size) && (size.rows != monitor.last.rows
                || size.cols != monitor.last.cols || size.xpixel != monitor.last.xpixel
                || size.ypixel != monitor.last.ypixel)))
            &&& action == ResizeAction::VerifyPeer <==> monitor.state == ResizeState::Connecting
                && event == ResizeEvent::Connected
            &&& action == ResizeAction::Send(request) <==> (monitor.state == ResizeState::Verifying
                && request == Request::Resize(monitor.last) && (event matches ResizeEvent::Peer {
                reply,
                own,
            } && (reply matches PeerReply::Credentials { rc, uid } && rc != -1 && uid == own)))
            &&& action == ResizeAction::Measure <==> match monitor.state {
                ResizeState::Watching => event == ResizeEvent::MeasureFailed || event
                    == ResizeEvent::Measured(monitor.last),
                ResizeState::Connecting => event == ResizeEvent::ConnectFailed,
                ResizeState::Verifying => event matches ResizeEvent::Peer { reply, own } && !(reply
                    matches PeerReply::Credentials { rc, uid } && rc != -1 && uid == own),
                ResizeState::Sending => event == ResizeEvent::Sent,
            }
        }),
{
}

/// After an action the monitor waits for the outcome of that action. The last
/// size is the one measured last while it was watching, and an event that does
/// not belong to the action under way changes nothing.
pub proof fn law_monitor_waits_for_its_action(monitor: ResizeMonitor, event: ResizeEvent)
    ensures
        ({
            let (next, action) = resize_next(monitor, event);
            &&& match action {
                ResizeAction::Measure => next.state == ResizeState::Watching,
                ResizeAction::Connect => next.state == ResizeState::Connecting,
                ResizeAction::VerifyPeer => next.state == ResizeState::Verifying,
                ResizeAction::Send(_) => next.state == ResizeState::Sending,
                ResizeAction::Await => next.state == monitor.state,
            }
            &&& match (monitor.state, event) {
                (ResizeState::Watching, ResizeEvent::Measured(size)) => next.last == size,
                _ => next.last == monitor.last,
            }
        }),
{
}

/// Where the connection works, a changed size reaches the session: the monitor
/// connects, makes sure of the peer, sends the resize request for the size, and
/// goes on watching, with that size as the last.
pub proof fn law_changed_size_reaches_the_session(
    last: WindowSize,
    size: WindowSize,
    reply: PeerReply,
    own: u32,
)
    requires
        size != last,
        reply matches PeerReply::Credentials { rc, uid } && rc != -1 && uid == own,
    ensures
        ({
            let watching = ResizeMonitor { state: ResizeState::Watching, last };
            let changed = resize_next(watching, ResizeEvent::Measured(size));
            let connected = resize_next(changed.0, ResizeEvent::Connected);
            let verified = resize_next(connected.0, ResizeEvent::Peer { reply, own });
            let sent = resize_next(verified.0, ResizeEvent::Sent);
            &&& changed.1 == ResizeAction::Connect
            &&& connected.1 == ResizeAction::VerifyPeer
            &&& verified.1 == ResizeAction::Send(Request::Resize(size))
            &&& sent.1 == ResizeAction::Measure
            &&& sent.0 == (ResizeMonitor { state: ResizeState::Watching, last: size })
        }),
{
}

/// The terminal is looked at ten times in a second.
pub proof fn law_terminal_is_watched_closely()
    ensures
        10 * POLL_MILLISECONDS == 1000,
{
}

} // verus!

//! The end of the command that a session runs, and of the session with it.

use crate::text::{join, number};
use vstd::prelude::*;

verus! {

/// What the system reports of the command.
#[derive(Debug, PartialEq, Eq)]
pub enum ChildStatus {
    /// It ended, with this code.
    Exited(i32),
    /// The signal with this name ended it.
    Signaled(String),
    /// It was stopped or continued, or something else befell it: it has not
    /// ended.
    Other,
}

/// The words on a command that has ended.
pub open spec fn child_report(status: ChildStatus) -> Option<Seq<char>> {
    match status {
        ChildStatus::Exited(code) => Some(
            "dtch: child exited with status "@ + crate::text::signed_decimal(code as int),
        ),
        ChildStatus::Signaled(name) => Some("dtch: child terminated by "@ + name@),
        ChildStatus::Other => None,
    }
}

/// Tells whether the command exited or was terminated by a signal. Where it did
/// neither, the wait goes on.
pub fn wait_for_child(status: &ChildStatus) -> (report: Option<String>)
    ensures
        report is Some <==> child_report(*status) is Some,
        report matches Some(report) ==> child_report(*status) == Some(report@),
{
    match status {
        ChildStatus::Exited(code) => Some(
            join("dtch: child exited with status ", number(*code).as_str()),
        ),
        ChildStatus::Signaled(name) => Some(join("dtch: child terminated by ", name.as_str())),
        ChildStatus::Other => None,
    }
}

/// What the end of a session is waiting for.
#[derive(Clone, Copy, Debug, PartialEq, Eq, Structural)]
pub enum ReapState {
    /// The end of the command.
    Waiting,
    /// The socket to be removed.
    Removing,
    /// Nothing more.
    Done,
}

/// How an action went.
#[derive(Debug, PartialEq, Eq)]
pub enum ReapEvent {
    /// The system reports this of the command.
    Status(ChildStatus),
    WaitFailed,
    /// The socket was removed, or could not be.
    Removed,
}

/// What is done next.
#[derive(Clone, Copy, Debug, PartialEq, Eq, Structural)]
pub enum ReapAction {
    /// Wait for news of the command.
    Wait,
    /// Remove the session's socket.
    RemoveSocket,
    /// End the server process with this code.
    Exit(i32),
    /// Keep waiting: the event did not belong to the action under way.
    Await,
}

/// The answer to an event.
#[derive(Debug, PartialEq, Eq)]
pub struct ReapStep {
    pub state: ReapState,
    /// The words on a command that has ended.
    pub report: Option<String>,
    pub action: ReapAction,
}

/// There is no command to wait for any more: it has ended, or the system cannot
/// tell.
pub open spec fn ends_the_wait(event: ReapEvent) -> bool {
    match event {
        ReapEvent::Status(status) => child_report(status) is Some,
        ReapEvent::WaitFailed => true,
        ReapEvent::Removed => false,
    }
}

/// The answer to an event in some state.
pub open spec fn reap_next(state: ReapState, event: ReapEvent) -> (ReapState, ReapAction) {
    match (state, event) {
        (ReapState::Waiting, ReapEvent::Status(_) | ReapEvent::WaitFailed) => if ends_the_wait(
            event,
        ) {
            (ReapState::Removing, ReapAction::RemoveSocket)
        } else {
            (ReapState::Waiting, ReapAction::Wait)
        },
        (ReapState::Removing, ReapEvent::Removed) => (ReapState::Done, ReapAction::Exit(0)),
        _ => (state, ReapAction::Await),
    }
}

/// The words that go with the answer.
pub open spec fn reap_report(state: ReapState, event: ReapEvent) -> Option<Seq<char>> {
    match (state, event) {
        (ReapState::Waiting, ReapEvent::Status(status)) => child_report(status),
        _ => None,
    }
}

/// Reaps the command process, and ends the session with it: removes the socket,
/// and then ends the server.
pub fn reap(state: ReapState, event: &ReapEvent) -> (step: ReapStep)
    ensures
        (step.state, step.action) == reap_next(state, *event),
        step.report is Some <==> reap_report(state, *event) is Some,
        step.report matches Some(report) ==> reap_report(state, *event) == Some(report@),
{
    match (state, event) {
        (ReapState::Waiting, ReapEvent::Status(status)) => {
            let report: Option<String> = wait_for_child(status);
            if report.is_some() {
                ReapStep { state: ReapState::Removing, report, action: ReapAction::RemoveSocket }
            } else {
                ReapStep { state: ReapState::Waiting, report, action: ReapAction::Wait }
            }
        },
        (ReapState::Waiting, ReapEvent::WaitFailed) => {
            ReapStep { state: ReapState::Removing, report: None, action: ReapAction::RemoveSocket }
        },
        (ReapState::Removing, ReapEvent::Removed) => {
            ReapStep { state: ReapState::Done, report: None, action: ReapAction::Exit(0) }
        },
        _ => ReapStep { state, report: None, action: ReapAction::Await },
    }
}

/// The state after all these events.
pub open spec fn reap_state_after(events: Seq<ReapEvent>) -> ReapState
    decreases events.len(),
{
    if events.len() == 0 {
        ReapState::Waiting
    } else {
        reap_next(reap_state_after(events.drop_last()), events.last()).0
    }
}

/// The states that the end of a session goes through.
pub open spec fn reap_states(events: Seq<ReapEvent>) -> Seq<ReapState> {
    Seq::new(events.len() + 1, |j: int| reap_state_after(events.take(j)))
}

/// Step `i` ended the wait, and step `j` saw to the socket after it.
pub open spec fn ended_then_removed(events: Seq<ReapEvent>, i: int, j: int) -> bool {
    &&& 0 <= i < j < events.len()
    &&& reap_states(events)[i] == ReapState::Waiting
    &&& ends_the_wait(events[i])
    &&& reap_states(events)[j] == ReapState::Removing
    &&& events[j] == ReapEvent::Removed
}

proof fn lemma_reap_step(events: Seq<ReapEvent>, i: int)
    requires
        0 <= i < events.len(),
    ensures
        reap_states(events)[i + 1] == reap_next(reap_states(events)[i], events[i]).0,
{
    assert(events.take(i + 1).drop_last() =~= events.take(i));
}

/// What follows the end of the command, whatever its status: the socket is
/// removed, and nothing else leads to that; when that is done the server ends,
/// with code zero, and nothing else leads to that.
pub proof fn law_end_of_the_command_ends_the_session(
    state: ReapState,
    event: ReapEvent,
    code: i32,
)
    ensures
        reap_next(state, event).1 == ReapAction::RemoveSocket <==> state == ReapState::Waiting
            && ends_the_wait(event),
        reap_next(state, event).1 == ReapAction::Exit(code) <==> state == ReapState::Removing
            && event == ReapEvent::Removed && code == 0,
{
}

/// A server that has ended had seen the end of its command, and after that had
/// seen to its socket.
pub proof fn law_server_ends_after_its_socket(events: Seq<ReapEvent>)
    requires
        reap_state_after(events) == ReapState::Done,
    ensures
        exists|i: int, j: int| ended_then_removed(events, i, j),
{
    assert(events.take(events.len() as int) =~= events);
    let states: Seq<ReapState> = reap_states(events);
    let j: int = crate::trace::lemma_entered(states, |state: ReapState| state == ReapState::Done);
    lemma_reap_step(events, j);
    assert(states[j] == ReapState::Removing);
    let head: Seq<ReapState> = states.take(j + 1);
    assert(head.last() == states[j]);
    let i: int = crate::trace::lemma_entered(
        head,
        |state: ReapState| state != ReapState::Waiting,
    );
    assert(head[i] == states[i] && head[i + 1] == states[i + 1]);
    lemma_reap_step(events, i);
    assert(ended_then_removed(events, i, j));
}

/// What is told of a command: of one that ended by itself its code, as a number;
/// of one that a signal ended the name of the signal; and of one that has not
/// ended nothing.
pub proof fn law_report_tells_how_the_command_ended(status: ChildStatus, report: Seq<char>)
    ensures
        child_report(status) == Some(report) <==> match status {
            ChildStatus::Exited(code) => report == "dtch: child exited with status "@
                + crate::text::signed_decimal(code as int),
            ChildStatus::Signaled(name) => report == "dtch: child terminated by "@ + name@,
            ChildStatus::Other => false,
        },
{
}

/// The wait is over when the command has exited, with any code, or was ended by
/// any signal, and where the system cannot tell; a command that was stopped or
/// continued is waited for.
pub proof fn law_wait_goes_on_until_the_end(event: ReapEvent)
    ensures
        ends_the_wait(event) <==> match event {
            ReapEvent::Status(status) => status is Exited || status is Signaled,
            ReapEvent::WaitFailed => true,
            ReapEvent::Removed => false,
        },
        reap_next(ReapState::Waiting, event).1 == ReapAction::Wait <==> event == ReapEvent::Status(
            ChildStatus::Other,
        ),
{
}

/// After an action the end of a session waits for the outcome of that action, and
/// an event that does not belong to it changes nothing. The words on the command
/// come with the news that ended the wait, and with nothing else.
pub proof fn law_reaping_waits_for_its_action(
    state: ReapState,
    event: ReapEvent,
    report: Seq<char>,
)
    ensures
        ({
            let (next, action) = reap_next(state, event);
            match action {
                ReapAction::Wait => next == ReapState::Waiting,
                ReapAction::RemoveSocket => next == ReapState::Removing,
                ReapAction::Exit(_) => next == ReapState::Done,
                ReapAction::Await => next == state,
            }
        }),
        reap_next(state, event).1 == ReapAction::Wait ==> state == ReapState::Waiting,
        reap_report(state, event) == Some(report) <==> (state == ReapState::Waiting && (event
            matches ReapEvent::Status(status) && child_report(status) == Some(report))),
{
}

} // verus!

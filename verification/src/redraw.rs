//! Asking the programs in a session to redraw their screens.

use vstd::prelude::*;

verus! {

/// What the redraw is waiting for.
#[derive(Clone, Copy, Debug, PartialEq, Eq, Structural)]
pub enum RedrawState {
    /// The foreground process group of the terminal.
    Asking,
    /// The signal to that group.
    SignallingGroup,
    /// The signal to the group of the session's command.
    SignallingChild,
    /// Nothing more.
    Done,
}

/// How an action went.
#[derive(Clone, Copy, Debug, PartialEq, Eq, Structural)]
pub enum RedrawEvent {
    /// The question returned `rc` and left `pgrp` as the process group.
    Group { rc: i32, pgrp: i32 },
    /// The signal returned this.
    Signalled(i32),
}

/// What the redraw does next.
#[derive(Clone, Copy, Debug, PartialEq, Eq, Structural)]
pub enum RedrawAction {
    /// Send the window change signal to this target, as `kill` takes it.
    Signal(i32),
    /// Keep waiting: the event did not belong to the action under way.
    Await,
    /// All is done.
    Finish,
}

/// The answer to an event in some state, for a session whose command is the
/// process `child`.
pub open spec fn redraw_next(state: RedrawState, event: RedrawEvent, child: i32) -> (
    RedrawState,
    RedrawAction,
) {
    match (state, event) {
        (RedrawState::Asking, RedrawEvent::Group { rc, pgrp }) => if rc == 0 && pgrp > 0 {
            (RedrawState::SignallingGroup, RedrawAction::Signal((-pgrp) as i32))
        } else {
            (RedrawState::SignallingChild, RedrawAction::Signal((-child) as i32))
        },
        (RedrawState::SignallingGroup, RedrawEvent::Signalled(rc)) => if rc == 0 {
            (RedrawState::Done, RedrawAction::Finish)
        } else {
            (RedrawState::SignallingChild, RedrawAction::Signal((-child) as i32))
        },
        (RedrawState::SignallingChild, RedrawEvent::Signalled(_)) => (
            RedrawState::Done,
            RedrawAction::Finish,
        ),
        _ => (state, RedrawAction::Await),
    }
}

/// Sends `SIGWINCH` to the foreground pty process group so interactive apps
/// redraw, and to the group that the session's command leads where there is no
/// such group or it cannot be reached.
pub fn force_redraw(state: RedrawState, event: RedrawEvent, child: i32) -> (step: (
    RedrawState,
    RedrawAction,
))
    requires
        child > i32::MIN,
    ensures
        step == redraw_next(state, event, child),
{
    match (state, event) {
        (RedrawState::Asking, RedrawEvent::Group { rc, pgrp }) => {
            if rc == 0 && pgrp > 0 {
                (RedrawState::SignallingGroup, RedrawAction::Signal(-pgrp))
            } else {
                (RedrawState::SignallingChild, RedrawAction::Signal(-child))
            }
        },
        (RedrawState::SignallingGroup, RedrawEvent::Signalled(rc)) => {
            if rc == 0 {
                (RedrawState::Done, RedrawAction::Finish)
            } else {
                (RedrawState::SignallingChild, RedrawAction::Signal(-child))
            }
        },
        (RedrawState::SignallingChild, RedrawEvent::Signalled(_)) => {
            (RedrawState::Done, RedrawAction::Finish)
        },
        _ => (state, RedrawAction::Await),
    }
}

/// A signal goes to the foreground group that the terminal named, or to the
/// group that the session's command leads, and never to a single process: its
/// target is the negative of the group's number.
pub proof fn law_signals_go_to_groups(
    state: RedrawState,
    event: RedrawEvent,
    child: i32,
    target: i32,
)
    requires
        child > 0,
        redraw_next(state, event, child).1 == RedrawAction::Signal(target),
    ensures
        target < 0,
        target == -child || (event matches RedrawEvent::Group { rc, pgrp } && rc == 0 && target
            == -pgrp),
{
}

/// A redraw takes three events at most, whatever they say.
pub proof fn law_redraw_ends(group: RedrawEvent, first: i32, second: i32, child: i32)
    requires
        group is Group,
    ensures
        ({
            let a = redraw_next(RedrawState::Asking, group, child).0;
            let b = redraw_next(a, RedrawEvent::Signalled(first), child).0;
            let c = redraw_next(b, RedrawEvent::Signalled(second), child).0;
            c == RedrawState::Done
        }),
{
}

/// Who is signalled. The foreground group is, exactly where the terminal named
/// one; the group of the session's command is, exactly where it named none or
/// where that group could not be reached.
pub proof fn law_each_signal_has_its_occasion(
    state: RedrawState,
    event: RedrawEvent,
    child: i32,
    target: i32,
)
    requires
        child > i32::MIN,
    ensures
        redraw_next(state, event, child).1 == RedrawAction::Signal(target) <==> match event {
            RedrawEvent::Group { rc, pgrp } => state == RedrawState::Asking && target == if rc == 0
                && pgrp > 0 {
                -pgrp
            } else {
                -child
            },
            RedrawEvent::Signalled(rc) => state == RedrawState::SignallingGroup && rc != 0 && target
                == -child,
        },
        redraw_next(state, event, child).1 == RedrawAction::Finish <==> (event matches
            RedrawEvent::Signalled(rc) && (state == RedrawState::SignallingChild || (state
            == RedrawState::SignallingGroup && rc == 0))),
{
}

/// After a signal the redraw waits for what became of that signal, and at the end
/// for nothing. An event that does not belong to the action under way changes
/// nothing.
pub proof fn law_redraw_waits_for_its_signal(state: RedrawState, event: RedrawEvent, child: i32)
    ensures
        ({
            let (next, action) = redraw_next(state, event, child);
            match action {
                RedrawAction::Signal(_) => next == if event matches RedrawEvent::Group { rc, pgrp }
                    && rc == 0 && pgrp > 0 {
                    RedrawState::SignallingGroup
                } else {
                    RedrawState::SignallingChild
                },
                RedrawAction::Finish => next == RedrawState::Done,
                RedrawAction::Await => next == state,
            }
        }),
{
}

} // verus!

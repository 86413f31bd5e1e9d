//! How a session is started.
//!
//! Starting performs one action at a time and reports how it went; the answer
//! is the next action. From the moment the socket is bound, whoever gives up
//! removes it; the process that asked for the session hands that duty to the
//! background server.

use crate::cleanup::{CleanupModel, SocketCleanup};
use crate::command::{to_cstrings, NulArgument};
use crate::registry::{socket_path, NameError};
use crate::text::join;
use vstd::prelude::*;
use vstd::string::*;

verus! {

/// What the start is waiting for.
#[derive(Clone, Copy, Debug, PartialEq, Eq, Structural)]
pub enum StartPhase {
    /// Whether the socket exists already.
    Checking,
    /// The socket to be bound.
    Binding,
    /// The permissions of the socket.
    Restricting,
    /// The background process.
    Forking,
    /// The end of the server, in the background process.
    Serving,
    /// Nothing more.
    Finished,
}

/// How an action went.
#[derive(Clone, Copy, Debug, PartialEq, Eq, Structural)]
pub enum StartEvent {
    /// Whether the socket exists.
    Exists(bool),
    Bound,
    BindFailed,
    Restricted,
    RestrictFailed,
    /// This is the process that asked for the session.
    Parent,
    /// This is the background process.
    Child,
    ForkFailed,
    Served,
    ServeFailed,
}

/// What the start does next.
#[derive(Debug, PartialEq, Eq)]
pub enum StartAction {
    /// Look whether the socket exists.
    CheckSocket,
    /// Bind the socket.
    Bind,
    /// Let nobody but the owner use the socket.
    Restrict,
    /// Announce the session and fork the background process.
    Fork,
    /// Serve the session.
    Serve,
    /// Return: the session runs.
    Succeed,
    /// Return with an error.
    Fail(StartError),
    /// End the process with this code.
    Exit(i32),
    /// Keep waiting: the event did not belong to the action under way.
    Await,
}

/// Why a session was not started.
#[derive(Debug, PartialEq, Eq)]
pub enum StartError {
    /// There is one with this name.
    Exists,
    Bind,
    Restrict,
    /// An argument of the command cannot be passed on.
    Argument(NulArgument),
    Fork,
}

/// The start of a session.
pub struct SessionStart {
    name: String,
    command: Vec<String>,
    socket: String,
    argv: Vec<Vec<u8>>,
    cleanup: Option<SocketCleanup>,
    phase: StartPhase,
}

/// The start of a session, as it is told.
#[verifier::ext_equal]
pub struct StartModel {
    /// The name of the session.
    pub name: Seq<char>,
    /// The command that it is to run.
    pub command: Seq<String>,
    /// The path of its socket.
    pub socket: Seq<char>,
    /// The arguments for `execvp`, once they have been checked.
    pub argv: Seq<Seq<u8>>,
    /// The duty to remove the socket, once it has been bound.
    pub cleanup: Option<CleanupModel>,
    pub phase: StartPhase,
}

impl StartModel {
    /// A socket is to be removed when this ends.
    pub open spec fn removes(self) -> bool {
        self.cleanup matches Some(cleanup) && cleanup.armed
    }

    /// The same start in another phase.
    pub open spec fn at(self, phase: StartPhase) -> StartModel {
        StartModel { phase, ..self }
    }

    /// The start of a session with this name and command.
    pub open spec fn initial(name: Seq<char>, command: Seq<String>) -> StartModel {
        StartModel {
            name,
            command,
            socket: crate::registry::socket_location(name),
            argv: Seq::empty(),
            cleanup: None,
            phase: StartPhase::Checking,
        }
    }

    /// Gives up.
    pub open spec fn failed(self, error: StartError) -> (StartModel, StartAction) {
        (self.at(StartPhase::Finished), StartAction::Fail(error))
    }

    /// The answer to an event.
    pub open spec fn next(self, event: StartEvent) -> (StartModel, StartAction) {
        match (self.phase, event) {
            (StartPhase::Checking, StartEvent::Exists(exists)) => if exists {
                self.failed(StartError::Exists)
            } else {
                (self.at(StartPhase::Binding), StartAction::Bind)
            },
            (StartPhase::Binding, StartEvent::Bound) => (
                StartModel {
                    cleanup: Some(CleanupModel { path: self.socket, armed: true }),
                    ..self.at(StartPhase::Restricting)
                },
                StartAction::Restrict,
            ),
            (StartPhase::Binding, StartEvent::BindFailed) => self.failed(StartError::Bind),
            (
                StartPhase::Restricting,
                StartEvent::Restricted,
            ) => match crate::command::first_nul_argument(self.command) {
                Some(error) => self.failed(StartError::Argument(error)),
                None => (
                    StartModel {
                        argv: crate::command::nul_terminated(self.command),
                        ..self.at(StartPhase::Forking)
                    },
                    StartAction::Fork,
                ),
            },
            (StartPhase::Restricting, StartEvent::RestrictFailed) => self.failed(
                StartError::Restrict,
            ),
            (StartPhase::Forking, StartEvent::Parent) => (
                StartModel {
                    cleanup: match self.cleanup {
                        Some(cleanup) => Some(CleanupModel { path: cleanup.path, armed: false }),
                        None => None,
                    },
                    ..self.at(StartPhase::Finished)
                },
                StartAction::Succeed,
            ),
            (StartPhase::Forking, StartEvent::Child) => (
                self.at(StartPhase::Serving),
                StartAction::Serve,
            ),
            (StartPhase::Forking, StartEvent::ForkFailed) => self.failed(StartError::Fork),
            (StartPhase::Serving, StartEvent::Served) => (
                self.at(StartPhase::Finished),
                StartAction::Exit(0),
            ),
            (StartPhase::Serving, StartEvent::ServeFailed) => (
                self.at(StartPhase::Finished),
                StartAction::Exit(1),
            ),
            _ => (self, StartAction::Await),
        }
    }

    /// The start after all these events.
    pub open spec fn after(self, events: Seq<StartEvent>) -> StartModel
        decreases events.len(),
    {
        if events.len() == 0 {
            self
        } else {
            self.after(events.drop_last()).next(events.last()).0
        }
    }
}

impl View for SessionStart {
    type V = StartModel;

    closed spec fn view(&self) -> StartModel {
        StartModel {
            name: self.name@,
            command: self.command@,
            socket: self.socket@,
            argv: crate::command::byte_strings(self.argv@),
            cleanup: match self.cleanup {
                Some(cleanup) => Some(cleanup@),
                None => None,
            },
            phase: self.phase,
        }
    }
}

impl SessionStart {
    /// Validates the name of a session that is to run `command`. The first
    /// action is to look whether its socket exists.
    pub fn start_session(name: String, command: Vec<String>) -> (start: Result<Self, NameError>)
        ensures
            start is Ok <==> crate::registry::is_session_name(name@),
            start matches Ok(start) ==> start@ == StartModel::initial(name@, command@),
            start matches Err(error) ==> crate::registry::name_error(name@) == Some(error),
    {
        match socket_path(name.as_str()) {
            Ok(socket) => {
                let start: SessionStart = SessionStart {
                    name,
                    command,
                    socket,
                    argv: Vec::new(),
                    cleanup: None,
                    phase: StartPhase::Checking,
                };
                assert(start@ =~= StartModel::initial(start.name@, start.command@));
                Ok(start)
            },
            Err(error) => Err(error),
        }
    }

    /// Answers an event.
    pub fn step(&mut self, event: StartEvent) -> (action: StartAction)
        ensures
            (final(self)@, action) == old(self)@.next(event),
    {
        match (self.phase, event) {
            (StartPhase::Checking, StartEvent::Exists(exists)) => {
                if exists {
                    self.fail(StartError::Exists)
                } else {
                    self.phase = StartPhase::Binding;
                    StartAction::Bind
                }
            },
            (StartPhase::Binding, StartEvent::Bound) => {
                self.cleanup = Some(SocketCleanup::new(self.socket.clone()));
                self.phase = StartPhase::Restricting;
                StartAction::Restrict
            },
            (StartPhase::Binding, StartEvent::BindFailed) => self.fail(StartError::Bind),
            (StartPhase::Restricting, StartEvent::Restricted) => {
                match to_cstrings(self.command.as_slice()) {
                    Ok(argv) => {
                        self.argv = argv;
                        self.phase = StartPhase::Forking;
                        StartAction::Fork
                    },
                    Err(error) => self.fail(StartError::Argument(error)),
                }
            },
            (StartPhase::Restricting, StartEvent::RestrictFailed) => self.fail(
                StartError::Restrict,
            ),
            (StartPhase::Forking, StartEvent::Parent) => {
                let mut cleanup: Option<SocketCleanup> = None;
                std::mem::swap(&mut cleanup, &mut self.cleanup);
                self.cleanup = match cleanup {
                    Some(cleanup) => Some(cleanup.disarm()),
                    None => None,
                };
                self.phase = StartPhase::Finished;
                StartAction::Succeed
            },
            (StartPhase::Forking, StartEvent::Child) => {
                self.phase = StartPhase::Serving;
                StartAction::Serve
            },
            (StartPhase::Forking, StartEvent::ForkFailed) => self.fail(StartError::Fork),
            (StartPhase::Serving, StartEvent::Served) => {
                self.phase = StartPhase::Finished;
                StartAction::Exit(0)
            },
            (StartPhase::Serving, StartEvent::ServeFailed) => {
                self.phase = StartPhase::Finished;
                StartAction::Exit(1)
            },
            _ => StartAction::Await,
        }
    }

    /// Gives up.
    fn fail(&mut self, error: StartError) -> (action: StartAction)
        ensures
            (final(self)@, action) == old(self)@.failed(error),
    {
        self.phase = StartPhase::Finished;
        StartAction::Fail(error)
    }

    /// The name of the session.
    pub fn name(&self) -> (name: &str)
        ensures
            name@ == self@.name,
    {
        self.name.as_str()
    }

    /// The path of the socket.
    pub fn socket(&self) -> (socket: &str)
        ensures
            socket@ == self@.socket,
    {
        self.socket.as_str()
    }

    /// The arguments for `execvp`, once they have been checked.
    pub fn argv(&self) -> (argv: &Vec<Vec<u8>>)
        ensures
            crate::command::byte_strings(argv@) == self@.argv,
    {
        &self.argv
    }

    /// The file to remove when this ends.
    pub fn removal(&self) -> (path: Option<&str>)
        ensures
            path is Some <==> self@.removes(),
            path matches Some(path) ==> path@ == (self@.cleanup->0).path,
    {
        match &self.cleanup {
            Some(cleanup) => cleanup.removal(),
            None => None,
        }
    }

    /// The words with which a started session is announced.
    pub fn announcement(&self) -> (line: String)
        ensures
            line@ == start_announcement(self@.name, self@.socket),
    {
        let mut line: String = join("dtch: session `", self.name.as_str());
        line.append("` started at ");
        line.append(self.socket.as_str());
        line
    }

    /// The words that tell a person what was wrong. What the system said of a
    /// failed call comes behind them.
    pub fn describe(&self, error: &StartError) -> (message: String)
        ensures
            message@ == start_error_text(self@.name, self@.socket, *error),
    {
        match error {
            StartError::Exists => {
                let mut message: String = join("session already exists: ", self.name.as_str());
                message.append(" (");
                message.append(self.socket.as_str());
                message.append(")");
                message
            },
            StartError::Bind => join("failed to bind ", self.socket.as_str()),
            StartError::Restrict => join("failed to restrict ", self.socket.as_str()),
            StartError::Argument(error) => error.message(),
            StartError::Fork => "failed to fork session server".to_owned(),
        }
    }
}

/// The words with which a started session is announced.
pub open spec fn start_announcement(name: Seq<char>, socket: Seq<char>) -> Seq<char> {
    "dtch: session `"@ + name + "` started at "@ + socket
}

/// The words that tell a person why a session was not started.
pub open spec fn start_error_text(name: Seq<char>, socket: Seq<char>, error: StartError) -> Seq<
    char,
> {
    match error {
        StartError::Exists => "session already exists: "@ + name + " ("@ + socket + ")"@,
        StartError::Bind => "failed to bind "@ + socket,
        StartError::Restrict => "failed to restrict "@ + socket,
        StartError::Argument(error) => error.text(),
        StartError::Fork => "failed to fork session server"@,
    }
}

/// What a start is about never changes.
pub proof fn law_start_keeps_its_session(start: StartModel, events: Seq<StartEvent>)
    ensures
        start.after(events).name == start.name,
        start.after(events).command == start.command,
        start.after(events).socket == start.socket,
    decreases events.len(),
{
    if events.len() > 0 {
        law_start_keeps_its_session(start, events.drop_last());
    }
}

/// The duty to remove the socket arises when it has been bound, which happens
/// only where there was none, and stays until the start has finished. It is
/// about the session's own socket.
pub proof fn law_only_a_bound_socket_is_removed(
    name: Seq<char>,
    command: Seq<String>,
    events: Seq<StartEvent>,
)
    ensures
        ({
            let start = StartModel::initial(name, command).after(events);
            &&& start.phase == StartPhase::Checking || start.phase == StartPhase::Binding
                ==> !start.removes()
            &&& start.phase == StartPhase::Restricting || start.phase == StartPhase::Forking
                || start.phase == StartPhase::Serving ==> start.removes()
            &&& start.phase == StartPhase::Binding || start.removes() ==> events.contains(
                StartEvent::Exists(false),
            )
            &&& start.removes() ==> events.contains(StartEvent::Bound)
            &&& start.cleanup matches Some(cleanup) ==> cleanup.path
                == crate::registry::socket_location(name)
        }),
    decreases events.len(),
{
    if events.len() > 0 {
        let head: Seq<StartEvent> = events.drop_last();
        law_only_a_bound_socket_is_removed(name, command, head);
        law_start_keeps_its_session(StartModel::initial(name, command), head);
        lemma_more_events(events);
    }
}

/// What becomes of the socket: one that was bound is removed by whoever fails
/// afterwards and by the server when it ends; the socket of a session that runs
/// stays, whether it was there before or was just started.
pub proof fn law_fate_of_the_socket(
    name: Seq<char>,
    command: Seq<String>,
    events: Seq<StartEvent>,
    event: StartEvent,
)
    ensures
        ({
            let (start, action) = StartModel::initial(name, command).after(events).next(event);
            &&& action == StartAction::Succeed ==> !start.removes()
            &&& action is Exit ==> start.removes()
            &&& action matches StartAction::Fail(error) ==> start.removes() == !(error
                == StartError::Exists || error == StartError::Bind)
        }),
{
    law_only_a_bound_socket_is_removed(name, command, events);
}

/// A session is served behind a socket that only its owner can use, and it runs
/// the whole command that was asked for, in the form that `execvp` takes. A
/// command with a NUL byte in it is never run.
pub proof fn law_served_session_is_private_and_whole(
    name: Seq<char>,
    command: Seq<String>,
    events: Seq<StartEvent>,
)
    ensures
        ({
            let start = StartModel::initial(name, command).after(events);
            start.phase == StartPhase::Forking || start.phase == StartPhase::Serving ==> {
                &&& events.contains(StartEvent::Restricted)
                &&& start.argv == crate::command::nul_terminated(command)
                &&& crate::command::first_nul_argument(command) is None
            }
        }),
    decreases events.len(),
{
    if events.len() > 0 {
        let head: Seq<StartEvent> = events.drop_last();
        law_served_session_is_private_and_whole(name, command, head);
        law_start_keeps_its_session(StartModel::initial(name, command), head);
        lemma_more_events(events);
    }
}

proof fn lemma_more_events(events: Seq<StartEvent>)
    requires
        events.len() > 0,
    ensures
        forall|event: StartEvent| #[trigger]
            events.drop_last().contains(event) ==> events.contains(event),
        events.contains(events.last()),
{
    let head: Seq<StartEvent> = events.drop_last();
    assert forall|event: StartEvent| #[trigger] head.contains(event) implies events.contains(
        event,
    ) by {
        let i: int = choose|i: int| 0 <= i < head.len() && head[i] == event;
        assert(events[i] == event);
    }
    assert(events[events.len() - 1] == events.last());
}

/// What each action of a start is the answer to. An action comes there and
/// nowhere else.
pub proof fn law_each_action_has_its_occasion(start: StartModel, event: StartEvent, code: i32)
    ensures
        ({
            let phase = start.phase;
            let action = start.next(event).1;
            &&& action == StartAction::Bind <==> phase == StartPhase::Checking && event
                == StartEvent::Exists(false)
            &&& action == StartAction::Restrict <==> phase == StartPhase::Binding && event
                == StartEvent::Bound
            &&& action == StartAction::Fork <==> phase == StartPhase::Restricting && event
                == StartEvent::Restricted && crate::command::first_nul_argument(start.command)
                is None
            &&& action == StartAction::Serve <==> phase == StartPhase::Forking && event
                == StartEvent::Child
            &&& action == StartAction::Succeed <==> phase == StartPhase::Forking && event
                == StartEvent::Parent
            &&& action == StartAction::Exit(code) <==> phase == StartPhase::Serving && ((event
                == StartEvent::Served && code == 0) || (event == StartEvent::ServeFailed && code
                == 1))
            &&& action != StartAction::CheckSocket
        }),
{
}

/// Why a start fails. Each error comes where what it names went wrong, and
/// nowhere else.
pub proof fn law_each_error_has_its_cause(
    start: StartModel,
    event: StartEvent,
    error: StartError,
)
    ensures
        start.next(event).1 == StartAction::Fail(error) <==> match error {
            StartError::Exists => start.phase == StartPhase::Checking && event
                == StartEvent::Exists(true),
            StartError::Bind => start.phase == StartPhase::Binding && event
                == StartEvent::BindFailed,
            StartError::Restrict => start.phase == StartPhase::Restricting && event
                == StartEvent::RestrictFailed,
            StartError::Argument(argument) => start.phase == StartPhase::Restricting && event
                == StartEvent::Restricted && crate::command::first_nul_argument(start.command)
                == Some(argument),
            StartError::Fork => start.phase == StartPhase::Forking && event
                == StartEvent::ForkFailed,
        },
{
}

/// After an action the start waits for the outcome of that action, and an event
/// that does not belong to the action under way changes nothing. The arguments
/// for `execvp` come with the fork alone, and the duty to remove the socket
/// changes only where the socket was bound, when it is taken on, and where the
/// session runs, when it is handed over.
pub proof fn law_start_waits_for_its_action(start: StartModel, event: StartEvent)
    ensures
        ({
            let (next, action) = start.next(event);
            &&& match action {
                StartAction::CheckSocket => false,
                StartAction::Bind => next.phase == StartPhase::Binding,
                StartAction::Restrict => next.phase == StartPhase::Restricting,
                StartAction::Fork => next.phase == StartPhase::Forking,
                StartAction::Serve => next.phase == StartPhase::Serving,
                StartAction::Succeed | StartAction::Fail(_) | StartAction::Exit(_) => next.phase
                    == StartPhase::Finished,
                StartAction::Await => next == start,
            }
            &&& next.name == start.name
            &&& next.command == start.command
            &&& next.socket == start.socket
            &&& next.argv == if action == StartAction::Fork {
                crate::command::nul_terminated(start.command)
            } else {
                start.argv
            }
            &&& action == StartAction::Restrict ==> (next.cleanup matches Some(cleanup)
                && cleanup.path == start.socket && cleanup.armed)
            &&& action == StartAction::Succeed ==> !next.removes()
            &&& action != StartAction::Restrict && action != StartAction::Succeed ==> next.cleanup
                == start.cleanup
        }),
{
}

/// A start begins with the name and the command that were given and with the
/// socket of that name. It has nothing to remove yet, no arguments, and looks
/// for the socket first.
pub proof fn law_start_begins_with_what_was_given(name: Seq<char>, command: Seq<String>)
    ensures
        ({
            let start = StartModel::initial(name, command);
            &&& start.name == name
            &&& start.command == command
            &&& start.socket == "/tmp/dtch_"@ + name + ".sock"@
            &&& start.argv.len() == 0
            &&& start.cleanup is None
            &&& !start.removes()
            &&& start.phase == StartPhase::Checking
        }),
{
}

/// Where nothing goes wrong and no argument holds a NUL byte, a session runs:
/// its socket is bound, restricted to its owner, and served in the background
/// with every argument of the command. The process that asked returns and leaves
/// the socket; the server removes it when it ends, with code 0 where it served
/// well and 1 where it did not.
pub proof fn law_session_starts(name: Seq<char>, command: Seq<String>)
    requires
        crate::command::first_nul_argument(command) is None,
    ensures
        ({
            let checked = StartModel::initial(name, command).next(StartEvent::Exists(false));
            let bound = checked.0.next(StartEvent::Bound);
            let restricted = bound.0.next(StartEvent::Restricted);
            let parent = restricted.0.next(StartEvent::Parent);
            let child = restricted.0.next(StartEvent::Child);
            let served = child.0.next(StartEvent::Served);
            let failed = child.0.next(StartEvent::ServeFailed);
            &&& checked.1 == StartAction::Bind
            &&& bound.1 == StartAction::Restrict
            &&& restricted.1 == StartAction::Fork
            &&& restricted.0.argv.len() == command.len()
            &&& parent.1 == StartAction::Succeed
            &&& !parent.0.removes()
            &&& child.1 == StartAction::Serve
            &&& child.0.argv == restricted.0.argv
            &&& child.0.removes()
            &&& served.1 == StartAction::Exit(0)
            &&& served.0.removes()
            &&& failed.1 == StartAction::Exit(1)
            &&& failed.0.removes()
        }),
{
}

/// The words on a start name the session and its socket, as they are, where they
/// are about them.
pub proof fn law_words_name_the_session(
    name: Seq<char>,
    socket: Seq<char>,
    argument: NulArgument,
)
    ensures
        start_announcement(name, socket) == "dtch: session `"@ + name + "` started at "@ + socket,
        start_error_text(name, socket, StartError::Exists) == "session already exists: "@ + name
            + " ("@ + socket + ")"@,
        start_error_text(name, socket, StartError::Bind) == "failed to bind "@ + socket,
        start_error_text(name, socket, StartError::Restrict) == "failed to restrict "@ + socket,
        start_error_text(name, socket, StartError::Argument(argument)) == argument.text(),
        start_error_text(name, socket, StartError::Fork) == "failed to fork session server"@,
{
}

} // verus!

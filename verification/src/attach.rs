//! How a client attaches its terminal to a session.
//!
//! Attaching performs one action at a time and reports how it went; the answer
//! is the next action.

use crate::peer_credentials::{verify_peer_uid, PeerError, PeerReply};
use crate::protocol::{Request, WindowSize};
use crate::registry::{socket_path, NameError};
use crate::text::join;
use vstd::prelude::*;
use vstd::string::*;

verus! {

/// What the client is waiting for.
#[derive(Clone, Copy, Debug, PartialEq, Eq, Structural)]
pub enum AttachPhase {
    /// Whether the session's socket exists.
    Checking,
    /// The terminal size for a session that is to be created.
    Measuring,
    /// That session.
    Starting,
    /// The modification time of the socket to be shown.
    Dating,
    /// A connection to the session.
    Connecting,
    /// The identity of the peer.
    Verifying,
    /// The terminal size.
    Sizing,
    /// The request for a terminal of this size to be sent.
    Requesting(WindowSize),
    /// The raw mode of the terminal, which has this size.
    EnteringRaw(WindowSize),
    /// The end of the session, or of the attachment.
    Relaying,
    /// Nothing more.
    Finished,
}

/// How an action went.
#[derive(Clone, Copy, Debug, PartialEq, Eq, Structural)]
pub enum AttachEvent {
    /// Whether the socket exists.
    Exists(bool),
    /// The terminal has this size.
    Measured(WindowSize),
    MeasureFailed,
    Started,
    StartFailed,
    Dated,
    DateFailed,
    Connected,
    ConnectFailed,
    /// The answer on the peer, and the own effective user.
    Peer { reply: PeerReply, own: u32 },
    Sent,
    SendFailed,
    RawEntered,
    RawFailed,
    RelayEnded,
    RelayFailed,
}

/// What the client does next.
#[derive(Clone, Copy, Debug, PartialEq, Eq, Structural)]
pub enum AttachAction {
    /// Look whether the socket exists.
    CheckSocket,
    /// Measure the terminal.
    Measure,
    /// Start a session for a terminal of this size.
    StartSession(WindowSize),
    /// Show the modification time of the socket.
    ShowSocketTime,
    /// Show how to attach and detach, and connect to the socket.
    Connect,
    /// Ask the system who the peer is.
    VerifyPeer,
    /// Send this request.
    Send(Request),
    /// Switch the terminal to raw mode.
    EnterRaw,
    /// Watch for changes of this terminal size, and copy input and output.
    Relay(WindowSize),
    /// Return.
    Succeed,
    /// Return with an error.
    Fail(AttachError),
    /// Keep waiting: the event did not belong to the action under way.
    Await,
}

/// Why a client did not attach.
#[derive(Clone, Copy, Debug, PartialEq, Eq, Structural)]
pub enum AttachError {
    /// No session can have this name.
    Name(NameError),
    /// A command was given for a session that is not to be created.
    UnwantedCommand,
    /// There is no such session, and none is to be created.
    NoSession,
    /// A session is to be created, and there is no command for it.
    NoCommand,
    Measure,
    Start,
    Date,
    Connect,
    /// The peer is not trusted.
    Peer(PeerError),
    Send,
    Raw,
    Relay,
}

/// The answer to an event, where a session is to be created or not, and a
/// command was given for it or not.
pub open spec fn attach_next(
    phase: AttachPhase,
    create: bool,
    has_command: bool,
    event: AttachEvent,
) -> (AttachPhase, AttachAction) {
    match (phase, event) {
        (AttachPhase::Checking, AttachEvent::Exists(exists)) => if exists {
            (AttachPhase::Dating, AttachAction::ShowSocketTime)
        } else if !create {
            attach_failed(AttachError::NoSession)
        } else if !has_command {
            attach_failed(AttachError::NoCommand)
        } else {
            (AttachPhase::Measuring, AttachAction::Measure)
        },
        (AttachPhase::Measuring, AttachEvent::Measured(size)) => (
            AttachPhase::Starting,
            AttachAction::StartSession(size),
        ),
        (AttachPhase::Measuring | AttachPhase::Sizing, AttachEvent::MeasureFailed) => attach_failed(
            AttachError::Measure,
        ),
        (AttachPhase::Starting, AttachEvent::Started) => (
            AttachPhase::Dating,
            AttachAction::ShowSocketTime,
        ),
        (AttachPhase::Starting, AttachEvent::StartFailed) => attach_failed(AttachError::Start),
        (AttachPhase::Dating, AttachEvent::Dated) => (
            AttachPhase::Connecting,
            AttachAction::Connect,
        ),
        (AttachPhase::Dating, AttachEvent::DateFailed) => attach_failed(AttachError::Date),
        (AttachPhase::Connecting, AttachEvent::Connected) => (
            AttachPhase::Verifying,
            AttachAction::VerifyPeer,
        ),
        (AttachPhase::Connecting, AttachEvent::ConnectFailed) => attach_failed(
            AttachError::Connect,
        ),
        (
            AttachPhase::Verifying,
            AttachEvent::Peer { reply, own },
        ) => match crate::peer_credentials::peer_verdict(reply, own) {
            Ok(_) => (AttachPhase::Sizing, AttachAction::Measure),
            Err(error) => attach_failed(AttachError::Peer(error)),
        },
        (AttachPhase::Sizing, AttachEvent::Measured(size)) => (
            AttachPhase::Requesting(size),
            AttachAction::Send(Request::Attach(size)),
        ),
        (AttachPhase::Requesting(size), AttachEvent::Sent) => (
            AttachPhase::EnteringRaw(size),
            AttachAction::EnterRaw,
        ),
        (AttachPhase::Requesting(_), AttachEvent::SendFailed) => attach_failed(AttachError::Send),
        (AttachPhase::EnteringRaw(size), AttachEvent::RawEntered) => (
            AttachPhase::Relaying,
            AttachAction::Relay(size),
        ),
        (AttachPhase::EnteringRaw(_), AttachEvent::RawFailed) => attach_failed(AttachError::Raw),
        (AttachPhase::Relaying, AttachEvent::RelayEnded) => (
            AttachPhase::Finished,
            AttachAction::Succeed,
        ),
        (AttachPhase::Relaying, AttachEvent::RelayFailed) => attach_failed(AttachError::Relay),
        _ => (phase, AttachAction::Await),
    }
}

/// Gives up.
pub open spec fn attach_failed(error: AttachError) -> (AttachPhase, AttachAction) {
    (AttachPhase::Finished, AttachAction::Fail(error))
}

/// What is wrong with a call before anything has been looked at.
pub open spec fn usage_error(name: Seq<char>, create: bool, has_command: bool) -> Option<
    AttachError,
> {
    match crate::registry::name_error(name) {
        Some(error) => Some(AttachError::Name(error)),
        None => if has_command && !create {
            Some(AttachError::UnwantedCommand)
        } else {
            None
        },
    }
}

/// An attachment under way.
#[derive(Debug, PartialEq, Eq)]
pub struct Attachment {
    /// The path of the session's socket.
    pub socket: String,
    /// A session that does not exist is to be created.
    pub create: bool,
    /// A command was given for it.
    pub has_command: bool,
    pub phase: AttachPhase,
}

impl Attachment {
    /// Attaches to a session, creating it first when requested and necessary.
    /// The first action is to look whether its socket exists.
    pub fn run_attach_or_create(name: &str, create: bool, command: &Vec<String>) -> (attachment:
        Result<Self, AttachError>)
        ensures
            attachment is Ok <==> usage_error(name@, create, command@.len() > 0) is None,
            attachment matches Ok(attachment) ==> attachment.socket@
                == crate::registry::socket_location(name@) && attachment.create == create
                && attachment.has_command == (command@.len() > 0) && attachment.phase
                == AttachPhase::Checking,
            attachment matches Err(error) ==> usage_error(name@, create, command@.len() > 0)
                == Some(error),
    {
        let socket: String = match socket_path(name) {
            Ok(socket) => socket,
            Err(error) => {
                return Err(AttachError::Name(error));
            },
        };
        let has_command: bool = !command.is_empty();
        if has_command && !create {
            return Err(AttachError::UnwantedCommand);
        }
        Ok(Attachment { socket, create, has_command, phase: AttachPhase::Checking })
    }

    /// Answers an event.
    pub fn step(&mut self, event: AttachEvent) -> (action: AttachAction)
        ensures
            (final(self).phase, action) == attach_next(
                old(self).phase,
                old(self).create,
                old(self).has_command,
                event,
            ),
            final(self).socket == old(self).socket,
            final(self).create == old(self).create,
            final(self).has_command == old(self).has_command,
    {
        let (phase, action): (AttachPhase, AttachAction) = match (self.phase, event) {
            (AttachPhase::Checking, AttachEvent::Exists(exists)) => {
                if exists {
                    (AttachPhase::Dating, AttachAction::ShowSocketTime)
                } else if !self.create {
                    failed(AttachError::NoSession)
                } else if !self.has_command {
                    failed(AttachError::NoCommand)
                } else {
                    (AttachPhase::Measuring, AttachAction::Measure)
                }
            },
            (AttachPhase::Measuring, AttachEvent::Measured(size)) => {
                (AttachPhase::Starting, AttachAction::StartSession(size))
            },
            (AttachPhase::Measuring | AttachPhase::Sizing, AttachEvent::MeasureFailed) => {
                failed(AttachError::Measure)
            },
            (AttachPhase::Starting, AttachEvent::Started) => {
                (AttachPhase::Dating, AttachAction::ShowSocketTime)
            },
            (AttachPhase::Starting, AttachEvent::StartFailed) => failed(AttachError::Start),
            (AttachPhase::Dating, AttachEvent::Dated) => {
                (AttachPhase::Connecting, AttachAction::Connect)
            },
            (AttachPhase::Dating, AttachEvent::DateFailed) => failed(AttachError::Date),
            (AttachPhase::Connecting, AttachEvent::Connected) => {
                (AttachPhase::Verifying, AttachAction::VerifyPeer)
            },
            (AttachPhase::Connecting, AttachEvent::ConnectFailed) => failed(AttachError::Connect),
            (AttachPhase::Verifying, AttachEvent::Peer { reply, own }) => {
                match verify_peer_uid(reply, own) {
                    Ok(_) => (AttachPhase::Sizing, AttachAction::Measure),
                    Err(error) => failed(AttachError::Peer(error)),
                }
            },
            (AttachPhase::Sizing, AttachEvent::Measured(size)) => {
                (AttachPhase::Requesting(size), AttachAction::Send(Request::Attach(size)))
            },
            (AttachPhase::Requesting(size), AttachEvent::Sent) => {
                (AttachPhase::EnteringRaw(size), AttachAction::EnterRaw)
            },
            (AttachPhase::Requesting(_), AttachEvent::SendFailed) => failed(AttachError::Send),
            (AttachPhase::EnteringRaw(size), AttachEvent::RawEntered) => {
                (AttachPhase::Relaying, AttachAction::Relay(size))
            },
            (AttachPhase::EnteringRaw(_), AttachEvent::RawFailed) => failed(AttachError::Raw),
            (AttachPhase::Relaying, AttachEvent::RelayEnded) => {
                (AttachPhase::Finished, AttachAction::Succeed)
            },
            (AttachPhase::Relaying, AttachEvent::RelayFailed) => failed(AttachError::Relay),
            _ => (self.phase, AttachAction::Await),
        };
        self.phase = phase;
        action
    }
}

/// Gives up.
fn failed(error: AttachError) -> (step: (AttachPhase, AttachAction))
    ensures
        step == attach_failed(error),
{
    (AttachPhase::Finished, AttachAction::Fail(error))
}

/// The words that tell a person why a client did not attach to the session with
/// this socket. Where what failed has words of its own, there are none here.
pub open spec fn attach_error_text(error: AttachError, socket: Seq<char>) -> Option<Seq<char>> {
    match error {
        AttachError::Name(error) => Some(error.text()),
        AttachError::UnwantedCommand => Some(
            "a command can only be provided with `attach -c`"@,
        ),
        AttachError::NoSession => Some("session does not exist: "@ + socket),
        AttachError::NoCommand => Some("attach -c requires a command when creating a session"@),
        AttachError::Measure => Some("failed to read terminal size"@),
        AttachError::Connect => Some("failed to connect to "@ + socket),
        AttachError::Peer(error) => Some(error.text()),
        AttachError::Send => Some("failed to send terminal size"@),
        AttachError::Start | AttachError::Date | AttachError::Raw | AttachError::Relay => None,
    }
}

impl AttachError {
    /// The words that tell a person why a client did not attach to the session
    /// with this socket. What the system said of a failed call comes behind
    /// them. Where what failed has words of its own, there are none here.
    pub fn describe(&self, socket: &str) -> (message: Option<String>)
        ensures
            message is Some <==> attach_error_text(*self, socket@) is Some,
            message matches Some(message) ==> attach_error_text(*self, socket@) == Some(message@),
    {
        match self {
            AttachError::Name(error) => Some(error.message()),
            AttachError::UnwantedCommand => {
                Some("a command can only be provided with `attach -c`".to_owned())
            },
            AttachError::NoSession => Some(join("session does not exist: ", socket)),
            AttachError::NoCommand => {
                Some("attach -c requires a command when creating a session".to_owned())
            },
            AttachError::Measure => Some("failed to read terminal size".to_owned()),
            AttachError::Connect => Some(join("failed to connect to ", socket)),
            AttachError::Peer(error) => Some(error.message()),
            AttachError::Send => Some("failed to send terminal size".to_owned()),
            AttachError::Start | AttachError::Date | AttachError::Raw | AttachError::Relay => None,
        }
    }
}

/// The words that tell how to attach and how to detach.
pub open spec fn attach_hints(name: Seq<char>) -> Seq<Seq<char>> {
    seq![
        "dtch: attach with `dtch attach "@ + name + "`"@,
        "dtch: detach from clients with Ctrl-E"@,
    ]
}

/// Tells how to attach and how to detach.
pub fn hints(name: &str) -> (lines: Vec<String>)
    ensures
        crate::text::texts(lines@) == attach_hints(name@),
{
    let mut lines: Vec<String> = Vec::new();
    let mut line: String = join("dtch: attach with `dtch attach ", name);
    line.append("`");
    lines.push(line);
    lines.push("dtch: detach from clients with Ctrl-E".to_owned());
    assert(crate::text::texts(lines@) =~= attach_hints(name@));
    lines
}

/// What the system answers on the modification time of a socket.
#[derive(Debug, PartialEq, Eq)]
pub enum SocketTime {
    /// It has no metadata for the socket.
    NoMetadata,
    /// The time has no local form.
    NoLocalTime,
    /// The local form was written in `len` bytes, which read `text`.
    Formatted { len: usize, text: String },
}

/// The words on the modification time of a socket, or what was wrong.
pub open spec fn socket_time_text(time: SocketTime, socket: Seq<char>) -> Result<
    Seq<char>,
    Seq<char>,
> {
    match time {
        SocketTime::NoMetadata => Err("failed to read metadata for "@ + socket),
        SocketTime::NoLocalTime => Err("failed to format socket mtime"@),
        SocketTime::Formatted { len, text } => if len == 0 {
            Err("failed to format socket mtime"@)
        } else {
            Ok("dtch: socket mtime "@ + text@)
        },
    }
}

/// Tells the socket modification time, or what was wrong.
pub fn print_socket_mtime(time: &SocketTime, socket: &str) -> (line: Result<String, String>)
    ensures
        match line {
            Ok(line) => socket_time_text(*time, socket@) == Ok::<Seq<char>, Seq<char>>(line@),
            Err(message) => socket_time_text(*time, socket@) == Err::<Seq<char>, Seq<char>>(
                message@,
            ),
        },
{
    match time {
        SocketTime::NoMetadata => Err(join("failed to read metadata for ", socket)),
        SocketTime::NoLocalTime => Err("failed to format socket mtime".to_owned()),
        SocketTime::Formatted { len, text } => {
            if *len == 0 {
                Err("failed to format socket mtime".to_owned())
            } else {
                Ok(join("dtch: socket mtime ", text.as_str()))
            }
        },
    }
}

/// The phase of an attachment after all these events.
pub open spec fn attach_phase_after(
    create: bool,
    has_command: bool,
    events: Seq<AttachEvent>,
) -> AttachPhase
    decreases events.len(),
{
    if events.len() == 0 {
        AttachPhase::Checking
    } else {
        attach_next(
            attach_phase_after(create, has_command, events.drop_last()),
            create,
            has_command,
            events.last(),
        ).0
    }
}

/// The phases that an attachment goes through.
pub open spec fn attach_phases(
    create: bool,
    has_command: bool,
    events: Seq<AttachEvent>,
) -> Seq<AttachPhase> {
    Seq::new(
        events.len() + 1,
        |j: int| attach_phase_after(create, has_command, events.take(j)),
    )
}

/// The client deals with a session whose identity it has settled.
pub open spec fn is_connected(phase: AttachPhase) -> bool {
    phase == AttachPhase::Sizing || phase is Requesting || phase is EnteringRaw || phase
        == AttachPhase::Relaying
}

/// The client creates a session.
pub open spec fn is_creating(phase: AttachPhase) -> bool {
    phase == AttachPhase::Measuring || phase == AttachPhase::Starting
}

/// Step `i` is the one that settled the identity of the session dealt with
/// since.
pub open spec fn settles_identity(
    create: bool,
    has_command: bool,
    events: Seq<AttachEvent>,
    i: int,
) -> bool {
    &&& crate::trace::entered_at(
        attach_phases(create, has_command, events),
        |phase: AttachPhase| is_connected(phase),
        i,
    )
    &&& attach_phases(create, has_command, events)[i] == AttachPhase::Verifying
    &&& events[i] matches AttachEvent::Peer { reply, own }
        && crate::peer_credentials::peer_verdict(reply, own) is Ok
}

/// Step `i` is the one that showed that there is no session.
pub open spec fn shows_absence(
    create: bool,
    has_command: bool,
    events: Seq<AttachEvent>,
    i: int,
) -> bool {
    &&& 0 <= i < events.len()
    &&& attach_phases(create, has_command, events)[i] == AttachPhase::Checking
    &&& events[i] == AttachEvent::Exists(false)
}

proof fn lemma_attach_step(create: bool, has_command: bool, events: Seq<AttachEvent>, i: int)
    requires
        0 <= i < events.len(),
    ensures
        attach_phases(create, has_command, events)[i + 1] == attach_next(
            attach_phases(create, has_command, events)[i],
            create,
            has_command,
            events[i],
        ).0,
{
    assert(events.take(i + 1).drop_last() =~= events.take(i));
}

/// A client deals with a session of the own user only: before it sends a
/// request, keystrokes or anything else, the peer was shown to run as that
/// user.
pub proof fn law_only_own_sessions_are_used(
    create: bool,
    has_command: bool,
    events: Seq<AttachEvent>,
)
    requires
        is_connected(attach_phase_after(create, has_command, events)),
    ensures
        exists|i: int| settles_identity(create, has_command, events, i),
{
    assert(events.take(events.len() as int) =~= events);
    let i: int = crate::trace::lemma_entered(
        attach_phases(create, has_command, events),
        |phase: AttachPhase| is_connected(phase),
    );
    lemma_attach_step(create, has_command, events, i);
    assert(settles_identity(create, has_command, events, i));
}

/// A session is created only on request, with a command for it, and where there
/// is none yet.
pub proof fn law_session_is_created_on_request(
    create: bool,
    has_command: bool,
    events: Seq<AttachEvent>,
)
    requires
        is_creating(attach_phase_after(create, has_command, events)),
    ensures
        create,
        has_command,
        exists|i: int| shows_absence(create, has_command, events, i),
{
    assert(events.take(events.len() as int) =~= events);
    let i: int = crate::trace::lemma_entered(
        attach_phases(create, has_command, events),
        |phase: AttachPhase| is_creating(phase),
    );
    lemma_attach_step(create, has_command, events, i);
    assert(shows_absence(create, has_command, events, i));
}

/// The one request that an attachment sends is the attach request for the
/// terminal as it was just measured.
pub proof fn law_request_is_for_the_measured_terminal(
    phase: AttachPhase,
    create: bool,
    has_command: bool,
    event: AttachEvent,
    request: Request,
)
    ensures
        attach_next(phase, create, has_command, event).1 == AttachAction::Send(request) <==> (phase
            == AttachPhase::Sizing && (event matches AttachEvent::Measured(size) && request
            == Request::Attach(size))),
{
}

/// The steps of an attachment keep their order: the client connects after the
/// modification time of the socket was shown, the terminal is switched to raw
/// mode after the request was sent, and only then input and output are copied,
/// with the size that the request told.
pub proof fn law_attachment_keeps_its_order(
    phase: AttachPhase,
    create: bool,
    has_command: bool,
    event: AttachEvent,
    size: WindowSize,
)
    ensures
        attach_next(phase, create, has_command, event).1 == AttachAction::Connect <==> phase
            == AttachPhase::Dating && event == AttachEvent::Dated,
        attach_next(phase, create, has_command, event) == (
            AttachPhase::EnteringRaw(size),
            AttachAction::EnterRaw,
        ) <==> phase == AttachPhase::Requesting(size) && event == AttachEvent::Sent,
        attach_next(phase, create, has_command, event).1 == AttachAction::Relay(size) <==> phase
            == AttachPhase::EnteringRaw(size) && event == AttachEvent::RawEntered,
{
}

/// What each action of an attachment is the answer to. A session is started for
/// the terminal as it was measured, whatever its size; a session that exists is
/// used as it is; and everything else comes at its one place.
pub proof fn law_each_action_has_its_occasion(
    phase: AttachPhase,
    create: bool,
    has_command: bool,
    event: AttachEvent,
    size: WindowSize,
)
    ensures
        ({
            let action = attach_next(phase, create, has_command, event).1;
            &&& action == AttachAction::StartSession(size) <==> phase == AttachPhase::Measuring
                && event == AttachEvent::Measured(size)
            &&& action == AttachAction::Measure <==> (phase == AttachPhase::Checking && event
                == AttachEvent::Exists(false) && create && has_command) || (phase
                == AttachPhase::Verifying && (event matches AttachEvent::Peer { reply, own } && (
            reply matches PeerReply::Credentials { rc, uid } && rc != -1 && uid == own)))
            &&& action == AttachAction::ShowSocketTime <==> (phase == AttachPhase::Checking && event
                == AttachEvent::Exists(true)) || (phase == AttachPhase::Starting && event
                == AttachEvent::Started)
            &&& action == AttachAction::VerifyPeer <==> phase == AttachPhase::Connecting && event
                == AttachEvent::Connected
            &&& action == AttachAction::EnterRaw <==> phase is Requesting && event
                == AttachEvent::Sent
            &&& action == AttachAction::Succeed <==> phase == AttachPhase::Relaying && event
                == AttachEvent::RelayEnded
            &&& action != AttachAction::CheckSocket
        }),
{
}

/// Why an attachment fails. Each error comes where what it names went wrong, and
/// nowhere else.
pub proof fn law_each_error_has_its_cause(
    phase: AttachPhase,
    create: bool,
    has_command: bool,
    event: AttachEvent,
    error: AttachError,
)
    ensures
        attach_next(phase, create, has_command, event).1 == AttachAction::Fail(error)
            <==> match error {
            AttachError::Name(_) | AttachError::UnwantedCommand => false,
            AttachError::NoSession => phase == AttachPhase::Checking && event
                == AttachEvent::Exists(false) && !create,
            AttachError::NoCommand => phase == AttachPhase::Checking && event
                == AttachEvent::Exists(false) && create && !has_command,
            AttachError::Measure => (phase == AttachPhase::Measuring || phase
                == AttachPhase::Sizing) && event == AttachEvent::MeasureFailed,
            AttachError::Start => phase == AttachPhase::Starting && event
                == AttachEvent::StartFailed,
            AttachError::Date => phase == AttachPhase::Dating && event == AttachEvent::DateFailed,
            AttachError::Connect => phase == AttachPhase::Connecting && event
                == AttachEvent::ConnectFailed,
            AttachError::Peer(error) => phase == AttachPhase::Verifying && (event matches
                AttachEvent::Peer { reply, own } && crate::peer_credentials::peer_verdict(
                reply,
                own,
            ) == Err::<(), PeerError>(error)),
            AttachError::Send => phase is Requesting && event == AttachEvent::SendFailed,
            AttachError::Raw => phase is EnteringRaw && event == AttachEvent::RawFailed,
            AttachError::Relay => phase == AttachPhase::Relaying && event
                == AttachEvent::RelayFailed,
        },
{
}

/// After an action the client waits for the outcome of that action. The size of
/// the terminal is carried on from the request to the copying, and an event that
/// does not belong to the action under way changes nothing.
pub proof fn law_client_waits_for_its_action(
    phase: AttachPhase,
    create: bool,
    has_command: bool,
    event: AttachEvent,
)
    ensures
        ({
            let (next, action) = attach_next(phase, create, has_command, event);
            match action {
                AttachAction::CheckSocket => false,
                AttachAction::Measure => next == if phase == AttachPhase::Checking {
                    AttachPhase::Measuring
                } else {
                    AttachPhase::Sizing
                },
                AttachAction::StartSession(_) => next == AttachPhase::Starting,
                AttachAction::ShowSocketTime => next == AttachPhase::Dating,
                AttachAction::Connect => next == AttachPhase::Connecting,
                AttachAction::VerifyPeer => next == AttachPhase::Verifying,
                AttachAction::Send(request) => request matches Request::Attach(size) && next
                    == AttachPhase::Requesting(size),
                AttachAction::EnterRaw => phase matches AttachPhase::Requesting(size) && next
                    == AttachPhase::EnteringRaw(size),
                AttachAction::Relay(_) => next == AttachPhase::Relaying,
                AttachAction::Succeed | AttachAction::Fail(_) => next == AttachPhase::Finished,
                AttachAction::Await => next == phase,
            }
        }),
{
}

/// Where nothing goes wrong, a client attaches: to a session that exists at once,
/// and to one that does not, where it is to be created and has a command, after
/// it was started for the terminal as measured. It is shown when the socket was
/// made, connects, makes sure of the peer, asks for a terminal of the size that
/// it measures then, and copies input and output with that size.
pub proof fn law_client_attaches(
    exists: bool,
    create: bool,
    has_command: bool,
    first: WindowSize,
    reply: PeerReply,
    own: u32,
    size: WindowSize,
)
    requires
        exists || (create && has_command),
        reply matches PeerReply::Credentials { rc, uid } && rc != -1 && uid == own,
    ensures
        ({
            let after = |phase: AttachPhase, event: AttachEvent|
                attach_next(phase, create, has_command, event);
            let checked = after(AttachPhase::Checking, AttachEvent::Exists(exists));
            let measured = after(checked.0, AttachEvent::Measured(first));
            let started = after(measured.0, AttachEvent::Started);
            let ready = if exists { checked } else { started };
            let dated = after(ready.0, AttachEvent::Dated);
            let connected = after(dated.0, AttachEvent::Connected);
            let verified = after(connected.0, AttachEvent::Peer { reply, own });
            let sized = after(verified.0, AttachEvent::Measured(size));
            let sent = after(sized.0, AttachEvent::Sent);
            let raw = after(sent.0, AttachEvent::RawEntered);
            let ended = after(raw.0, AttachEvent::RelayEnded);
            &&& !exists ==> checked.1 == AttachAction::Measure && measured.1
                == AttachAction::StartSession(first)
            &&& ready.1 == AttachAction::ShowSocketTime
            &&& dated.1 == AttachAction::Connect
            &&& connected.1 == AttachAction::VerifyPeer
            &&& verified.1 == AttachAction::Measure
            &&& sized.1 == AttachAction::Send(Request::Attach(size))
            &&& sent.1 == AttachAction::EnterRaw
            &&& raw.1 == AttachAction::Relay(size)
            &&& ended.1 == AttachAction::Succeed
        }),
{
}

/// What is wrong with a call before anything has been looked at: a name that no
/// session can have, and then a command without the wish to create a session.
pub proof fn law_usage_is_checked_first(name: Seq<char>, create: bool, has_command: bool)
    ensures
        usage_error(name, create, has_command) == Some(AttachError::Name(NameError::Empty))
            <==> name.len() == 0,
        usage_error(name, create, has_command) == Some(
            AttachError::Name(NameError::InvalidCharacter),
        ) <==> name.len() > 0 && !crate::registry::is_session_name(name),
        usage_error(name, create, has_command) == Some(AttachError::UnwantedCommand)
            <==> crate::registry::is_session_name(name) && has_command && !create,
        usage_error(name, create, has_command) is None <==> crate::registry::is_session_name(name)
            && (create || !has_command),
{
    crate::registry::law_names_are_plain(name);
}

/// The words on a failure end in the path of the socket where they are about
/// the socket, and do not depend on it where they are not. Failures that have
/// words of their own, from whoever failed, have none here.
pub proof fn law_failures_name_the_socket(
    socket: Seq<char>,
    name_error: NameError,
    peer_error: PeerError,
)
    ensures
        attach_error_text(AttachError::NoSession, socket) == Some(
            "session does not exist: "@ + socket,
        ),
        attach_error_text(AttachError::Connect, socket) == Some("failed to connect to "@ + socket),
        attach_error_text(AttachError::Name(name_error), socket) == Some(name_error.text()),
        attach_error_text(AttachError::Peer(peer_error), socket) == Some(peer_error.text()),
        attach_error_text(AttachError::UnwantedCommand, socket) == Some(
            "a command can only be provided with `attach -c`"@,
        ),
        attach_error_text(AttachError::NoCommand, socket) == Some(
            "attach -c requires a command when creating a session"@,
        ),
        attach_error_text(AttachError::Measure, socket) == Some("failed to read terminal size"@),
        attach_error_text(AttachError::Send, socket) == Some("failed to send terminal size"@),
        attach_error_text(AttachError::Start, socket) is None,
        attach_error_text(AttachError::Date, socket) is None,
        attach_error_text(AttachError::Raw, socket) is None,
        attach_error_text(AttachError::Relay, socket) is None,
{
}

/// The hints are two lines. The first holds the name of the session in the
/// command to attach with, whatever the name; the second is always the same.
pub proof fn law_hints_name_the_session(name: Seq<char>)
    ensures
        attach_hints(name).len() == 2,
        attach_hints(name)[0] == "dtch: attach with `dtch attach "@ + name + "`"@,
        attach_hints(name)[1] == "dtch: detach from clients with Ctrl-E"@,
{
}

/// The modification time is told as the system wrote it, exactly where it wrote
/// something. Without metadata the words name the socket.
pub proof fn law_written_time_is_told(
    time: SocketTime,
    socket: Seq<char>,
    line: Seq<char>,
    message: Seq<char>,
)
    ensures
        socket_time_text(time, socket) == Ok::<Seq<char>, Seq<char>>(line) <==> (time matches
            SocketTime::Formatted { len, text } && len > 0 && line == "dtch: socket mtime "@
            + text@),
        socket_time_text(time, socket) == Err::<Seq<char>, Seq<char>>(message) <==> match time {
            SocketTime::NoMetadata => message == "failed to read metadata for "@ + socket,
            SocketTime::NoLocalTime => message == "failed to format socket mtime"@,
            SocketTime::Formatted { len, .. } => len == 0 && message
                == "failed to format socket mtime"@,
        },
{
}

} // verus!

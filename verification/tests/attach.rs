use dtch::attach::{
    hints, print_socket_mtime, AttachAction, AttachError, AttachEvent, Attachment, SocketTime,
};
use dtch::peer_credentials::{PeerError, PeerReply};
use dtch::protocol::{Request, WindowSize};
use dtch::registry::NameError;
use dtch::resize::{ResizeAction, ResizeEvent, ResizeMonitor};

const SIZE: WindowSize = WindowSize {
    rows: 24,
    cols: 80,
    xpixel: 0,
    ypixel: 0,
};

const WIDE: WindowSize = WindowSize {
    rows: 24,
    cols: 132,
    xpixel: 0,
    ypixel: 0,
};

fn begin(create: bool, command: &[&str]) -> Attachment {
    let command: Vec<String> = command.iter().map(|arg| arg.to_string()).collect();
    Attachment::run_attach_or_create("work", create, &command).unwrap()
}

fn reply(uid: u32) -> PeerReply {
    PeerReply::Credentials { rc: 0, uid }
}

fn run(attachment: &mut Attachment, events: &[AttachEvent]) -> Vec<AttachAction> {
    events.iter().map(|event| attachment.step(*event)).collect()
}

#[test]
fn client_attaches_to_a_session() {
    let mut attachment = begin(false, &[]);
    assert_eq!(attachment.socket, "/tmp/dtch_work.sock");
    let actions = run(
        &mut attachment,
        &[
            AttachEvent::Exists(true),
            AttachEvent::Dated,
            AttachEvent::Connected,
            AttachEvent::Peer {
                reply: reply(1000),
                own: 1000,
            },
            AttachEvent::Measured(SIZE),
            AttachEvent::Sent,
            AttachEvent::RawEntered,
            AttachEvent::RelayEnded,
        ],
    );
    assert_eq!(
        actions,
        [
            AttachAction::ShowSocketTime,
            AttachAction::Connect,
            AttachAction::VerifyPeer,
            AttachAction::Measure,
            AttachAction::Send(Request::Attach(SIZE)),
            AttachAction::EnterRaw,
            AttachAction::Relay(SIZE),
            AttachAction::Succeed,
        ]
    );
}

#[test]
fn client_creates_a_session_that_is_missing() {
    let mut attachment = begin(true, &["/bin/zsh"]);
    let actions = run(
        &mut attachment,
        &[
            AttachEvent::Exists(false),
            AttachEvent::Measured(WIDE),
            AttachEvent::Started,
        ],
    );
    assert_eq!(
        actions,
        [
            AttachAction::Measure,
            AttachAction::StartSession(WIDE),
            AttachAction::ShowSocketTime,
        ]
    );
}

#[test]
fn client_does_not_create_a_session_that_exists() {
    let mut attachment = begin(true, &["/bin/zsh"]);
    assert_eq!(
        attachment.step(AttachEvent::Exists(true)),
        AttachAction::ShowSocketTime
    );
}

#[test]
fn usage_errors_come_first() {
    let command = vec!["sh".to_string()];
    let none: Vec<String> = Vec::new();
    let error = |name: &str, create, command| {
        Attachment::run_attach_or_create(name, create, command).err()
    };
    assert_eq!(
        error("", false, &command),
        Some(AttachError::Name(NameError::Empty))
    );
    assert_eq!(
        error("a b", true, &none),
        Some(AttachError::Name(NameError::InvalidCharacter))
    );
    assert_eq!(
        error("work", false, &command),
        Some(AttachError::UnwantedCommand)
    );
    assert_eq!(error("work", true, &command), None);
    assert_eq!(error("work", true, &none), None);
    assert_eq!(error("work", false, &none), None);
}

#[test]
fn missing_session_is_an_error() {
    let mut attachment = begin(false, &[]);
    assert_eq!(
        attachment.step(AttachEvent::Exists(false)),
        AttachAction::Fail(AttachError::NoSession)
    );
    let mut attachment = begin(true, &[]);
    assert_eq!(
        attachment.step(AttachEvent::Exists(false)),
        AttachAction::Fail(AttachError::NoCommand)
    );
}

#[test]
fn session_of_another_user_is_not_used() {
    let mut attachment = begin(false, &[]);
    let actions = run(
        &mut attachment,
        &[
            AttachEvent::Exists(true),
            AttachEvent::Dated,
            AttachEvent::Connected,
            AttachEvent::Peer {
                reply: reply(1001),
                own: 1000,
            },
            AttachEvent::Measured(SIZE),
        ],
    );
    assert_eq!(
        actions[3],
        AttachAction::Fail(AttachError::Peer(PeerError::OtherUser))
    );
    assert_eq!(actions[4], AttachAction::Await);
}

#[test]
fn each_failure_has_its_error() {
    let create = || begin(true, &["sh"]);
    let peer = AttachEvent::Peer {
        reply: reply(7),
        own: 7,
    };
    let path = [
        AttachEvent::Exists(false),
        AttachEvent::Measured(SIZE),
        AttachEvent::Started,
        AttachEvent::Dated,
        AttachEvent::Connected,
        peer,
        AttachEvent::Measured(SIZE),
        AttachEvent::Sent,
        AttachEvent::RawEntered,
    ];
    for (steps, event, error) in [
        (1, AttachEvent::MeasureFailed, AttachError::Measure),
        (2, AttachEvent::StartFailed, AttachError::Start),
        (3, AttachEvent::DateFailed, AttachError::Date),
        (4, AttachEvent::ConnectFailed, AttachError::Connect),
        (6, AttachEvent::MeasureFailed, AttachError::Measure),
        (7, AttachEvent::SendFailed, AttachError::Send),
        (8, AttachEvent::RawFailed, AttachError::Raw),
        (9, AttachEvent::RelayFailed, AttachError::Relay),
    ] {
        let mut attachment = create();
        run(&mut attachment, &path[..steps]);
        assert_eq!(attachment.step(event), AttachAction::Fail(error));
    }
}

#[test]
fn errors_are_described() {
    let text = |error: AttachError| error.describe("/tmp/dtch_work.sock");
    let some = |text: &str| Some(text.to_string());
    assert_eq!(
        text(AttachError::Name(NameError::Empty)),
        some("session name cannot be empty")
    );
    assert_eq!(
        text(AttachError::UnwantedCommand),
        some("a command can only be provided with `attach -c`")
    );
    assert_eq!(
        text(AttachError::NoSession),
        some("session does not exist: /tmp/dtch_work.sock")
    );
    assert_eq!(
        text(AttachError::NoCommand),
        some("attach -c requires a command when creating a session")
    );
    assert_eq!(
        text(AttachError::Measure),
        some("failed to read terminal size")
    );
    assert_eq!(
        text(AttachError::Connect),
        some("failed to connect to /tmp/dtch_work.sock")
    );
    assert_eq!(
        text(AttachError::Send),
        some("failed to send terminal size")
    );
    assert_eq!(
        text(AttachError::Peer(PeerError::OtherUser)),
        some("Unix socket peer runs as another user")
    );
    for error in [
        AttachError::Start,
        AttachError::Date,
        AttachError::Raw,
        AttachError::Relay,
    ] {
        assert_eq!(text(error), None);
    }
}

#[test]
fn hints_tell_how_to_come_and_go() {
    assert_eq!(
        hints("work"),
        [
            "dtch: attach with `dtch attach work`",
            "dtch: detach from clients with Ctrl-E",
        ]
    );
}

#[test]
fn socket_time_is_told() {
    let time = |len, text: &str| SocketTime::Formatted {
        len,
        text: text.to_string(),
    };
    assert_eq!(
        print_socket_mtime(&time(25, "2024-01-02 03:04:05 +0100"), "/tmp/s"),
        Ok("dtch: socket mtime 2024-01-02 03:04:05 +0100".to_string())
    );
    assert_eq!(
        print_socket_mtime(&time(0, ""), "/tmp/s"),
        Err("failed to format socket mtime".to_string())
    );
    assert_eq!(
        print_socket_mtime(&SocketTime::NoLocalTime, "/tmp/s"),
        Err("failed to format socket mtime".to_string())
    );
    assert_eq!(
        print_socket_mtime(&SocketTime::NoMetadata, "/tmp/s"),
        Err("failed to read metadata for /tmp/s".to_string())
    );
}

#[test]
fn size_changes_are_told_once() {
    let own = ResizeEvent::Peer {
        reply: reply(7),
        own: 7,
    };
    let mut monitor = ResizeMonitor::start(SIZE);
    let mut actions = Vec::new();
    for event in [
        ResizeEvent::Measured(SIZE),
        ResizeEvent::MeasureFailed,
        ResizeEvent::Measured(WIDE),
        ResizeEvent::Connected,
        own,
        ResizeEvent::Sent,
        ResizeEvent::Measured(WIDE),
    ] {
        let (next, action) = monitor.step(event);
        monitor = next;
        actions.push(action);
    }
    assert_eq!(
        actions,
        [
            ResizeAction::Measure,
            ResizeAction::Measure,
            ResizeAction::Connect,
            ResizeAction::VerifyPeer,
            ResizeAction::Send(Request::Resize(WIDE)),
            ResizeAction::Measure,
            ResizeAction::Measure,
        ]
    );
}

#[test]
fn size_that_could_not_be_told_is_not_told_later() {
    let (monitor, action) = ResizeMonitor::start(SIZE).step(ResizeEvent::Measured(WIDE));
    assert_eq!(action, ResizeAction::Connect);
    let (monitor, action) = monitor.step(ResizeEvent::ConnectFailed);
    assert_eq!(action, ResizeAction::Measure);
    assert_eq!(
        monitor.step(ResizeEvent::Measured(WIDE)),
        (monitor, ResizeAction::Measure)
    );
    assert_eq!(
        monitor.step(ResizeEvent::Connected),
        (monitor, ResizeAction::Await)
    );
}

#[test]
fn sizes_are_not_told_to_other_users() {
    let (monitor, _) = ResizeMonitor::start(SIZE).step(ResizeEvent::Measured(WIDE));
    let (monitor, _) = monitor.step(ResizeEvent::Connected);
    let (_, action) = monitor.step(ResizeEvent::Peer {
        reply: reply(8),
        own: 7,
    });
    assert_eq!(action, ResizeAction::Measure);
}

use dtch::child::{reap, wait_for_child, ChildStatus, ReapAction, ReapEvent, ReapState};
use dtch::cleanup::SocketCleanup;
use dtch::command::{nul_argument_message, to_cstrings};
use dtch::registry::NameError;
use dtch::start::{SessionStart, StartAction, StartError, StartEvent};

fn strings(args: &[&str]) -> Vec<String> {
    args.iter().map(|arg| arg.to_string()).collect()
}

fn begin(args: &[&str]) -> SessionStart {
    match SessionStart::start_session("work".to_string(), strings(args)) {
        Ok(start) => start,
        Err(error) => panic!("{}", error.message()),
    }
}

fn steps(start: &mut SessionStart, events: &[StartEvent]) -> StartAction {
    let mut action = StartAction::CheckSocket;
    for event in events {
        action = start.step(*event);
    }
    action
}

#[test]
fn armed_cleanup_removes_its_socket() {
    let cleanup = SocketCleanup::new("/tmp/dtch_work.sock".to_string());
    assert_eq!(cleanup.path(), "/tmp/dtch_work.sock");
    assert_eq!(cleanup.removal(), Some("/tmp/dtch_work.sock"));
}

#[test]
fn disarmed_cleanup_leaves_its_socket() {
    let cleanup = SocketCleanup::new("/tmp/dtch_work.sock".to_string()).disarm();
    assert_eq!(cleanup.path(), "/tmp/dtch_work.sock");
    assert_eq!(cleanup.removal(), None);
}

#[test]
fn arguments_are_nul_terminated() {
    assert_eq!(
        to_cstrings(&strings(&["/bin/zsh", "", "caf\u{e9}"])),
        Ok(vec![
            b"/bin/zsh\0".to_vec(),
            b"\0".to_vec(),
            b"caf\xc3\xa9\0".to_vec()
        ])
    );
    assert_eq!(to_cstrings(&[]), Ok(Vec::new()));
}

#[test]
fn arguments_with_nul_bytes_are_refused() {
    let error = to_cstrings(&strings(&["ok", "\u{e9}b\0c\0", "\0"])).unwrap_err();
    assert_eq!(error.argument, "\u{e9}b\0c\0");
    assert_eq!(error.position, 3);
    assert_eq!(
        error.message(),
        "argument contains an interior NUL byte: \"\u{e9}b\\0c\\0\""
    );
    assert_eq!(
        nul_argument_message("x"),
        "argument contains an interior NUL byte: x"
    );
}

#[test]
fn names_are_checked_first() {
    let error = |name: &str| SessionStart::start_session(name.to_string(), Vec::new()).err();
    assert_eq!(error(""), Some(NameError::Empty));
    assert_eq!(error("a/b"), Some(NameError::InvalidCharacter));
    assert_eq!(error("ok"), None);
}

#[test]
fn existing_session_is_left_alone() {
    let mut start = begin(&["sh"]);
    assert_eq!(start.name(), "work");
    assert_eq!(start.socket(), "/tmp/dtch_work.sock");
    assert_eq!(
        start.step(StartEvent::Exists(true)),
        StartAction::Fail(StartError::Exists)
    );
    assert_eq!(start.removal(), None);
    assert_eq!(
        start.describe(&StartError::Exists),
        "session already exists: work (/tmp/dtch_work.sock)"
    );
}

#[test]
fn socket_that_was_not_bound_is_left_alone() {
    let mut start = begin(&["sh"]);
    assert_eq!(start.step(StartEvent::Exists(false)), StartAction::Bind);
    assert_eq!(
        start.step(StartEvent::BindFailed),
        StartAction::Fail(StartError::Bind)
    );
    assert_eq!(start.removal(), None);
    assert_eq!(
        start.describe(&StartError::Bind),
        "failed to bind /tmp/dtch_work.sock"
    );
}

#[test]
fn started_session_keeps_its_socket() {
    let mut start = begin(&["sh", "-c", "true"]);
    start.step(StartEvent::Exists(false));
    assert_eq!(start.step(StartEvent::Bound), StartAction::Restrict);
    assert_eq!(start.removal(), Some("/tmp/dtch_work.sock"));
    assert_eq!(start.step(StartEvent::Restricted), StartAction::Fork);
    assert_eq!(
        start.announcement(),
        "dtch: session `work` started at /tmp/dtch_work.sock"
    );
    assert_eq!(
        start.argv(),
        &vec![b"sh\0".to_vec(), b"-c\0".to_vec(), b"true\0".to_vec()]
    );
    assert_eq!(start.step(StartEvent::Parent), StartAction::Succeed);
    assert_eq!(start.removal(), None);
    assert_eq!(start.step(StartEvent::Child), StartAction::Await);
}

#[test]
fn server_removes_its_socket_when_it_ends() {
    for (event, code) in [(StartEvent::Served, 0), (StartEvent::ServeFailed, 1)] {
        let mut start = begin(&["sh"]);
        let action = steps(
            &mut start,
            &[
                StartEvent::Exists(false),
                StartEvent::Bound,
                StartEvent::Restricted,
                StartEvent::Child,
            ],
        );
        assert_eq!(action, StartAction::Serve);
        assert_eq!(start.step(event), StartAction::Exit(code));
        assert_eq!(start.removal(), Some("/tmp/dtch_work.sock"));
    }
}

#[test]
fn bound_socket_is_removed_on_failure() {
    let bound = [StartEvent::Exists(false), StartEvent::Bound];
    let mut start = begin(&["sh"]);
    steps(&mut start, &bound);
    assert_eq!(
        start.step(StartEvent::RestrictFailed),
        StartAction::Fail(StartError::Restrict)
    );
    assert_eq!(start.removal(), Some("/tmp/dtch_work.sock"));

    let mut start = begin(&["sh"]);
    steps(&mut start, &bound);
    start.step(StartEvent::Restricted);
    assert_eq!(
        start.step(StartEvent::ForkFailed),
        StartAction::Fail(StartError::Fork)
    );
    assert_eq!(start.removal(), Some("/tmp/dtch_work.sock"));
    assert_eq!(
        start.describe(&StartError::Fork),
        "failed to fork session server"
    );

    let mut start = begin(&["s\0h"]);
    steps(&mut start, &bound);
    match start.step(StartEvent::Restricted) {
        StartAction::Fail(error) => assert_eq!(
            start.describe(&error),
            "argument contains an interior NUL byte: \"s\\0h\""
        ),
        _ => panic!("a command with a NUL byte was accepted"),
    }
    assert_eq!(start.removal(), Some("/tmp/dtch_work.sock"));
}

#[test]
fn end_of_the_command_is_reported() {
    let report = |status| wait_for_child(&status);
    assert_eq!(
        report(ChildStatus::Exited(0)),
        Some("dtch: child exited with status 0".to_string())
    );
    assert_eq!(
        report(ChildStatus::Exited(127)),
        Some("dtch: child exited with status 127".to_string())
    );
    assert_eq!(
        report(ChildStatus::Exited(i32::MIN)),
        Some("dtch: child exited with status -2147483648".to_string())
    );
    assert_eq!(
        report(ChildStatus::Signaled("SIGTERM".to_string())),
        Some("dtch: child terminated by SIGTERM".to_string())
    );
    assert_eq!(report(ChildStatus::Other), None);
}

#[test]
fn session_ends_with_its_command() {
    let ends = [
        (
            ReapEvent::Status(ChildStatus::Exited(3)),
            Some("dtch: child exited with status 3"),
        ),
        (
            ReapEvent::Status(ChildStatus::Signaled("SIGKILL".to_string())),
            Some("dtch: child terminated by SIGKILL"),
        ),
        (ReapEvent::WaitFailed, None),
    ];
    for (end, report) in ends {
        let step = reap(ReapState::Waiting, &end);
        assert_eq!(step.state, ReapState::Removing);
        assert_eq!(step.action, ReapAction::RemoveSocket);
        assert_eq!(step.report.as_deref(), report);
        let step = reap(step.state, &ReapEvent::Removed);
        assert_eq!(step.state, ReapState::Done);
        assert_eq!(step.action, ReapAction::Exit(0));
        assert_eq!(step.report, None);
    }
}

#[test]
fn session_goes_on_while_its_command_does() {
    let step = reap(
        ReapState::Waiting,
        &ReapEvent::Status(ChildStatus::Other),
    );
    assert_eq!(step.state, ReapState::Waiting);
    assert_eq!(step.action, ReapAction::Wait);
    assert_eq!(step.report, None);
    let step = reap(ReapState::Waiting, &ReapEvent::Removed);
    assert_eq!(step.action, ReapAction::Await);
}

use dtch::relay::{relay, RelayAction, RelayEnd, RelayEvent, RelayPolicy, RelayState, DETACH_BYTE};

/// Runs a relay whose writes succeed; returns what it wrote and how it ended.
fn run(policy: RelayPolicy, chunks: &[&[u8]]) -> (Vec<u8>, Option<RelayEnd>) {
    let mut written = Vec::new();
    let mut state = RelayState::Reading;
    for chunk in chunks {
        let event = RelayEvent::Data(chunk.to_vec());
        let (next, mut action) = relay(policy, state, &event);
        state = next;
        if let RelayAction::Write(len) = action {
            written.extend_from_slice(&chunk[..len]);
            let (next, after) = relay(policy, state, &RelayEvent::Written);
            state = next;
            action = after;
        }
        if action == RelayAction::ShutDown {
            let (next, after) = relay(policy, state, &RelayEvent::ShutDown);
            state = next;
            action = after;
        }
        if let RelayAction::Stop(end) = action {
            assert_eq!(state, RelayState::Ended);
            return (written, Some(end));
        }
    }
    (written, None)
}

#[test]
fn keystrokes_stop_at_the_detach_byte() {
    let policy = RelayPolicy::copy_stdin_to_socket();
    assert_eq!(DETACH_BYTE, 5);
    assert_eq!(
        run(policy, &[b"ls\n", b"ex\x05it\x05", b"never"]),
        (b"ls\nex".to_vec(), Some(RelayEnd::Detached))
    );
    assert_eq!(
        run(policy, &[b"\x05"]),
        (Vec::new(), Some(RelayEnd::Detached))
    );
    assert_eq!(
        run(policy, &[b"a", b""]),
        (b"a".to_vec(), Some(RelayEnd::EndOfInput))
    );
    assert_eq!(run(policy, &[b"a", b"b"]), (b"ab".to_vec(), None));
}

#[test]
fn chunks_do_not_matter_to_the_detach_byte() {
    let policy = RelayPolicy::copy_stdin_to_socket();
    let text = b"abc\x05def";
    for cut in 1..text.len() {
        assert_eq!(
            run(policy, &[&text[..cut], &text[cut..]]),
            (b"abc".to_vec(), Some(RelayEnd::Detached))
        );
    }
}

#[test]
fn other_relays_pass_the_detach_byte_on() {
    for policy in [
        RelayPolicy::copy_socket_to_stdout(),
        RelayPolicy::copy_client_to_pty(),
        RelayPolicy::copy_pty_to_clients(),
    ] {
        assert_eq!(
            run(policy, &[b"a\x05b", b""]),
            (b"a\x05b".to_vec(), Some(RelayEnd::EndOfInput))
        );
    }
}

#[test]
fn relays_differ_in_failed_reads() {
    let stop = |end| (RelayState::Ended, RelayAction::Stop(end));
    let again = (RelayState::Reading, RelayAction::Read);
    let ask = |policy, event| relay(policy, RelayState::Reading, &event);
    let stdin = RelayPolicy::copy_stdin_to_socket();
    assert_eq!(ask(stdin, RelayEvent::Interrupted), stop(RelayEnd::ReadFailed));
    assert_eq!(ask(stdin, RelayEvent::ReadFailed), stop(RelayEnd::ReadFailed));
    let client = RelayPolicy::copy_client_to_pty();
    assert_eq!(ask(client, RelayEvent::Interrupted), again);
    assert_eq!(ask(client, RelayEvent::ReadFailed), stop(RelayEnd::ReadFailed));
    let stdout = RelayPolicy::copy_socket_to_stdout();
    assert_eq!(ask(stdout, RelayEvent::Interrupted), again);
    assert_eq!(ask(stdout, RelayEvent::ReadFailed), stop(RelayEnd::ReadFailed));
    let pty = RelayPolicy::copy_pty_to_clients();
    assert_eq!(ask(pty, RelayEvent::Interrupted), again);
    assert_eq!(ask(pty, RelayEvent::ReadFailed), stop(RelayEnd::EndOfInput));
}

#[test]
fn failed_writes_end_a_relay() {
    let policy = RelayPolicy::copy_stdin_to_socket();
    for state in [RelayState::Writing, RelayState::WritingLast] {
        assert_eq!(
            relay(policy, state, &RelayEvent::WriteFailed),
            (
                RelayState::Ended,
                RelayAction::Stop(RelayEnd::WriteFailed)
            )
        );
    }
}

#[test]
fn events_out_of_turn_change_nothing() {
    let policy = RelayPolicy::copy_client_to_pty();
    assert_eq!(
        relay(policy, RelayState::Ended, &RelayEvent::Data(vec![1])),
        (RelayState::Ended, RelayAction::Await)
    );
    assert_eq!(
        relay(policy, RelayState::Reading, &RelayEvent::Written),
        (RelayState::Reading, RelayAction::Await)
    );
}

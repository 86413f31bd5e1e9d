use dtch::peer_credentials::{uid, verify_peer_uid, PeerError, PeerReply};
use dtch::protocol::{Request, RequestError, WindowSize};
use dtch::redraw::{force_redraw, RedrawAction, RedrawEvent, RedrawState};
use dtch::server::{
    serve_session, ServeAction, ServeError, ServeEvent, ServeNotice, ServeState, ServeStep,
};

const SIZE: WindowSize = WindowSize {
    rows: 24,
    cols: 80,
    xpixel: 0,
    ypixel: 0,
};

fn wire(request: Request) -> Vec<u8> {
    let mut bytes = Vec::new();
    request.write_to(&mut bytes);
    bytes
}

fn peer(uid: u32) -> ServeEvent {
    ServeEvent::Peer {
        reply: PeerReply::Credentials { rc: 0, uid },
        own: 1000,
    }
}

fn go(state: ServeState, action: ServeAction) -> ServeStep {
    ServeStep {
        state,
        notice: None,
        action,
    }
}

/// Feeds events to a fresh server; returns its actions and notices.
fn serve(events: Vec<ServeEvent>) -> (Vec<ServeAction>, Vec<String>) {
    let mut state = ServeState::Accepting;
    let mut actions = Vec::new();
    let mut notices = Vec::new();
    for event in events {
        let step = serve_session(state, event);
        state = step.state;
        actions.push(step.action);
        if let Some(notice) = step.notice {
            notices.push(notice.message());
        }
    }
    (actions, notices)
}

#[test]
fn attaching_client_gets_replay_and_output() {
    let (actions, notices) = serve(vec![
        ServeEvent::Accepted,
        peer(1000),
        ServeEvent::RequestBytes(wire(Request::Attach(SIZE))),
        ServeEvent::Resized,
        ServeEvent::Cloned,
        ServeEvent::History(b"old output\n".to_vec()),
        ServeEvent::Replayed,
        ServeEvent::Registered,
        ServeEvent::Redrawn,
        ServeEvent::Spawned,
    ]);
    assert_eq!(
        actions,
        [
            ServeAction::VerifyPeer,
            ServeAction::ReadRequest,
            ServeAction::Resize(SIZE),
            ServeAction::CloneStream,
            ServeAction::CollectHistory,
            ServeAction::SendReplay(b"old output\n".to_vec()),
            ServeAction::Register,
            ServeAction::Redraw,
            ServeAction::SpawnInput,
            ServeAction::Accept,
        ]
    );
    assert!(notices.is_empty());
}

#[test]
fn empty_history_is_not_sent() {
    assert_eq!(
        serve_session(ServeState::Collecting, ServeEvent::History(Vec::new())),
        go(ServeState::Registering, ServeAction::Register)
    );
}

#[test]
fn resize_request_ends_its_connection() {
    let (actions, notices) = serve(vec![
        ServeEvent::Accepted,
        peer(1000),
        ServeEvent::RequestBytes(wire(Request::Resize(SIZE))),
        ServeEvent::ResizeFailed("no such device".to_string()),
        ServeEvent::Accepted,
    ]);
    assert_eq!(
        actions,
        [
            ServeAction::VerifyPeer,
            ServeAction::ReadRequest,
            ServeAction::Resize(SIZE),
            ServeAction::Accept,
            ServeAction::VerifyPeer,
        ]
    );
    assert_eq!(notices, ["dtch: failed to resize pty: no such device"]);
    assert_eq!(
        serve_session(ServeState::Resizing, ServeEvent::Resized),
        go(ServeState::Accepting, ServeAction::Accept)
    );
}

#[test]
fn attach_goes_on_where_the_size_is_not_taken() {
    let step = serve_session(
        ServeState::Sizing,
        ServeEvent::ResizeFailed("busy".to_string()),
    );
    assert_eq!(step.state, ServeState::Cloning);
    assert_eq!(step.action, ServeAction::CloneStream);
    assert_eq!(
        step.notice.unwrap().message(),
        "dtch: failed to resize pty: busy"
    );
}

#[test]
fn other_users_are_turned_away() {
    let step = serve_session(ServeState::Verifying, peer(1001));
    assert_eq!(
        step,
        ServeStep {
            state: ServeState::Accepting,
            notice: Some(ServeNotice::PeerRefused(PeerError::OtherUser)),
            action: ServeAction::Accept,
        }
    );
    assert_eq!(
        step.notice.unwrap().message(),
        "dtch: Unix socket peer runs as another user"
    );
}

#[test]
fn bad_requests_are_turned_away() {
    let step = serve_session(
        ServeState::Reading,
        ServeEvent::RequestBytes(b"GET / HTTP/1.1".to_vec()),
    );
    assert_eq!(
        step.notice,
        Some(ServeNotice::BadRequest(RequestError::InvalidHandshake))
    );
    assert_eq!(step.action, ServeAction::Accept);
    assert_eq!(
        step.notice.unwrap().message(),
        "dtch: invalid client request: invalid client handshake"
    );
    let (actions, notices) = serve(vec![
        ServeEvent::AcceptFailed("too many open files".to_string()),
        ServeEvent::Accepted,
        peer(1000),
        ServeEvent::RequestFailed("failed to fill whole buffer".to_string()),
    ]);
    assert_eq!(actions[0], ServeAction::Accept);
    assert_eq!(actions[3], ServeAction::Accept);
    assert_eq!(
        notices,
        [
            "dtch: accept failed: too many open files",
            "dtch: invalid client request: failed to fill whole buffer",
        ]
    );
}

#[test]
fn server_stops_for_want_of_handles() {
    let text = || "broken pipe".to_string();
    let stop = |error| go(ServeState::Stopped, ServeAction::Stop(error));
    assert_eq!(
        serve_session(ServeState::Cloning, ServeEvent::CloneFailed(text())),
        stop(ServeError::CloneFailed(text()))
    );
    assert_eq!(
        serve_session(ServeState::Registering, ServeEvent::RegisterFailed(text())),
        stop(ServeError::RegisterFailed(text()))
    );
    assert_eq!(
        ServeError::CloneFailed(text()).message(),
        "failed to clone client stream for output: broken pipe"
    );
    assert_eq!(ServeError::RegisterFailed(text()).message(), "broken pipe");
    assert_eq!(
        serve_session(ServeState::Stopped, ServeEvent::Accepted),
        go(ServeState::Stopped, ServeAction::Await)
    );
}

#[test]
fn client_lost_during_replay_is_given_up_alone() {
    let (actions, notices) = serve(vec![
        ServeEvent::Accepted,
        peer(1000),
        ServeEvent::RequestBytes(wire(Request::Attach(SIZE))),
        ServeEvent::Resized,
        ServeEvent::Cloned,
        ServeEvent::History(b"old output\n".to_vec()),
        ServeEvent::ReplayFailed("broken pipe".to_string()),
        ServeEvent::Accepted,
        peer(1000),
    ]);
    assert_eq!(
        &actions[5..],
        [
            ServeAction::SendReplay(b"old output\n".to_vec()),
            ServeAction::Accept,
            ServeAction::VerifyPeer,
            ServeAction::ReadRequest,
        ]
    );
    assert_eq!(notices, ["dtch: failed to replay output: broken pipe"]);
}

#[test]
fn request_before_verification_is_not_read() {
    assert_eq!(
        serve_session(
            ServeState::Verifying,
            ServeEvent::RequestBytes(wire(Request::Attach(SIZE)))
        ),
        go(ServeState::Verifying, ServeAction::Await)
    );
}

#[test]
fn peers_are_trusted_on_proof_only() {
    let reply = |rc, uid| PeerReply::Credentials { rc, uid };
    assert_eq!(uid(reply(0, 7)), Ok(7));
    assert_eq!(uid(reply(-1, 7)), Err(PeerError::LookupFailed));
    assert_eq!(uid(PeerReply::Unsupported), Err(PeerError::Unsupported));
    assert_eq!(verify_peer_uid(reply(0, 7), 7), Ok(()));
    assert_eq!(verify_peer_uid(reply(0, 0), 7), Err(PeerError::OtherUser));
    assert_eq!(verify_peer_uid(reply(-1, 7), 7), Err(PeerError::LookupFailed));
    assert_eq!(
        verify_peer_uid(PeerReply::Unsupported, 7),
        Err(PeerError::Unsupported)
    );
    assert_eq!(
        PeerError::LookupFailed.message(),
        "failed to read Unix socket peer credentials"
    );
    assert_eq!(
        PeerError::Unsupported.message(),
        "Unix socket peer credential verification is unsupported on this platform"
    );
}

#[test]
fn redraw_signals_the_foreground_group() {
    let group = |rc, pgrp| force_redraw(RedrawState::Asking, RedrawEvent::Group { rc, pgrp }, 42);
    let child = (RedrawState::SignallingChild, RedrawAction::Signal(-42));
    assert_eq!(
        group(0, 99),
        (RedrawState::SignallingGroup, RedrawAction::Signal(-99))
    );
    assert_eq!(group(-1, 99), child);
    assert_eq!(group(0, 0), child);
    assert_eq!(group(0, -5), child);
    let signalled =
        |state, rc| force_redraw(state, RedrawEvent::Signalled(rc), 42);
    let done = (RedrawState::Done, RedrawAction::Finish);
    assert_eq!(signalled(RedrawState::SignallingGroup, 0), done);
    assert_eq!(signalled(RedrawState::SignallingGroup, -1), child);
    assert_eq!(signalled(RedrawState::SignallingChild, -1), done);
    assert_eq!(
        signalled(RedrawState::Done, 0),
        (RedrawState::Done, RedrawAction::Await)
    );
}

//! Copying bytes from one end of a session to the other.
//!
//! A relay reads a chunk, writes it, and reads the next. The four relays of a
//! session differ in what they make of a failed read, and in whether a key
//! leaves the session.

use vstd::prelude::*;

verus! {

/// The byte that leaves a session: Ctrl-E.
pub const DETACH_BYTE: u8 = 0x05;

/// What tells one relay from another.
#[derive(Clone, Copy, Debug, PartialEq, Eq, Structural)]
pub struct RelayPolicy {
    /// The detach byte ends the relay.
    pub detaches: bool,
    /// A read that a signal interrupted is tried again.
    pub retries: bool,
    /// A failed read is taken for the end of the input.
    pub forgives: bool,
}

/// What the relay is waiting for.
#[derive(Clone, Copy, Debug, PartialEq, Eq, Structural)]
pub enum RelayState {
    /// A chunk of input.
    Reading,
    /// The chunk to be written.
    Writing,
    /// The last bytes to be written, those before the detach byte.
    WritingLast,
    /// The connection to be shut down.
    ShuttingDown,
    /// Nothing more.
    Ended,
}

/// How an action went.
#[derive(Debug, PartialEq, Eq)]
pub enum RelayEvent {
    /// These bytes were read. None at all mean that the input has ended.
    Data(Vec<u8>),
    /// A signal interrupted the read.
    Interrupted,
    ReadFailed,
    Written,
    WriteFailed,
    /// The connection was shut down, or could not be.
    ShutDown,
}

/// What the relay does next.
#[derive(Clone, Copy, Debug, PartialEq, Eq, Structural)]
pub enum RelayAction {
    /// Read a chunk.
    Read,
    /// Write this many bytes of the chunk just read, from its start.
    Write(usize),
    /// Shut the connection down, in both directions.
    ShutDown,
    /// Keep waiting: the event did not belong to the action under way.
    Await,
    /// Stop.
    Stop(RelayEnd),
}

/// How a relay ended.
#[derive(Clone, Copy, Debug, PartialEq, Eq, Structural)]
pub enum RelayEnd {
    /// The input ended.
    EndOfInput,
    /// The detach byte was read.
    Detached,
    ReadFailed,
    WriteFailed,
}

impl RelayPolicy {
    /// Copies local keystrokes to the session until EOF or the detach byte is
    /// received.
    pub fn copy_stdin_to_socket() -> (policy: Self)
        ensures
            policy == (RelayPolicy { detaches: true, retries: false, forgives: false }),
    {
        RelayPolicy { detaches: true, retries: false, forgives: false }
    }

    /// Writes session output to the local terminal until the socket closes.
    pub fn copy_socket_to_stdout() -> (policy: Self)
        ensures
            policy == (RelayPolicy { detaches: false, retries: true, forgives: false }),
    {
        RelayPolicy { detaches: false, retries: true, forgives: false }
    }

    /// Copies input from one attached client into the shared pty master.
    pub fn copy_client_to_pty() -> (policy: Self)
        ensures
            policy == (RelayPolicy { detaches: false, retries: true, forgives: false }),
    {
        RelayPolicy { detaches: false, retries: true, forgives: false }
    }

    /// Broadcasts pty output to attached clients.
    pub fn copy_pty_to_clients() -> (policy: Self)
        ensures
            policy == (RelayPolicy { detaches: false, retries: true, forgives: true }),
    {
        RelayPolicy { detaches: false, retries: true, forgives: true }
    }
}

/// What stands before the first detach byte; all of `bytes` where there is none.
pub open spec fn up_to_detach(bytes: Seq<u8>) -> Seq<u8> {
    if bytes.contains(DETACH_BYTE) {
        bytes.take(bytes.index_of_first(DETACH_BYTE)->0)
    } else {
        bytes
    }
}

/// The answer to an event in some state.
pub open spec fn relay_next(
    policy: RelayPolicy,
    state: RelayState,
    event: RelayEvent,
) -> (RelayState, RelayAction) {
    match (state, event) {
        (RelayState::Reading, RelayEvent::Data(bytes)) => if bytes@.len() == 0 {
            (RelayState::Ended, RelayAction::Stop(RelayEnd::EndOfInput))
        } else if policy.detaches && bytes@.contains(DETACH_BYTE) {
            (
                RelayState::WritingLast,
                RelayAction::Write(up_to_detach(bytes@).len() as usize),
            )
        } else {
            (RelayState::Writing, RelayAction::Write(bytes@.len() as usize))
        },
        (RelayState::Reading, RelayEvent::Interrupted) => if policy.retries {
            (RelayState::Reading, RelayAction::Read)
        } else {
            relay_read_failed(policy)
        },
        (RelayState::Reading, RelayEvent::ReadFailed) => relay_read_failed(policy),
        (RelayState::Writing, RelayEvent::Written) => (RelayState::Reading, RelayAction::Read),
        (RelayState::WritingLast, RelayEvent::Written) => (
            RelayState::ShuttingDown,
            RelayAction::ShutDown,
        ),
        (RelayState::Writing | RelayState::WritingLast, RelayEvent::WriteFailed) => (
            RelayState::Ended,
            RelayAction::Stop(RelayEnd::WriteFailed),
        ),
        (RelayState::ShuttingDown, RelayEvent::ShutDown) => (
            RelayState::Ended,
            RelayAction::Stop(RelayEnd::Detached),
        ),
        _ => (state, RelayAction::Await),
    }
}

/// The answer to a read that failed for good.
pub open spec fn relay_read_failed(policy: RelayPolicy) -> (RelayState, RelayAction) {
    if policy.forgives {
        (RelayState::Ended, RelayAction::Stop(RelayEnd::EndOfInput))
    } else {
        (RelayState::Ended, RelayAction::Stop(RelayEnd::ReadFailed))
    }
}

/// Looks for the first detach byte.
fn find_detach(bytes: &[u8]) -> (position: Option<usize>)
    ensures
        match position {
            Some(position) => bytes@.contains(DETACH_BYTE) && bytes@.index_of_first(DETACH_BYTE)
                == Some(position as int),
            None => !bytes@.contains(DETACH_BYTE),
        },
{
    let mut i: usize = 0;
    while i < bytes.len()
        invariant
            i <= bytes@.len(),
            forall|j: int| 0 <= j < i ==> bytes@[j] != DETACH_BYTE,
        decreases bytes@.len() - i,
    {
        if bytes[i] == DETACH_BYTE {
            proof {
                assert(bytes@[i as int] == DETACH_BYTE);
                bytes@.index_of_first_ensures(DETACH_BYTE);
            }
            return Some(i);
        }
        i = i + 1;
    }
    None
}

/// Answers an event.
pub fn relay(policy: RelayPolicy, state: RelayState, event: &RelayEvent) -> (step: (
    RelayState,
    RelayAction,
))
    ensures
        step == relay_next(policy, state, *event),
{
    match (state, event) {
        (RelayState::Reading, RelayEvent::Data(bytes)) => {
            if bytes.is_empty() {
                return (RelayState::Ended, RelayAction::Stop(RelayEnd::EndOfInput));
            }
            if policy.detaches {
                if let Some(position) = find_detach(bytes.as_slice()) {
                    proof {
                        bytes@.index_of_first_ensures(DETACH_BYTE);
                    }
                    return (RelayState::WritingLast, RelayAction::Write(position));
                }
            }
            (RelayState::Writing, RelayAction::Write(bytes.len()))
        },
        (RelayState::Reading, RelayEvent::Interrupted) => {
            if policy.retries {
                (RelayState::Reading, RelayAction::Read)
            } else {
                read_failed(policy)
            }
        },
        (RelayState::Reading, RelayEvent::ReadFailed) => read_failed(policy),
        (RelayState::Writing, RelayEvent::Written) => (RelayState::Reading, RelayAction::Read),
        (RelayState::WritingLast, RelayEvent::Written) => {
            (RelayState::ShuttingDown, RelayAction::ShutDown)
        },
        (RelayState::Writing | RelayState::WritingLast, RelayEvent::WriteFailed) => {
            (RelayState::Ended, RelayAction::Stop(RelayEnd::WriteFailed))
        },
        (RelayState::ShuttingDown, RelayEvent::ShutDown) => {
            (RelayState::Ended, RelayAction::Stop(RelayEnd::Detached))
        },
        _ => (state, RelayAction::Await),
    }
}

/// Answers a read that failed for good.
fn read_failed(policy: RelayPolicy) -> (step: (RelayState, RelayAction))
    ensures
        step == relay_read_failed(policy),
{
    if policy.forgives {
        (RelayState::Ended, RelayAction::Stop(RelayEnd::EndOfInput))
    } else {
        (RelayState::Ended, RelayAction::Stop(RelayEnd::ReadFailed))
    }
}

/// The state of a relay after all these events.
pub open spec fn relay_state_after(policy: RelayPolicy, events: Seq<RelayEvent>) -> RelayState
    decreases events.len(),
{
    if events.len() == 0 {
        RelayState::Reading
    } else {
        relay_next(policy, relay_state_after(policy, events.drop_last()), events.last()).0
    }
}

/// The bytes that a relay has read.
pub open spec fn received(policy: RelayPolicy, events: Seq<RelayEvent>) -> Seq<u8>
    decreases events.len(),
{
    if events.len() == 0 {
        Seq::empty()
    } else {
        let before = received(policy, events.drop_last());
        match events.last() {
            RelayEvent::Data(bytes) => if relay_state_after(policy, events.drop_last())
                == RelayState::Reading {
                before + bytes@
            } else {
                before
            },
            _ => before,
        }
    }
}

/// The bytes that a relay has asked to be written.
pub open spec fn forwarded(policy: RelayPolicy, events: Seq<RelayEvent>) -> Seq<u8>
    decreases events.len(),
{
    if events.len() == 0 {
        Seq::empty()
    } else {
        let before = forwarded(policy, events.drop_last());
        let state = relay_state_after(policy, events.drop_last());
        match (events.last(), relay_next(policy, state, events.last()).1) {
            (RelayEvent::Data(bytes), RelayAction::Write(n)) => before + bytes@.take(n as int),
            _ => before,
        }
    }
}

proof fn lemma_detach_in_sum(a: Seq<u8>, b: Seq<u8>)
    requires
        !a.contains(DETACH_BYTE),
    ensures
        (a + b).contains(DETACH_BYTE) <==> b.contains(DETACH_BYTE),
        up_to_detach(a + b) == a + up_to_detach(b),
{
    let sum: Seq<u8> = a + b;
    if b.contains(DETACH_BYTE) {
        b.index_of_first_ensures(DETACH_BYTE);
        let i: int = b.index_of_first(DETACH_BYTE)->0;
        assert(sum[a.len() + i] == DETACH_BYTE);
        sum.index_of_first_ensures(DETACH_BYTE);
        let j: int = sum.index_of_first(DETACH_BYTE)->0;
        assert(sum[j] == DETACH_BYTE);
        if j < a.len() {
            assert(a[j] == DETACH_BYTE);
        } else if j < a.len() + i {
            assert(b[j - a.len()] == DETACH_BYTE);
        }
        assert(j == a.len() + i);
        assert(up_to_detach(sum) =~= a + up_to_detach(b));
    } else {
        assert forall|k: int| 0 <= k < sum.len() implies sum[k] != DETACH_BYTE by {
            if k < a.len() {
                assert(a[k] != DETACH_BYTE);
            } else {
                assert(b[k - a.len()] != DETACH_BYTE);
            }
        }
    }
}

/// A relay forwards each byte that it reads, in order and once. One that
/// detaches forwards what stands before the first detach byte, however the
/// input was cut into chunks; once it has read that byte it reads and forwards
/// nothing more, and it shuts the connection down only after that byte.
pub proof fn law_relay_forwards_its_input(policy: RelayPolicy, events: Seq<RelayEvent>)
    ensures
        forwarded(policy, events) == if policy.detaches {
            up_to_detach(received(policy, events))
        } else {
            received(policy, events)
        },
        policy.detaches && received(policy, events).contains(DETACH_BYTE) ==> relay_state_after(
            policy,
            events,
        ) != RelayState::Reading && relay_state_after(policy, events) != RelayState::Writing,
        relay_state_after(policy, events) == RelayState::WritingLast || relay_state_after(
            policy,
            events,
        ) == RelayState::ShuttingDown ==> policy.detaches && received(policy, events).contains(
            DETACH_BYTE,
        ),
    decreases events.len(),
{
    if events.len() > 0 {
        let head: Seq<RelayEvent> = events.drop_last();
        law_relay_forwards_its_input(policy, head);
        if relay_state_after(policy, head) == RelayState::Reading {
            if let RelayEvent::Data(chunk) = events.last() {
                let before: Seq<u8> = received(policy, head);
                let bytes: Seq<u8> = chunk@;
                assert(chunk.len() == bytes.len());
                if bytes.len() == 0 {
                    assert(before + bytes =~= before);
                } else if policy.detaches {
                    lemma_detach_in_sum(before, bytes);
                    bytes.index_of_first_ensures(DETACH_BYTE);
                    assert(bytes.take(bytes.len() as int) =~= bytes);
                    assert(bytes.take(up_to_detach(bytes).len() as int) =~= up_to_detach(bytes));
                    assert(forwarded(policy, events) =~= before + up_to_detach(bytes));
                } else {
                    assert(bytes.take(bytes.len() as int) =~= bytes);
                }
            }
        }
    }
}

/// What stands before the first detach byte is a beginning of the bytes, holds
/// no detach byte, and ends only where the bytes end or a detach byte follows.
/// The detach byte is that of Ctrl-E.
pub proof fn law_input_is_cut_at_the_first_detach_byte(bytes: Seq<u8>)
    ensures
        up_to_detach(bytes).is_prefix_of(bytes),
        !up_to_detach(bytes).contains(0x05),
        up_to_detach(bytes).len() < bytes.len() ==> bytes[up_to_detach(bytes).len() as int] == 0x05,
{
    if bytes.contains(DETACH_BYTE) {
        bytes.index_of_first_ensures(DETACH_BYTE);
    }
    assert(up_to_detach(bytes) =~= bytes.take(up_to_detach(bytes).len() as int));
}

/// What each action of a relay is the answer to. It stops for the end of the
/// input only where nothing was read, or where its policy takes a failed read
/// for that; it writes every chunk that it reads, up to a detach byte that
/// counts; and it reads again after every chunk that was written.
pub proof fn law_each_action_has_its_occasion(
    policy: RelayPolicy,
    state: RelayState,
    event: RelayEvent,
    n: usize,
)
    ensures
        ({
            let action = relay_next(policy, state, event).1;
            let unread = event is ReadFailed || (event is Interrupted && !policy.retries);
            &&& action == RelayAction::Read <==> (state == RelayState::Writing && event is Written)
                || (state == RelayState::Reading && event is Interrupted && policy.retries)
            &&& action == RelayAction::Write(n) <==> (state == RelayState::Reading && (event
                matches RelayEvent::Data(bytes) && bytes@.len() > 0 && n == if policy.detaches {
                up_to_detach(bytes@).len()
            } else {
                bytes@.len()
            }))
            &&& action == RelayAction::ShutDown <==> state == RelayState::WritingLast && event
                is Written
            &&& action == RelayAction::Stop(RelayEnd::EndOfInput) <==> (state
                == RelayState::Reading && ((event matches RelayEvent::Data(bytes) && bytes@.len()
                == 0) || (unread && policy.forgives)))
            &&& action == RelayAction::Stop(RelayEnd::ReadFailed) <==> state == RelayState::Reading
                && unread && !policy.forgives
            &&& action == RelayAction::Stop(RelayEnd::WriteFailed) <==> (state
                == RelayState::Writing || state == RelayState::WritingLast) && event is WriteFailed
            &&& action == RelayAction::Stop(RelayEnd::Detached) <==> state
                == RelayState::ShuttingDown && event is ShutDown
        }),
{
    if let RelayEvent::Data(bytes) = event {
        assert(bytes.len() == bytes@.len());
        law_input_is_cut_at_the_first_detach_byte(bytes@);
    }
}

/// After an action a relay waits for the outcome of that action. What it writes
/// is its last chunk exactly where a detach byte that counts stood in it, and an
/// event that does not belong to the action under way changes nothing.
pub proof fn law_relay_waits_for_its_action(
    policy: RelayPolicy,
    state: RelayState,
    event: RelayEvent,
)
    ensures
        ({
            let (next, action) = relay_next(policy, state, event);
            match action {
                RelayAction::Read => next == RelayState::Reading,
                RelayAction::Write(_) => next == if policy.detaches && (event matches
                    RelayEvent::Data(bytes) && bytes@.contains(0x05)) {
                    RelayState::WritingLast
                } else {
                    RelayState::Writing
                },
                RelayAction::ShutDown => next == RelayState::ShuttingDown,
                RelayAction::Await => next == state,
                RelayAction::Stop(_) => next == RelayState::Ended,
            }
        }),
{
}

/// The events of a relay that is offered these chunks, one after the other, and
/// whose writes all succeed.
pub open spec fn offering(chunks: Seq<Vec<u8>>) -> Seq<RelayEvent>
    decreases chunks.len(),
{
    if chunks.len() == 0 {
        Seq::empty()
    } else {
        offering(chunks.drop_last()).push(RelayEvent::Data(chunks.last())).push(RelayEvent::Written)
    }
}

/// The bytes of these chunks, one after the other.
pub open spec fn offered(chunks: Seq<Vec<u8>>) -> Seq<u8> {
    chunks.map_values(|chunk: Vec<u8>| chunk@).flatten()
}

/// Whatever chunks are offered to a relay, it forwards them all, one after the
/// other, and is then ready for more. One that detaches forwards all up to the
/// first detach byte, and where there is one it shuts the connection down.
pub proof fn law_every_offered_chunk_is_forwarded(policy: RelayPolicy, chunks: Seq<Vec<u8>>)
    requires
        forall|i: int| 0 <= i < chunks.len() ==> (#[trigger] chunks[i])@.len() > 0,
    ensures
        forwarded(policy, offering(chunks)) == if policy.detaches {
            up_to_detach(offered(chunks))
        } else {
            offered(chunks)
        },
        relay_state_after(policy, offering(chunks)) == if policy.detaches && offered(
            chunks,
        ).contains(0x05) {
            RelayState::ShuttingDown
        } else {
            RelayState::Reading
        },
    decreases chunks.len(),
{
    let view = |chunk: Vec<u8>| chunk@;
    if chunks.len() == 0 {
        assert(offered(chunks) =~= Seq::<u8>::empty());
    } else {
        let head: Seq<Vec<u8>> = chunks.drop_last();
        let before: Seq<u8> = offered(head);
        let chunk: Vec<u8> = chunks.last();
        let events: Seq<RelayEvent> = offering(head);
        let read: Seq<RelayEvent> = events.push(RelayEvent::Data(chunk));
        assert forall|i: int| 0 <= i < head.len() implies (#[trigger] head[i])@.len() > 0 by {
            assert(head[i] == chunks[i]);
        }
        law_every_offered_chunk_is_forwarded(policy, head);
        assert(chunks[chunks.len() - 1]@.len() > 0);
        assert(chunks.map_values(view) =~= head.map_values(view).push(chunk@));
        head.map_values(view).lemma_flatten_push(chunk@);
        assert(offered(chunks) == before + chunk@);
        assert(read.drop_last() =~= events);
        assert(read.push(RelayEvent::Written).drop_last() =~= read);
        assert(chunk.len() == chunk@.len());
        assert(chunk@.take(chunk@.len() as int) =~= chunk@);
        law_input_is_cut_at_the_first_detach_byte(chunk@);
        assert(chunk@.take(up_to_detach(chunk@).len() as int) =~= up_to_detach(chunk@));
        if policy.detaches {
            if before.contains(DETACH_BYTE) {
                lemma_detach_before_sum(before, chunk@);
            } else {
                lemma_detach_in_sum(before, chunk@);
            }
        }
        assert(relay_state_after(policy, read) == relay_next(
            policy,
            relay_state_after(policy, events),
            RelayEvent::Data(chunk),
        ).0);
        assert(forwarded(policy, offering(chunks)) == forwarded(policy, read));
        assert(forwarded(policy, read) =~= if policy.detaches {
            up_to_detach(offered(chunks))
        } else {
            offered(chunks)
        });
    }
}

proof fn lemma_detach_before_sum(a: Seq<u8>, b: Seq<u8>)
    requires
        a.contains(DETACH_BYTE),
    ensures
        (a + b).contains(DETACH_BYTE),
        up_to_detach(a + b) == up_to_detach(a),
{
    let sum: Seq<u8> = a + b;
    a.index_of_first_ensures(DETACH_BYTE);
    let i: int = a.index_of_first(DETACH_BYTE)->0;
    assert(sum[i] == DETACH_BYTE);
    sum.index_of_first_ensures(DETACH_BYTE);
    let j: int = sum.index_of_first(DETACH_BYTE)->0;
    if j < i {
        assert(a[j] == DETACH_BYTE);
    }
    assert(up_to_detach(sum) =~= up_to_detach(a));
}

} // verus!

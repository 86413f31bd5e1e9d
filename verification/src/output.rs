//! The way of terminal output into the history and to the clients.

use crate::clients::{ClientList, Clients};
use crate::line_buffer::{History, LineBuffer};
use vstd::prelude::*;

verus! {

/// What a session does with its output.
#[verifier::ext_equal]
pub struct OutputState<T> {
    pub history: History,
    pub clients: ClientList<T>,
}

/// What befalls the output of a session.
#[verifier::reject_recursive_types(T)]
pub enum OutputEvent<T> {
    /// A client joined.
    Joined(T),
    /// The terminal gave these bytes. `delivered` tells of each client, by its
    /// place among them, whether the bytes could be written to it.
    Chunk { bytes: Seq<u8>, delivered: spec_fn(int) -> bool },
}

/// Bytes that were written to a client, or could not be.
#[verifier::ext_equal]
pub struct ClientWrite<T> {
    pub client: T,
    pub bytes: Seq<u8>,
    pub delivered: bool,
}

/// Stores a chunk of output in the line history, and begins the round in which
/// it is written to the attached clients.
pub fn copy_pty_to_clients<T>(history: &mut LineBuffer, clients: &mut Clients<T>, bytes: &[u8])
    requires
        old(history)@.wf(),
    ensures
        final(history)@ == old(history)@.pushed(bytes@),
        final(history)@.wf(),
        final(clients)@ == old(clients)@.begun(),
        final(clients)@.wf(),
{
    history.push(bytes);
    clients.begin_round();
}

/// The outcomes of a round with these clients, one after the other.
pub open spec fn outcomes<T>(clients: ClientList<T>, delivered: spec_fn(int) -> bool) -> Seq<bool> {
    Seq::new(clients.list.len(), delivered)
}

/// The client whose turn it is after `n` turns of a round.
pub open spec fn client_after<T>(
    clients: ClientList<T>,
    delivered: spec_fn(int) -> bool,
    n: int,
) -> T {
    let now = clients.begun().settled_all(outcomes(clients, delivered).take(n));
    now.list[now.cursor as int]
}

/// The writes of a round, one to each client whose turn it is.
pub open spec fn round_writes<T>(
    clients: ClientList<T>,
    bytes: Seq<u8>,
    delivered: spec_fn(int) -> bool,
) -> Seq<ClientWrite<T>> {
    Seq::new(
        clients.list.len(),
        |n: int|
            ClientWrite {
                client: client_after(clients, delivered, n),
                bytes,
                delivered: delivered(n),
            },
    )
}

impl<T> OutputState<T> {
    /// The output after an event. A chunk goes into the history, and to every
    /// client in its round.
    pub open spec fn next(self, event: OutputEvent<T>) -> OutputState<T> {
        match event {
            OutputEvent::Joined(client) => OutputState {
                history: self.history,
                clients: ClientList {
                    list: self.clients.list.push(client),
                    cursor: self.clients.cursor,
                },
            },
            OutputEvent::Chunk { bytes, delivered } => OutputState {
                history: self.history.pushed(bytes),
                clients: self.clients.begun().settled_all(outcomes(self.clients, delivered)),
            },
        }
    }

    /// The output after all these events.
    pub open spec fn after(self, events: Seq<OutputEvent<T>>) -> OutputState<T>
        decreases events.len(),
    {
        if events.len() == 0 {
            self
        } else {
            self.after(events.drop_last()).next(events.last())
        }
    }

    /// All writes to clients that these events led to.
    pub open spec fn writes(self, events: Seq<OutputEvent<T>>) -> Seq<ClientWrite<T>>
        decreases events.len(),
    {
        if events.len() == 0 {
            Seq::empty()
        } else {
            let before = self.writes(events.drop_last());
            match events.last() {
                OutputEvent::Joined(_) => before,
                OutputEvent::Chunk { bytes, delivered } => before + round_writes(
                    self.after(events.drop_last()).clients,
                    bytes,
                    delivered,
                ),
            }
        }
    }
}

/// The chunks of output among these events.
pub open spec fn chunks<T>(events: Seq<OutputEvent<T>>) -> Seq<Seq<u8>>
    decreases events.len(),
{
    if events.len() == 0 {
        Seq::empty()
    } else {
        match events.last() {
            OutputEvent::Joined(_) => chunks(events.drop_last()),
            OutputEvent::Chunk { bytes, .. } => chunks(events.drop_last()).push(bytes),
        }
    }
}

/// The writes to one client.
pub open spec fn writes_to<T>(client: T, writes: Seq<ClientWrite<T>>) -> Seq<ClientWrite<T>>
    decreases writes.len(),
{
    if writes.len() == 0 {
        Seq::empty()
    } else if writes.last().client == client {
        writes_to(client, writes.drop_last()).push(writes.last())
    } else {
        writes_to(client, writes.drop_last())
    }
}

/// All writes succeeded.
pub open spec fn all_delivered<T>(writes: Seq<ClientWrite<T>>) -> bool {
    forall|i: int| 0 <= i < writes.len() ==> (#[trigger] writes[i]).delivered
}

/// The bytes of each write.
pub open spec fn written<T>(writes: Seq<ClientWrite<T>>) -> Seq<Seq<u8>> {
    writes.map_values(|write: ClientWrite<T>| write.bytes)
}

/// The client stands at place `i` of the list, and at no other.
pub open spec fn stands_at<T>(list: Seq<T>, client: T, i: int) -> bool {
    &&& 0 <= i < list.len()
    &&& list[i] == client
    &&& forall|j: int| 0 <= j < list.len() && j != i ==> #[trigger] list[j] != client
}

/// The client is on the list, once.
pub open spec fn is_listed<T>(list: Seq<T>, client: T) -> bool {
    exists|i: int| stands_at(list, client, i)
}

/// Nobody else joined as this client.
pub open spec fn nobody_joins_as<T>(client: T, events: Seq<OutputEvent<T>>) -> bool {
    forall|i: int|
        0 <= i < events.len() ==> (#[trigger] events[i] matches OutputEvent::Joined(other)
            ==> other != client)
}

proof fn lemma_writes_to_add<T>(client: T, a: Seq<ClientWrite<T>>, b: Seq<ClientWrite<T>>)
    ensures
        writes_to(client, a + b) == writes_to(client, a) + writes_to(client, b),
    decreases b.len(),
{
    if b.len() == 0 {
        assert(a + b =~= a);
        assert(writes_to(client, a) + writes_to(client, b) =~= writes_to(client, a));
    } else {
        lemma_writes_to_add(client, a, b.drop_last());
        assert((a + b).drop_last() =~= a + b.drop_last());
        assert(writes_to(client, a + b) =~= writes_to(client, a) + writes_to(client, b));
    }
}

/// Among writes of which only the one at `at` is to the client, that one is
/// found.
proof fn lemma_one_write<T>(client: T, writes: Seq<ClientWrite<T>>, at: int)
    requires
        0 <= at < writes.len(),
        forall|j: int|
            0 <= j < writes.len() ==> (((#[trigger] writes[j]).client == client) <==> j == at),
    ensures
        writes_to(client, writes) == seq![writes[at]],
{
    let before: Seq<ClientWrite<T>> = writes.take(at);
    let one: Seq<ClientWrite<T>> = seq![writes[at]];
    let after: Seq<ClientWrite<T>> = writes.skip(at + 1);
    assert(writes =~= before + one + after);
    lemma_writes_to_add(client, before + one, after);
    lemma_writes_to_add(client, before, one);
    assert forall|j: int| 0 <= j < before.len() implies (#[trigger] before[j]).client
        != client by {
        assert(before[j] == writes[j]);
    }
    assert forall|j: int| 0 <= j < after.len() implies (#[trigger] after[j]).client != client by {
        assert(after[j] == writes[at + 1 + j]);
    }
    lemma_no_write(client, before);
    lemma_no_write(client, after);
    assert(one.drop_last() =~= Seq::<ClientWrite<T>>::empty());
    assert(writes_to(client, one.drop_last()) =~= Seq::<ClientWrite<T>>::empty());
    assert(writes_to(client, one) =~= one);
    assert(writes_to(client, writes) =~= one);
}

proof fn lemma_no_write<T>(client: T, writes: Seq<ClientWrite<T>>)
    requires
        forall|j: int| 0 <= j < writes.len() ==> (#[trigger] writes[j]).client != client,
    ensures
        writes_to(client, writes) == Seq::<ClientWrite<T>>::empty(),
    decreases writes.len(),
{
    if writes.len() > 0 {
        let head: Seq<ClientWrite<T>> = writes.drop_last();
        assert(writes[writes.len() - 1].client != client);
        assert forall|j: int| 0 <= j < head.len() implies (#[trigger] head[j]).client
            != client by {
            assert(head[j] == writes[j]);
        }
        lemma_no_write(client, head);
    }
}

proof fn lemma_survivors_without<T>(list: Seq<T>, results: Seq<bool>, client: T)
    requires
        list.len() == results.len(),
        forall|j: int| 0 <= j < list.len() ==> #[trigger] list[j] != client,
    ensures
        forall|j: int|
            0 <= j < crate::clients::survivors(list, results).len()
                ==> #[trigger] crate::clients::survivors(list, results)[j] != client,
    decreases list.len(),
{
    if list.len() > 0 {
        let head: Seq<T> = list.drop_last();
        assert(list[list.len() - 1] != client);
        assert forall|j: int| 0 <= j < head.len() implies #[trigger] head[j] != client by {
            assert(head[j] == list[j]);
        }
        lemma_survivors_without(head, results.drop_last(), client);
        let kept: Seq<T> = crate::clients::survivors(head, results.drop_last());
        let all: Seq<T> = crate::clients::survivors(list, results);
        assert forall|j: int| 0 <= j < all.len() implies #[trigger] all[j] != client by {
            if j < kept.len() {
                assert(kept[j] != client);
            }
        }
    }
}

/// A client that got its output stays on the list.
proof fn lemma_survivor_is_listed<T>(list: Seq<T>, results: Seq<bool>, client: T, at: int)
    requires
        list.len() == results.len(),
        stands_at(list, client, at),
        results[at],
    ensures
        is_listed(crate::clients::survivors(list, results), client),
    decreases list.len(),
{
    let head: Seq<T> = list.drop_last();
    let kept: Seq<T> = crate::clients::survivors(head, results.drop_last());
    let all: Seq<T> = crate::clients::survivors(list, results);
    if at == list.len() - 1 {
        assert forall|j: int| 0 <= j < head.len() implies #[trigger] head[j] != client by {
            assert(head[j] == list[j]);
        }
        lemma_survivors_without(head, results.drop_last(), client);
        assert(all == kept.push(client));
        assert(stands_at(all, client, kept.len() as int));
    } else {
        assert(list[list.len() - 1] != client);
        assert(stands_at(head, client, at)) by {
            assert forall|j: int| 0 <= j < head.len() && j != at implies #[trigger] head[j]
                != client by {
                assert(head[j] == list[j]);
            }
        }
        lemma_survivor_is_listed(head, results.drop_last(), client, at);
        let i: int = choose|i: int| stands_at(kept, client, i);
        assert(stands_at(all, client, i));
    }
}

/// The history holds every chunk of output, whoever was attached.
pub proof fn law_history_holds_every_chunk<T>(start: OutputState<T>, events: Seq<OutputEvent<T>>)
    ensures
        start.after(events).history == start.history.pushed_all(chunks(events)),
    decreases events.len(),
{
    if events.len() > 0 {
        law_history_holds_every_chunk(start, events.drop_last());
        if let OutputEvent::Chunk { bytes, delivered } = events.last() {
            assert(chunks(events).drop_last() =~= chunks(events.drop_last()));
        }
    }
}

/// A client to which every write succeeded was written every chunk of output,
/// in order and once, and it is still listed.
pub proof fn law_reachable_client_gets_every_chunk<T>(
    start: OutputState<T>,
    events: Seq<OutputEvent<T>>,
    client: T,
)
    requires
        is_listed(start.clients.list, client),
        nobody_joins_as(client, events),
        all_delivered(writes_to(client, start.writes(events))),
    ensures
        written(writes_to(client, start.writes(events))) == chunks(events),
        is_listed(start.after(events).clients.list, client),
    decreases events.len(),
{
    let mine: Seq<ClientWrite<T>> = writes_to(client, start.writes(events));
    if events.len() == 0 {
        assert(written(mine) =~= chunks(events));
    } else {
        let head: Seq<OutputEvent<T>> = events.drop_last();
        let earlier: Seq<ClientWrite<T>> = writes_to(client, start.writes(head));
        assert(nobody_joins_as(client, head)) by {
            assert forall|i: int| 0 <= i < head.len() implies (#[trigger] head[i] matches
                OutputEvent::Joined(other) ==> other != client) by {
                assert(head[i] == events[i]);
            }
        }
        assert(events[events.len() - 1] == events.last());
        let clients: ClientList<T> = start.after(head).clients;
        match events.last() {
            OutputEvent::Joined(other) => {
                law_reachable_client_gets_every_chunk(start, head, client);
                let i: int = choose|i: int| stands_at(clients.list, client, i);
                assert(stands_at(clients.list.push(other), client, i));
            },
            OutputEvent::Chunk { bytes, delivered } => {
                let round: Seq<ClientWrite<T>> = round_writes(clients, bytes, delivered);
                lemma_writes_to_add(client, start.writes(head), round);
                assert(all_delivered(earlier)) by {
                    assert forall|i: int| 0 <= i < earlier.len() implies (#[trigger]
                    earlier[i]).delivered by {
                        assert(mine[i] == earlier[i]);
                    }
                }
                law_reachable_client_gets_every_chunk(start, head, client);
                let at: int = choose|i: int| stands_at(clients.list, client, i);
                let results: Seq<bool> = outcomes(clients, delivered);
                assert forall|j: int| 0 <= j < round.len() implies (#[trigger] round[j]).client
                    == clients.list[j] by {
                    crate::clients::law_every_client_has_its_turn(clients, results.take(j));
                }
                assert forall|j: int| 0 <= j < round.len() implies (((#[trigger]
                round[j]).client == client) <==> j == at) by {
                    assert(round[j].client == clients.list[j]);
                }
                lemma_one_write(client, round, at);
                assert(mine == earlier.push(round[at]));
                assert(mine[earlier.len() as int].delivered);
                assert(results[at]);
                assert(written(mine) =~= written(earlier).push(bytes));
                crate::clients::law_round_keeps_reachable_clients(clients, results);
                lemma_survivor_is_listed(clients.list, results, client, at);
            },
        }
    }
}

} // verus!

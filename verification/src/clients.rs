//! The clients that get the output of a session.

use vstd::prelude::*;

verus! {

/// The attached clients, in the order in which they came, and the one whose
/// turn it is in a round of output.
pub struct Clients<T> {
    list: Vec<T>,
    cursor: usize,
}

/// Clients as a sequence.
#[verifier::ext_equal]
pub struct ClientList<T> {
    pub list: Seq<T>,
    pub cursor: nat,
}

impl<T> ClientList<T> {
    /// The cursor is at a client, or behind the last.
    pub open spec fn wf(self) -> bool {
        self.cursor <= self.list.len()
    }

    /// A new round has begun.
    pub open spec fn begun(self) -> ClientList<T> {
        ClientList { list: self.list, cursor: 0 }
    }

    /// The client whose turn it is got its output, or it failed to and is gone.
    pub open spec fn settled(self, delivered: bool) -> ClientList<T> {
        if self.cursor >= self.list.len() {
            self
        } else if delivered {
            ClientList { list: self.list, cursor: self.cursor + 1 }
        } else {
            ClientList { list: self.list.remove(self.cursor as int), cursor: self.cursor }
        }
    }

    /// One client after the other has been settled.
    pub open spec fn settled_all(self, outcomes: Seq<bool>) -> ClientList<T>
        decreases outcomes.len(),
    {
        if outcomes.len() == 0 {
            self
        } else {
            self.settled_all(outcomes.drop_last()).settled(outcomes.last())
        }
    }
}

/// The clients that got their output, in their order.
pub open spec fn survivors<T>(list: Seq<T>, outcomes: Seq<bool>) -> Seq<T>
    recommends
        list.len() == outcomes.len(),
    decreases outcomes.len(),
{
    if outcomes.len() == 0 {
        Seq::empty()
    } else if outcomes.last() {
        survivors(list.drop_last(), outcomes.drop_last()).push(list.last())
    } else {
        survivors(list.drop_last(), outcomes.drop_last())
    }
}

impl<T> View for Clients<T> {
    type V = ClientList<T>;

    closed spec fn view(&self) -> ClientList<T> {
        ClientList { list: self.list@, cursor: self.cursor as nat }
    }
}

impl<T> Clients<T> {
    /// Starts without clients.
    pub fn new() -> (clients: Self)
        ensures
            clients@.list == Seq::<T>::empty(),
            clients@.wf(),
    {
        Clients { list: Vec::new(), cursor: 0 }
    }

    /// Adds a client behind the others.
    pub fn join(&mut self, client: T)
        ensures
            final(self)@ == (ClientList {
                list: old(self)@.list.push(client),
                cursor: old(self)@.cursor,
            }),
            old(self)@.wf() ==> final(self)@.wf(),
    {
        self.list.push(client);
    }

    /// Begins a round of output.
    pub fn begin_round(&mut self)
        ensures
            final(self)@ == old(self)@.begun(),
            final(self)@.wf(),
    {
        self.cursor = 0;
    }

    /// The client whose turn it is, until the round has ended.
    pub fn current(&self) -> (client: Option<&T>)
        ensures
            client is Some <==> self@.cursor < self@.list.len(),
            client matches Some(client) ==> *client == self@.list[self@.cursor as int],
    {
        if self.cursor < self.list.len() {
            Some(&self.list[self.cursor])
        } else {
            None
        }
    }

    /// Goes on to the next client, and drops this one if it could not be
    /// reached.
    pub fn settle(&mut self, delivered: bool)
        ensures
            final(self)@ == old(self)@.settled(delivered),
            old(self)@.wf() ==> final(self)@.wf(),
    {
        if self.cursor < self.list.len() {
            if delivered {
                self.cursor = self.cursor + 1;
            } else {
                let _ = self.list.remove(self.cursor);
            }
        }
    }
}

proof fn lemma_partial_round<T>(clients: ClientList<T>, outcomes: Seq<bool>)
    requires
        outcomes.len() <= clients.list.len(),
    ensures
        ({
            let n = outcomes.len() as int;
            let kept = survivors(clients.list.take(n), outcomes);
            &&& clients.begun().settled_all(outcomes).list == kept + clients.list.skip(n)
            &&& clients.begun().settled_all(outcomes).cursor == kept.len()
        }),
    decreases outcomes.len(),
{
    let n: int = outcomes.len() as int;
    if n == 0 {
        assert(survivors(clients.list.take(0), outcomes) + clients.list.skip(0) =~= clients.list);
    } else {
        let head: Seq<bool> = outcomes.drop_last();
        lemma_partial_round(clients, head);
        let before: ClientList<T> = clients.begun().settled_all(head);
        let kept: Seq<T> = survivors(clients.list.take(n - 1), head);
        assert(clients.list.take(n).drop_last() =~= clients.list.take(n - 1));
        assert(clients.list.skip(n - 1) =~= seq![clients.list[n - 1]] + clients.list.skip(n));
        if outcomes.last() {
            assert(kept + clients.list.skip(n - 1) =~= kept.push(clients.list[n - 1])
                + clients.list.skip(n));
        } else {
            assert(before.list.remove(kept.len() as int) =~= kept + clients.list.skip(n));
        }
    }
}

/// In a round every client has its turn, once and in order.
pub proof fn law_every_client_has_its_turn<T>(clients: ClientList<T>, outcomes: Seq<bool>)
    requires
        outcomes.len() < clients.list.len(),
    ensures
        ({
            let now = clients.begun().settled_all(outcomes);
            now.cursor < now.list.len() && now.list[now.cursor as int]
                == clients.list[outcomes.len() as int]
        }),
{
    lemma_partial_round(clients, outcomes);
}

/// When a round has ended, those clients are left that got their output, in
/// their order, and no turn is left.
pub proof fn law_round_keeps_reachable_clients<T>(clients: ClientList<T>, outcomes: Seq<bool>)
    requires
        outcomes.len() == clients.list.len(),
    ensures
        clients.begun().settled_all(outcomes).list == survivors(clients.list, outcomes),
        clients.begun().settled_all(outcomes).cursor == clients.begun().settled_all(
            outcomes,
        ).list.len(),
{
    lemma_partial_round(clients, outcomes);
    let n: int = outcomes.len() as int;
    assert(clients.list.take(n) =~= clients.list);
    assert(survivors(clients.list, outcomes) + clients.list.skip(n) =~= survivors(
        clients.list,
        outcomes,
    ));
}

/// A round begins with the first client, and with the clients as they are.
pub proof fn law_round_begins_with_the_first<T>(clients: ClientList<T>)
    ensures
        clients.begun().list == clients.list,
        clients.begun().cursor == 0,
{
}

/// What the outcome of a turn does: a client that got its output stays where it
/// is, and the turn goes on; one that did not is taken out, and those behind it
/// move up by one place. After the last turn nothing changes.
pub proof fn law_turn_goes_on<T>(clients: ClientList<T>)
    ensures
        clients.cursor >= clients.list.len() ==> clients.settled(true) == clients
            && clients.settled(false) == clients,
        clients.cursor < clients.list.len() ==> {
            let at = clients.cursor as int;
            let reached = clients.settled(true);
            let lost = clients.settled(false);
            &&& reached.list == clients.list
            &&& reached.cursor == at + 1
            &&& lost.cursor == at
            &&& lost.list.len() == clients.list.len() - 1
            &&& lost.list.take(at) == clients.list.take(at)
            &&& lost.list.skip(at) == clients.list.skip(at + 1)
        },
{
    if clients.cursor < clients.list.len() {
        let at: int = clients.cursor as int;
        assert(clients.list.remove(at).take(at) =~= clients.list.take(at));
        assert(clients.list.remove(at).skip(at) =~= clients.list.skip(at + 1));
    }
}

/// `kept` are the clients of `list` at the places `at`, which are all the places
/// with an outcome that is true, in their order.
pub open spec fn picks<T>(list: Seq<T>, outcomes: Seq<bool>, kept: Seq<T>, at: Seq<int>) -> bool {
    &&& kept.len() == at.len()
    &&& forall|k: int|
        0 <= k < at.len() ==> 0 <= #[trigger] at[k] < list.len() && outcomes[at[k]] && kept[k]
            == list[at[k]]
    &&& forall|k: int, l: int| 0 <= k < l < at.len() ==> #[trigger] at[k] < #[trigger] at[l]
    &&& forall|i: int|
        0 <= i < outcomes.len() && #[trigger] outcomes[i] ==> at.contains(i)
}

/// Of the clients of a round those are left that got their output, each of them
/// and no other, in the order in which they came.
pub proof fn law_reached_clients_are_left<T>(clients: ClientList<T>, outcomes: Seq<bool>)
    requires
        outcomes.len() == clients.list.len(),
    ensures
        exists|at: Seq<int>|
            picks(clients.list, outcomes, clients.begun().settled_all(outcomes).list, at),
{
    law_round_keeps_reachable_clients(clients, outcomes);
    let at: Seq<int> = lemma_survivors_are_picked(clients.list, outcomes);
    assert(picks(clients.list, outcomes, clients.begun().settled_all(outcomes).list, at));
}

proof fn lemma_survivors_are_picked<T>(list: Seq<T>, outcomes: Seq<bool>) -> (at: Seq<int>)
    requires
        outcomes.len() == list.len(),
    ensures
        picks(list, outcomes, survivors(list, outcomes), at),
    decreases list.len(),
{
    if list.len() == 0 {
        Seq::empty()
    } else {
        let n: int = list.len() - 1;
        let before: Seq<int> = lemma_survivors_are_picked(list.drop_last(), outcomes.drop_last());
        let at: Seq<int> = if outcomes.last() { before.push(n) } else { before };
        assert forall|i: int| 0 <= i < outcomes.len() && #[trigger] outcomes[i] implies at.contains(
            i,
        ) by {
            if i < n {
                assert(outcomes.drop_last()[i]);
                let k: int = choose|k: int| 0 <= k < before.len() && before[k] == i;
                assert(at[k] == i);
            } else {
                assert(at[at.len() - 1] == n);
            }
        }
        assert forall|k: int| 0 <= k < at.len() implies 0 <= #[trigger] at[k] < list.len()
            && outcomes[at[k]] && survivors(list, outcomes)[k] == list[at[k]] by {
            if k < before.len() {
                assert(0 <= before[k] < n && outcomes.drop_last()[before[k]]);
            }
        }
        assert forall|k: int, l: int| 0 <= k < l < at.len() implies #[trigger] at[k]
            < #[trigger] at[l] by {
            assert(before[k] == at[k] && before[k] < n);
            if l < before.len() {
                assert(before[k] < before[l]);
            }
        }
        at
    }
}

} // verus!

//! Sequences of states that a process goes through.

use vstd::prelude::*;

verus! {

/// The last time that a process came to where it is: from step `i` on it has
/// been in states with the property `p`, and just before it was not.
pub open spec fn entered_at<S>(states: Seq<S>, p: spec_fn(S) -> bool, i: int) -> bool {
    &&& 0 <= i < states.len() - 1
    &&& !p(states[i])
    &&& forall|j: int| i < j < states.len() ==> p(#[trigger] states[j])
}

/// A process that starts without a property and ends with it came to have it.
pub proof fn lemma_entered<S>(states: Seq<S>, p: spec_fn(S) -> bool) -> (i: int)
    requires
        states.len() > 0,
        !p(states[0]),
        p(states.last()),
    ensures
        entered_at(states, p, i),
    decreases states.len(),
{
    let n: int = states.len() as int;
    assert(states.last() == states[n - 1]);
    if !p(states[n - 2]) {
        n - 2
    } else {
        let head: Seq<S> = states.drop_last();
        assert(head.last() == states[n - 2]);
        let i: int = lemma_entered(head, p);
        assert forall|j: int| i < j < states.len() implies p(#[trigger] states[j]) by {
            if j < n - 1 {
                assert(head[j] == states[j]);
            }
        }
        i
    }
}

} // verus!

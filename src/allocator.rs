use vstd::prelude::*;

verus! {

/// Issues connection ids: 1 first, then each one greater by one than the last.
pub struct IdAllocator {
    next: usize,
}

impl View for IdAllocator {
    /// The id that the next call hands out.
    type V = nat;

    closed spec fn view(&self) -> nat {
        self.next as nat
    }
}

impl IdAllocator {
    /// An allocator whose first id is 1.
    pub fn new() -> (r: IdAllocator)
        ensures
            r@ == 1,
    {
        IdAllocator { next: 1 }
    }

    /// Hands out the next id, which is greater than every id handed out
    /// before. The ids are never exhausted in practice; the last value of
    /// `usize` is never handed out.
    pub fn next_id(&mut self) -> (r: usize)
        requires
            old(self)@ < usize::MAX,
        ensures
            r == old(self)@,
            final(self)@ == old(self)@ + 1,
    {
        let r = self.next;
        self.next = self.next + 1;
        r
    }

    /// Whether `next_id` can still be called.
    pub fn has_next(&self) -> (r: bool)
        ensures
            r == (self@ < usize::MAX),
    {
        self.next < usize::MAX
    }
}

/// Successive allocator states `states` and the ids `ids` handed out between
/// them, each as `next_id` gives it: the ids are pairwise distinct and
/// strictly increasing, and each is at least the first state.
pub proof fn lemma_ids_strictly_increase(states: Seq<nat>, ids: Seq<nat>)
    requires
        states.len() == ids.len() + 1,
        forall|k: int| 0 <= k < ids.len() ==> #[trigger] ids[k] == states[k],
        forall|k: int| 0 <= k < ids.len() ==> #[trigger] states[k + 1] == states[k] + 1,
    ensures
        forall|i: int, j: int| 0 <= i < j < ids.len() ==> ids[i] < ids[j],
        forall|i: int| 0 <= i < ids.len() ==> ids[i] == states[0] + i,
{
    assert forall|i: int| 0 <= i < ids.len() implies ids[i] == states[0] + i by {
        lemma_state_offset(states, ids, i);
    }
}

proof fn lemma_state_offset(states: Seq<nat>, ids: Seq<nat>, i: int)
    requires
        states.len() == ids.len() + 1,
        forall|k: int| 0 <= k < ids.len() ==> #[trigger] states[k + 1] == states[k] + 1,
        0 <= i <= ids.len(),
    ensures
        states[i] == states[0] + i,
    decreases i,
{
    if i > 0 {
        lemma_state_offset(states, ids, i - 1);
        assert(states[(i - 1) + 1] == states[i - 1] + 1);
    }
}

} // verus!

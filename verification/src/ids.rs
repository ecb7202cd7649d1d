//! The numbers that tell profiles apart.

use vstd::prelude::*;

verus! {

/// Hands out the numbers of new profiles: each one the successor of the one
/// before. Whoever hands out numbers holds the allocator exclusively for the
/// call, so no number is handed out twice, whichever thread asks.
#[derive(Debug)]
pub struct IdAllocator {
    next: usize,
}

impl IdAllocator {
    /// The number that the next call of `next_id` hands out.
    pub closed spec fn upcoming(&self) -> usize {
        self.next
    }

    /// An allocator that starts at 0.
    pub fn new() -> (ids: Self)
        ensures
            ids.upcoming() == 0,
    {
        IdAllocator { next: 0 }
    }

    /// An allocator that starts at `base`.
    pub fn starting_at(base: usize) -> (ids: Self)
        ensures
            ids.upcoming() == base,
    {
        IdAllocator { next: base }
    }

    /// Hands out a number. It is greater than every number handed out
    /// before, until the largest number there is has been handed out: then
    /// the count starts again at 0.
    pub fn next_id(&mut self) -> (id: usize)
        ensures
            id == old(self).upcoming(),
            final(self).upcoming() == if id == usize::MAX {
                0
            } else {
                id + 1
            },
    {
        let id = self.next;
        if id == usize::MAX {
            self.next = 0;
        } else {
            self.next = id + 1;
        }
        id
    }
}

impl Default for IdAllocator {
    fn default() -> (ids: Self)
        ensures
            ids.upcoming() == 0,
    {
        IdAllocator::new()
    }
}

/// The number handed out by the call that comes `calls` calls after an
/// allocator was about to hand out `first`.
pub open spec fn id_after(first: usize, calls: nat) -> usize
    decreases calls,
{
    if calls == 0 {
        first
    } else {
        let before = id_after(first, (calls - 1) as nat);
        if before == usize::MAX {
            0
        } else {
            (before + 1) as usize
        }
    }
}

/// As long as the count does not pass the largest number, a later call
/// hands out a greater number than an earlier one: no number comes twice.
pub proof fn lemma_ids_increase(first: usize, earlier: nat, later: nat)
    requires
        earlier < later,
        first + later <= usize::MAX,
    ensures
        id_after(first, earlier) == first + earlier,
        id_after(first, later) == first + later,
        id_after(first, earlier) < id_after(first, later),
{
    lemma_id_after(first, earlier);
    lemma_id_after(first, later);
}

proof fn lemma_id_after(first: usize, calls: nat)
    requires
        first + calls <= usize::MAX,
    ensures
        id_after(first, calls) == first + calls,
    decreases calls,
{
    if calls > 0 {
        lemma_id_after(first, (calls - 1) as nat);
    }
}

} // verus!

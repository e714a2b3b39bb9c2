use vstd::prelude::*;

verus! {

/// Number of grain voices in a pool.
pub const MAX_GRAINS: usize = 64;

/// Index of the first inactive voice, if any: the slot a new grain takes.
pub fn first_inactive(active: &[bool]) -> (r: Option<usize>)
    ensures
        match r {
            Some(i) => i < active@.len() && !active@[i as int] && forall|j: int|
                0 <= j < i ==> active@[j],
            None => forall|j: int| 0 <= j < active@.len() ==> active@[j],
        },
{
    let mut i: usize = 0;
    while i < active.len()
        invariant
            i <= active@.len(),
            forall|j: int| 0 <= j < i ==> active@[j],
        decreases active@.len() - i,
    {
        if !active[i] {
            return Some(i);
        }
        i = i + 1;
    }
    None
}

/// Counts spawned grains and hands each one its phase slot: the spawn count
/// modulo the number of overlapping grains, so that overlapping grains start
/// at staggered offsets that stay bounded however long the pool runs.
pub struct SpawnCycle {
    spawned: u64,
}

impl SpawnCycle {
    /// Grains spawned since creation or the last reset, modulo `2^64`.
    pub closed spec fn count(&self) -> u64 {
        self.spawned
    }

    /// A cycle with no grain spawned yet.
    pub fn new() -> (r: Self)
        ensures
            r.count() == 0,
    {
        SpawnCycle { spawned: 0 }
    }

    /// Forgets every spawn.
    pub fn reset(&mut self)
        ensures
            final(self).count() == 0,
    {
        self.spawned = 0;
    }

    /// Phase slot for the next grain when `overlap` grains overlap: the
    /// current count modulo `overlap`. The count then advances, wrapping at
    /// `2^64`.
    pub fn next_slot(&mut self, overlap: u64) -> (r: u64)
        requires
            overlap >= 1,
        ensures
            r == old(self).count() % overlap,
            r < overlap,
            final(self).count() == old(self).count().wrapping_add(1),
    {
        let r = self.spawned % overlap;
        self.spawned = self.spawned.wrapping_add(1);
        r
    }
}

/// Over `overlap` consecutive spawns (without wraparound) the phase slots
/// `0..overlap` come in order: a spawn `k` steps after one that got slot 0
/// gets slot `k`.
pub proof fn lemma_slots_cycle(count: u64, overlap: u64, k: nat)
    requires
        overlap >= 1,
        count % overlap == 0,
        k < overlap,
        count + k <= u64::MAX,
    ensures
        ((count + k) as u64) % overlap == k,
{
    vstd::arithmetic::div_mod::lemma_fundamental_div_mod(count as int, overlap as int);
    vstd::arithmetic::div_mod::lemma_fundamental_div_mod_converse(
        count + k,
        overlap as int,
        (count as int) / (overlap as int),
        k as int,
    );
}

} // verus!

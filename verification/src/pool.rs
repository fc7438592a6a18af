use vstd::prelude::*;
use crate::address::{addr_eq, Address};

verus! {

/// One pending submission: the submitting trainer and its decoded delta
/// vector (32-bit scalars).
#[derive(Debug)]
pub struct PendingEntry {
    pub addr: Address,
    pub delta: Vec<u32>,
}

/// The per-round buffer of submitted deltas: at most one entry per
/// trainer, never overwritten, only inserted or cleared as a whole.
#[derive(Debug)]
pub struct PendingPool {
    pub entries: Vec<PendingEntry>,
}

impl PendingPool {
    /// Number of pending entries this round.
    pub open spec fn count(self) -> nat {
        self.entries@.len()
    }

    /// Identity bytes of the entry at position `i`.
    pub open spec fn addr_at(self, i: int) -> Seq<u8> {
        self.entries@[i].addr@
    }

    /// Delta scalars of the entry at position `i`.
    pub open spec fn delta_at(self, i: int) -> Seq<u32> {
        self.entries@[i].delta@
    }

    /// Whether the identity `a` has a pending entry.
    pub open spec fn spec_contains(self, a: Seq<u8>) -> bool {
        exists|i: int| 0 <= i < self.count() && self.addr_at(i) == a
    }

    /// Well-formed: entries belong to pairwise distinct identities and
    /// every delta has exactly the model length.
    pub open spec fn wf(self, model_size: u32) -> bool {
        &&& forall|i: int, j: int| 0 <= i < j < self.count() ==> self.addr_at(i) != self.addr_at(j)
        &&& forall|i: int| 0 <= i < self.count() ==> self.delta_at(i).len() == model_size
    }

    /// An empty pool.
    pub fn new() -> (r: PendingPool)
        ensures
            r.count() == 0,
            forall|ms: u32| r.wf(ms),
    {
        PendingPool { entries: Vec::new() }
    }

    /// Whether `a` already has a pending entry.
    pub fn contains(&self, a: &Address) -> (r: bool)
        ensures
            r <==> self.spec_contains(a@),
    {
        let mut i: usize = 0;
        while i < self.entries.len()
            invariant
                i <= self.count(),
                forall|k: int| 0 <= k < i ==> self.addr_at(k) != a@,
            decreases self.count() - i,
        {
            if addr_eq(&self.entries[i].addr, a) {
                proof {
                    assert(0 <= (i as int) && (i as int) < self.count() && self.addr_at(
                        i as int,
                    ) == a@);
                }
                return true;
            }
            i = i + 1;
        }
        false
    }

    /// Inserts a new entry at the end of the pool.
    pub fn insert(&mut self, addr: Address, delta: Vec<u32>)
        requires
            !old(self).spec_contains(addr@),
        ensures
            final(self).count() == old(self).count() + 1,
            forall|i: int|
                0 <= i < old(self).count() ==> final(self).addr_at(i) == old(self).addr_at(i)
                    && final(self).delta_at(i) == old(self).delta_at(i),
            final(self).addr_at(old(self).count() as int) == addr@,
            final(self).delta_at(old(self).count() as int) == delta@,
            forall|a: Seq<u8>|
                final(self).spec_contains(a) <==> (old(self).spec_contains(a) || a == addr@),
    {
        let ghost orig = self.entries@;
        self.entries.push(PendingEntry { addr, delta });
        proof {
            assert forall|a: Seq<u8>|
                self.spec_contains(a) <==> (old(self).spec_contains(a) || a == self.addr_at(
                    orig.len() as int,
                )) by {
                if old(self).spec_contains(a) {
                    let i = choose|i: int|
                        0 <= i < old(self).count() && old(self).addr_at(i) == a;
                    assert(self.addr_at(i) == a);
                }
                if self.spec_contains(a) {
                    let i = choose|i: int| 0 <= i < self.count() && self.addr_at(i) == a;
                    if i < orig.len() {
                        assert(old(self).addr_at(i) == a);
                    }
                }
            }
        }
    }

    /// Removes every entry; the round starts afresh.
    pub fn clear(&mut self)
        ensures
            final(self).count() == 0,
            forall|ms: u32| final(self).wf(ms),
    {
        self.entries.clear();
    }
}

} // verus!

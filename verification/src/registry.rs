use vstd::prelude::*;
use crate::address::{addr_eq, Address};
use crate::errors::CoreError;

verus! {

/// An exact trainer contribution weight: the fraction `num / den`.
#[derive(Clone, Copy, Debug, PartialEq, Eq, Structural)]
pub struct Weight {
    pub num: u64,
    pub den: u64,
}

/// One registered trainer: identity and current weight.
#[derive(Debug)]
pub struct TrainerEntry {
    pub addr: Address,
    pub weight: Weight,
}

/// The trainer registry: every registered identity together with its
/// normalized contribution weight. Registration renormalizes every
/// weight to the uniform `1 / count`.
#[derive(Debug)]
pub struct TrainerRegistry {
    pub entries: Vec<TrainerEntry>,
}

/// Sum of the weight numerators of a run of registry entries.
pub open spec fn sum_weight_nums(s: Seq<TrainerEntry>) -> int
    decreases s.len(),
{
    if s.len() == 0 {
        0
    } else {
        sum_weight_nums(s.drop_last()) + s.last().weight.num
    }
}

impl TrainerRegistry {
    /// Number of registered trainers.
    pub open spec fn count(self) -> nat {
        self.entries@.len()
    }

    /// Identity bytes of the trainer at position `i`.
    pub open spec fn addr_at(self, i: int) -> Seq<u8> {
        self.entries@[i].addr@
    }

    /// Whether the identity `a` is registered.
    pub open spec fn spec_contains(self, a: Seq<u8>) -> bool {
        exists|i: int| 0 <= i < self.count() && self.addr_at(i) == a
    }

    /// The uniform weight that a registry of `self.count()` trainers
    /// assigns to each of them.
    pub open spec fn uniform_weight(self) -> Weight {
        Weight { num: 1u64, den: self.count() as u64 }
    }

    /// Well-formed: identities are pairwise distinct and every stored
    /// weight is exactly `1 / count`.
    pub open spec fn wf(self) -> bool {
        &&& forall|i: int, j: int|
            0 <= i < j < self.count() ==> self.addr_at(i) != self.addr_at(j)
        &&& forall|i: int|
            0 <= i < self.count() ==> (#[trigger] self.entries@[i]).weight
                == self.uniform_weight()
    }

    /// An empty registry.
    pub fn new() -> (r: TrainerRegistry)
        ensures
            r.wf(),
            r.count() == 0,
    {
        TrainerRegistry { entries: Vec::new() }
    }

    /// Whether `a` is registered.
    pub fn contains(&self, a: &Address) -> (r: bool)
        ensures
            r <==> self.spec_contains(a@),
    {
        let mut i: usize = 0;
        while i < self.entries.len()
            invariant
                i <= self.count(),
                forall|k: int| 0 <= k < i ==> self.addr_at(k) != a@,
            decreases self.count() - i,
        {
            if addr_eq(&self.entries[i].addr, a) {
                proof {
                    assert(0 <= (i as int) && (i as int) < self.count() && self.addr_at(
                        i as int,
                    ) == a@);
                }
                return true;
            }
            i = i + 1;
        }
        false
    }

    /// Looks up the current weight of a registered trainer; fails with
    /// `UnknownTrainer` if and only if the identity is not registered.
    pub fn weight_of(&self, trainer_addr: &Address) -> (r: Result<Weight, CoreError>)
        requires
            self.wf(),
        ensures
            match r {
                Ok(w) => {
                    &&& self.spec_contains(trainer_addr@)
                    &&& w == self.uniform_weight()
                },
                Err(e) => {
                    &&& e == CoreError::UnknownTrainer
                    &&& !self.spec_contains(trainer_addr@)
                },
            },
    {
        let mut i: usize = 0;
        while i < self.entries.len()
            invariant
                self.wf(),
                i <= self.count(),
                forall|k: int| 0 <= k < i ==> self.addr_at(k) != trainer_addr@,
            decreases self.count() - i,
        {
            if addr_eq(&self.entries[i].addr, trainer_addr) {
                proof {
                    assert(0 <= (i as int) && (i as int) < self.count() && self.addr_at(
                        i as int,
                    ) == trainer_addr@);
                    assert(self.entries@[i as int].weight == self.uniform_weight());
                }
                return Ok(self.entries[i].weight);
            }
            i = i + 1;
        }
        Err(CoreError::UnknownTrainer)
    }

    /// Registers a trainer identity.
    ///
    /// Idempotent: re-registering an already known identity changes
    /// nothing at all. A new identity raises the count to `n` and
    /// rewrites every weight, the newcomer's included, to exactly
    /// `1 / n`.
    pub fn register_trainer(&mut self, trainer_addr: &Address)
        requires
            old(self).wf(),
            old(self).count() < usize::MAX,
        ensures
            final(self).wf(),
            old(self).spec_contains(trainer_addr@) ==> *final(self) == *old(self),
            !old(self).spec_contains(trainer_addr@) ==> {
                &&& final(self).count() == old(self).count() + 1
                &&& forall|i: int|
                    0 <= i < old(self).count() ==> final(self).addr_at(i) == old(
                        self,
                    ).addr_at(i)
                &&& final(self).addr_at(old(self).count() as int) == trainer_addr@
            },
            forall|a: Seq<u8>|
                final(self).spec_contains(a) <==> (old(self).spec_contains(a) || a
                    == trainer_addr@),
    {
        if self.contains(trainer_addr) {
            proof {
                assert forall|a: Seq<u8>|
                    self.spec_contains(a) <==> (self.spec_contains(a) || a == trainer_addr@) by {
                }
            }
            return ;
        }
        let n: u64 = (self.entries.len() as u64) + 1;
        let w = Weight { num: 1u64, den: n };
        let ghost orig = self.entries@;
        let mut renormalized: Vec<TrainerEntry> = Vec::new();
        let mut i: usize = 0;
        while i < self.entries.len()
            invariant
                i <= orig.len(),
                self.entries@ == orig,
                renormalized@.len() == i,
                forall|k: int|
                    0 <= k < i ==> (#[trigger] renormalized@[k]).addr@ == orig[k].addr@,
                forall|k: int| 0 <= k < i ==> (#[trigger] renormalized@[k]).weight == w,
            decreases orig.len() - i,
        {
            renormalized.push(
                TrainerEntry { addr: self.entries[i].addr.duplicate(), weight: w },
            );
            i = i + 1;
        }
        renormalized.push(TrainerEntry { addr: trainer_addr.duplicate(), weight: w });
        self.entries = renormalized;
        proof {
            assert(self.count() == orig.len() + 1);
            assert forall|i2: int, j2: int|
                0 <= i2 < j2 < self.count() implies self.addr_at(i2) != self.addr_at(j2) by {
                if j2 < orig.len() {
                    assert(old(self).addr_at(i2) != old(self).addr_at(j2));
                } else {
                    assert(self.addr_at(j2) == trainer_addr@);
                    assert(!old(self).spec_contains(trainer_addr@));
                    assert(old(self).addr_at(i2) != trainer_addr@);
                }
            }
            assert forall|a: Seq<u8>|
                self.spec_contains(a) <==> (old(self).spec_contains(a) || a
                    == trainer_addr@) by {
                if old(self).spec_contains(a) {
                    let i3 = choose|i3: int|
                        0 <= i3 < old(self).count() && old(self).addr_at(i3) == a;
                    assert(self.addr_at(i3) == a);
                }
                if a == trainer_addr@ {
                    assert(self.addr_at(orig.len() as int) == a);
                }
                if self.spec_contains(a) {
                    let i4 = choose|i4: int| 0 <= i4 < self.count() && self.addr_at(i4) == a;
                    if i4 < orig.len() {
                        assert(old(self).addr_at(i4) == a);
                    }
                }
            }
        }
    }
}

/// Auxiliary fact: when every numerator in a run of entries is one, the
/// numerators sum to the number of entries.
proof fn lemma_sum_nums_all_one(s: Seq<TrainerEntry>)
    requires
        forall|i: int| 0 <= i < s.len() ==> (#[trigger] s[i]).weight.num == 1,
    ensures
        sum_weight_nums(s) == s.len(),
    decreases s.len(),
{
    if s.len() > 0 {
        lemma_sum_nums_all_one(s.drop_last());
    }
}

/// Law: in a well-formed, non-empty registry of `n` trainers every
/// weight is exactly `1 / n`, and the weights sum to exactly one: over
/// the common denominator `n`, the numerators sum to `n` itself.
pub proof fn lemma_weights_sum_to_one(r: TrainerRegistry)
    requires
        r.wf(),
        r.count() > 0,
    ensures
        forall|i: int|
            0 <= i < r.count() ==> (#[trigger] r.entries@[i]).weight == (Weight {
                num: 1u64,
                den: r.count() as u64,
            }),
        sum_weight_nums(r.entries@) == r.count(),
{
    lemma_sum_nums_all_one(r.entries@);
}

} // verus!

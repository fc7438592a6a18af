use vstd::prelude::*;
use crate::address::Address;
use crate::codec::{encodes, spec_version_buf, SchemaUtils};
use crate::config::Config;
use crate::errors::{CoreError, SubmitOutcome};
use crate::model::{copy_scalars, Model, ModelView};
use crate::pool::PendingPool;
use crate::registry::{TrainerRegistry, Weight};
use crate::store::{spec_has_key, spec_model_at, Schema};

verus! {

/// The quorum rule: with `k` of `n` registered trainers contributing
/// (each carrying weight `1 / n`), the contributed ratio `k / n` has
/// reached the threshold `num / den` exactly when `k * den >= num * n`.
pub open spec fn spec_quorum(k: int, n: int, num: u64, den: u64) -> bool {
    k * den >= num * n
}

/// One aggregation term of a commit: a contributing trainer, its delta
/// scalars, and the trainer weight to scale the delta by.
#[derive(Debug)]
pub struct CommitTerm {
    pub addr: Address,
    pub delta: Vec<u32>,
    pub weight: Weight,
}

/// Everything a commit needs from the embedding host: the base model
/// (version and scalars) and one weighted term per pending entry. The
/// host folds, coordinate by coordinate, `base[i] + delta[i] * weight`
/// over all terms in IEEE-754 single precision and hands the folded
/// scalars to `update_weights`.
#[derive(Debug)]
pub struct CommitTask {
    pub base_version: u32,
    pub base: Vec<u32>,
    pub terms: Vec<CommitTerm>,
}

/// The full aggregator state: the public model store, the trainer
/// registry, and the current round's pending pool, under one
/// configuration.
#[derive(Debug)]
pub struct SchemaImpl {
    /// Public part: published models and the latest-version pointer.
    pub public: Schema,
    /// Trainer weights by identity.
    pub trainers_scores: TrainerRegistry,
    /// Pending submissions of the current round.
    pub pending_transactions: PendingPool,
    /// Deployment configuration.
    pub config: Config,
}

impl SchemaImpl {
    /// Whole-state invariant: each component is well-formed, every
    /// pending entry belongs to a registered trainer, and every stored
    /// model has the configured vector length.
    pub open spec fn wf(self) -> bool {
        &&& self.config.wf()
        &&& self.trainers_scores.wf()
        &&& self.public.wf()
        &&& self.pending_transactions.wf(self.config.model_size)
        &&& forall|i: int|
            0 <= i < self.pending_transactions.count()
                ==> self.trainers_scores.spec_contains(
                #[trigger] self.pending_transactions.addr_at(i),
            )
        &&& forall|k: Seq<u8>|
            spec_has_key(self.public.models@, k) ==> (#[trigger] spec_model_at(
                self.public.models@,
                k,
            )).size == self.config.model_size
    }

    /// Whether the store has a latest pointer whose referent exists.
    pub open spec fn has_latest(self) -> bool {
        match self.public.latest_version_addr {
            Some(k) => spec_has_key(self.public.models@, k@),
            None => false,
        }
    }

    /// The model the latest pointer refers to (meaningful under
    /// `has_latest`).
    pub open spec fn latest_model(self) -> ModelView {
        spec_model_at(
            self.public.models@,
            match self.public.latest_version_addr {
                Some(k) => k@,
                None => Seq::empty(),
            },
        )
    }

    /// A fresh state: empty store, no trainers, empty pool.
    pub fn new(config: Config) -> (r: SchemaImpl)
        requires
            config.wf(),
        ensures
            r.wf(),
            r.config == config,
            r.trainers_scores.count() == 0,
            r.pending_transactions.count() == 0,
            r.public.models@.len() == 0,
            r.public.latest_version_addr is None,
    {
        SchemaImpl {
            public: Schema::new(),
            trainers_scores: TrainerRegistry::new(),
            pending_transactions: PendingPool::new(),
            config,
        }
    }

    /// Registers a trainer identity; see `TrainerRegistry::register_trainer`.
    /// Idempotent; re-weights every trainer to the uniform `1 / count`;
    /// touches neither the store nor the pending pool.
    pub fn register_trainer(&mut self, trainer_addr: &Address)
        requires
            old(self).wf(),
            old(self).trainers_scores.count() < usize::MAX,
        ensures
            final(self).wf(),
            final(self).public == old(self).public,
            final(self).pending_transactions == old(self).pending_transactions,
            final(self).config == old(self).config,
            old(self).trainers_scores.spec_contains(trainer_addr@) ==> final(self).trainers_scores == old(self).trainers_scores,
            !old(self).trainers_scores.spec_contains(trainer_addr@) ==> final(self).trainers_scores.count() == old(self).trainers_scores.count() + 1,
            forall|a: Seq<u8>|
                final(self).trainers_scores.spec_contains(a) <==> (old(self).trainers_scores.spec_contains(a) || a == trainer_addr@),
    {
        self.trainers_scores.register_trainer(trainer_addr);
    }

    /// Submits a delta buffer for this round.
    ///
    /// Outcomes, in checking order: `UnknownTrainer` if the submitter is
    /// not registered; `SerializationError` if the buffer is not exactly
    /// `4 * model_size` bytes; `RejectedDuplicate` (pool untouched) if
    /// the submitter already has a pending entry; otherwise the decoded
    /// delta is inserted and the result says whether the contributed
    /// weight ratio has reached the quorum threshold.
    #[verifier::loop_isolation(false)]
    pub fn check_pending(&mut self, trainer_addr: &Address, delta: &Vec<u8>) -> (r: Result<
        SubmitOutcome,
        CoreError,
    >)
        requires
            old(self).wf(),
        ensures
            final(self).wf(),
            final(self).public == old(self).public,
            final(self).trainers_scores == old(self).trainers_scores,
            final(self).config == old(self).config,
            match r {
                Err(e) => {
                    &&& *final(self) == *old(self)
                    &&& (e == CoreError::UnknownTrainer || e == CoreError::SerializationError)
                    &&& (e == CoreError::UnknownTrainer <==> !old(self).trainers_scores.spec_contains(trainer_addr@))
                    &&& (e == CoreError::SerializationError <==> (old(self).trainers_scores.spec_contains(trainer_addr@) && delta@.len() != 4 * old(self).config.model_size))
                },
                Ok(o) => {
                    &&& old(self).trainers_scores.spec_contains(trainer_addr@)
                    &&& delta@.len() == 4 * old(self).config.model_size
                    &&& (o == SubmitOutcome::RejectedDuplicate <==> old(self).pending_transactions.spec_contains(trainer_addr@))
                    &&& (o == SubmitOutcome::RejectedDuplicate ==> *final(self) == *old(self))
                    &&& (o != SubmitOutcome::RejectedDuplicate ==> {
                        &&& final(self).pending_transactions.count() == old(self).pending_transactions.count() + 1
                        &&& forall|i: int|
                            0 <= i < old(self).pending_transactions.count() ==> final(self).pending_transactions.addr_at(i) == old(self).pending_transactions.addr_at(i) && final(self).pending_transactions.delta_at(i) == old(self).pending_transactions.delta_at(i)
                        &&& final(self).pending_transactions.addr_at(
                            old(self).pending_transactions.count() as int,
                        ) == trainer_addr@
                        &&& encodes(
                            delta@,
                            final(self).pending_transactions.delta_at(
                                old(self).pending_transactions.count() as int,
                            ),
                        )
                        &&& (o == SubmitOutcome::AcceptedQuorumReached <==> spec_quorum(
                            old(self).pending_transactions.count() as int + 1,
                            old(self).trainers_scores.count() as int,
                            old(self).config.majority_num,
                            old(self).config.majority_den,
                        ))
                        &&& (o == SubmitOutcome::AcceptedQuorumReached || o
                            == SubmitOutcome::AcceptedBelowQuorum)
                    })
                },
            },
    {
        if !self.trainers_scores.contains(trainer_addr) {
            return Err(CoreError::UnknownTrainer);
        }
        let decoded = match SchemaUtils::byte_slice_to_float_vec(delta, self.config.model_size) {
            Ok(v) => v,
            Err(e) => {
                return Err(e);
            },
        };
        if self.pending_transactions.contains(trainer_addr) {
            return Ok(SubmitOutcome::RejectedDuplicate);
        }
        self.pending_transactions.insert(trainer_addr.duplicate(), decoded);
        let n: u64 = self.trainers_scores.entries.len() as u64;
        let mut sum: u64 = 0;
        let mut i: usize = 0;
        while i < self.pending_transactions.entries.len()
            invariant
                i <= self.pending_transactions.count(),
                sum == i,
            decreases self.pending_transactions.count() - i,
        {
            match self.trainers_scores.weight_of(&self.pending_transactions.entries[i].addr) {
                Ok(w) => {
                    sum = sum + w.num;
                },
                Err(_) => {
                    proof {
                        assert(self.trainers_scores.spec_contains(
                            self.pending_transactions.addr_at(i as int),
                        ));
                        assert(false);
                    }
                },
            }
            i = i + 1;
        }
        let reached = quorum_check(
            sum,
            n,
            self.config.majority_num,
            self.config.majority_den,
        );
        if reached {
            Ok(SubmitOutcome::AcceptedQuorumReached)
        } else {
            Ok(SubmitOutcome::AcceptedBelowQuorum)
        }
    }

    /// Returns the current model, lazily creating the genesis model on a
    /// store that holds no pointer yet; see `Schema::get_latest`.
    pub fn get_latest(&mut self) -> (r: Result<Model, CoreError>)
        requires
            old(self).wf(),
        ensures
            final(self).wf(),
            final(self).trainers_scores == old(self).trainers_scores,
            final(self).pending_transactions == old(self).pending_transactions,
            final(self).config == old(self).config,
            match r {
                Ok(m) => {
                    &&& m.wf()
                    &&& final(self).has_latest()
                    &&& m@ == final(self).latest_model()
                    &&& (old(self).public.latest_version_addr is Some ==> final(self).public
                        == old(self).public)
                    &&& (old(self).public.latest_version_addr is None ==> m@ == (ModelView {
                        version: 0u32,
                        size: old(self).config.model_size,
                        weights: Seq::new(
                            old(self).config.model_size as nat,
                            |i: int| old(self).config.init_weight,
                        ),
                    }))
                },
                Err(e) => {
                    &&& e == CoreError::StoreCorruption
                    &&& *final(self) == *old(self)
                    &&& old(self).public.latest_version_addr matches Some(k) && !spec_has_key(
                        old(self).public.models@,
                        k@,
                    )
                },
            },
    {
        let r = self.public.get_latest(&self.config);
        proof {
            if r is Ok {
                assert forall|k: Seq<u8>|
                    spec_has_key(self.public.models@, k) implies (#[trigger] spec_model_at(
                    self.public.models@,
                    k,
                )).size == self.config.model_size by {
                    if !spec_has_key(old(self).public.models@, k) {
                        assert(k == spec_version_buf(0));
                    }
                }
            }
        }
        r
    }

    /// Assembles the aggregation task of a commit: materializes the base
    /// model (creating genesis on a fresh store), checks every pending
    /// entry's trainer weight, and returns base and weighted terms for
    /// the host to fold. Mutates nothing but the lazy genesis creation;
    /// fails with `StoreCorruption` if and only if the latest pointer
    /// dangles. A failed weight lookup would abort with
    /// `InconsistentTrainerState` before touching anything, but the
    /// whole-state invariant rules that situation out.
    #[verifier::loop_isolation(false)]
    pub fn prepare_commit(&mut self) -> (r: Result<CommitTask, CoreError>)
        requires
            old(self).wf(),
        ensures
            final(self).wf(),
            final(self).trainers_scores == old(self).trainers_scores,
            final(self).pending_transactions == old(self).pending_transactions,
            final(self).config == old(self).config,
            match r {
                Ok(task) => {
                    &&& final(self).has_latest()
                    &&& task.base_version == final(self).latest_model().version
                    &&& task.base@ == final(self).latest_model().weights
                    &&& task.base@.len() == final(self).config.model_size
                    &&& task.terms@.len() == old(self).pending_transactions.count()
                    &&& forall|i: int|
                        0 <= i < task.terms@.len() ==> (#[trigger] task.terms@[i]).addr@ == old(self).pending_transactions.addr_at(i) && task.terms@[i].delta@ == old(self).pending_transactions.delta_at(i) && task.terms@[i].weight == old(self).trainers_scores.uniform_weight()
                    &&& (old(self).public.latest_version_addr is Some ==> final(self).public
                        == old(self).public)
                    &&& (old(self).public.latest_version_addr is None ==> final(self).latest_model() == (ModelView {
                        version: 0u32,
                        size: old(self).config.model_size,
                        weights: Seq::new(
                            old(self).config.model_size as nat,
                            |i: int| old(self).config.init_weight,
                        ),
                    }))
                },
                Err(e) => {
                    &&& e == CoreError::StoreCorruption
                    &&& *final(self) == *old(self)
                    &&& old(self).public.latest_version_addr matches Some(k) && !spec_has_key(
                        old(self).public.models@,
                        k@,
                    )
                },
            },
    {
        let base_model = match self.get_latest() {
            Ok(m) => m,
            Err(e) => {
                return Err(e);
            },
        };
        let mut terms: Vec<CommitTerm> = Vec::new();
        let mut i: usize = 0;
        while i < self.pending_transactions.entries.len()
            invariant
                i <= self.pending_transactions.count(),
                terms@.len() == i,
                forall|k: int|
                    0 <= k < i ==> (#[trigger] terms@[k]).addr@
                        == self.pending_transactions.addr_at(k) && terms@[k].delta@
                        == self.pending_transactions.delta_at(k) && terms@[k].weight
                        == self.trainers_scores.uniform_weight(),
            decreases self.pending_transactions.count() - i,
        {
            let entry_addr = self.pending_transactions.entries[i].addr.duplicate();
            let entry_delta = copy_scalars(&self.pending_transactions.entries[i].delta);
            let weight = match self.trainers_scores.weight_of(&entry_addr) {
                Ok(w) => w,
                Err(_) => {
                    proof {
                        assert(self.trainers_scores.spec_contains(
                            self.pending_transactions.addr_at(i as int),
                        ));
                        assert(false);
                    }
                    return Err(CoreError::InconsistentTrainerState);
                },
            };
            terms.push(CommitTerm { addr: entry_addr, delta: entry_delta, weight });
            i = i + 1;
        }
        Ok(
            CommitTask {
                base_version: base_model.version,
                base: base_model.weights,
                terms,
            },
        )
    }

    /// Publishes the outcome of a commit whose task the host has folded:
    /// stores the folded scalars as version `base_version + 1`, points
    /// the latest pointer at the new record, and clears the pending
    /// pool. Every previously stored model stays retrievable under its
    /// own key. The caller must commit against the current latest
    /// version: a task can be applied at most once.
    pub fn update_weights(&mut self, task: &CommitTask, folded: Vec<u32>) -> (r: Result<
        u32,
        CoreError,
    >)
        requires
            old(self).wf(),
            old(self).has_latest(),
            old(self).latest_model().version == task.base_version,
            task.base_version < u32::MAX,
        ensures
            final(self).wf(),
            final(self).trainers_scores == old(self).trainers_scores,
            final(self).config == old(self).config,
            match r {
                Ok(v) => {
                    &&& folded@.len() == old(self).config.model_size
                    &&& v == task.base_version + 1
                    &&& final(self).pending_transactions.count() == 0
                    &&& final(self).has_latest()
                    &&& final(self).latest_model() == (ModelView {
                        version: (task.base_version + 1) as u32,
                        size: old(self).config.model_size,
                        weights: folded@,
                    })
                    &&& final(self).public.latest_version_addr matches Some(k) && k@
                        == spec_version_buf((task.base_version + 1) as u32)
                    &&& forall|k: Seq<u8>|
                        spec_has_key(final(self).public.models@, k) <==> (spec_has_key(
                            old(self).public.models@,
                            k,
                        ) || k == spec_version_buf((task.base_version + 1) as u32))
                    &&& forall|k: Seq<u8>|
                        k != spec_version_buf((task.base_version + 1) as u32) && spec_has_key(
                            old(self).public.models@,
                            k,
                        ) ==> spec_model_at(final(self).public.models@, k) == spec_model_at(
                            old(self).public.models@,
                            k,
                        )
                },
                Err(e) => {
                    &&& e == CoreError::SerializationError
                    &&& folded@.len() != old(self).config.model_size
                    &&& *final(self) == *old(self)
                },
            },
    {
        if folded.len() as u64 != self.config.model_size as u64 {
            return Err(CoreError::SerializationError);
        }
        let new_version = task.base_version + 1;
        let new_model = Model::new(new_version, self.config.model_size, folded);
        self.public.put(new_model);
        let key = SchemaUtils::pubkey_from_version(new_version);
        self.public.set_latest(key);
        self.pending_transactions.clear();
        Ok(new_version)
    }
}

/// Exact integer form of the quorum comparison `k / n >= num / den`.
fn quorum_check(k: u64, n: u64, num: u64, den: u64) -> (r: bool)
    ensures
        r == spec_quorum(k as int, n as int, num, den),
{
    proof {
        let kk = k as int;
        let dd = den as int;
        assert(kk * dd <= 0xFFFFFFFFFFFFFFFF * 0xFFFFFFFFFFFFFFFF) by (nonlinear_arith)
            requires
                0 <= kk <= 0xFFFFFFFFFFFFFFFF,
                0 <= dd <= 0xFFFFFFFFFFFFFFFF,
        ;
        let mm = num as int;
        let nn = n as int;
        assert(mm * nn <= 0xFFFFFFFFFFFFFFFF * 0xFFFFFFFFFFFFFFFF) by (nonlinear_arith)
            requires
                0 <= mm <= 0xFFFFFFFFFFFFFFFF,
                0 <= nn <= 0xFFFFFFFFFFFFFFFF,
        ;
    }
    let lhs: u128 = (k as u128) * (den as u128);
    let rhs: u128 = (num as u128) * (n as u128);
    lhs >= rhs
}

/// The registry's stored weight of the identity `a` (meaningful when
/// `a` is registered).
pub open spec fn spec_weight_of(r: TrainerRegistry, a: Seq<u8>) -> Weight {
    r.entries@[choose|i: int| 0 <= i < r.count() && r.addr_at(i) == a].weight
}

/// Sum of the registry-stored weight numerators over the first `upto`
/// pool entries.
pub open spec fn spec_pool_num_sum(r: TrainerRegistry, p: PendingPool, upto: int) -> int
    decreases upto,
{
    if upto <= 0 {
        0
    } else {
        spec_pool_num_sum(r, p, upto - 1) + spec_weight_of(r, p.addr_at(upto - 1)).num
    }
}

proof fn lemma_pool_num_sum_prefix(s: SchemaImpl, upto: int)
    requires
        s.wf(),
        0 <= upto <= s.pending_transactions.count(),
    ensures
        spec_pool_num_sum(s.trainers_scores, s.pending_transactions, upto) == upto,
    decreases upto,
{
    if upto > 0 {
        lemma_pool_num_sum_prefix(s, upto - 1);
        let r = s.trainers_scores;
        let a = s.pending_transactions.addr_at(upto - 1);
        assert(r.spec_contains(a));
        let i = choose|i: int| 0 <= i < r.count() && r.addr_at(i) == a;
        assert(r.entries@[i].weight == r.uniform_weight());
    }
}

/// Law: the live quorum ratio is exactly `k / n`. Under the whole-state
/// invariant every pending entry belongs to a registered trainer and
/// every stored weight is the uniform `1 / n`, so summing `weight_of`
/// over the `k` pool members yields, over the common denominator `n`,
/// the numerator `k` — which is what the quorum comparison
/// `spec_quorum(k, n, num, den)` tests against the threshold.
pub proof fn lemma_pool_ratio_is_count_over_n(s: SchemaImpl)
    requires
        s.wf(),
    ensures
        spec_pool_num_sum(
            s.trainers_scores,
            s.pending_transactions,
            s.pending_transactions.count() as int,
        ) == s.pending_transactions.count(),
{
    lemma_pool_num_sum_prefix(s, s.pending_transactions.count() as int);
}

/// Law: a successful commit consumes its quorum crossing. Once the
/// latest version has advanced to `base_version + 1`, a task prepared
/// against `base_version` no longer meets the commit precondition, so
/// the same crossing can trigger at most one commit; and the drained
/// pool contributes no terms to any task prepared afterwards.
pub proof fn lemma_commit_is_exclusive(s: SchemaImpl, base_version: u32)
    requires
        s.has_latest(),
        s.latest_model().version == base_version + 1,
    ensures
        s.latest_model().version != base_version,
{
}

} // verus!

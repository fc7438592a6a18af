use vstd::prelude::*;
use crate::address::bytes_eq;
use crate::codec::{spec_version_buf, SchemaUtils};
use crate::config::Config;
use crate::errors::CoreError;
use crate::model::{copy_scalars, Model, ModelView};

verus! {

/// One stored model record, addressed by its derived key.
#[derive(Debug)]
pub struct ModelEntry {
    pub key: Vec<u8>,
    pub model: Model,
}

/// The genesis weight vector for a configuration: `model_size` scalars,
/// each the configured initial bit pattern.
pub open spec fn spec_genesis_weights(cfg: Config) -> Seq<u32> {
    Seq::new(cfg.model_size as nat, |i: int| cfg.init_weight)
}

/// Whether `key` addresses a record in the run of entries `s`.
pub open spec fn spec_has_key(s: Seq<ModelEntry>, key: Seq<u8>) -> bool {
    exists|i: int| 0 <= i < s.len() && s[i].key@ == key
}

/// The value of the record that `key` addresses (meaningful only when
/// `spec_has_key` holds and keys are distinct).
pub open spec fn spec_model_at(s: Seq<ModelEntry>, key: Seq<u8>) -> ModelView {
    s[choose|i: int| 0 <= i < s.len() && s[i].key@ == key].model@
}

/// The versioned, content-addressed, append-only model store together
/// with the single latest-version pointer.
#[derive(Debug)]
pub struct Schema {
    /// Published models, addressed by the key derived from their version.
    pub models: Vec<ModelEntry>,
    /// Storage key of the current model, once the store has been touched.
    pub latest_version_addr: Option<Vec<u8>>,
}

impl Schema {
    /// Well-formed: keys are pairwise distinct, every record is stored
    /// under the key derived from its own version, and every stored
    /// model carries a weight vector of its declared length.
    pub open spec fn wf(self) -> bool {
        &&& forall|i: int, j: int|
            0 <= i < j < self.models@.len() ==> (#[trigger] self.models@[i]).key@ != (
            #[trigger] self.models@[j]).key@
        &&& forall|i: int|
            0 <= i < self.models@.len() ==> (#[trigger] self.models@[i]).key@
                == spec_version_buf(self.models@[i].model.version)
        &&& forall|i: int| 0 <= i < self.models@.len() ==> (#[trigger] self.models@[i]).model.wf()
    }

    /// An empty store: no records, no pointer.
    pub fn new() -> (r: Schema)
        ensures
            r.wf(),
            r.models@.len() == 0,
            r.latest_version_addr is None,
    {
        Schema { models: Vec::new(), latest_version_addr: None }
    }

    /// Looks a record up by its storage key.
    pub fn get(&self, key: &Vec<u8>) -> (r: Option<Model>)
        requires
            self.wf(),
        ensures
            match r {
                Some(m) => {
                    &&& spec_has_key(self.models@, key@)
                    &&& m@ == spec_model_at(self.models@, key@)
                    &&& m.wf()
                },
                None => !spec_has_key(self.models@, key@),
            },
    {
        let mut i: usize = 0;
        while i < self.models.len()
            invariant
                self.wf(),
                i <= self.models@.len(),
                forall|k: int| 0 <= k < i ==> (#[trigger] self.models@[k]).key@ != key@,
            decreases self.models@.len() - i,
        {
            if bytes_eq(&self.models[i].key, key) {
                proof {
                    assert(0 <= (i as int) && (i as int) < self.models@.len()
                        && self.models@[i as int].key@ == key@);
                    let w = choose|w: int|
                        0 <= w < self.models@.len() && self.models@[w].key@ == key@;
                    assert(w == i as int);
                }
                return Some(self.models[i].model.duplicate());
            }
            i = i + 1;
        }
        None
    }

    /// Stores a model under the key derived from its version. A first
    /// write appends; a repeated write for the same version overwrites
    /// (last write wins). The pointer is not touched.
    #[verifier::loop_isolation(false)]
    pub fn put(&mut self, model: Model)
        requires
            old(self).wf(),
            model.wf(),
        ensures
            final(self).wf(),
            final(self).latest_version_addr == old(self).latest_version_addr,
            forall|k: Seq<u8>|
                spec_has_key(final(self).models@, k) <==> (spec_has_key(old(self).models@, k)
                    || k == spec_version_buf(model.version)),
            spec_model_at(final(self).models@, spec_version_buf(model.version)) == model@,
            forall|k: Seq<u8>|
                k != spec_version_buf(model.version) && spec_has_key(old(self).models@, k)
                    ==> spec_model_at(final(self).models@, k) == spec_model_at(
                    old(self).models@,
                    k,
                ),
    {
        let key = SchemaUtils::pubkey_from_version(model.version);
        let ghost orig = self.models@;
        let ghost mspec = model;
        let mut i: usize = 0;
        while i < self.models.len()
            invariant
                self.models@ == orig,
                self.latest_version_addr == old(self).latest_version_addr,
                i <= orig.len(),
                forall|k: int| 0 <= k < i ==> (#[trigger] orig[k]).key@ != key@,
            decreases orig.len() - i,
        {
            if bytes_eq(&self.models[i].key, &key) {
                let entry = ModelEntry { key, model };
                self.models[i] = entry;
                proof {
                    lemma_put_overwrite(orig, self.models@, i as int, mspec);
                }
                return ;
            }
            i = i + 1;
        }
        self.models.push(ModelEntry { key, model });
        proof {
            lemma_put_append(orig, self.models@, mspec);
        }
    }

    /// Overwrites the latest-version pointer.
    pub fn set_latest(&mut self, key: Vec<u8>)
        ensures
            final(self).models@ == old(self).models@,
            final(self).latest_version_addr matches Some(k) && k@ == key@,
    {
        self.latest_version_addr = Some(key);
    }

    /// Returns the current model. On a store that holds no pointer yet,
    /// first creates the genesis model — version zero, the configured
    /// size, every scalar the configured initial bit pattern — stores it
    /// under the key derived from version zero and points the latest
    /// pointer at it. Fails with `StoreCorruption` if and only if the
    /// pointer is set but its referent is missing.
    pub fn get_latest(&mut self, cfg: &Config) -> (r: Result<Model, CoreError>)
        requires
            old(self).wf(),
        ensures
            final(self).wf(),
            match r {
                Ok(m) => {
                    &&& m.wf()
                    &&& final(self).latest_version_addr matches Some(k) && spec_has_key(
                        final(self).models@,
                        k@,
                    ) && m@ == spec_model_at(final(self).models@, k@)
                    &&& (old(self).latest_version_addr is Some ==> *final(self) == *old(self))
                    &&& (old(self).latest_version_addr is None ==> {
                        &&& m@ == (ModelView {
                            version: 0u32,
                            size: cfg.model_size,
                            weights: spec_genesis_weights(*cfg),
                        })
                        &&& final(self).latest_version_addr matches Some(k2) && k2@
                            == spec_version_buf(0)
                        &&& forall|k3: Seq<u8>|
                            spec_has_key(final(self).models@, k3) <==> (spec_has_key(
                                old(self).models@,
                                k3,
                            ) || k3 == spec_version_buf(0))
                        &&& forall|k3: Seq<u8>|
                            k3 != spec_version_buf(0) && spec_has_key(old(self).models@, k3)
                                ==> spec_model_at(final(self).models@, k3) == spec_model_at(
                                old(self).models@,
                                k3,
                            )
                    })
                },
                Err(e) => {
                    &&& e == CoreError::StoreCorruption
                    &&& *final(self) == *old(self)
                    &&& old(self).latest_version_addr matches Some(k) && !spec_has_key(
                        old(self).models@,
                        k@,
                    )
                },
            },
    {
        let has_ptr = self.latest_version_addr.is_some();
        if !has_ptr {
            let mut weights: Vec<u32> = Vec::new();
            let count: usize = cfg.model_size as usize;
            let mut i: usize = 0;
            while i < count
                invariant
                    i <= count,
                    count == cfg.model_size,
                    weights@.len() == i,
                    forall|j: int| 0 <= j < i ==> weights@[j] == cfg.init_weight,
                decreases count - i,
            {
                weights.push(cfg.init_weight);
                i = i + 1;
            }
            proof {
                assert(weights@ =~= spec_genesis_weights(*cfg));
            }
            let genesis = Model::new(0, cfg.model_size, weights);
            let result = genesis.duplicate();
            self.put(genesis);
            let key = SchemaUtils::pubkey_from_version(0);
            self.set_latest(key);
            return Ok(result);
        }
        let key = match &self.latest_version_addr {
            Some(k) => crate::address::copy_bytes(k),
            None => {
                proof {
                    assert(false);
                }
                Vec::new()
            },
        };
        match self.get(&key) {
            Some(m) => Ok(m),
            None => Err(CoreError::StoreCorruption),
        }
    }
}

/// Overwriting the record at a matching position keeps every other key
/// addressing the value it addressed before.
proof fn lemma_put_overwrite(orig: Seq<ModelEntry>, now: Seq<ModelEntry>, at: int, model: Model)
    requires
        0 <= at < orig.len(),
        now.len() == orig.len(),
        now[at].key@ == spec_version_buf(model.version),
        now[at].model == model,
        orig[at].key@ == spec_version_buf(model.version),
        forall|i: int, j: int|
            0 <= i < j < orig.len() ==> (#[trigger] orig[i]).key@ != (#[trigger] orig[j]).key@,
        forall|i: int| 0 <= i < now.len() && i != at ==> now[i] == orig[i],
    ensures
        forall|i: int, j: int|
            0 <= i < j < now.len() ==> (#[trigger] now[i]).key@ != (#[trigger] now[j]).key@,
        forall|k: Seq<u8>|
            spec_has_key(now, k) <==> (spec_has_key(orig, k) || k == spec_version_buf(
                model.version,
            )),
        spec_model_at(now, spec_version_buf(model.version)) == model@,
        forall|k: Seq<u8>|
            k != spec_version_buf(model.version) && spec_has_key(orig, k) ==> spec_model_at(
                now,
                k,
            ) == spec_model_at(orig, k),
{
    assert forall|i: int, j: int|
        0 <= i < j < now.len() implies (#[trigger] now[i]).key@ != (#[trigger] now[j]).key@ by {
        assert(now[i].key@ == orig[i].key@);
        assert(now[j].key@ == orig[j].key@);
    }
    assert forall|k: Seq<u8>|
        spec_has_key(now, k) <==> (spec_has_key(orig, k) || k == spec_version_buf(
            model.version,
        )) by {
        if spec_has_key(now, k) {
            let i = choose|i: int| 0 <= i < now.len() && now[i].key@ == k;
            assert(orig[i].key@ == k);
        }
        if spec_has_key(orig, k) {
            let i = choose|i: int| 0 <= i < orig.len() && orig[i].key@ == k;
            assert(now[i].key@ == k);
        }
        if k == spec_version_buf(model.version) {
            assert(0 <= at < now.len() && now[at].key@ == k);
        }
    }
    let w = choose|w: int|
        0 <= w < now.len() && now[w].key@ == spec_version_buf(model.version);
    assert(w == at);
    assert forall|k: Seq<u8>|
        k != spec_version_buf(model.version) && spec_has_key(orig, k) implies spec_model_at(
        now,
        k,
    ) == spec_model_at(orig, k) by {
        let i = choose|i: int| 0 <= i < orig.len() && orig[i].key@ == k;
        assert(now[i].key@ == k);
        let i1 = choose|i1: int| 0 <= i1 < now.len() && now[i1].key@ == k;
        let i2 = choose|i2: int| 0 <= i2 < orig.len() && orig[i2].key@ == k;
        assert(now[i1].key@ == orig[i1].key@);
        assert(i1 == i2) by {
            if i1 != i2 {
                assert(orig[i1].key@ == orig[i2].key@);
            }
        }
        assert(i1 != at);
    }
}

/// Appending a record with a fresh key keeps every existing key
/// addressing the value it addressed before.
proof fn lemma_put_append(orig: Seq<ModelEntry>, now: Seq<ModelEntry>, model: Model)
    requires
        now.len() == orig.len() + 1,
        forall|i: int| 0 <= i < orig.len() ==> now[i] == orig[i],
        now.last().key@ == spec_version_buf(model.version),
        now.last().model == model,
        forall|i: int| 0 <= i < orig.len() ==> (#[trigger] orig[i]).key@ != spec_version_buf(
            model.version,
        ),
        forall|i: int, j: int|
            0 <= i < j < orig.len() ==> (#[trigger] orig[i]).key@ != (#[trigger] orig[j]).key@,
    ensures
        forall|i: int, j: int|
            0 <= i < j < now.len() ==> (#[trigger] now[i]).key@ != (#[trigger] now[j]).key@,
        forall|k: Seq<u8>|
            spec_has_key(now, k) <==> (spec_has_key(orig, k) || k == spec_version_buf(
                model.version,
            )),
        spec_model_at(now, spec_version_buf(model.version)) == model@,
        forall|k: Seq<u8>|
            k != spec_version_buf(model.version) && spec_has_key(orig, k) ==> spec_model_at(
                now,
                k,
            ) == spec_model_at(orig, k),
{
    let last = orig.len() as int;
    assert forall|i: int, j: int|
        0 <= i < j < now.len() implies (#[trigger] now[i]).key@ != (#[trigger] now[j]).key@ by {
        if j < last {
            assert(now[i].key@ == orig[i].key@);
            assert(now[j].key@ == orig[j].key@);
        } else {
            assert(now[i].key@ == orig[i].key@);
            assert(now[j].key@ == spec_version_buf(model.version));
        }
    }
    assert forall|k: Seq<u8>|
        spec_has_key(now, k) <==> (spec_has_key(orig, k) || k == spec_version_buf(
            model.version,
        )) by {
        if spec_has_key(now, k) {
            let i = choose|i: int| 0 <= i < now.len() && now[i].key@ == k;
            if i < last {
                assert(orig[i].key@ == k);
            }
        }
        if spec_has_key(orig, k) {
            let i = choose|i: int| 0 <= i < orig.len() && orig[i].key@ == k;
            assert(now[i].key@ == k);
        }
        if k == spec_version_buf(model.version) {
            assert(0 <= last < now.len() && now[last].key@ == k);
        }
    }
    let w = choose|w: int|
        0 <= w < now.len() && now[w].key@ == spec_version_buf(model.version);
    assert(w == last) by {
        if w != last {
            assert(orig[w].key@ == spec_version_buf(model.version));
        }
    }
    assert forall|k: Seq<u8>|
        k != spec_version_buf(model.version) && spec_has_key(orig, k) implies spec_model_at(
        now,
        k,
    ) == spec_model_at(orig, k) by {
        let i2 = choose|i2: int| 0 <= i2 < orig.len() && orig[i2].key@ == k;
        assert(now[i2].key@ == k);
        let i1 = choose|i1: int| 0 <= i1 < now.len() && now[i1].key@ == k;
        assert(i1 != last);
        assert(now[i1].key@ == orig[i1].key@);
        assert(i1 == i2) by {
            if i1 != i2 {
                assert(orig[i1].key@ == orig[i2].key@);
            }
        }
    }
}

} // verus!

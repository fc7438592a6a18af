//! End-to-end tests of the aggregation core: registration weights,
//! key derivation, the codec, genesis creation, submission outcomes,
//! and full commit rounds.

use fedagg::address::Address;
use fedagg::codec::SchemaUtils;
use fedagg::config::Config;
use fedagg::errors::{CoreError, SubmitOutcome};
use fedagg::schema::{CommitTask, SchemaImpl};

fn addr(tag: u8) -> Address {
    let mut bytes = vec![0u8; 32];
    bytes[0] = tag;
    Address::new(bytes)
}

/// Encodes a delta vector of single-precision floats as the flat
/// little-endian byte buffer that `check_pending` expects.
fn delta_bytes(vals: &[f32]) -> Vec<u8> {
    let mut out = Vec::new();
    for v in vals {
        out.extend_from_slice(&v.to_bits().to_le_bytes());
    }
    out
}

/// The host-side floating-point fold of a commit task: for each
/// coordinate, `base[i] + delta[i] * weight` summed over all terms.
fn fold_task(task: &CommitTask) -> Vec<u32> {
    let mut out = Vec::new();
    for i in 0..task.base.len() {
        let mut acc = f32::from_bits(task.base[i]);
        for term in &task.terms {
            let w = term.weight.num as f32 / term.weight.den as f32;
            acc += f32::from_bits(term.delta[i]) * w;
        }
        out.push(acc.to_bits());
    }
    out
}

fn weights_of(task_model: &[u32]) -> Vec<f32> {
    task_model.iter().map(|b| f32::from_bits(*b)).collect()
}

#[test]
fn register_uniform_weights() {
    let cfg = Config::new(2, 0f32.to_bits(), 1, 2);
    let mut s = SchemaImpl::new(cfg);
    s.register_trainer(&addr(1));
    s.register_trainer(&addr(2));
    s.register_trainer(&addr(3));
    let mut num_sum = 0u64;
    for tag in 1..=3u8 {
        let w = s.trainers_scores.weight_of(&addr(tag)).unwrap();
        assert_eq!(w.num, 1);
        assert_eq!(w.den, 3);
        num_sum += w.num;
    }
    // Over the common denominator 3 the numerators sum to 3: exactly one.
    assert_eq!(num_sum, 3);
}

#[test]
fn register_is_idempotent() {
    let cfg = Config::new(2, 0f32.to_bits(), 1, 2);
    let mut s = SchemaImpl::new(cfg);
    s.register_trainer(&addr(1));
    s.register_trainer(&addr(2));
    let w1 = s.trainers_scores.weight_of(&addr(1)).unwrap();
    s.register_trainer(&addr(1));
    let w1_again = s.trainers_scores.weight_of(&addr(1)).unwrap();
    assert_eq!(s.trainers_scores.entries.len(), 2);
    assert_eq!(w1, w1_again);
    assert_eq!(w1_again.den, 2);
}

#[test]
fn unknown_trainer_weight_lookup() {
    let cfg = Config::new(2, 0f32.to_bits(), 1, 2);
    let s = SchemaImpl::new(cfg);
    assert_eq!(
        s.trainers_scores.weight_of(&addr(9)),
        Err(CoreError::UnknownTrainer)
    );
}

#[test]
fn derive_key_deterministic_and_distinct() {
    let n = 16u32;
    let keys: Vec<Vec<u8>> = (0..n).map(SchemaUtils::pubkey_from_version).collect();
    for v in 0..n {
        // Deterministic: a second derivation yields the same key.
        assert_eq!(keys[v as usize], SchemaUtils::pubkey_from_version(v));
        assert_eq!(keys[v as usize].len(), 32);
    }
    for i in 0..n as usize {
        for j in 0..i {
            assert_ne!(keys[i], keys[j]);
        }
    }
}

#[test]
fn codec_round_trip() {
    let vals = [1.5f32, -2.25f32, 0.0f32, 3.4e38f32];
    let scalars: Vec<u32> = vals.iter().map(|v| v.to_bits()).collect();
    let bytes = SchemaUtils::float_vec_to_byte_slice(&scalars);
    assert_eq!(bytes.len(), 16);
    let back = SchemaUtils::byte_slice_to_float_vec(&bytes, 4).unwrap();
    assert_eq!(back, scalars);
}

#[test]
fn codec_rejects_wrong_length() {
    let bytes = vec![0u8; 7];
    assert_eq!(
        SchemaUtils::byte_slice_to_float_vec(&bytes, 2),
        Err(CoreError::SerializationError)
    );
}

#[test]
fn genesis_on_empty_store() {
    let init = 0.5f32;
    let cfg = Config::new(3, init.to_bits(), 1, 2);
    let mut s = SchemaImpl::new(cfg);
    let m = s.get_latest().unwrap();
    assert_eq!(m.version, 0);
    assert_eq!(m.size, 3);
    assert_eq!(m.weights, vec![init.to_bits(); 3]);
    // Exactly one record was created and it became the latest.
    assert_eq!(s.public.models.len(), 1);
    let ptr = s.public.latest_version_addr.clone().unwrap();
    assert_eq!(ptr, SchemaUtils::pubkey_from_version(0));
    // A second read finds the same model and creates nothing new.
    let m2 = s.get_latest().unwrap();
    assert_eq!(m2.version, 0);
    assert_eq!(s.public.models.len(), 1);
}

#[test]
fn submit_unknown_trainer() {
    let cfg = Config::new(1, 0f32.to_bits(), 1, 2);
    let mut s = SchemaImpl::new(cfg);
    let r = s.check_pending(&addr(1), &delta_bytes(&[1.0]));
    assert_eq!(r, Err(CoreError::UnknownTrainer));
    assert_eq!(s.pending_transactions.entries.len(), 0);
}

#[test]
fn submit_wrong_delta_length() {
    let cfg = Config::new(2, 0f32.to_bits(), 1, 2);
    let mut s = SchemaImpl::new(cfg);
    s.register_trainer(&addr(1));
    let r = s.check_pending(&addr(1), &delta_bytes(&[1.0]));
    assert_eq!(r, Err(CoreError::SerializationError));
    assert_eq!(s.pending_transactions.entries.len(), 0);
}

#[test]
fn duplicate_submission_rejected() {
    let cfg = Config::new(1, 0f32.to_bits(), 9, 10);
    let mut s = SchemaImpl::new(cfg);
    s.register_trainer(&addr(1));
    s.register_trainer(&addr(2));
    let first = s.check_pending(&addr(1), &delta_bytes(&[1.0])).unwrap();
    assert_eq!(first, SubmitOutcome::AcceptedBelowQuorum);
    assert_eq!(s.pending_transactions.entries.len(), 1);
    let again = s.check_pending(&addr(1), &delta_bytes(&[2.0])).unwrap();
    assert_eq!(again, SubmitOutcome::RejectedDuplicate);
    // The pool is unchanged: still one entry, holding the first delta.
    assert_eq!(s.pending_transactions.entries.len(), 1);
    assert_eq!(
        s.pending_transactions.entries[0].delta,
        vec![1.0f32.to_bits()]
    );
}

#[test]
fn quorum_thirds_example() {
    // Three trainers at weight 1/3 each, majority ratio 0.5.
    let cfg = Config::new(1, 0f32.to_bits(), 1, 2);
    let mut s = SchemaImpl::new(cfg);
    s.register_trainer(&addr(1));
    s.register_trainer(&addr(2));
    s.register_trainer(&addr(3));
    // A contributes 1/3 < 1/2.
    let a = s.check_pending(&addr(1), &delta_bytes(&[1.0])).unwrap();
    assert_eq!(a, SubmitOutcome::AcceptedBelowQuorum);
    // B raises the ratio to 2/3 >= 1/2.
    let b = s.check_pending(&addr(2), &delta_bytes(&[1.0])).unwrap();
    assert_eq!(b, SubmitOutcome::AcceptedQuorumReached);
}

#[test]
fn aggregation_example() {
    // Genesis [0, 0]; A and B at weight 1/2 submit [1, 1] and [1, -1];
    // the committed model is version 1 with weights [1.0, 0.0].
    let cfg = Config::new(2, 0f32.to_bits(), 1, 2);
    let mut s = SchemaImpl::new(cfg);
    s.register_trainer(&addr(1));
    s.register_trainer(&addr(2));
    s.check_pending(&addr(1), &delta_bytes(&[1.0, 1.0])).unwrap();
    s.check_pending(&addr(2), &delta_bytes(&[1.0, -1.0])).unwrap();
    let task = s.prepare_commit().unwrap();
    assert_eq!(task.base_version, 0);
    assert_eq!(task.terms.len(), 2);
    let folded = fold_task(&task);
    let new_version = s.update_weights(&task, folded).unwrap();
    assert_eq!(new_version, 1);
    let m = s.get_latest().unwrap();
    assert_eq!(m.version, 1);
    let got = weights_of(&m.weights);
    assert!((got[0] - 1.0).abs() < 1e-6, "got {:?}", got);
    assert!((got[1] - 0.0).abs() < 1e-6, "got {:?}", got);
}

#[test]
fn commit_advances_version_and_preserves_history() {
    let cfg = Config::new(1, 0f32.to_bits(), 1, 1);
    let mut s = SchemaImpl::new(cfg);
    s.register_trainer(&addr(1));
    let outcome = s.check_pending(&addr(1), &delta_bytes(&[2.5])).unwrap();
    assert_eq!(outcome, SubmitOutcome::AcceptedQuorumReached);
    let task = s.prepare_commit().unwrap();
    let folded = fold_task(&task);
    let v = s.update_weights(&task, folded).unwrap();
    assert_eq!(v, task.base_version + 1);
    // The pool is drained.
    assert_eq!(s.pending_transactions.entries.len(), 0);
    // The prior model remains retrievable under its own key.
    let old_key = SchemaUtils::pubkey_from_version(0);
    let old_model = s.public.get(&old_key).unwrap();
    assert_eq!(old_model.version, 0);
    assert_eq!(old_model.weights, vec![0f32.to_bits()]);
    // The latest pointer refers to the new version.
    let ptr = s.public.latest_version_addr.clone().unwrap();
    assert_eq!(ptr, SchemaUtils::pubkey_from_version(1));
    let latest = s.get_latest().unwrap();
    assert_eq!(latest.version, 1);
    assert!((f32::from_bits(latest.weights[0]) - 2.5).abs() < 1e-6);
}

#[test]
fn update_weights_rejects_wrong_fold_length() {
    let cfg = Config::new(2, 0f32.to_bits(), 1, 1);
    let mut s = SchemaImpl::new(cfg);
    s.register_trainer(&addr(1));
    s.check_pending(&addr(1), &delta_bytes(&[1.0, 1.0])).unwrap();
    let task = s.prepare_commit().unwrap();
    let r = s.update_weights(&task, vec![0u32; 3]);
    assert_eq!(r, Err(CoreError::SerializationError));
    // Nothing moved: the pool still holds the entry, the store version 0.
    assert_eq!(s.pending_transactions.entries.len(), 1);
    assert_eq!(s.get_latest().unwrap().version, 0);
    // A correctly sized fold then succeeds.
    let folded = fold_task(&task);
    assert_eq!(s.update_weights(&task, folded).unwrap(), 1);
}

#[test]
fn dangling_latest_pointer_is_store_corruption() {
    let cfg = Config::new(1, 0f32.to_bits(), 1, 2);
    let mut s = SchemaImpl::new(cfg);
    s.public.set_latest(vec![9u8; 32]);
    assert_eq!(s.get_latest().err(), Some(CoreError::StoreCorruption));
    assert_eq!(s.prepare_commit().err(), Some(CoreError::StoreCorruption));
}

#[test]
fn two_rounds_commit_once_each() {
    // Each quorum crossing triggers exactly one commit: the pool is
    // drained by the first commit and the next round starts afresh.
    let cfg = Config::new(1, 0f32.to_bits(), 1, 1);
    let mut s = SchemaImpl::new(cfg);
    s.register_trainer(&addr(1));
    s.check_pending(&addr(1), &delta_bytes(&[1.0])).unwrap();
    let task1 = s.prepare_commit().unwrap();
    let folded1 = fold_task(&task1);
    assert_eq!(s.update_weights(&task1, folded1).unwrap(), 1);
    assert_eq!(s.pending_transactions.entries.len(), 0);
    // Second round: a fresh submission and a fresh task commit version 2.
    s.check_pending(&addr(1), &delta_bytes(&[1.0])).unwrap();
    let task2 = s.prepare_commit().unwrap();
    assert_eq!(task2.base_version, 1);
    let folded2 = fold_task(&task2);
    assert_eq!(s.update_weights(&task2, folded2).unwrap(), 2);
    let latest = s.get_latest().unwrap();
    assert_eq!(latest.version, 2);
    assert!((f32::from_bits(latest.weights[0]) - 2.0).abs() < 1e-6);
    // All three versions remain retrievable under their own keys.
    for v in 0..=2u32 {
        let key = SchemaUtils::pubkey_from_version(v);
        assert_eq!(s.public.get(&key).unwrap().version, v);
    }
}

#[test]
fn late_registration_recomputes_ratio_live() {
    // Quorum is checked against current weights at each submit: after a
    // third trainer registers, an existing single entry counts as 1/3.
    let cfg = Config::new(1, 0f32.to_bits(), 1, 2);
    let mut s = SchemaImpl::new(cfg);
    s.register_trainer(&addr(1));
    s.register_trainer(&addr(2));
    let a = s.check_pending(&addr(1), &delta_bytes(&[1.0])).unwrap();
    // 1 of 2: exactly at the 0.5 threshold.
    assert_eq!(a, SubmitOutcome::AcceptedQuorumReached);
    s.register_trainer(&addr(3));
    s.register_trainer(&addr(4));
    // 2 of 4: the second submission still reaches 0.5 exactly.
    let b = s.check_pending(&addr(2), &delta_bytes(&[1.0])).unwrap();
    assert_eq!(b, SubmitOutcome::AcceptedQuorumReached);
}

//! Core of a quorum-gated federated-learning aggregator.
//!
//! Trainers register once and share a uniform contribution weight; each
//! round they submit weight-delta buffers into a pending pool. Once the
//! registered weight represented in the pool reaches a configured majority
//! ratio, a commit derives the next model version from the latest one and
//! publishes it in an append-only, content-addressed store.
//!
//! Model scalars are carried as 32-bit IEEE-754 bit patterns; the floating
//! point fold itself is performed by the embedding application, while every
//! bookkeeping step around it (codec, registry, pool, quorum rule, store,
//! versioning) is specified and verified here.

pub mod address;
pub mod codec;
pub mod config;
pub mod errors;
pub mod model;
pub mod pool;
pub mod registry;
pub mod schema;
pub mod store;


//! Light-client engine that establishes the authenticity of masterchain
//! key-blocks by chaining validator-signed proofs from the zerostate or from a
//! pinned trusted key-block, and that records the verified range in a
//! key/value store.
//!
//! The library holds the decisions; the caller performs the storage and
//! network operations and runs the proof checks, and hands the outcomes back.

pub mod keys;
pub mod metadata;
pub mod error;
pub mod query;
pub mod anchor;
pub mod engine;
pub mod walk;
pub mod resolver;

//! Errors of the proof engine.

use vstd::prelude::*;

verus! {

#[derive(Clone, Debug, PartialEq, Eq)]
pub enum ProofError {
    /// The transport failed.
    Network(String),
    /// The storage backend failed.
    Storage(String),
    /// The server holds no zerostate.
    ZerostateMissing,
    /// The server holds no proof of the masterchain block with this seq_no.
    ProofMissing(u32),
    /// Remote data lacked an expected field or was malformed.
    Decode,
    /// The downloaded zerostate does not hash to the network's zerostate hash.
    HashMismatch,
    /// The downloaded proof of the trusted key-block does not match its pin.
    AnchorMismatch,
    /// The proof oracle refused a proof.
    OracleRejected,
    /// The block after a key-block does not name it as its previous key-block.
    LinkMismatch,
    /// The block after a key-block links to another root hash.
    ChainBroken,
    /// A masterchain block claims to be a merge of two blocks.
    UnexpectedMerge,
    /// A walk was asked for an empty range of seq_nos.
    EmptyRange,
    /// A forward walk found no key-block in its range.
    EmptyChain,
    /// The proof that a backward walk starts from is not in storage.
    MissingRightAnchor,
    /// The server did not return the block with this seq_no.
    MissingBlock(u32),
    /// The server answered outside what was asked.
    ProtocolViolation,
    /// No pinned trusted key-block is known for the network.
    UnknownNetwork,
    /// A bound combination that the resolver cannot handle.
    Internal,
}

} // verus!

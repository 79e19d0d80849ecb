//! The engine of one network: where it stores things, and which walk it takes
//! to reach a requested key-block.

use vstd::prelude::*;
use crate::anchor::TrustedMcBlockId;
use crate::keys::{
    gen_storage_key,
    gen_trusted_block_left_bound_key,
    gen_trusted_block_right_bound_key,
    left_bound_key_of,
    right_bound_key_of,
    storage_key_of,
    NetworkUid,
};
use crate::metadata::{updated, Merge};

verus! {

/// The chain whose right bound a forward walk pushes.
#[derive(Clone, Copy, Debug, PartialEq, Eq, Structural)]
pub enum Chain {
    /// The chain grown from the zerostate.
    Zerostate,
    /// The chain grown to the right of the trusted key-block.
    Trusted,
}

/// How a requested key-block proof is obtained.
#[derive(Clone, Copy, Debug, PartialEq, Eq, Structural)]
pub enum Strategy {
    /// The request is the trusted key-block itself: download its proof.
    Anchor,
    /// Download and verify the key-block proofs in `[start, end)` in ascending
    /// order, each against the one before, growing `chain`.
    Forward { start: u64, end: u64, chain: Chain },
    /// Certify the key-blocks in `[start, end)` in descending order, starting
    /// from the stored proof of `end`.
    Backward { start: u32, end: u32 },
}

/// The strategy for a request of `n`, given the right bound `zs` of the
/// zerostate chain, the bounds `[tl, tr]` of the trusted chain and the trusted
/// key-block `a`. The first case that applies wins:
/// beyond the trusted chain, go forward from its right end; below the middle
/// between the two chains, grow the zerostate chain; below the trusted chain,
/// go backward from its left end; then the repair walks, inside the zerostate
/// chain, left of the trusted key-block and right of it.
pub open spec fn strategy_of(n: u32, zs: u32, tl: u32, tr: u32, a: u32) -> Strategy {
    if n == a {
        Strategy::Anchor
    } else if n > tr {
        Strategy::Forward { start: tr as u64, end: (n + 1) as u64, chain: Chain::Trusted }
    } else if zs <= tl && n < zs + (tl - zs) / 2 {
        Strategy::Forward { start: (zs + 1) as u64, end: (n + 1) as u64, chain: Chain::Zerostate }
    } else if n < tl {
        Strategy::Backward { start: n, end: tl }
    } else if n <= zs {
        Strategy::Forward { start: 1, end: (n + 1) as u64, chain: Chain::Zerostate }
    } else if tl <= n && n <= a {
        Strategy::Backward { start: n, end: a }
    } else {
        Strategy::Forward { start: (a + 1) as u64, end: (n + 1) as u64, chain: Chain::Trusted }
    }
}

/// Chooses the walk that reaches key-block `n`.
pub fn choose_strategy(n: u32, zs: u32, tl: u32, tr: u32, a: u32) -> (r: Strategy)
    ensures
        r == strategy_of(n, zs, tl, tr, a),
{
    if n == a {
        Strategy::Anchor
    } else if n > tr {
        Strategy::Forward { start: tr as u64, end: n as u64 + 1, chain: Chain::Trusted }
    } else if zs <= tl && n < zs + (tl - zs) / 2 {
        Strategy::Forward { start: zs as u64 + 1, end: n as u64 + 1, chain: Chain::Zerostate }
    } else if n < tl {
        Strategy::Backward { start: n, end: tl }
    } else if n <= zs {
        Strategy::Forward { start: 1, end: n as u64 + 1, chain: Chain::Zerostate }
    } else if tl <= n && n <= a {
        Strategy::Backward { start: n, end: a }
    } else {
        assert(a < n && n <= tr);
        Strategy::Forward { start: a as u64 + 1, end: n as u64 + 1, chain: Chain::Trusted }
    }
}

/// Every walk that the strategy picks ends at the requested key-block: a
/// forward walk covers `n` as its last seq_no, a backward walk starts at `n`
/// and continues to the right from a proof that is already held; and the
/// ranges stay within the seq_nos that a `u32` holds.
pub proof fn lemma_strategy_reaches_target(n: u32, zs: u32, tl: u32, tr: u32, a: u32)
    ensures
        match strategy_of(n, zs, tl, tr, a) {
            Strategy::Anchor => n == a,
            Strategy::Forward { start, end, chain } => {
                &&& end == n as int + 1
                &&& 1 <= start || chain == Chain::Trusted
                &&& end <= 0x1_0000_0000
                &&& chain == Chain::Trusted ==> (n > tr || a < n <= tr)
            },
            Strategy::Backward { start, end } => start == n && n < end && (end == tl || end == a),
        },
{
}

/// With the pinned key-block inside the trusted chain, a request beyond the
/// trusted chain's right end goes forward from there, and a request between
/// the middle of the gap and the trusted chain's left end goes backward.
pub proof fn lemma_strategy_direction(n: u32, zs: u32, tl: u32, tr: u32, a: u32)
    requires
        zs <= tl <= a <= tr,
    ensures
        n > tr ==> strategy_of(n, zs, tl, tr, a) == (Strategy::Forward {
            start: tr as u64,
            end: (n + 1) as u64,
            chain: Chain::Trusted,
        }),
        n < zs + (tl - zs) / 2 ==> strategy_of(n, zs, tl, tr, a) == (Strategy::Forward {
            start: (zs + 1) as u64,
            end: (n + 1) as u64,
            chain: Chain::Zerostate,
        }),
        zs + (tl - zs) / 2 <= n < tl ==> strategy_of(n, zs, tl, tr, a) == (Strategy::Backward {
            start: n,
            end: tl,
        }),
{
}

/// The trusted chain's bounds keep bracketing the trusted key-block `a`:
/// while `tl <= a <= tr`, a key-block `k` inside the range of the chosen walk
/// lowers a left bound that is at most `a` (or unset) to at most `a` when the
/// walk goes backward, and raises a right bound that is at least `a` (or unset)
/// to at least `a` when the walk goes forward on the trusted chain.
pub proof fn lemma_bounds_bracket_anchor(
    n: u32,
    zs: u32,
    tl: u32,
    tr: u32,
    a: u32,
    k: u32,
    prev: Option<u32>,
)
    requires
        tl <= a <= tr,
    ensures
        strategy_of(n, zs, tl, tr, a) matches Strategy::Backward { start, end } && start <= k < end
            && (prev is None || prev->Some_0 <= a) ==> updated(Merge::Min, prev, k) <= a,
        strategy_of(n, zs, tl, tr, a) matches Strategy::Forward { start, end, chain } && chain
            == Chain::Trusted && start <= k < end && (prev is None || prev->Some_0 >= a)
            ==> updated(Merge::Max, prev, k) >= a,
{
}

/// The proof engine of one network, anchored at its pinned trusted key-block.
pub struct ProofHelperEngineImpl {
    pub network_uid: NetworkUid,
    pub trusted: TrustedMcBlockId,
}

impl ProofHelperEngineImpl {
    pub fn new(network_uid: NetworkUid, trusted: TrustedMcBlockId) -> (r: Self)
        ensures
            r.network_uid == network_uid,
            r.trusted == trusted,
    {
        ProofHelperEngineImpl { network_uid, trusted }
    }

    /// Storage key of the logical key `key` on this engine's network.
    pub open spec fn key_of(&self, key: Seq<char>) -> Seq<char> {
        storage_key_of(
            self.network_uid.zerostate_root_hash@,
            self.network_uid.first_master_block_root_hash@,
            key,
        )
    }

    /// Storage key of the logical key `key` on this engine's network.
    pub fn storage_key(&self, key: &str) -> (r: String)
        ensures
            r@ == self.key_of(key@),
    {
        gen_storage_key(&self.network_uid, key)
    }

    /// Storage key of the left bound of the trusted chain.
    pub fn trusted_left_bound_key(&self) -> (r: String)
        ensures
            r@ == self.key_of(left_bound_key_of(self.trusted.seq_no)),
    {
        let k = gen_trusted_block_left_bound_key(self.trusted.seq_no);
        self.storage_key(k.as_str())
    }

    /// Storage key of the right bound of the trusted chain.
    pub fn trusted_right_bound_key(&self) -> (r: String)
        ensures
            r@ == self.key_of(right_bound_key_of(self.trusted.seq_no)),
    {
        let k = gen_trusted_block_right_bound_key(self.trusted.seq_no);
        self.storage_key(k.as_str())
    }
}

} // verus!

//! The request of one key-block proof: served from storage where it is held,
//! otherwise reached from the anchor by the walk that the stored bounds call
//! for.

use vstd::prelude::*;
use crate::anchor::{check_trusted_proof_id, check_zerostate_hash, hash_bytes, is_hash_hex};
use crate::engine::{
    choose_strategy,
    lemma_strategy_reaches_target,
    strategy_of,
    Chain,
    ProofHelperEngineImpl,
    Strategy,
};
use crate::error::ProofError;
use crate::keys::{
    left_bound_key_of,
    make_mc_proof_key,
    mc_proof_key_of,
    right_bound_key_of,
    ZEROSTATE_KEY,
    ZEROSTATE_RIGHT_BOUND_KEY,
};
use crate::metadata::{metadata_of, read_trusted_block_bound, read_zs_right_bound, Merge};
use crate::query::{
    base64_decoded,
    parse_proof_rows,
    parse_zerostate_rows,
    require_mc_proof,
    row_boc,
};
use crate::walk::{BackwardPhase, BackwardWalk, ForwardPhase, ForwardWalk, WalkEvent, WalkStep};

verus! {

#[derive(Clone, Copy, Debug, PartialEq, Eq, Structural)]
pub enum LoadPhase {
    Cached,
    ZsBound,
    LeftBound,
    RightBound,
    TrustedCached,
    TrustedFetch,
    TrustedInspect,
    TrustedStore,
    Forward,
    Backward,
    Over,
}

/// A bound as stored, or its default.
pub open spec fn bound_or(raw: Option<Seq<u8>>, default: u32) -> u32 {
    match metadata_of(raw) {
        Some(v) => v,
        None => default,
    }
}

/// The first step of the walk of a strategy.
pub open spec fn walk_start(s: Strategy) -> WalkStep {
    match s {
        Strategy::Forward { start, end, .. } => if start < end {
            WalkStep::FetchKeyBlocks { start, end }
        } else {
            WalkStep::Failed(ProofError::EmptyRange)
        },
        Strategy::Backward { start, end } => if start < end {
            WalkStep::FetchKeyBlocks { start: start as u64, end: end as u64 }
        } else {
            WalkStep::Failed(ProofError::EmptyRange)
        },
        Strategy::Anchor => WalkStep::Failed(ProofError::Internal),
    }
}

/// A forward walk just started over `[start, end)`, growing `chain`.
pub open spec fn forward_fresh(w: ForwardWalk, start: u64, end: u64, chain: Chain) -> bool {
    &&& w.wf()
    &&& w.phase == ForwardPhase::Fetching
    &&& w.chain == chain
    &&& w.query.start == start
    &&& w.query.first@ == start
    &&& w.query.end == end
    &&& w.query.blocks@.len() == 0
    &&& w.stored@ == Seq::<u32>::empty()
}

/// A backward walk just started over `[start, end)`.
pub open spec fn backward_fresh(w: BackwardWalk, start: u32, end: u32) -> bool {
    &&& w.wf()
    &&& w.phase == BackwardPhase::FetchingKeys
    &&& w.end == end
    &&& w.query.start == start
    &&& w.query.first@ == start
    &&& w.query.blocks@.len() == 0
    &&& w.stored@ == Seq::<u32>::empty()
}

/// The request after it started the walk of `s`: walking a non-empty range
/// from its beginning, or over.
pub open spec fn walk_started(req: KeyBlockProofLoad, s: Strategy) -> bool {
    match s {
        Strategy::Forward { start, end, chain } => if start < end {
            req.phase == LoadPhase::Forward && forward_fresh(req.forward, start, end, chain)
        } else {
            req.phase == LoadPhase::Over
        },
        Strategy::Backward { start, end } => if start < end {
            req.phase == LoadPhase::Backward && backward_fresh(req.backward, start, end)
        } else {
            req.phase == LoadPhase::Over
        },
        Strategy::Anchor => req.phase == LoadPhase::Over,
    }
}

/// The request of the proof of masterchain key-block `mc_seq_no`.
pub struct KeyBlockProofLoad {
    pub mc_seq_no: u32,
    pub phase: LoadPhase,
    /// The zerostate chain's right bound, as read.
    pub zs_right: u32,
    /// The trusted chain's left bound, as read.
    pub trusted_left: u32,
    pub strategy: Strategy,
    pub trusted_boc: Vec<u8>,
    pub forward: ForwardWalk,
    pub backward: BackwardWalk,
}

impl KeyBlockProofLoad {
    pub open spec fn wf(&self) -> bool {
        &&& self.phase == LoadPhase::Forward ==> self.forward.wf()
        &&& self.phase == LoadPhase::Backward ==> self.backward.wf()
        &&& self.phase == LoadPhase::TrustedCached ==> self.strategy != Strategy::Anchor
        &&& (self.phase == LoadPhase::TrustedCached || self.phase == LoadPhase::TrustedFetch
            || self.phase == LoadPhase::TrustedInspect || self.phase == LoadPhase::TrustedStore)
            ==> match self.strategy {
            Strategy::Forward { end, .. } => end <= 0x1_0000_0000,
            _ => true,
        }
    }

    /// The request of `mc_seq_no` and its first step: look in storage.
    pub fn new(engine: &ProofHelperEngineImpl, mc_seq_no: u32) -> (r: (KeyBlockProofLoad, WalkStep))
        ensures
            r.0.wf(),
            r.0.mc_seq_no == mc_seq_no,
            r.0.phase == LoadPhase::Cached,
            r.1 matches WalkStep::Load { key } && key@ == engine.key_of(mc_proof_key_of(mc_seq_no)),
    {
        let load = KeyBlockProofLoad {
            mc_seq_no,
            phase: LoadPhase::Cached,
            zs_right: 0,
            trusted_left: 0,
            strategy: Strategy::Anchor,
            trusted_boc: Vec::new(),
            forward: ForwardWalk::new(0, 0, Chain::Zerostate).0,
            backward: BackwardWalk::new(0, 0).0,
        };
        let key = engine.storage_key(make_mc_proof_key(mc_seq_no).as_str());
        (load, WalkStep::Load { key })
    }

    /// Starts the walk of the chosen strategy.
    fn start_walk(&mut self) -> (r: WalkStep)
        requires
            old(self).strategy != Strategy::Anchor,
            match old(self).strategy {
                Strategy::Forward { end, .. } => end <= 0x1_0000_0000,
                _ => true,
            },
        ensures
            final(self).wf(),
            final(self).strategy == old(self).strategy,
            final(self).mc_seq_no == old(self).mc_seq_no,
            final(self).zs_right == old(self).zs_right,
            final(self).trusted_left == old(self).trusted_left,
            final(self).trusted_boc == old(self).trusted_boc,
            r == walk_start(old(self).strategy),
            walk_started(*final(self), old(self).strategy),
    {
        match self.strategy {
            Strategy::Forward { start, end, chain } => {
                let (w, step) = ForwardWalk::new(start, end, chain);
                self.forward = w;
                self.phase = if start < end {
                    LoadPhase::Forward
                } else {
                    LoadPhase::Over
                };
                step
            },
            Strategy::Backward { start, end } => {
                let (w, step) = BackwardWalk::new(start, end);
                self.backward = w;
                self.phase = if start < end {
                    LoadPhase::Backward
                } else {
                    LoadPhase::Over
                };
                step
            },
            Strategy::Anchor => {
                self.phase = LoadPhase::Over;
                WalkStep::Failed(ProofError::Internal)
            },
        }
    }

    /// Advances the request by the outcome of the step it asked for. An event
    /// that does not answer that step fails the request.
    pub fn step(&mut self, engine: &ProofHelperEngineImpl, event: WalkEvent) -> (r: WalkStep)
        requires
            old(self).wf(),
        ensures
            final(self).wf(),
            final(self).mc_seq_no == old(self).mc_seq_no,
            old(self).phase != LoadPhase::ZsBound ==> final(self).zs_right == old(self).zs_right,
            old(self).phase != LoadPhase::LeftBound ==> final(self).trusted_left == old(self).trusted_left,
            old(self).phase != LoadPhase::RightBound ==> final(self).strategy == old(self).strategy,
            old(self).phase != LoadPhase::TrustedFetch ==> final(self).trusted_boc == old(self).trusted_boc,
            // nothing unverified is written: a key-block proof right after the
            // oracle accepted it or its link was checked, the trusted
            // key-block's proof right after its id matched the pin
            r is Store ==> (old(self).phase == LoadPhase::Forward && (event matches WalkEvent::Verdict(
                true,
            ))) || (old(self).phase == LoadPhase::Backward && event is Link),
            r is Write ==> old(self).phase == LoadPhase::TrustedInspect && event is ProofId,
            // right bounds are merged upwards, the left bound downwards
            match r {
                WalkStep::Store { bound_key, merge, .. } => {
                    ||| merge == Merge::Max && bound_key@ == engine.key_of(
                        ZEROSTATE_RIGHT_BOUND_KEY@,
                    )
                    ||| merge == Merge::Max && bound_key@ == engine.key_of(
                        right_bound_key_of(engine.trusted.seq_no),
                    )
                    ||| merge == Merge::Min && bound_key@ == engine.key_of(
                        left_bound_key_of(engine.trusted.seq_no),
                    )
                },
                _ => true,
            },
            match old(self).phase {
                // a proof held in storage is returned as it is, with nothing
                // else asked for; otherwise the three bounds are read
                LoadPhase::Cached => match event {
                    WalkEvent::Loaded(Some(b)) => final(self).phase == LoadPhase::Over && (
                    r matches WalkStep::Done { seq_no, boc } && seq_no == old(self).mc_seq_no
                        && boc@ == b@),
                    WalkEvent::Loaded(None) => final(self).phase == LoadPhase::ZsBound && (
                    r matches WalkStep::Load { key } && key@ == engine.key_of(
                        ZEROSTATE_RIGHT_BOUND_KEY@,
                    )),
                    _ => r == WalkStep::Failed(ProofError::Internal) && final(self).phase
                        == LoadPhase::Over,
                },
                LoadPhase::ZsBound => match event {
                    WalkEvent::Loaded(raw) => final(self).phase == LoadPhase::LeftBound && final(self).zs_right == bound_or(raw.deep_view(), 0) && (r matches WalkStep::Load {
                        key,
                    } && key@ == engine.key_of(left_bound_key_of(engine.trusted.seq_no))),
                    _ => r == WalkStep::Failed(ProofError::Internal) && final(self).phase
                        == LoadPhase::Over,
                },
                LoadPhase::LeftBound => match event {
                    WalkEvent::Loaded(raw) => final(self).phase == LoadPhase::RightBound && final(self).trusted_left == bound_or(raw.deep_view(), engine.trusted.seq_no) && (
                    r matches WalkStep::Load { key } && key@ == engine.key_of(
                        right_bound_key_of(engine.trusted.seq_no),
                    )),
                    _ => r == WalkStep::Failed(ProofError::Internal) && final(self).phase
                        == LoadPhase::Over,
                },
                // the bounds decide the strategy
                LoadPhase::RightBound => match event {
                    WalkEvent::Loaded(raw) => {
                        let a = engine.trusted.seq_no;
                        &&& final(self).strategy == strategy_of(
                            old(self).mc_seq_no,
                            old(self).zs_right,
                            old(self).trusted_left,
                            bound_or(raw.deep_view(), a),
                            a,
                        )
                        &&& final(self).strategy == Strategy::Anchor ==> (final(self).phase
                            == LoadPhase::TrustedFetch && r == (WalkStep::FetchProof {
                            seq_no: a,
                        }))
                        &&& final(self).strategy != Strategy::Anchor ==> (final(self).phase
                            == LoadPhase::TrustedCached && (r matches WalkStep::Load { key }
                            && key@ == engine.key_of(mc_proof_key_of(a))))
                    },
                    _ => r == WalkStep::Failed(ProofError::Internal) && final(self).phase
                        == LoadPhase::Over,
                },
                // the trusted key-block's proof: from storage, or downloaded
                LoadPhase::TrustedCached => match event {
                    WalkEvent::Loaded(None) => final(self).phase == LoadPhase::TrustedFetch && r
                        == (WalkStep::FetchProof { seq_no: engine.trusted.seq_no }),
                    WalkEvent::Loaded(Some(_)) => r == walk_start(old(self).strategy)
                        && walk_started(*final(self), old(self).strategy),
                    _ => r == WalkStep::Failed(ProofError::Internal) && final(self).phase
                        == LoadPhase::Over,
                },
                LoadPhase::TrustedFetch => match event {
                    WalkEvent::Rows(rows) => if rows@.len() == 0 {
                        r == WalkStep::Failed(ProofError::ProofMissing(engine.trusted.seq_no))
                            && final(self).phase == LoadPhase::Over
                    } else {
                        match row_boc(rows@[0]) {
                            Some(b) => final(self).phase == LoadPhase::TrustedInspect && final(self).trusted_boc@ == b && (r matches WalkStep::Inspect { boc } && boc@
                                == b),
                            None => r == WalkStep::Failed(ProofError::Decode) && final(self).phase
                                == LoadPhase::Over,
                        }
                    },
                    _ => r == WalkStep::Failed(ProofError::Internal) && final(self).phase
                        == LoadPhase::Over,
                },
                // the downloaded proof must match the pin before it is written
                LoadPhase::TrustedInspect => match event {
                    WalkEvent::ProofId { seq_no, root_hash } => if seq_no
                        != engine.trusted.seq_no {
                        r == WalkStep::Failed(ProofError::AnchorMismatch) && final(self).phase
                            == LoadPhase::Over
                    } else if !is_hash_hex(engine.trusted.root_hash@) {
                        r == WalkStep::Failed(ProofError::Decode) && final(self).phase
                            == LoadPhase::Over
                    } else if root_hash@ != hash_bytes(engine.trusted.root_hash@) {
                        r == WalkStep::Failed(ProofError::AnchorMismatch) && final(self).phase
                            == LoadPhase::Over
                    } else {
                        final(self).phase == LoadPhase::TrustedStore && (r matches WalkStep::Write {
                            key,
                            value,
                        } && key@ == engine.key_of(mc_proof_key_of(engine.trusted.seq_no))
                            && value@ == old(self).trusted_boc@)
                    },
                    _ => r == WalkStep::Failed(ProofError::Internal) && final(self).phase
                        == LoadPhase::Over,
                },
                LoadPhase::TrustedStore => match event {
                    WalkEvent::Stored => if old(self).strategy == Strategy::Anchor {
                        final(self).phase == LoadPhase::Over && (r matches WalkStep::Done {
                            seq_no,
                            boc,
                        } && seq_no == engine.trusted.seq_no && boc@ == old(self).trusted_boc@)
                    } else {
                        r == walk_start(old(self).strategy) && walk_started(
                            *final(self),
                            old(self).strategy,
                        )
                    },
                    _ => r == WalkStep::Failed(ProofError::Internal) && final(self).phase
                        == LoadPhase::Over,
                },
                // the walks answer for themselves
                LoadPhase::Forward => {
                    &&& old(self).forward.step_post(final(self).forward, *engine, event, r)
                    &&& final(self).phase == if final(self).forward.phase == ForwardPhase::Over {
                        LoadPhase::Over
                    } else {
                        LoadPhase::Forward
                    }
                },
                LoadPhase::Backward => {
                    &&& old(self).backward.step_post(final(self).backward, *engine, event, r)
                    &&& final(self).phase == if final(self).backward.phase
                        == BackwardPhase::Over {
                        LoadPhase::Over
                    } else {
                        LoadPhase::Backward
                    }
                },
                LoadPhase::Over => r == WalkStep::Failed(ProofError::Internal) && final(self).phase
                    == LoadPhase::Over,
            },
    {
        match self.phase {
            LoadPhase::Cached => match event {
                WalkEvent::Loaded(Some(b)) => {
                    self.phase = LoadPhase::Over;
                    WalkStep::Done { seq_no: self.mc_seq_no, boc: b }
                },
                WalkEvent::Loaded(None) => {
                    self.phase = LoadPhase::ZsBound;
                    WalkStep::Load { key: engine.storage_key(ZEROSTATE_RIGHT_BOUND_KEY) }
                },
                _ => {
                    self.phase = LoadPhase::Over;
                    WalkStep::Failed(ProofError::Internal)
                },
            },
            LoadPhase::ZsBound => match event {
                WalkEvent::Loaded(raw) => {
                    self.zs_right = read_zs_right_bound(raw);
                    self.phase = LoadPhase::LeftBound;
                    WalkStep::Load { key: engine.trusted_left_bound_key() }
                },
                _ => {
                    self.phase = LoadPhase::Over;
                    WalkStep::Failed(ProofError::Internal)
                },
            },
            LoadPhase::LeftBound => match event {
                WalkEvent::Loaded(raw) => {
                    self.trusted_left = read_trusted_block_bound(raw, engine.trusted.seq_no);
                    self.phase = LoadPhase::RightBound;
                    WalkStep::Load { key: engine.trusted_right_bound_key() }
                },
                _ => {
                    self.phase = LoadPhase::Over;
                    WalkStep::Failed(ProofError::Internal)
                },
            },
            LoadPhase::RightBound => match event {
                WalkEvent::Loaded(raw) => {
                    let a = engine.trusted.seq_no;
                    let tr = read_trusted_block_bound(raw, a);
                    let strategy = choose_strategy(self.mc_seq_no, self.zs_right, self.trusted_left, tr, a);
                    proof {
                        lemma_strategy_reaches_target(self.mc_seq_no, self.zs_right, self.trusted_left, tr, a);
                    }
                    self.strategy = strategy;
                    match strategy {
                        Strategy::Anchor => {
                            self.phase = LoadPhase::TrustedFetch;
                            WalkStep::FetchProof { seq_no: engine.trusted.seq_no }
                        },
                        _ => {
                            self.phase = LoadPhase::TrustedCached;
                            WalkStep::Load {
                                key: engine.storage_key(
                                    make_mc_proof_key(engine.trusted.seq_no).as_str(),
                                ),
                            }
                        },
                    }
                },
                _ => {
                    self.phase = LoadPhase::Over;
                    WalkStep::Failed(ProofError::Internal)
                },
            },
            LoadPhase::TrustedCached => match event {
                WalkEvent::Loaded(Some(_)) => self.start_walk(),
                WalkEvent::Loaded(None) => {
                    self.phase = LoadPhase::TrustedFetch;
                    WalkStep::FetchProof { seq_no: engine.trusted.seq_no }
                },
                _ => {
                    self.phase = LoadPhase::Over;
                    WalkStep::Failed(ProofError::Internal)
                },
            },
            LoadPhase::TrustedFetch => match event {
                WalkEvent::Rows(rows) => {
                    let found = match parse_proof_rows(&rows) {
                        Ok(found) => found,
                        Err(e) => {
                            self.phase = LoadPhase::Over;
                            return WalkStep::Failed(e);
                        },
                    };
                    match require_mc_proof(found, engine.trusted.seq_no) {
                        Ok(boc) => {
                            self.trusted_boc = boc.clone();
                            self.phase = LoadPhase::TrustedInspect;
                            WalkStep::Inspect { boc }
                        },
                        Err(e) => {
                            self.phase = LoadPhase::Over;
                            WalkStep::Failed(e)
                        },
                    }
                },
                _ => {
                    self.phase = LoadPhase::Over;
                    WalkStep::Failed(ProofError::Internal)
                },
            },
            LoadPhase::TrustedInspect => match event {
                WalkEvent::ProofId { seq_no, root_hash } => {
                    match check_trusted_proof_id(&engine.trusted, seq_no, &root_hash) {
                        Ok(()) => {
                            self.phase = LoadPhase::TrustedStore;
                            WalkStep::Write {
                                key: engine.storage_key(
                                    make_mc_proof_key(engine.trusted.seq_no).as_str(),
                                ),
                                value: self.trusted_boc.clone(),
                            }
                        },
                        Err(e) => {
                            self.phase = LoadPhase::Over;
                            WalkStep::Failed(e)
                        },
                    }
                },
                _ => {
                    self.phase = LoadPhase::Over;
                    WalkStep::Failed(ProofError::Internal)
                },
            },
            LoadPhase::TrustedStore => match event {
                WalkEvent::Stored => {
                    if self.strategy == Strategy::Anchor {
                        self.phase = LoadPhase::Over;
                        WalkStep::Done {
                            seq_no: engine.trusted.seq_no,
                            boc: self.trusted_boc.clone(),
                        }
                    } else {
                        self.start_walk()
                    }
                },
                _ => {
                    self.phase = LoadPhase::Over;
                    WalkStep::Failed(ProofError::Internal)
                },
            },
            LoadPhase::Forward => {
                let r = self.forward.step(engine, event);
                if !(self.forward.phase == ForwardPhase::Fetching || self.forward.phase
                    == ForwardPhase::Verifying || self.forward.phase == ForwardPhase::Storing) {
                    self.phase = LoadPhase::Over;
                }
                r
            },
            LoadPhase::Backward => {
                let r = self.backward.step(engine, event);
                if self.backward.phase == BackwardPhase::Over {
                    self.phase = LoadPhase::Over;
                }
                r
            },
            LoadPhase::Over => WalkStep::Failed(ProofError::Internal),
        }
    }
}

#[derive(Clone, Copy, Debug, PartialEq, Eq, Structural)]
pub enum ZerostatePhase {
    Cached,
    Fetch,
    Hash,
    Store,
    Over,
}

/// The request of the network's zerostate: served from storage where it is
/// held, otherwise downloaded, checked against the network's zerostate hash
/// and written.
pub struct ZerostateLoad {
    pub phase: ZerostatePhase,
    pub boc: Vec<u8>,
}

impl ZerostateLoad {
    /// The request and its first step: look in storage.
    pub fn new(engine: &ProofHelperEngineImpl) -> (r: (ZerostateLoad, WalkStep))
        ensures
            r.0.phase == ZerostatePhase::Cached,
            r.1 matches WalkStep::Load { key } && key@ == engine.key_of(ZEROSTATE_KEY@),
    {
        (
            ZerostateLoad { phase: ZerostatePhase::Cached, boc: Vec::new() },
            WalkStep::Load { key: engine.storage_key(ZEROSTATE_KEY) },
        )
    }

    /// Advances the request by the outcome of the step it asked for; the
    /// zerostate is returned as `Done` with seq_no 0.
    pub fn step(&mut self, engine: &ProofHelperEngineImpl, event: WalkEvent) -> (r: WalkStep)
        ensures
            old(self).phase != ZerostatePhase::Fetch ==> final(self).boc == old(self).boc,
            r is Write ==> old(self).phase == ZerostatePhase::Hash,
            match old(self).phase {
                ZerostatePhase::Cached => match event {
                    WalkEvent::Loaded(Some(b)) => final(self).phase == ZerostatePhase::Over && (
                    r matches WalkStep::Done { seq_no, boc } && seq_no == 0 && boc@ == b@),
                    WalkEvent::Loaded(None) => final(self).phase == ZerostatePhase::Fetch && r
                        == WalkStep::FetchZerostate,
                    _ => r == WalkStep::Failed(ProofError::Internal) && final(self).phase
                        == ZerostatePhase::Over,
                },
                ZerostatePhase::Fetch => match event {
                    WalkEvent::ZerostateRows(rows) => if rows@.len() == 0 {
                        r == WalkStep::Failed(ProofError::ZerostateMissing) && final(self).phase
                            == ZerostatePhase::Over
                    } else {
                        match rows@[0] {
                            Some(s) => match base64_decoded(s@) {
                                Some(b) => final(self).phase == ZerostatePhase::Hash && final(self).boc@ == b && (r matches WalkStep::Hash { boc } && boc@ == b),
                                None => r == WalkStep::Failed(ProofError::Decode) && final(self).phase == ZerostatePhase::Over,
                            },
                            None => r == WalkStep::Failed(ProofError::Decode) && final(self).phase
                                == ZerostatePhase::Over,
                        }
                    },
                    _ => r == WalkStep::Failed(ProofError::Internal) && final(self).phase
                        == ZerostatePhase::Over,
                },
                // the downloaded zerostate is written only where its hash matches
                ZerostatePhase::Hash => match event {
                    WalkEvent::BocHash(h) => if h@ == engine.network_uid.zerostate_root_hash@ {
                        final(self).phase == ZerostatePhase::Store && (r matches WalkStep::Write {
                            key,
                            value,
                        } && key@ == engine.key_of(ZEROSTATE_KEY@) && value@ == old(self).boc@)
                    } else {
                        r == WalkStep::Failed(ProofError::HashMismatch) && final(self).phase
                            == ZerostatePhase::Over
                    },
                    _ => r == WalkStep::Failed(ProofError::Internal) && final(self).phase
                        == ZerostatePhase::Over,
                },
                ZerostatePhase::Store => match event {
                    WalkEvent::Stored => final(self).phase == ZerostatePhase::Over && (
                    r matches WalkStep::Done { seq_no, boc } && seq_no == 0 && boc@ == old(self).boc@),
                    _ => r == WalkStep::Failed(ProofError::Internal) && final(self).phase
                        == ZerostatePhase::Over,
                },
                ZerostatePhase::Over => r == WalkStep::Failed(ProofError::Internal) && final(self).phase == ZerostatePhase::Over,
            },
    {
        let phase = self.phase;
        self.phase = ZerostatePhase::Over;
        match (phase, event) {
            (ZerostatePhase::Cached, WalkEvent::Loaded(Some(b))) => WalkStep::Done {
                seq_no: 0,
                boc: b,
            },
            (ZerostatePhase::Cached, WalkEvent::Loaded(None)) => {
                self.phase = ZerostatePhase::Fetch;
                WalkStep::FetchZerostate
            },
            (ZerostatePhase::Fetch, WalkEvent::ZerostateRows(rows)) => {
                match parse_zerostate_rows(&rows) {
                    Ok(boc) => {
                        self.boc = boc.clone();
                        self.phase = ZerostatePhase::Hash;
                        WalkStep::Hash { boc }
                    },
                    Err(e) => WalkStep::Failed(e),
                }
            },
            (ZerostatePhase::Hash, WalkEvent::BocHash(h)) => {
                match check_zerostate_hash(&engine.network_uid, &h) {
                    Ok(()) => {
                        self.phase = ZerostatePhase::Store;
                        WalkStep::Write {
                            key: engine.storage_key(ZEROSTATE_KEY),
                            value: self.boc.clone(),
                        }
                    },
                    Err(e) => WalkStep::Failed(e),
                }
            },
            (ZerostatePhase::Store, WalkEvent::Stored) => WalkStep::Done {
                seq_no: 0,
                boc: self.boc.clone(),
            },
            _ => WalkStep::Failed(ProofError::Internal),
        }
    }
}

} // verus!

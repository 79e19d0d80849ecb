//! The forward and backward walks along the chain of key-blocks, as steps: the
//! walk says what to do next (query the server, consult the proof oracle,
//! read or write storage) and is told the outcome. A proof is written only
//! after it has been accepted, and bounds are merged only after the proof.

use vstd::prelude::*;
use crate::anchor::bytes_equal;
use crate::engine::{Chain, ProofHelperEngineImpl};
use crate::error::ProofError;
use crate::keys::{
    left_bound_key_of,
    make_mc_proof_key,
    mc_proof_key_of,
    right_bound_key_of,
    ZEROSTATE_RIGHT_BOUND_KEY,
};
use crate::metadata::Merge;
use crate::query::{ascending, batch_fault, page_blocks, page_fault, BlockBatchQuery, KeyBlockQuery, ProofRow};

verus! {

/// What the caller reports back to a walk.
pub enum WalkEvent {
    /// The rows that the server returned for a query.
    Rows(Vec<ProofRow>),
    /// The proof oracle's verdict on the proof handed out.
    Verdict(bool),
    /// What storage holds under the key asked for.
    Loaded(Option<Vec<u8>>),
    /// What the examination of a key-block and its successor found.
    Link(LinkFacts),
    /// The seq_no and root hash of the proof handed out for inspection, as
    /// read from the proof.
    ProofId { seq_no: u32, root_hash: Vec<u8> },
    /// The `boc` field of each row that the zerostate query returned.
    ZerostateRows(Vec<Option<String>>),
    /// The hash, in hex, of the BOC handed out.
    BocHash(String),
    /// The writes asked for are done.
    Stored,
}

/// What a walk asks the caller to do next.
pub enum WalkStep {
    /// Query the proofs of the masterchain key-blocks in `[start, end)`,
    /// ascending.
    FetchKeyBlocks { start: u64, end: u64 },
    /// Query the proofs of these masterchain blocks, ascending.
    FetchBlocks { seq_nos: Vec<u32> },
    /// Read storage under `key`.
    Load { key: String },
    /// Query the proof of the masterchain block `seq_no`.
    FetchProof { seq_no: u32 },
    /// Query the network's zerostate.
    FetchZerostate,
    /// Compute the hash of this BOC.
    Hash { boc: Vec<u8> },
    /// Read the seq_no and root hash of this proof.
    Inspect { boc: Vec<u8> },
    /// Write `value` under `key`.
    Write { key: String, value: Vec<u8> },
    /// Have the oracle check this key-block proof against the chain before it.
    Verify { seq_no: u32, boc: Vec<u8> },
    /// Examine key-block `key_seq_no` and the block after it, and check the
    /// proof of the key-block to the right against the key-block.
    CheckLink { key_seq_no: u32, key_boc: Vec<u8>, next_boc: Vec<u8>, right_boc: Vec<u8> },
    /// Write `boc` under `proof_key`; then merge `seq_no` into the bound stored
    /// under `bound_key`.
    Store { proof_key: String, boc: Vec<u8>, bound_key: String, seq_no: u32, merge: Merge },
    /// The walk is over; this is the last proof it reached.
    Done { seq_no: u32, boc: Vec<u8> },
    /// The walk has failed.
    Failed(ProofError),
}

/// What the caller found when it examined a key-block proof, the proof of the
/// block after it, and the proof of the key-block to the right.
#[derive(Clone, Debug)]
pub struct LinkFacts {
    /// The previous key-block that the next block names.
    pub prev_key_block_seqno: u32,
    /// Whether the oracle accepted the next block against the key-block.
    pub next_accepted: bool,
    /// The root hash of the next block's predecessor; `None` where the next
    /// block claims to be a merge.
    pub prev_root_hash: Option<Vec<u8>>,
    /// The root hash of the key-block.
    pub key_root_hash: Vec<u8>,
    /// Whether the oracle accepted the key-block to the right against the
    /// key-block.
    pub right_accepted: bool,
}

/// The outcome of the checks of a link, in their order.
pub open spec fn link_result(key_seq_no: u32, f: LinkFacts) -> Result<(), ProofError> {
    if f.prev_key_block_seqno != key_seq_no {
        Err(ProofError::LinkMismatch)
    } else if !f.next_accepted {
        Err(ProofError::OracleRejected)
    } else if f.prev_root_hash is None {
        Err(ProofError::UnexpectedMerge)
    } else if f.prev_root_hash->Some_0@ != f.key_root_hash@ {
        Err(ProofError::ChainBroken)
    } else if !f.right_accepted {
        Err(ProofError::OracleRejected)
    } else {
        Ok(())
    }
}

/// Checks that a key-block is certified by the block after it: the next
/// block names it as its previous key-block, the oracle accepts the next
/// block against it, the next block follows a single block whose root hash is
/// the key-block's, and the oracle accepts the key-block to the right against
/// it.
pub fn check_link(key_seq_no: u32, facts: &LinkFacts) -> (r: Result<(), ProofError>)
    ensures
        r == link_result(key_seq_no, *facts),
{
    if facts.prev_key_block_seqno != key_seq_no {
        return Err(ProofError::LinkMismatch);
    }
    if !facts.next_accepted {
        return Err(ProofError::OracleRejected);
    }
    match &facts.prev_root_hash {
        None => Err(ProofError::UnexpectedMerge),
        Some(h) => if !bytes_equal(h, &facts.key_root_hash) {
            Err(ProofError::ChainBroken)
        } else if !facts.right_accepted {
            Err(ProofError::OracleRejected)
        } else {
            Ok(())
        },
    }
}

/// The seq_nos of a list of `(seq_no, BOC)` pairs.
pub open spec fn seq_nos(blocks: Seq<(u32, Seq<u8>)>) -> Seq<u32> {
    blocks.map_values(|b: (u32, Seq<u8>)| b.0)
}

#[derive(Clone, Copy, Debug, PartialEq, Eq, Structural)]
pub enum ForwardPhase {
    Fetching,
    Verifying,
    Storing,
    Over,
}

/// A forward walk: downloads the key-block proofs of a range, then verifies
/// them in ascending order, each against the chain before it, writing each
/// accepted proof and pushing the chain's right bound to it.
pub struct ForwardWalk {
    pub query: KeyBlockQuery,
    pub chain: Chain,
    pub phase: ForwardPhase,
    /// The proof being verified or stored.
    pub next: usize,
    /// The seq_nos of the proofs written so far, in the order written.
    pub stored: Ghost<Seq<u32>>,
}

impl ForwardWalk {
    pub open spec fn blocks(&self) -> Seq<(u32, Seq<u8>)> {
        self.query.blocks.deep_view()
    }

    pub open spec fn wf(&self) -> bool {
        &&& self.query.wf()
        &&& match self.phase {
            ForwardPhase::Fetching => {
                &&& !self.query.finished
                &&& self.query.start < self.query.end
                &&& self.stored@ == Seq::<u32>::empty()
            },
            ForwardPhase::Verifying => {
                &&& self.next < self.blocks().len()
                &&& self.stored@ == seq_nos(self.blocks().subrange(0, self.next as int))
            },
            ForwardPhase::Storing => {
                &&& self.next < self.blocks().len()
                &&& self.stored@ == seq_nos(self.blocks().subrange(0, self.next + 1))
            },
            ForwardPhase::Over => true,
        }
    }

    /// A forward walk over `[start, end)`, which grows `chain`, and its first
    /// step.
    pub fn new(start: u64, end: u64, chain: Chain) -> (r: (ForwardWalk, WalkStep))
        requires
            end <= 0x1_0000_0000,
        ensures
            r.0.wf(),
            r.0.chain == chain,
            r.0.stored@ == Seq::<u32>::empty(),
            start >= end ==> r.0.phase == ForwardPhase::Over && r.1 == WalkStep::Failed(
                ProofError::EmptyRange,
            ),
            start < end ==> r.0.phase == ForwardPhase::Fetching && r.0.query.start == start
                && r.0.query.end == end && r.0.query.blocks@.len() == 0 && r.0.query.first@ == start
                && r.1 == (WalkStep::FetchKeyBlocks { start, end }),
    {
        if start >= end {
            let w = ForwardWalk {
                query: KeyBlockQuery::new(end, end),
                chain,
                phase: ForwardPhase::Over,
                next: 0,
                stored: Ghost(Seq::empty()),
            };
            return (w, WalkStep::Failed(ProofError::EmptyRange));
        }
        let w = ForwardWalk {
            query: KeyBlockQuery::new(start, end),
            chain,
            phase: ForwardPhase::Fetching,
            next: 0,
            stored: Ghost(Seq::empty()),
        };
        (w, WalkStep::FetchKeyBlocks { start, end })
    }

    /// Storage key of the bound that this walk pushes.
    pub open spec fn bound_key(&self, engine: &ProofHelperEngineImpl) -> Seq<char> {
        match self.chain {
            Chain::Zerostate => engine.key_of(ZEROSTATE_RIGHT_BOUND_KEY@),
            Chain::Trusted => engine.key_of(right_bound_key_of(engine.trusted.seq_no)),
        }
    }

    fn verify_step(&self) -> (r: WalkStep)
        requires
            self.next < self.blocks().len(),
        ensures
            r matches WalkStep::Verify { seq_no, boc } && seq_no == self.blocks()[self.next as int].0
                && boc@ == self.blocks()[self.next as int].1,
    {
        let (seq_no, boc) = &self.query.blocks[self.next];
        proof {
            assert(self.blocks()[self.next as int] == (
                *seq_no,
                self.query.blocks@[self.next as int].1.deep_view(),
            ));
            assert(boc.deep_view() =~= boc@);
        }
        WalkStep::Verify { seq_no: *seq_no, boc: boc.clone() }
    }

    /// What one step does: `post` is the walk after it, given `event`, and `r`
    /// is the step it asks for next.
    pub open spec fn step_post(
        self,
        post: Self,
        engine: ProofHelperEngineImpl,
        event: WalkEvent,
        r: WalkStep,
    ) -> bool {
        &&& post.chain == self.chain
        // a proof is written only right after the oracle accepted it, in
        // ascending order of seq_no; the walk ends only after a write
        &&& r is Store ==> (self.phase == ForwardPhase::Verifying && (event matches WalkEvent::Verdict(
            true,
        )))
        &&& r is Done ==> self.phase == ForwardPhase::Storing && event is Stored
        &&& !(r is Write)
        &&& match r {
            WalkStep::Store { proof_key, boc, bound_key, seq_no, merge } => {
                &&& seq_no == self.blocks()[self.next as int].0
                &&& boc@ == self.blocks()[self.next as int].1
                &&& proof_key@ == engine.key_of(mc_proof_key_of(seq_no))
                &&& bound_key@ == self.bound_key(&engine)
                &&& merge == Merge::Max
                &&& post.stored@ == self.stored@.push(seq_no)
                &&& forall|i: int| 0 <= i < self.stored@.len() ==> self.stored@[i] < seq_no
            },
            _ => post.stored@ == self.stored@,
        }
        &&& self.phase != ForwardPhase::Fetching ==> post.query == self.query
        &&& match self.phase {
            // fetching the key-block proofs page by page, then the first check
            ForwardPhase::Fetching => match event {
                WalkEvent::Rows(rows) => match page_fault(
                    rows@,
                    self.query.start as int,
                    self.query.end as int,
                ) {
                    Some(e) => r == WalkStep::Failed(e) && post.phase == ForwardPhase::Over,
                    None => {
                        &&& post.blocks() == self.blocks() + page_blocks(rows@)
                        &&& post.query.end == self.query.end
                        &&& post.query.first == self.query.first
                        &&& if rows@.len() > 0 && row_end(rows@) < self.query.end {
                            &&& r == (WalkStep::FetchKeyBlocks {
                                start: row_end(rows@),
                                end: self.query.end,
                            })
                            &&& post.phase == ForwardPhase::Fetching
                            &&& post.query.start == row_end(rows@)
                        } else if post.blocks().len() == 0 {
                            r == WalkStep::Failed(ProofError::EmptyChain) && post.phase
                                == ForwardPhase::Over
                        } else {
                            &&& post.phase == ForwardPhase::Verifying
                            &&& post.next == 0
                            &&& r matches WalkStep::Verify { seq_no, boc }
                            &&& seq_no == post.blocks()[0].0
                            &&& boc@ == post.blocks()[0].1
                        }
                    },
                },
                _ => r == WalkStep::Failed(ProofError::Internal) && post.phase == ForwardPhase::Over,
            },
            // the oracle's verdict decides between a write and the end of the walk
            ForwardPhase::Verifying => match event {
                WalkEvent::Verdict(true) => post.phase == ForwardPhase::Storing && post.next
                    == self.next && r is Store,
                WalkEvent::Verdict(false) => post.phase == ForwardPhase::Over && r
                    == WalkStep::Failed(ProofError::OracleRejected),
                _ => r == WalkStep::Failed(ProofError::Internal) && post.phase == ForwardPhase::Over,
            },
            // after a write the next proof is verified, or the walk ends on the
            // last one
            ForwardPhase::Storing => match event {
                WalkEvent::Stored => if self.next + 1 < self.blocks().len() {
                    &&& post.phase == ForwardPhase::Verifying
                    &&& post.next == self.next + 1
                    &&& r matches WalkStep::Verify { seq_no, boc }
                    &&& seq_no == self.blocks()[self.next + 1].0
                    &&& boc@ == self.blocks()[self.next + 1].1
                } else {
                    &&& post.phase == ForwardPhase::Over
                    &&& r matches WalkStep::Done { seq_no, boc }
                    &&& seq_no == self.blocks().last().0
                    &&& boc@ == self.blocks().last().1
                    &&& post.stored@ == seq_nos(self.blocks())
                },
                _ => r == WalkStep::Failed(ProofError::Internal) && post.phase == ForwardPhase::Over,
            },
            ForwardPhase::Over => r == WalkStep::Failed(ProofError::Internal) && post.phase
                == ForwardPhase::Over,
        }
    }

    /// Advances the walk by the outcome of the step it asked for. An event that
    /// does not answer that step fails the walk.
    pub fn step(&mut self, engine: &ProofHelperEngineImpl, event: WalkEvent) -> (r: WalkStep)
        requires
            old(self).wf(),
        ensures
            final(self).wf(),
            old(self).step_post(*final(self), *engine, event, r),
    {
        match self.phase {
            ForwardPhase::Fetching => {
                match event {
                    WalkEvent::Rows(rows) => {
                        match self.query.add_page(&rows) {
                            Err(e) => {
                                self.phase = ForwardPhase::Over;
                                WalkStep::Failed(e)
                            },
                            Ok(()) => {
                                match self.query.next_range() {
                                    Some((start, end)) => WalkStep::FetchKeyBlocks { start, end },
                                    None => {
                                        if self.query.blocks.len() == 0 {
                                            self.phase = ForwardPhase::Over;
                                            WalkStep::Failed(ProofError::EmptyChain)
                                        } else {
                                            self.phase = ForwardPhase::Verifying;
                                            self.next = 0;
                                            proof {
                                                assert(seq_nos(self.blocks().subrange(0, 0))
                                                    =~= Seq::<u32>::empty());
                                            }
                                            self.verify_step()
                                        }
                                    },
                                }
                            },
                        }
                    },
                    _ => {
                        self.phase = ForwardPhase::Over;
                        WalkStep::Failed(ProofError::Internal)
                    },
                }
            },
            ForwardPhase::Verifying => {
                match event {
                    WalkEvent::Verdict(true) => {
                        let seq_no = self.query.blocks[self.next].0;
                        let boc = self.query.blocks[self.next].1.clone();
                        let proof_key = engine.storage_key(make_mc_proof_key(seq_no).as_str());
                        let bound_key = match self.chain {
                            Chain::Zerostate => engine.storage_key(ZEROSTATE_RIGHT_BOUND_KEY),
                            Chain::Trusted => engine.trusted_right_bound_key(),
                        };
                        proof {
                            let b = self.blocks();
                            let n = self.next as int;
                            assert(seq_nos(b.subrange(0, n + 1)) =~= seq_nos(
                                b.subrange(0, n),
                            ).push(seq_no));
                            assert forall|i: int|
                                0 <= i < self.stored@.len() implies self.stored@[i] < seq_no by {
                                assert(self.stored@[i] == b[i].0);
                                assert(ascending(b));
                                assert(b[n].0 == seq_no);
                            }
                            assert(boc.deep_view() =~= boc@);
                        }
                        self.stored = Ghost(self.stored@.push(seq_no));
                        self.phase = ForwardPhase::Storing;
                        WalkStep::Store { proof_key, boc, bound_key, seq_no, merge: Merge::Max }
                    },
                    WalkEvent::Verdict(false) => {
                        self.phase = ForwardPhase::Over;
                        WalkStep::Failed(ProofError::OracleRejected)
                    },
                    _ => {
                        self.phase = ForwardPhase::Over;
                        WalkStep::Failed(ProofError::Internal)
                    },
                }
            },
            ForwardPhase::Storing => {
                match event {
                    WalkEvent::Stored => {
                        if self.next < self.query.blocks.len() - 1 {
                            self.next = self.next + 1;
                            self.phase = ForwardPhase::Verifying;
                            self.verify_step()
                        } else {
                            self.phase = ForwardPhase::Over;
                            let (seq_no, boc) = &self.query.blocks[self.next];
                            proof {
                                assert(self.blocks().subrange(0, self.next + 1) =~= self.blocks());
                                assert(boc.deep_view() =~= boc@);
                            }
                            WalkStep::Done { seq_no: *seq_no, boc: boc.clone() }
                        }
                    },
                    _ => {
                        self.phase = ForwardPhase::Over;
                        WalkStep::Failed(ProofError::Internal)
                    },
                }
            },
            ForwardPhase::Over => WalkStep::Failed(ProofError::Internal),
        }
    }
}

#[derive(Clone, Copy, Debug, PartialEq, Eq, Structural)]
pub enum BackwardPhase {
    FetchingKeys,
    FetchingNext,
    LoadingRight,
    Linking,
    Storing,
    Over,
}

/// The seq_nos that follow the given key-blocks.
pub open spec fn successors(blocks: Seq<(u32, Seq<u8>)>) -> Seq<u32> {
    blocks.map_values(|b: (u32, Seq<u8>)| (b.0 + 1) as u32)
}

/// A backward walk: certifies the key-blocks of a range from right to left,
/// each through the block after it and against the key-block to its right,
/// starting from the stored proof at the range's end; writes each certified
/// proof and lowers the trusted chain's left bound to it.
pub struct BackwardWalk {
    pub query: KeyBlockQuery,
    pub batch: BlockBatchQuery,
    pub end: u32,
    pub phase: BackwardPhase,
    /// The key-blocks not certified yet are those before this index.
    pub pending: usize,
    /// The proof to the right of the key-block being certified.
    pub right_seq_no: u32,
    pub right_boc: Vec<u8>,
    /// The seq_nos of the proofs written so far, in the order written.
    pub stored: Ghost<Seq<u32>>,
}

impl BackwardWalk {
    pub open spec fn keys(&self) -> Seq<(u32, Seq<u8>)> {
        self.query.blocks.deep_view()
    }

    pub open spec fn nexts(&self) -> Seq<(u32, Seq<u8>)> {
        self.batch.blocks.deep_view()
    }

    /// The seq_nos of the key-blocks from the last down to index `from`.
    pub open spec fn written_down_to(&self, from: int) -> Seq<u32> {
        Seq::new(
            (self.keys().len() - from) as nat,
            |j: int| self.keys()[self.keys().len() - 1 - j].0,
        )
    }

    pub open spec fn wf(&self) -> bool {
        &&& self.query.wf()
        &&& self.query.end == self.end
        &&& self.phase == BackwardPhase::FetchingKeys ==> {
            &&& !self.query.finished
            &&& self.query.start < self.query.end
            &&& self.stored@ == Seq::<u32>::empty()
        }
        &&& (self.phase == BackwardPhase::FetchingNext || self.phase == BackwardPhase::LoadingRight
            || self.phase == BackwardPhase::Linking || self.phase == BackwardPhase::Storing) ==> {
            &&& self.batch.wf()
            &&& self.batch.expected@ == successors(self.keys())
        }
        &&& self.phase == BackwardPhase::FetchingNext ==> {
            &&& self.batch.taken < self.batch.expected@.len()
            &&& self.stored@ == Seq::<u32>::empty()
        }
        &&& (self.phase == BackwardPhase::LoadingRight || self.phase == BackwardPhase::Linking
            || self.phase == BackwardPhase::Storing) ==> self.batch.taken
            == self.batch.expected@.len()
        &&& self.phase == BackwardPhase::LoadingRight ==> self.stored@ == Seq::<u32>::empty()
        &&& (self.phase == BackwardPhase::Linking || self.phase == BackwardPhase::Storing) ==> {
            &&& 1 <= self.pending <= self.keys().len()
            &&& self.right_seq_no == if self.pending == self.keys().len() {
                self.end
            } else {
                self.keys()[self.pending as int].0
            }
        }
        &&& self.phase == BackwardPhase::Linking ==> self.stored@ == self.written_down_to(
            self.pending as int,
        )
        &&& self.phase == BackwardPhase::Storing ==> self.stored@ == self.written_down_to(
            self.pending - 1,
        )
    }

    /// A backward walk over `[start, end)` and its first step.
    pub fn new(start: u32, end: u32) -> (r: (BackwardWalk, WalkStep))
        ensures
            r.0.wf(),
            r.0.end == end,
            r.0.stored@ == Seq::<u32>::empty(),
            start >= end ==> r.0.phase == BackwardPhase::Over && r.1 == WalkStep::Failed(
                ProofError::EmptyRange,
            ),
            start < end ==> r.0.phase == BackwardPhase::FetchingKeys && r.0.query.start == start
                && r.0.query.first@ == start && r.0.query.blocks@.len() == 0 && r.1 == (WalkStep::FetchKeyBlocks {
                start: start as u64,
                end: end as u64,
            }),
    {
        let first: u64 = if start >= end {
            end as u64
        } else {
            start as u64
        };
        let w = BackwardWalk {
            query: KeyBlockQuery::new(first, end as u64),
            batch: BlockBatchQuery::new(Vec::new()),
            end,
            phase: if start >= end {
                BackwardPhase::Over
            } else {
                BackwardPhase::FetchingKeys
            },
            pending: 0,
            right_seq_no: end,
            right_boc: Vec::new(),
            stored: Ghost(Seq::empty()),
        };
        if start >= end {
            (w, WalkStep::Failed(ProofError::EmptyRange))
        } else {
            (w, WalkStep::FetchKeyBlocks { start: start as u64, end: end as u64 })
        }
    }

    fn link_step(&self) -> (r: WalkStep)
        requires
            self.wf(),
            self.phase == BackwardPhase::Linking,
        ensures
            r matches WalkStep::CheckLink { key_seq_no, key_boc, next_boc, right_boc } && key_seq_no
                == self.keys()[self.pending - 1].0 && key_boc@ == self.keys()[self.pending - 1].1
                && next_boc@ == self.nexts()[self.pending - 1].1 && right_boc@ == self.right_boc@,
    {
        let i = self.pending - 1;
        let (key_seq_no, key_boc) = &self.query.blocks[i];
        let next_boc = &self.batch.blocks[i].1;
        proof {
            assert(self.batch.blocks@.len() == self.keys().len());
            assert(key_boc.deep_view() =~= key_boc@);
            assert(next_boc.deep_view() =~= next_boc@);
            assert(self.keys()[i as int].0 == *key_seq_no);
        }
        WalkStep::CheckLink {
            key_seq_no: *key_seq_no,
            key_boc: key_boc.clone(),
            next_boc: next_boc.clone(),
            right_boc: self.right_boc.clone(),
        }
    }

    fn successor_seq_nos(&self) -> (r: Vec<u32>)
        requires
            self.query.wf(),
            self.query.end <= 0xffff_ffff,
        ensures
            r@ == successors(self.keys()),
    {
        let mut r: Vec<u32> = Vec::new();
        let mut i: usize = 0;
        while i < self.query.blocks.len()
            invariant
                0 <= i <= self.keys().len(),
                self.query.wf(),
                self.query.end <= 0xffff_ffff,
                r@ == successors(self.keys().subrange(0, i as int)),
            decreases self.keys().len() - i,
        {
            let k = self.query.blocks[i].0;
            assert(self.query.blocks@[i as int].0 < self.query.start);
            r.push(k + 1);
            i = i + 1;
            assert(successors(self.keys().subrange(0, i as int)) =~= successors(
                self.keys().subrange(0, i - 1),
            ).push((k + 1) as u32));
        }
        assert(self.keys().subrange(0, i as int) =~= self.keys());
        r
    }

    /// What one step does: `post` is the walk after it, given `event`, and `r`
    /// is the step it asks for next.
    pub open spec fn step_post(
        self,
        post: Self,
        engine: ProofHelperEngineImpl,
        event: WalkEvent,
        r: WalkStep,
    ) -> bool {
        let keys = self.keys();
        let p = self.pending as int;
        &&& post.end == self.end
        // a proof is written only right after its link was checked, in
        // descending order of seq_no
        &&& r is Store ==> (self.phase == BackwardPhase::Linking && event is Link)
        &&& !(r is Write)
        &&& match r {
            WalkStep::Store { proof_key, boc, bound_key, seq_no, merge } => {
                &&& seq_no == keys[p - 1].0
                &&& boc@ == keys[p - 1].1
                &&& proof_key@ == engine.key_of(mc_proof_key_of(seq_no))
                &&& bound_key@ == engine.key_of(left_bound_key_of(engine.trusted.seq_no))
                &&& merge == Merge::Min
                &&& post.stored@ == self.stored@.push(seq_no)
                &&& forall|i: int| 0 <= i < self.stored@.len() ==> self.stored@[i] > seq_no
            },
            _ => post.stored@ == self.stored@,
        }
        &&& self.phase != BackwardPhase::FetchingKeys ==> post.query == self.query
        &&& (self.phase != BackwardPhase::FetchingKeys && self.phase != BackwardPhase::FetchingNext)
            ==> post.batch == self.batch
        &&& match self.phase {
            // the key-blocks page by page, then the blocks after them
            BackwardPhase::FetchingKeys => match event {
                WalkEvent::Rows(rows) => match page_fault(
                    rows@,
                    self.query.start as int,
                    self.query.end as int,
                ) {
                    Some(e) => r == WalkStep::Failed(e) && post.phase == BackwardPhase::Over,
                    None => {
                        &&& post.keys() == keys + page_blocks(rows@)
                        &&& if rows@.len() > 0 && row_end(rows@) < self.query.end {
                            &&& r == (WalkStep::FetchKeyBlocks {
                                start: row_end(rows@),
                                end: self.query.end,
                            })
                            &&& post.phase == BackwardPhase::FetchingKeys
                            &&& post.query.start == row_end(rows@)
                        } else if post.keys().len() == 0 {
                            &&& post.phase == BackwardPhase::LoadingRight
                            &&& r matches WalkStep::Load { key }
                            &&& key@ == engine.key_of(mc_proof_key_of(self.end))
                        } else {
                            &&& post.phase == BackwardPhase::FetchingNext
                            &&& post.batch.expected@ == successors(post.keys())
                            &&& post.batch.taken == 0
                            &&& r matches WalkStep::FetchBlocks { seq_nos }
                            &&& seq_nos@ == successors(post.keys())
                        }
                    },
                },
                _ => r == WalkStep::Failed(ProofError::Internal) && post.phase
                    == BackwardPhase::Over,
            },
            // a short or empty batch: the rest is asked for again, an empty one
            // means the block is missing
            BackwardPhase::FetchingNext => match event {
                WalkEvent::Rows(rows) => if rows@.len() > self.batch.wanted().len() {
                    r == WalkStep::Failed(ProofError::ProtocolViolation) && post.phase
                        == BackwardPhase::Over
                } else if rows@.len() == 0 {
                    r == WalkStep::Failed(ProofError::MissingBlock(self.batch.wanted()[0]))
                        && post.phase == BackwardPhase::Over
                } else {
                    match batch_fault(rows@, self.batch.wanted()) {
                        Some(e) => r == WalkStep::Failed(e) && post.phase == BackwardPhase::Over,
                        None => {
                            &&& post.batch.expected == self.batch.expected
                            &&& post.batch.taken == self.batch.taken + rows@.len()
                            &&& post.nexts() == self.nexts() + page_blocks(rows@)
                            &&& if post.batch.taken < post.batch.expected@.len() {
                                &&& post.phase == BackwardPhase::FetchingNext
                                &&& r matches WalkStep::FetchBlocks { seq_nos }
                                &&& seq_nos@ == post.batch.wanted()
                            } else {
                                &&& post.phase == BackwardPhase::LoadingRight
                                &&& r matches WalkStep::Load { key }
                                &&& key@ == engine.key_of(mc_proof_key_of(self.end))
                            }
                        },
                    }
                },
                _ => r == WalkStep::Failed(ProofError::Internal) && post.phase
                    == BackwardPhase::Over,
            },
            // the walk starts from the stored proof at the range's end
            BackwardPhase::LoadingRight => match event {
                WalkEvent::Loaded(None) => r == WalkStep::Failed(ProofError::MissingRightAnchor)
                    && post.phase == BackwardPhase::Over,
                WalkEvent::Loaded(Some(b)) => if keys.len() == 0 {
                    &&& post.phase == BackwardPhase::Over
                    &&& r matches WalkStep::Done { seq_no, boc }
                    &&& seq_no == self.end
                    &&& boc@ == b@
                } else {
                    &&& post.phase == BackwardPhase::Linking
                    &&& post.pending == keys.len()
                    &&& post.right_seq_no == self.end
                    &&& post.right_boc@ == b@
                    &&& r matches WalkStep::CheckLink { key_seq_no, key_boc, next_boc, right_boc }
                    &&& key_seq_no == keys[keys.len() - 1].0
                    &&& key_boc@ == keys[keys.len() - 1].1
                    &&& next_boc@ == self.nexts()[keys.len() - 1].1
                    &&& right_boc@ == b@
                },
                _ => r == WalkStep::Failed(ProofError::Internal) && post.phase
                    == BackwardPhase::Over,
            },
            // the checks of a link decide whether its key-block is written
            BackwardPhase::Linking => match event {
                WalkEvent::Link(f) => match link_result(keys[p - 1].0, f) {
                    Ok(()) => post.phase == BackwardPhase::Storing && post.pending == self.pending
                        && post.right_boc == self.right_boc && r is Store,
                    Err(e) => r == WalkStep::Failed(e) && post.phase == BackwardPhase::Over,
                },
                _ => r == WalkStep::Failed(ProofError::Internal) && post.phase
                    == BackwardPhase::Over,
            },
            // after a write the key-block to the left is checked, or the walk
            // ends on the lowest key-block
            BackwardPhase::Storing => match event {
                WalkEvent::Stored => if self.pending == 1 {
                    &&& post.phase == BackwardPhase::Over
                    &&& r matches WalkStep::Done { seq_no, boc }
                    &&& seq_no == keys[0].0
                    &&& boc@ == keys[0].1
                    &&& post.stored@ == self.written_down_to(0)
                } else {
                    &&& post.phase == BackwardPhase::Linking
                    &&& post.pending == self.pending - 1
                    &&& post.right_seq_no == keys[p - 1].0
                    &&& post.right_boc@ == keys[p - 1].1
                    &&& r matches WalkStep::CheckLink { key_seq_no, key_boc, next_boc, right_boc }
                    &&& key_seq_no == keys[p - 2].0
                    &&& key_boc@ == keys[p - 2].1
                    &&& next_boc@ == self.nexts()[p - 2].1
                    &&& right_boc@ == keys[p - 1].1
                },
                _ => r == WalkStep::Failed(ProofError::Internal) && post.phase
                    == BackwardPhase::Over,
            },
            BackwardPhase::Over => r == WalkStep::Failed(ProofError::Internal) && post.phase
                == BackwardPhase::Over,
        }
    }

    /// Advances the walk by the outcome of the step it asked for. An event that
    /// does not answer that step fails the walk.
    pub fn step(&mut self, engine: &ProofHelperEngineImpl, event: WalkEvent) -> (r: WalkStep)
        requires
            old(self).wf(),
        ensures
            final(self).wf(),
            old(self).step_post(*final(self), *engine, event, r),
    {
        match self.phase {
            BackwardPhase::FetchingKeys => {
                match event {
                    WalkEvent::Rows(rows) => {
                        match self.query.add_page(&rows) {
                            Err(e) => {
                                self.phase = BackwardPhase::Over;
                                WalkStep::Failed(e)
                            },
                            Ok(()) => {
                                match self.query.next_range() {
                                    Some((start, end)) => WalkStep::FetchKeyBlocks { start, end },
                                    None => {
                                        let next_ids = self.successor_seq_nos();
                                        self.batch = BlockBatchQuery::new(next_ids);
                                        if self.query.blocks.len() == 0 {
                                            self.phase = BackwardPhase::LoadingRight;
                                            self.load_right_step(engine)
                                        } else {
                                            self.phase = BackwardPhase::FetchingNext;
                                            assert(self.batch.wanted() =~= self.batch.expected@);
                                            WalkStep::FetchBlocks { seq_nos: self.batch.remaining() }
                                        }
                                    },
                                }
                            },
                        }
                    },
                    _ => {
                        self.phase = BackwardPhase::Over;
                        WalkStep::Failed(ProofError::Internal)
                    },
                }
            },
            BackwardPhase::FetchingNext => {
                match event {
                    WalkEvent::Rows(rows) => {
                        match self.batch.add_batch(&rows) {
                            Err(e) => {
                                self.phase = BackwardPhase::Over;
                                WalkStep::Failed(e)
                            },
                            Ok(()) => {
                                if self.batch.taken < self.batch.expected.len() {
                                    WalkStep::FetchBlocks { seq_nos: self.batch.remaining() }
                                } else {
                                    self.phase = BackwardPhase::LoadingRight;
                                    self.load_right_step(engine)
                                }
                            },
                        }
                    },
                    _ => {
                        self.phase = BackwardPhase::Over;
                        WalkStep::Failed(ProofError::Internal)
                    },
                }
            },
            BackwardPhase::LoadingRight => {
                match event {
                    WalkEvent::Loaded(None) => {
                        self.phase = BackwardPhase::Over;
                        WalkStep::Failed(ProofError::MissingRightAnchor)
                    },
                    WalkEvent::Loaded(Some(b)) => {
                        if self.query.blocks.len() == 0 {
                            self.phase = BackwardPhase::Over;
                            WalkStep::Done { seq_no: self.end, boc: b }
                        } else {
                            self.right_seq_no = self.end;
                            self.right_boc = b;
                            self.pending = self.query.blocks.len();
                            self.phase = BackwardPhase::Linking;
                            proof {
                                assert(self.written_down_to(self.pending as int) =~= Seq::<
                                    u32,
                                >::empty());
                            }
                            self.link_step()
                        }
                    },
                    _ => {
                        self.phase = BackwardPhase::Over;
                        WalkStep::Failed(ProofError::Internal)
                    },
                }
            },
            BackwardPhase::Linking => {
                match event {
                    WalkEvent::Link(facts) => {
                        let i = self.pending - 1;
                        let seq_no = self.query.blocks[i].0;
                        match check_link(seq_no, &facts) {
                            Err(e) => {
                                self.phase = BackwardPhase::Over;
                                WalkStep::Failed(e)
                            },
                            Ok(()) => {
                                let boc = self.query.blocks[i].1.clone();
                                let proof_key = engine.storage_key(
                                    make_mc_proof_key(seq_no).as_str(),
                                );
                                let bound_key = engine.trusted_left_bound_key();
                                proof {
                                    let k = self.keys();
                                    assert(k[i as int].0 == seq_no);
                                    assert(ascending(k));
                                    assert(self.written_down_to(i as int) =~= self.written_down_to(
                                        self.pending as int,
                                    ).push(seq_no));
                                    assert(boc.deep_view() =~= boc@);
                                }
                                self.stored = Ghost(self.stored@.push(seq_no));
                                self.phase = BackwardPhase::Storing;
                                WalkStep::Store {
                                    proof_key,
                                    boc,
                                    bound_key,
                                    seq_no,
                                    merge: Merge::Min,
                                }
                            },
                        }
                    },
                    _ => {
                        self.phase = BackwardPhase::Over;
                        WalkStep::Failed(ProofError::Internal)
                    },
                }
            },
            BackwardPhase::Storing => {
                match event {
                    WalkEvent::Stored => {
                        let i = self.pending - 1;
                        if i == 0 {
                            self.phase = BackwardPhase::Over;
                            let (seq_no, boc) = &self.query.blocks[0];
                            proof {
                                assert(boc.deep_view() =~= boc@);
                            }
                            WalkStep::Done { seq_no: *seq_no, boc: boc.clone() }
                        } else {
                            self.right_seq_no = self.query.blocks[i].0;
                            self.right_boc = self.query.blocks[i].1.clone();
                            proof {
                                assert(self.right_boc.deep_view() =~= self.right_boc@);
                            }
                            self.pending = i;
                            self.phase = BackwardPhase::Linking;
                            self.link_step()
                        }
                    },
                    _ => {
                        self.phase = BackwardPhase::Over;
                        WalkStep::Failed(ProofError::Internal)
                    },
                }
            },
            BackwardPhase::Over => WalkStep::Failed(ProofError::Internal),
        }
    }

    fn load_right_step(&self, engine: &ProofHelperEngineImpl) -> (r: WalkStep)
        ensures
            r matches WalkStep::Load { key } && key@ == engine.key_of(mc_proof_key_of(self.end)),
    {
        WalkStep::Load { key: engine.storage_key(make_mc_proof_key(self.end).as_str()) }
    }
}

/// A forward walk leaves no gap: whenever it writes a proof, the proofs it
/// has written are exactly the key-blocks it fetched, in ascending order, up
/// to and including the one being written, so the bound it then merges is
/// backed by every key-block below it in the walk's range.
pub proof fn lemma_forward_writes_fetched_prefix(w: ForwardWalk)
    requires
        w.wf(),
        w.phase == ForwardPhase::Storing,
    ensures
        w.stored@ == seq_nos(w.blocks().subrange(0, w.next + 1)),
        w.stored@.last() == w.blocks()[w.next as int].0,
        forall|i: int, j: int| 0 <= i < j < w.stored@.len() ==> w.stored@[i] < w.stored@[j],
        forall|i: int|
            0 <= i < w.stored@.len() ==> w.query.first@ <= #[trigger] w.stored@[i] < w.query.end,
{
    assert(ascending(w.blocks()));
    assert forall|i: int|
        0 <= i < w.stored@.len() implies w.query.first@ <= #[trigger] w.stored@[i] < w.query.end by {
        assert(w.stored@[i] == w.query.blocks@[i].0);
    }
}

/// A backward walk leaves no gap: whenever it writes a proof, the proofs it
/// has written are exactly the key-blocks it fetched, from the highest down
/// to the one being written, which is the lowest so far; so the left bound it
/// then lowers is backed by every key-block between it and the walk's right
/// anchor.
pub proof fn lemma_backward_writes_fetched_suffix(w: BackwardWalk)
    requires
        w.wf(),
        w.phase == BackwardPhase::Storing,
    ensures
        w.stored@ == w.written_down_to(w.pending - 1),
        w.stored@.last() == w.keys()[w.pending - 1].0,
        forall|i: int, j: int| 0 <= i < j < w.stored@.len() ==> w.stored@[i] > w.stored@[j],
        forall|i: int|
            0 <= i < w.stored@.len() ==> w.query.first@ <= #[trigger] w.stored@[i] < w.end,
{
    assert(ascending(w.keys()));
    assert forall|i: int|
        0 <= i < w.stored@.len() implies w.query.first@ <= #[trigger] w.stored@[i] < w.end by {
        assert(w.stored@[i] == w.query.blocks@[w.keys().len() - 1 - i].0);
    }
}

/// Where the next page of a key-block query starts after these rows.
pub open spec fn row_end(rows: Seq<ProofRow>) -> u64 {
    (crate::query::row_seq(rows.last()) + 1) as u64
}

} // verus!

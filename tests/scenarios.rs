use std::collections::HashMap;

use ton_proofs::anchor::TrustedMcBlockId;
use ton_proofs::engine::ProofHelperEngineImpl;
use ton_proofs::error::ProofError;
use ton_proofs::keys::NetworkUid;
use ton_proofs::metadata::{read_metadata_value_u32, update_metadata_value_u32};
use ton_proofs::query::ProofRow;
use ton_proofs::resolver::{KeyBlockProofLoad, ZerostateLoad};
use ton_proofs::walk::{LinkFacts, WalkEvent, WalkStep};

const PREFIX: &str = "abcdef01/00112233/";

/// A synthetic network: a store, a server holding a chain of key-blocks, and
/// an oracle that accepts every proof but the one it is told to reject.
struct World {
    store: HashMap<String, Vec<u8>>,
    key_blocks: Vec<u32>,
    page: usize,
    reject: Option<u32>,
    server_queries: usize,
    writes: Vec<String>,
}

fn proof_of(seq_no: u32) -> Vec<u8> {
    format!("proof {}", seq_no).into_bytes()
}

fn seq_of(boc: &[u8]) -> u32 {
    String::from_utf8(boc.to_vec()).unwrap()[6..].parse().unwrap()
}

fn root_hash_of(seq_no: u32) -> Vec<u8> {
    if seq_no == 1000 {
        vec![0xab; 32]
    } else {
        let mut h = vec![0; 32];
        h[..4].copy_from_slice(&seq_no.to_le_bytes());
        h
    }
}

fn row(seq_no: u32) -> ProofRow {
    ProofRow { seq_no: Some(seq_no as u64), proof_boc: Some(base64::encode(proof_of(seq_no))) }
}

fn engine() -> ProofHelperEngineImpl {
    ProofHelperEngineImpl::new(
        NetworkUid {
            zerostate_root_hash: "abcdef01".repeat(8),
            first_master_block_root_hash: "00112233".repeat(8),
        },
        TrustedMcBlockId { seq_no: 1000, root_hash: "ab".repeat(32) },
    )
}

impl World {
    fn new(key_blocks: Vec<u32>) -> World {
        World {
            store: HashMap::new(),
            key_blocks,
            page: 2,
            reject: None,
            server_queries: 0,
            writes: Vec::new(),
        }
    }

    fn bound(&self, key: &str) -> Option<u32> {
        read_metadata_value_u32(self.store.get(&format!("{}{}", PREFIX, key)).cloned())
    }

    fn has_proof(&self, seq_no: u32) -> bool {
        self.store.contains_key(&format!("{}proof_mc_{}", PREFIX, seq_no))
    }

    fn prev_key_block(&self, seq_no: u32) -> u32 {
        *self.key_blocks.iter().filter(|k| **k < seq_no).last().unwrap_or(&0)
    }

    /// Performs a step and returns the event that answers it.
    fn perform(&mut self, step: WalkStep) -> Result<WalkEvent, Result<(u32, Vec<u8>), ProofError>> {
        Ok(match step {
            WalkStep::FetchKeyBlocks { start, end } => {
                self.server_queries += 1;
                let rows = self
                    .key_blocks
                    .iter()
                    .filter(|k| (**k as u64) >= start && (**k as u64) < end)
                    .take(self.page)
                    .map(|k| row(*k))
                    .collect();
                WalkEvent::Rows(rows)
            },
            WalkStep::FetchBlocks { seq_nos } => {
                self.server_queries += 1;
                WalkEvent::Rows(seq_nos.iter().take(self.page).map(|s| row(*s)).collect())
            },
            WalkStep::FetchProof { seq_no } => {
                self.server_queries += 1;
                WalkEvent::Rows(vec![row(seq_no)])
            },
            WalkStep::FetchZerostate => {
                self.server_queries += 1;
                WalkEvent::ZerostateRows(vec![Some(base64::encode(b"zerostate"))])
            },
            WalkStep::Hash { boc } => {
                assert_eq!(boc, b"zerostate".to_vec());
                WalkEvent::BocHash("abcdef01".repeat(8))
            },
            WalkStep::Load { key } => WalkEvent::Loaded(self.store.get(&key).cloned()),
            WalkStep::Inspect { boc } => {
                let seq_no = seq_of(&boc);
                WalkEvent::ProofId { seq_no, root_hash: root_hash_of(seq_no) }
            },
            WalkStep::Verify { seq_no, boc } => {
                assert_eq!(seq_of(&boc), seq_no);
                // the proof before it must already be held
                let prev = self.prev_key_block(seq_no);
                assert!(prev == 0 || prev < 1000 || self.has_proof(prev) || seq_no <= 1000);
                WalkEvent::Verdict(self.reject != Some(seq_no))
            },
            WalkStep::CheckLink { key_seq_no, key_boc, next_boc, right_boc } => {
                assert_eq!(seq_of(&key_boc), key_seq_no);
                assert_eq!(seq_of(&next_boc), key_seq_no + 1);
                assert!(seq_of(&right_boc) > key_seq_no);
                WalkEvent::Link(LinkFacts {
                    prev_key_block_seqno: key_seq_no,
                    next_accepted: true,
                    prev_root_hash: Some(root_hash_of(key_seq_no)),
                    key_root_hash: root_hash_of(key_seq_no),
                    right_accepted: self.reject != Some(key_seq_no),
                })
            },
            WalkStep::Write { key, value } => {
                self.writes.push(key.clone());
                self.store.insert(key, value);
                WalkEvent::Stored
            },
            WalkStep::Store { proof_key, boc, bound_key, seq_no, merge } => {
                self.writes.push(proof_key.clone());
                self.store.insert(proof_key, boc);
                let raw = self.store.get(&bound_key).cloned();
                self.writes.push(bound_key.clone());
                self.store.insert(bound_key, update_metadata_value_u32(raw, seq_no, merge));
                WalkEvent::Stored
            },
            WalkStep::Done { seq_no, boc } => return Err(Ok((seq_no, boc))),
            WalkStep::Failed(e) => return Err(Err(e)),
        })
    }

    fn load_key_block_proof(&mut self, mc_seq_no: u32) -> Result<(u32, Vec<u8>), ProofError> {
        let engine = engine();
        let (mut load, mut step) = KeyBlockProofLoad::new(&engine, mc_seq_no);
        loop {
            match self.perform(step) {
                Ok(event) => step = load.step(&engine, event),
                Err(r) => return r,
            }
        }
    }

    fn load_zerostate(&mut self) -> Result<(u32, Vec<u8>), ProofError> {
        let engine = engine();
        let (mut load, mut step) = ZerostateLoad::new(&engine);
        loop {
            match self.perform(step) {
                Ok(event) => step = load.step(&engine, event),
                Err(r) => return r,
            }
        }
    }

    fn proof_writes(&self) -> Vec<u32> {
        self.writes
            .iter()
            .filter_map(|k| k.strip_prefix(&format!("{}proof_mc_", PREFIX)).map(|s| s.parse().unwrap()))
            .collect()
    }
}

fn chain() -> Vec<u32> {
    vec![100, 200, 300, 400, 700, 850, 1000, 1100, 1200, 1300, 1400, 1500, 1550, 1650]
}

#[test]
fn trusted_key_block_is_downloaded_once() {
    let mut w = World::new(chain());
    let first = w.load_key_block_proof(1000).unwrap();
    assert_eq!(first, (1000, proof_of(1000)));
    assert!(w.has_proof(1000));
    assert_eq!(w.proof_writes(), vec![1000]);
    assert_eq!(w.bound("zs_right_boundary_seq_no"), None);
    assert_eq!(w.bound("trusted_1000_left_boundary_seq_no"), None);
    assert_eq!(w.bound("trusted_1000_right_boundary_seq_no"), None);
    assert_eq!(w.server_queries, 1);
    let second = w.load_key_block_proof(1000).unwrap();
    assert_eq!(second, first);
    assert_eq!(w.server_queries, 1);
}

#[test]
fn forward_from_trusted_right_bound() {
    let mut w = World::new(chain());
    let r = w.load_key_block_proof(1500).unwrap();
    assert_eq!(r, (1500, proof_of(1500)));
    for k in [1000, 1100, 1200, 1300, 1400, 1500] {
        assert!(w.has_proof(k));
    }
    assert!(!w.has_proof(1550));
    assert!(w.bound("trusted_1000_right_boundary_seq_no").unwrap() >= 1500);
    // the trusted proof first, then the walk in ascending order
    assert_eq!(w.proof_writes(), vec![1000, 1000, 1100, 1200, 1300, 1400, 1500]);
}

#[test]
fn request_between_key_blocks_ends_on_last_key_block_below() {
    let mut w = World::new(chain());
    w.load_key_block_proof(1500).unwrap();
    let r = w.load_key_block_proof(1600).unwrap();
    // the walk covers [1500, 1601): its last key-block is 1550
    assert_eq!(r, (1550, proof_of(1550)));
    assert_eq!(w.bound("trusted_1000_right_boundary_seq_no"), Some(1550));
    assert!(!w.has_proof(1650));
}

#[test]
fn forward_from_zerostate_when_closer() {
    let mut w = World::new(chain());
    let r = w.load_key_block_proof(400).unwrap();
    assert_eq!(r, (400, proof_of(400)));
    assert_eq!(w.bound("zs_right_boundary_seq_no"), Some(400));
    assert_eq!(w.proof_writes(), vec![1000, 100, 200, 300, 400]);
    assert_eq!(w.bound("trusted_1000_left_boundary_seq_no"), None);
}

#[test]
fn backward_from_trusted_left_bound() {
    let mut w = World::new(chain());
    let r = w.load_key_block_proof(700).unwrap();
    assert_eq!(r, (700, proof_of(700)));
    // descending from the trusted key-block
    assert_eq!(w.proof_writes(), vec![1000, 850, 700]);
    assert_eq!(w.bound("trusted_1000_left_boundary_seq_no"), Some(700));
    assert_eq!(w.bound("zs_right_boundary_seq_no"), None);
}

#[test]
fn rejected_proof_stops_forward_walk() {
    let mut w = World::new(vec![1000, 1100, 1200, 1300, 1400]);
    w.reject = Some(1200);
    let r = w.load_key_block_proof(1450);
    assert_eq!(r, Err(ProofError::OracleRejected));
    assert_eq!(w.proof_writes(), vec![1000, 1000, 1100]);
    assert!(!w.has_proof(1200));
    assert!(!w.has_proof(1300));
    assert_eq!(w.bound("trusted_1000_right_boundary_seq_no"), Some(1100));
}

#[test]
fn rejected_link_stops_backward_walk() {
    let mut w = World::new(chain());
    w.reject = Some(700);
    assert_eq!(w.load_key_block_proof(700), Err(ProofError::OracleRejected));
    assert_eq!(w.proof_writes(), vec![1000, 850]);
    assert_eq!(w.bound("trusted_1000_left_boundary_seq_no"), Some(850));
}

#[test]
fn cached_request_makes_no_query() {
    let mut w = World::new(chain());
    let first = w.load_key_block_proof(1300).unwrap();
    let queries = w.server_queries;
    let writes = w.writes.len();
    let second = w.load_key_block_proof(1300).unwrap();
    assert_eq!(first, second);
    assert_eq!(w.server_queries, queries);
    assert_eq!(w.writes.len(), writes);
}

#[test]
fn bounds_never_move_backwards() {
    let mut w = World::new(chain());
    w.load_key_block_proof(1500).unwrap();
    w.load_key_block_proof(1300).unwrap();
    assert_eq!(w.bound("trusted_1000_right_boundary_seq_no"), Some(1500));
    w.load_key_block_proof(700).unwrap();
    w.load_key_block_proof(850).unwrap();
    assert_eq!(w.bound("trusted_1000_left_boundary_seq_no"), Some(700));
}

#[test]
fn empty_forward_chain_fails() {
    let mut w = World::new(vec![1000]);
    assert_eq!(w.load_key_block_proof(1200), Ok((1000, proof_of(1000))));
    let mut w = World::new(vec![]);
    w.store.insert(format!("{}proof_mc_1000", PREFIX), proof_of(1000));
    assert_eq!(w.load_key_block_proof(1200), Err(ProofError::EmptyChain));
}

#[test]
fn anchor_mismatch_is_not_stored() {
    let mut w = World::new(chain());
    let engine = ProofHelperEngineImpl::new(
        NetworkUid {
            zerostate_root_hash: "abcdef01".repeat(8),
            first_master_block_root_hash: "00112233".repeat(8),
        },
        TrustedMcBlockId { seq_no: 1000, root_hash: "cd".repeat(32) },
    );
    let (mut load, mut step) = KeyBlockProofLoad::new(&engine, 1000);
    let r = loop {
        match w.perform(step) {
            Ok(event) => step = load.step(&engine, event),
            Err(r) => break r,
        }
    };
    assert_eq!(r, Err(ProofError::AnchorMismatch));
    assert!(!w.has_proof(1000));
}

#[test]
fn zerostate_is_downloaded_then_cached() {
    let mut w = World::new(chain());
    assert_eq!(w.load_zerostate(), Ok((0, b"zerostate".to_vec())));
    assert_eq!(w.server_queries, 1);
    assert_eq!(w.load_zerostate(), Ok((0, b"zerostate".to_vec())));
    assert_eq!(w.server_queries, 1);
    assert!(w.store.contains_key(&format!("{}zerostate", PREFIX)));
}

use ton_proofs::anchor::{
    check_trusted_proof_id, check_zerostate_hash, parse_root_hash, resolve_trusted_key_block,
    TrustedMcBlockId,
};
use ton_proofs::engine::{choose_strategy, Chain, ProofHelperEngineImpl, Strategy};
use ton_proofs::error::ProofError;
use ton_proofs::keys::{
    decimal_string, gen_root_hash_prefix, gen_storage_key, gen_trusted_block_left_bound_key,
    gen_trusted_block_right_bound_key, make_mc_proof_key, NetworkUid,
};
use ton_proofs::metadata::{
    read_metadata_value_u32, read_trusted_block_bound, read_zs_right_bound,
    update_metadata_value_u32, write_metadata_value_u32, Merge,
};
use ton_proofs::query::{
    decode_boc, parse_proof_rows, parse_zerostate_rows, require_mc_proof, BlockBatchQuery,
    KeyBlockQuery, ProofRow,
};
use ton_proofs::walk::{check_link, LinkFacts};

fn uid() -> NetworkUid {
    NetworkUid {
        zerostate_root_hash: "abcdef0123456789abcdef0123456789abcdef0123456789abcdef0123456789"
            .to_string(),
        first_master_block_root_hash:
            "00112233445566778899aabbccddeeff00112233445566778899aabbccddeeff".to_string(),
    }
}

fn row(seq_no: u64, boc: &[u8]) -> ProofRow {
    ProofRow { seq_no: Some(seq_no), proof_boc: Some(base64::encode(boc)) }
}

#[test]
fn decimal_notation() {
    assert_eq!(decimal_string(0), "0");
    assert_eq!(decimal_string(7), "7");
    assert_eq!(decimal_string(1000), "1000");
    assert_eq!(decimal_string(u32::MAX), "4294967295");
}

#[test]
fn root_hash_prefix() {
    assert_eq!(gen_root_hash_prefix("abcdef0123456789"), "abcdef01");
    assert_eq!(gen_root_hash_prefix("abc"), "abc");
    assert_eq!(gen_root_hash_prefix(""), "");
}

#[test]
fn storage_keys() {
    let u = uid();
    assert_eq!(gen_storage_key(&u, "zerostate"), "abcdef01/00112233/zerostate");
    assert_eq!(make_mc_proof_key(1500), "proof_mc_1500");
    assert_eq!(gen_trusted_block_left_bound_key(1000), "trusted_1000_left_boundary_seq_no");
    assert_eq!(gen_trusted_block_right_bound_key(42), "trusted_42_right_boundary_seq_no");
}

#[test]
fn engine_keys() {
    let engine = ProofHelperEngineImpl::new(
        uid(),
        TrustedMcBlockId { seq_no: 1000, root_hash: "ab".repeat(32) },
    );
    assert_eq!(engine.storage_key("proof_mc_7"), "abcdef01/00112233/proof_mc_7");
    assert_eq!(
        engine.trusted_left_bound_key(),
        "abcdef01/00112233/trusted_1000_left_boundary_seq_no"
    );
    assert_eq!(
        engine.trusted_right_bound_key(),
        "abcdef01/00112233/trusted_1000_right_boundary_seq_no"
    );
}

#[test]
fn metadata_little_endian() {
    assert_eq!(write_metadata_value_u32(0x01020304), vec![4, 3, 2, 1]);
    assert_eq!(read_metadata_value_u32(Some(vec![4, 3, 2, 1])), Some(0x01020304));
    assert_eq!(read_metadata_value_u32(Some(vec![0xff, 0xff, 0xff, 0xff])), Some(u32::MAX));
}

#[test]
fn metadata_round_trip() {
    for v in [0u32, 1, 255, 256, 1000, 0xdead_beef, u32::MAX] {
        assert_eq!(read_metadata_value_u32(Some(write_metadata_value_u32(v))), Some(v));
    }
}

#[test]
fn metadata_of_wrong_length_is_absent() {
    assert_eq!(read_metadata_value_u32(None), None);
    assert_eq!(read_metadata_value_u32(Some(vec![1, 2, 3])), None);
    assert_eq!(read_metadata_value_u32(Some(vec![1, 2, 3, 4, 5])), None);
    assert_eq!(read_zs_right_bound(Some(vec![1, 2])), 0);
    assert_eq!(read_trusted_block_bound(Some(vec![]), 1000), 1000);
    assert_eq!(read_trusted_block_bound(Some(vec![0xd0, 0x07, 0, 0]), 1000), 2000);
}

#[test]
fn metadata_update_merges() {
    let stored = Some(write_metadata_value_u32(1500));
    assert_eq!(update_metadata_value_u32(stored.clone(), 1200, Merge::Max), vec![0xdc, 0x05, 0, 0]);
    assert_eq!(update_metadata_value_u32(stored.clone(), 1600, Merge::Max), write_metadata_value_u32(1600));
    assert_eq!(update_metadata_value_u32(stored.clone(), 1200, Merge::Min), write_metadata_value_u32(1200));
    assert_eq!(update_metadata_value_u32(stored, 1600, Merge::Min), write_metadata_value_u32(1500));
    assert_eq!(update_metadata_value_u32(None, 7, Merge::Min), write_metadata_value_u32(7));
    assert_eq!(update_metadata_value_u32(Some(vec![9]), 7, Merge::Max), write_metadata_value_u32(7));
}

#[test]
fn metadata_update_is_monotone() {
    for prev in [0u32, 10, 1000, u32::MAX] {
        for v in [0u32, 5, 1000, 2000, u32::MAX] {
            let raw = Some(write_metadata_value_u32(prev));
            let up = read_metadata_value_u32(Some(update_metadata_value_u32(raw.clone(), v, Merge::Max))).unwrap();
            let down = read_metadata_value_u32(Some(update_metadata_value_u32(raw, v, Merge::Min))).unwrap();
            assert!(up >= prev && up >= v);
            assert!(down <= prev && down <= v);
        }
    }
}

#[test]
fn strategy_table() {
    // the request is the trusted key-block
    assert_eq!(choose_strategy(1000, 0, 1000, 1000, 1000), Strategy::Anchor);
    // beyond the trusted chain
    assert_eq!(
        choose_strategy(1500, 0, 1000, 1000, 1000),
        Strategy::Forward { start: 1000, end: 1501, chain: Chain::Trusted }
    );
    // closer to the zerostate: 400 < 0 + (1000 - 0) / 2
    assert_eq!(
        choose_strategy(400, 0, 1000, 1000, 1000),
        Strategy::Forward { start: 1, end: 401, chain: Chain::Zerostate }
    );
    // between the middle and the trusted chain
    assert_eq!(choose_strategy(700, 0, 1000, 1000, 1000), Strategy::Backward { start: 700, end: 1000 });
    assert_eq!(choose_strategy(500, 0, 1000, 1000, 1000), Strategy::Backward { start: 500, end: 1000 });
    // repair inside the zerostate chain
    assert_eq!(
        choose_strategy(300, 300, 300, 2000, 1000),
        Strategy::Forward { start: 1, end: 301, chain: Chain::Zerostate }
    );
    // repair left of the trusted key-block
    assert_eq!(choose_strategy(900, 100, 800, 2000, 1000), Strategy::Backward { start: 900, end: 1000 });
    // repair right of the trusted key-block
    assert_eq!(
        choose_strategy(1200, 100, 800, 2000, 1000),
        Strategy::Forward { start: 1001, end: 1201, chain: Chain::Trusted }
    );
    // the largest seq_no
    assert_eq!(
        choose_strategy(u32::MAX, 0, 1000, 1000, 1000),
        Strategy::Forward { start: 1000, end: 1 << 32, chain: Chain::Trusted }
    );
}

#[test]
fn strategy_when_chains_meet() {
    // where the zerostate chain reaches the trusted chain the middle is the
    // zerostate chain's end, and a request below it asks for an empty range
    assert_eq!(choose_strategy(999, 1000, 1000, 1000, 1000), Strategy::Forward { start: 1001, end: 1000, chain: Chain::Zerostate });
    assert_eq!(choose_strategy(500, 500, 500, 1000, 1000), Strategy::Forward { start: 1, end: 501, chain: Chain::Zerostate });
}

#[test]
fn base64_fields_are_decoded() {
    assert_eq!(decode_boc("aGVsbG8="), Ok(b"hello".to_vec()));
    assert_eq!(decode_boc(""), Ok(vec![]));
    assert_eq!(decode_boc("not base64!"), Err(ProofError::Decode));
}

#[test]
fn zerostate_rows() {
    assert_eq!(parse_zerostate_rows(&vec![]), Err(ProofError::ZerostateMissing));
    assert_eq!(parse_zerostate_rows(&vec![None]), Err(ProofError::Decode));
    assert_eq!(parse_zerostate_rows(&vec![Some("AQID".to_string())]), Ok(vec![1, 2, 3]));
}

#[test]
fn proof_rows() {
    assert_eq!(parse_proof_rows(&vec![]), Ok(None));
    assert_eq!(
        parse_proof_rows(&vec![ProofRow { seq_no: None, proof_boc: None }]),
        Err(ProofError::Decode)
    );
    assert_eq!(parse_proof_rows(&vec![row(5, &[7, 8])]), Ok(Some(vec![7, 8])));
    assert_eq!(require_mc_proof(None, 12), Err(ProofError::ProofMissing(12)));
    assert_eq!(require_mc_proof(Some(vec![1]), 12), Ok(vec![1]));
}

#[test]
fn key_block_paging() {
    let mut q = KeyBlockQuery::new(100, 200);
    assert_eq!(q.next_range(), Some((100, 200)));
    assert_eq!(q.add_page(&vec![row(110, b"a"), row(150, b"b")]), Ok(()));
    assert_eq!(q.next_range(), Some((151, 200)));
    assert_eq!(q.add_page(&vec![row(199, b"c")]), Ok(()));
    // the range is exhausted
    assert_eq!(q.next_range(), None);
    assert_eq!(
        q.blocks,
        vec![(110, b"a".to_vec()), (150, b"b".to_vec()), (199, b"c".to_vec())]
    );
}

#[test]
fn key_block_paging_ends_on_empty_page() {
    let mut q = KeyBlockQuery::new(100, 200);
    assert_eq!(q.add_page(&vec![row(120, b"a")]), Ok(()));
    assert_eq!(q.add_page(&vec![]), Ok(()));
    assert_eq!(q.next_range(), None);
    assert_eq!(q.blocks.len(), 1);
}

#[test]
fn key_block_paging_rejects_bad_rows() {
    let mut q = KeyBlockQuery::new(100, 200);
    assert_eq!(q.add_page(&vec![row(200, b"a")]), Err(ProofError::ProtocolViolation));
    let mut q = KeyBlockQuery::new(100, 200);
    assert_eq!(q.add_page(&vec![row(150, b"a"), row(120, b"b")]), Err(ProofError::ProtocolViolation));
    let mut q = KeyBlockQuery::new(100, 200);
    assert_eq!(q.add_page(&vec![ProofRow { seq_no: None, proof_boc: None }]), Err(ProofError::Decode));
    let mut q = KeyBlockQuery::new(100, 200);
    assert_eq!(
        q.add_page(&vec![ProofRow { seq_no: Some(150), proof_boc: Some("%%".to_string()) }]),
        Err(ProofError::Decode)
    );
}

#[test]
fn block_batches() {
    let mut q = BlockBatchQuery::new(vec![11, 21, 31]);
    assert_eq!(q.remaining(), vec![11, 21, 31]);
    assert_eq!(q.add_batch(&vec![row(11, b"x"), row(21, b"y")]), Ok(()));
    assert_eq!(q.remaining(), vec![31]);
    assert_eq!(q.add_batch(&vec![row(31, b"z")]), Ok(()));
    assert_eq!(q.remaining(), Vec::<u32>::new());
    assert_eq!(q.blocks, vec![(11, b"x".to_vec()), (21, b"y".to_vec()), (31, b"z".to_vec())]);
}

#[test]
fn block_batch_errors() {
    let mut q = BlockBatchQuery::new(vec![11]);
    assert_eq!(q.add_batch(&vec![row(11, b"x"), row(12, b"y")]), Err(ProofError::ProtocolViolation));
    let mut q = BlockBatchQuery::new(vec![11, 21]);
    assert_eq!(q.add_batch(&vec![row(11, b"x"), row(22, b"y")]), Err(ProofError::MissingBlock(21)));
    let mut q = BlockBatchQuery::new(vec![11, 21]);
    assert_eq!(q.add_batch(&vec![]), Err(ProofError::MissingBlock(11)));
}

#[test]
fn root_hash_parsing() {
    let h = parse_root_hash(&"aB".repeat(32)).unwrap();
    assert_eq!(h, vec![0xab; 32]);
    assert_eq!(parse_root_hash("abcd"), Err(ProofError::Decode));
    assert_eq!(parse_root_hash(&"zz".repeat(32)), Err(ProofError::Decode));
}

#[test]
fn trusted_proof_id_checks() {
    let t = TrustedMcBlockId { seq_no: 1000, root_hash: "01".repeat(32) };
    assert_eq!(check_trusted_proof_id(&t, 1000, &vec![1; 32]), Ok(()));
    assert_eq!(check_trusted_proof_id(&t, 1001, &vec![1; 32]), Err(ProofError::AnchorMismatch));
    assert_eq!(check_trusted_proof_id(&t, 1000, &vec![2; 32]), Err(ProofError::AnchorMismatch));
    let bad = TrustedMcBlockId { seq_no: 1000, root_hash: "xyz".to_string() };
    assert_eq!(check_trusted_proof_id(&bad, 1000, &vec![1; 32]), Err(ProofError::Decode));
}

#[test]
fn zerostate_hash_check() {
    let u = uid();
    assert_eq!(check_zerostate_hash(&u, &u.zerostate_root_hash.clone()), Ok(()));
    assert_eq!(check_zerostate_hash(&u, &"00".repeat(32)), Err(ProofError::HashMismatch));
}

#[test]
fn pinned_key_block_lookup() {
    let pins = vec![
        ("ff".repeat(32), TrustedMcBlockId { seq_no: 1, root_hash: "00".repeat(32) }),
        (uid().zerostate_root_hash, TrustedMcBlockId { seq_no: 1000, root_hash: "ab".repeat(32) }),
    ];
    assert_eq!(resolve_trusted_key_block(&pins, &uid()).unwrap().seq_no, 1000);
    assert_eq!(resolve_trusted_key_block(&pins[..1].to_vec(), &uid()).err(), Some(ProofError::UnknownNetwork));
}

fn facts(prev: u32) -> LinkFacts {
    LinkFacts {
        prev_key_block_seqno: prev,
        next_accepted: true,
        prev_root_hash: Some(vec![1, 2]),
        key_root_hash: vec![1, 2],
        right_accepted: true,
    }
}

#[test]
fn link_checks() {
    assert_eq!(check_link(800, &facts(800)), Ok(()));
    assert_eq!(check_link(800, &facts(799)), Err(ProofError::LinkMismatch));
    let mut f = facts(800);
    f.next_accepted = false;
    assert_eq!(check_link(800, &f), Err(ProofError::OracleRejected));
    let mut f = facts(800);
    f.prev_root_hash = None;
    assert_eq!(check_link(800, &f), Err(ProofError::UnexpectedMerge));
    let mut f = facts(800);
    f.prev_root_hash = Some(vec![9]);
    assert_eq!(check_link(800, &f), Err(ProofError::ChainBroken));
    let mut f = facts(800);
    f.right_accepted = false;
    assert_eq!(check_link(800, &f), Err(ProofError::OracleRejected));
}

use ton_proofs::walk::{BackwardWalk, ForwardWalk, WalkEvent, WalkStep};

fn engine() -> ProofHelperEngineImpl {
    ProofHelperEngineImpl::new(uid(), TrustedMcBlockId { seq_no: 1000, root_hash: "ab".repeat(32) })
}

fn failure(step: WalkStep) -> Option<ProofError> {
    match step {
        WalkStep::Failed(e) => Some(e),
        _ => None,
    }
}

#[test]
fn empty_ranges_fail() {
    let (_, step) = ForwardWalk::new(10, 10, Chain::Zerostate);
    assert_eq!(failure(step), Some(ProofError::EmptyRange));
    let (_, step) = ForwardWalk::new(11, 10, Chain::Trusted);
    assert_eq!(failure(step), Some(ProofError::EmptyRange));
    let (_, step) = BackwardWalk::new(1000, 1000);
    assert_eq!(failure(step), Some(ProofError::EmptyRange));
}

#[test]
fn backward_walk_needs_right_anchor() {
    let e = engine();
    let (mut w, step) = BackwardWalk::new(700, 1000);
    assert!(matches!(step, WalkStep::FetchKeyBlocks { start: 700, end: 1000 }));
    let step = w.step(&e, WalkEvent::Rows(vec![]));
    match step {
        WalkStep::Load { key } => assert_eq!(key, "abcdef01/00112233/proof_mc_1000"),
        _ => panic!("expected a load of the right anchor"),
    }
    assert_eq!(failure(w.step(&e, WalkEvent::Loaded(None))), Some(ProofError::MissingRightAnchor));
}

#[test]
fn backward_walk_without_key_blocks_returns_right_anchor() {
    let e = engine();
    let (mut w, _) = BackwardWalk::new(700, 1000);
    w.step(&e, WalkEvent::Rows(vec![]));
    match w.step(&e, WalkEvent::Loaded(Some(vec![5, 6]))) {
        WalkStep::Done { seq_no, boc } => {
            assert_eq!(seq_no, 1000);
            assert_eq!(boc, vec![5, 6]);
        },
        _ => panic!("expected the right anchor"),
    }
}

#[test]
fn forward_walk_writes_after_acceptance() {
    let e = engine();
    let (mut w, _) = ForwardWalk::new(1, 401, Chain::Zerostate);
    let step = w.step(&e, WalkEvent::Rows(vec![row(100, b"p100"), row(400, b"p400")]));
    assert!(matches!(step, WalkStep::FetchKeyBlocks { start: 401, end: 401 }) || matches!(step, WalkStep::Verify { seq_no: 100, .. }));
    match w.step(&e, WalkEvent::Verdict(true)) {
        WalkStep::Store { proof_key, boc, bound_key, seq_no, merge } => {
            assert_eq!(proof_key, "abcdef01/00112233/proof_mc_100");
            assert_eq!(boc, b"p100".to_vec());
            assert_eq!(bound_key, "abcdef01/00112233/zs_right_boundary_seq_no");
            assert_eq!(seq_no, 100);
            assert_eq!(merge, Merge::Max);
        },
        _ => panic!("expected a write"),
    }
    assert!(matches!(w.step(&e, WalkEvent::Stored), WalkStep::Verify { seq_no: 400, .. }));
}

#[test]
fn unexpected_event_fails_walk() {
    let e = engine();
    let (mut w, _) = ForwardWalk::new(1, 401, Chain::Zerostate);
    assert_eq!(failure(w.step(&e, WalkEvent::Stored)), Some(ProofError::Internal));
    assert_eq!(failure(w.step(&e, WalkEvent::Rows(vec![]))), Some(ProofError::Internal));
}

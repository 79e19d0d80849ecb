//! Reading the rows that the remote collection query returns: the zerostate,
//! single proofs, the paged range of key-block proofs and the batched proofs
//! of given seq_nos.

use vstd::prelude::*;
use crate::error::ProofError;

verus! {

/// What `s` decodes to as standard base64 (padding optional), or `None` where it is not
/// valid base64.
pub uninterp spec fn base64_decoded(s: Seq<char>) -> Option<Seq<u8>>;

/// Relies on `base64::decode` (standard alphabet, padding optional): the bytes that `s`
/// encodes, or an error where it is not valid base64.
#[verifier::external_body]
fn decode_base64(s: &str) -> (r: Option<Vec<u8>>)
    ensures
        r.deep_view() == base64_decoded(s@),
{
    base64::decode(s).ok()
}

/// The BOC that a base64 field holds.
pub fn decode_boc(s: &str) -> (r: Result<Vec<u8>, ProofError>)
    ensures
        match r {
            Ok(v) => base64_decoded(s@) == Some(v@),
            Err(e) => base64_decoded(s@) is None && e == ProofError::Decode,
        },
{
    match decode_base64(s) {
        Some(v) => Ok(v),
        None => Err(ProofError::Decode),
    }
}

/// A row of the `blocks` collection: its `seq_no` and its `signatures.proof`
/// field, each absent where the row lacks it or holds another type there.
#[derive(Clone, Debug)]
pub struct ProofRow {
    pub seq_no: Option<u64>,
    pub proof_boc: Option<String>,
}

/// The BOC of a row's proof, where it has one that decodes.
pub open spec fn row_boc(r: ProofRow) -> Option<Seq<u8>> {
    match r.proof_boc {
        Some(p) => base64_decoded(p@),
        None => None,
    }
}

/// The seq_no of a row, taken as valid.
pub open spec fn row_seq(r: ProofRow) -> int {
    r.seq_no->Some_0 as int
}

/// The zerostate BOC from the rows of the `zerostates` query (the `boc` field of
/// each row).
pub fn parse_zerostate_rows(rows: &Vec<Option<String>>) -> (r: Result<Vec<u8>, ProofError>)
    ensures
        rows@.len() == 0 ==> r == Err::<Vec<u8>, ProofError>(ProofError::ZerostateMissing),
        rows@.len() > 0 ==> match rows@[0] {
            None => r == Err::<Vec<u8>, ProofError>(ProofError::Decode),
            Some(s) => match base64_decoded(s@) {
                Some(b) => r matches Ok(v) && v@ == b,
                None => r == Err::<Vec<u8>, ProofError>(ProofError::Decode),
            },
        },
{
    if rows.len() == 0 {
        return Err(ProofError::ZerostateMissing);
    }
    match &rows[0] {
        None => Err(ProofError::Decode),
        Some(s) => decode_boc(s.as_str()),
    }
}

/// The proof BOC from the rows of a single-block query: `None` where no block
/// matched.
pub fn parse_proof_rows(rows: &Vec<ProofRow>) -> (r: Result<Option<Vec<u8>>, ProofError>)
    ensures
        rows@.len() == 0 ==> r matches Ok(None),
        rows@.len() > 0 ==> match row_boc(rows@[0]) {
            Some(b) => r matches Ok(Some(v)) && v@ == b,
            None => r == Err::<Option<Vec<u8>>, ProofError>(ProofError::Decode),
        },
{
    if rows.len() == 0 {
        return Ok(None);
    }
    match &rows[0].proof_boc {
        None => Err(ProofError::Decode),
        Some(s) => match decode_boc(s.as_str()) {
            Ok(v) => Ok(Some(v)),
            Err(e) => Err(e),
        },
    }
}

/// The proof of masterchain block `seq_no`, which the server must hold.
pub fn require_mc_proof(found: Option<Vec<u8>>, seq_no: u32) -> (r: Result<Vec<u8>, ProofError>)
    ensures
        match found {
            Some(b) => r == Ok::<Vec<u8>, ProofError>(b),
            None => r == Err::<Vec<u8>, ProofError>(ProofError::ProofMissing(seq_no)),
        },
{
    match found {
        Some(b) => Ok(b),
        None => Err(ProofError::ProofMissing(seq_no)),
    }
}

/// A page of key-block rows is well formed for the range `[start, end)`: each
/// row has a seq_no inside the range and a proof that decodes, and the seq_nos
/// ascend strictly.
pub open spec fn page_valid(rows: Seq<ProofRow>, start: int, end: int) -> bool {
    forall|i: int|
        0 <= i < rows.len() ==> {
            &&& rows[i].seq_no is Some
            &&& row_boc(rows[i]) is Some
            &&& start <= row_seq(rows[i]) < end
            &&& (i > 0 ==> row_seq(rows[i - 1]) < row_seq(rows[i]))
        }
}

/// The first fault of a page of key-block rows for the range `[start, end)`,
/// row by row: a missing seq_no, then a seq_no outside what is left of the
/// range, then a proof that is missing or does not decode; each row moves the
/// range's start past its seq_no.
pub open spec fn page_fault(rows: Seq<ProofRow>, start: int, end: int) -> Option<ProofError>
    decreases rows.len(),
{
    if rows.len() == 0 {
        None
    } else if rows[0].seq_no is None {
        Some(ProofError::Decode)
    } else if row_seq(rows[0]) < start || row_seq(rows[0]) >= end {
        Some(ProofError::ProtocolViolation)
    } else if row_boc(rows[0]) is None {
        Some(ProofError::Decode)
    } else {
        page_fault(rows.drop_first(), row_seq(rows[0]) + 1, end)
    }
}

/// The `(seq_no, BOC)` pairs of well-formed rows.
pub open spec fn page_blocks(rows: Seq<ProofRow>) -> Seq<(u32, Seq<u8>)> {
    rows.map_values(|r: ProofRow| (row_seq(r) as u32, row_boc(r)->Some_0))
}

/// The seq_nos of a list of `(seq_no, BOC)` pairs ascend strictly.
pub open spec fn ascending(blocks: Seq<(u32, Seq<u8>)>) -> bool {
    forall|i: int, j: int| 0 <= i < j < blocks.len() ==> blocks[i].0 < blocks[j].0
}

/// The paged query of the key-block proofs in a range of masterchain seq_nos.
/// Each page continues after the last seq_no received; an empty page ends it.
pub struct KeyBlockQuery {
    /// Where the next page starts.
    pub start: u64,
    /// The end of the range, exclusive.
    pub end: u64,
    /// The first seq_no of the range.
    pub first: Ghost<u64>,
    /// Whether the server has returned an empty page.
    pub finished: bool,
    /// The proofs received so far, ascending.
    pub blocks: Vec<(u32, Vec<u8>)>,
}

impl KeyBlockQuery {
    pub open spec fn wf(&self) -> bool {
        &&& self.first@ <= self.start <= self.end <= 0x1_0000_0000
        &&& ascending(self.blocks.deep_view())
        &&& forall|i: int|
            0 <= i < self.blocks@.len() ==> self.first@ <= #[trigger] self.blocks@[i].0
                < self.start
    }

    /// A query of the key-blocks in `[start, end)`.
    pub fn new(start: u64, end: u64) -> (r: KeyBlockQuery)
        requires
            start <= end <= 0x1_0000_0000,
        ensures
            r.wf(),
            r.start == start,
            r.end == end,
            r.first@ == start,
            !r.finished,
            r.blocks@.len() == 0,
    {
        KeyBlockQuery { start, end, first: Ghost(start), finished: false, blocks: Vec::new() }
    }

    /// The range of the next page to ask for, or `None` when the query is done.
    pub fn next_range(&self) -> (r: Option<(u64, u64)>)
        ensures
            r == (if self.finished || self.start >= self.end {
                None
            } else {
                Some((self.start, self.end))
            }),
    {
        if self.finished || self.start >= self.end {
            None
        } else {
            Some((self.start, self.end))
        }
    }

    /// Takes in a page that the server returned for `next_range`.
    pub fn add_page(&mut self, rows: &Vec<ProofRow>) -> (r: Result<(), ProofError>)
        requires
            old(self).wf(),
            !old(self).finished,
            old(self).start < old(self).end,
        ensures
            r is Ok <==> page_valid(rows@, old(self).start as int, old(self).end as int),
            r matches Err(e) ==> Some(e) == page_fault(
                rows@,
                old(self).start as int,
                old(self).end as int,
            ),
            r is Ok ==> page_fault(rows@, old(self).start as int, old(self).end as int) is None,
            final(self).wf(),
            final(self).end == old(self).end,
            final(self).first == old(self).first,
            final(self).blocks@.len() >= old(self).blocks@.len(),
            r is Ok ==> {
                &&& final(self).blocks.deep_view() == old(self).blocks.deep_view() + page_blocks(
                    rows@,
                )
                &&& final(self).finished == (rows@.len() == 0)
                &&& rows@.len() == 0 ==> final(self).start == old(self).start
                &&& rows@.len() > 0 ==> final(self).start == row_seq(rows@.last()) + 1
            },
    {
        if rows.len() == 0 {
            self.finished = true;
            return Ok(());
        }
        let ghost old_blocks = self.blocks.deep_view();
        let ghost start0 = self.start as int;
        assert(rows@.subrange(0, rows@.len() as int) =~= rows@);
        let mut i: usize = 0;
        while i < rows.len()
            invariant
                0 <= i <= rows@.len(),
                rows@.len() > 0,
                self.end == old(self).end,
                self.first == old(self).first,
                !self.finished,
                self.first@ <= start0 <= self.start <= self.end <= 0x1_0000_0000,
                start0 == old(self).start,
                old_blocks == old(self).blocks.deep_view(),
                page_valid(rows@.subrange(0, i as int), start0, self.end as int),
                page_fault(rows@, start0, self.end as int) == page_fault(
                    rows@.subrange(i as int, rows@.len() as int),
                    self.start as int,
                    self.end as int,
                ),
                i > 0 ==> self.start == row_seq(rows@[i - 1]) + 1,
                i == 0 ==> self.start == start0,
                self.blocks.deep_view() == old_blocks + page_blocks(rows@.subrange(0, i as int)),
                self.blocks@.len() >= old(self).blocks@.len(),
                ascending(self.blocks.deep_view()),
                forall|k: int|
                    0 <= k < self.blocks@.len() ==> self.first@ <= #[trigger] self.blocks@[k].0
                        < self.start,
            decreases rows@.len() - i,
        {
            let row = &rows[i];
            let ghost rest = rows@.subrange(i as int, rows@.len() as int);
            assert(rest[0] == rows@[i as int]);
            let seq_no = match row.seq_no {
                Some(s) => s,
                None => {
                    return Err(ProofError::Decode);
                },
            };
            if seq_no < self.start || seq_no >= self.end {
                proof {
                    assert(i > 0 ==> row_seq(rows@[i - 1]) + 1 == self.start);
                }
                return Err(ProofError::ProtocolViolation);
            }
            let boc = match &row.proof_boc {
                Some(p) => match decode_base64(p.as_str()) {
                    Some(b) => b,
                    None => {
                        return Err(ProofError::Decode);
                    },
                },
                None => {
                    return Err(ProofError::Decode);
                },
            };
            let ghost prev_blocks = self.blocks.deep_view();
            proof {
                assert(rest.drop_first() =~= rows@.subrange(i + 1, rows@.len() as int));
            }
            self.blocks.push((seq_no as u32, boc));
            self.start = seq_no + 1;
            i = i + 1;
            proof {
                let sub = rows@.subrange(0, i as int);
                assert(boc.deep_view() =~= boc@);
                assert(row_boc(rows@[i - 1]) == Some(boc@));
                assert(sub.subrange(0, i - 1) =~= rows@.subrange(0, i - 1));
                assert(page_valid(sub, start0, self.end as int));
                assert(page_blocks(sub) =~= page_blocks(rows@.subrange(0, i - 1)).push(
                    (seq_no as u32, boc@),
                ));
                assert(self.blocks.deep_view() =~= prev_blocks.push((seq_no as u32, boc@)));
            }
        }
        proof {
            assert(rows@.subrange(0, rows@.len() as int) =~= rows@);
        }
        Ok(())
    }
}

/// A batch of rows answers the seq_nos `wanted`, in order, as far as it goes:
/// it is not empty nor longer than `wanted`, and row `i` is block `wanted[i]`
/// with a proof that decodes.
pub open spec fn batch_valid(rows: Seq<ProofRow>, wanted: Seq<u32>) -> bool {
    &&& 0 < rows.len() <= wanted.len()
    &&& forall|i: int|
        0 <= i < rows.len() ==> {
            &&& rows[i].seq_no == Some(wanted[i] as u64)
            &&& row_boc(rows[i]) is Some
        }
}

/// The first fault of a batch of rows for the seq_nos `wanted`, row by row: a
/// missing seq_no, then a row for another block than the one wanted in its
/// place, then a proof that is missing or does not decode.
pub open spec fn batch_fault(rows: Seq<ProofRow>, wanted: Seq<u32>) -> Option<ProofError>
    decreases rows.len(),
{
    if rows.len() == 0 || wanted.len() == 0 {
        None
    } else if rows[0].seq_no is None {
        Some(ProofError::Decode)
    } else if rows[0].seq_no != Some(wanted[0] as u64) {
        Some(ProofError::MissingBlock(wanted[0]))
    } else if row_boc(rows[0]) is None {
        Some(ProofError::Decode)
    } else {
        batch_fault(rows.drop_first(), wanted.drop_first())
    }
}

/// The batched query of the proofs of given masterchain blocks. The server may
/// answer a request with a prefix of the blocks asked for; the rest is asked
/// for again.
pub struct BlockBatchQuery {
    /// The seq_nos asked for, ascending.
    pub expected: Vec<u32>,
    /// How many of them have been received.
    pub taken: usize,
    /// The proofs received so far, in the order of `expected`.
    pub blocks: Vec<(u32, Vec<u8>)>,
}

impl BlockBatchQuery {
    pub open spec fn wf(&self) -> bool {
        &&& self.taken <= self.expected@.len()
        &&& self.blocks@.len() == self.taken
        &&& forall|i: int| 0 <= i < self.taken ==> #[trigger] self.blocks@[i].0 == self.expected@[i]
    }

    /// The seq_nos not received yet.
    pub open spec fn wanted(&self) -> Seq<u32> {
        self.expected@.subrange(self.taken as int, self.expected@.len() as int)
    }

    /// A query of the proofs of the blocks `expected`.
    pub fn new(expected: Vec<u32>) -> (r: BlockBatchQuery)
        ensures
            r.wf(),
            r.expected@ == expected@,
            r.taken == 0,
    {
        BlockBatchQuery { expected, taken: 0, blocks: Vec::new() }
    }

    /// The seq_nos to ask for next; empty when all have been received.
    pub fn remaining(&self) -> (r: Vec<u32>)
        requires
            self.wf(),
        ensures
            r@ == self.wanted(),
    {
        let mut r: Vec<u32> = Vec::new();
        let mut i: usize = self.taken;
        while i < self.expected.len()
            invariant
                self.taken <= i <= self.expected@.len(),
                r@ == self.expected@.subrange(self.taken as int, i as int),
            decreases self.expected@.len() - i,
        {
            r.push(self.expected[i]);
            i = i + 1;
            assert(r@ =~= self.expected@.subrange(self.taken as int, i as int));
        }
        r
    }

    /// Takes in the rows that the server returned for `remaining`. More rows
    /// than were asked for break the protocol; a row for another block than
    /// the one expected in its place, or no row at all, means that block is
    /// missing on the server.
    pub fn add_batch(&mut self, rows: &Vec<ProofRow>) -> (r: Result<(), ProofError>)
        requires
            old(self).wf(),
            old(self).taken < old(self).expected@.len(),
        ensures
            r is Ok <==> batch_valid(rows@, old(self).wanted()),
            rows@.len() > old(self).wanted().len() ==> r == Err::<(), ProofError>(
                ProofError::ProtocolViolation,
            ),
            rows@.len() == 0 ==> r == Err::<(), ProofError>(
                ProofError::MissingBlock(old(self).wanted()[0]),
            ),
            0 < rows@.len() <= old(self).wanted().len() ==> (r matches Err(e) ==> Some(e)
                == batch_fault(rows@, old(self).wanted())),
            r is Ok ==> batch_fault(rows@, old(self).wanted()) is None,
            r is Ok ==> {
                &&& final(self).wf()
                &&& final(self).expected == old(self).expected
                &&& final(self).taken == old(self).taken + rows@.len()
                &&& final(self).blocks.deep_view() == old(self).blocks.deep_view() + page_blocks(
                    rows@,
                )
            },
    {
        let ghost wanted = old(self).wanted();
        let rem = self.expected.len() - self.taken;
        if rows.len() > rem {
            return Err(ProofError::ProtocolViolation);
        }
        if rows.len() == 0 {
            assert(wanted[0] == self.expected@[self.taken as int]);
            return Err(ProofError::MissingBlock(self.expected[self.taken]));
        }
        let ghost old_blocks = self.blocks.deep_view();
        assert(rows@.subrange(0, rows@.len() as int) =~= rows@);
        assert(wanted.subrange(0, wanted.len() as int) =~= wanted);
        let taken0 = self.taken;
        let n = self.expected.len();
        let mut i: usize = 0;
        while i < rows.len()
            invariant
                0 <= i <= rows@.len() <= wanted.len(),
                rows@.len() > 0,
                taken0 == old(self).taken,
                wanted == old(self).wanted(),
                self.expected == old(self).expected,
                self.taken == taken0 + i,
                taken0 + rows@.len() <= n,
                n == self.expected@.len(),
                self.blocks@.len() == self.taken,
                forall|k: int| 0 <= k < self.taken ==> #[trigger] self.blocks@[k].0 == self.expected@[k],
                old_blocks == old(self).blocks.deep_view(),
                forall|k: int|
                    0 <= k < i ==> {
                        &&& rows@[k].seq_no == Some(wanted[k] as u64)
                        &&& row_boc(rows@[k]) is Some
                    },
                self.blocks.deep_view() == old_blocks + page_blocks(rows@.subrange(0, i as int)),
                batch_fault(rows@, wanted) == batch_fault(
                    rows@.subrange(i as int, rows@.len() as int),
                    wanted.subrange(i as int, wanted.len() as int),
                ),
            decreases rows@.len() - i,
        {
            let want = self.expected[taken0 + i];
            let ghost rest = rows@.subrange(i as int, rows@.len() as int);
            let ghost wrest = wanted.subrange(i as int, wanted.len() as int);
            assert(rest[0] == rows@[i as int]);
            assert(wrest[0] == want);
            let row = &rows[i];
            let seq_no = match row.seq_no {
                Some(s) => s,
                None => {
                    return Err(ProofError::Decode);
                },
            };
            if seq_no != want as u64 {
                assert(wanted[i as int] == want);
                return Err(ProofError::MissingBlock(want));
            }
            let boc = match &row.proof_boc {
                Some(p) => match decode_base64(p.as_str()) {
                    Some(b) => b,
                    None => {
                        return Err(ProofError::Decode);
                    },
                },
                None => {
                    return Err(ProofError::Decode);
                },
            };
            let ghost prev_blocks = self.blocks.deep_view();
            proof {
                assert(rest.drop_first() =~= rows@.subrange(i + 1, rows@.len() as int));
                assert(wrest.drop_first() =~= wanted.subrange(i + 1, wanted.len() as int));
            }
            self.blocks.push((want, boc));
            self.taken = self.taken + 1;
            i = i + 1;
            proof {
                assert(boc.deep_view() =~= boc@);
                assert(row_boc(rows@[i - 1]) == Some(boc@));
                assert(page_blocks(rows@.subrange(0, i as int)) =~= page_blocks(
                    rows@.subrange(0, i - 1),
                ).push((want, boc@)));
                assert(self.blocks.deep_view() =~= prev_blocks.push((want, boc@)));
            }
        }
        proof {
            assert(rows@.subrange(0, rows@.len() as int) =~= rows@);
            assert(rows@.subrange(rows@.len() as int, rows@.len() as int).len() == 0);
        }
        Ok(())
    }
}

} // verus!

//! Bound values kept in storage as four little-endian bytes, and the monotone
//! merge that updates them.

use vstd::prelude::*;

verus! {

/// The value of four little-endian bytes.
pub open spec fn le_u32(b: Seq<u8>) -> int {
    b[0] as int + b[1] as int * 0x100 + b[2] as int * 0x1_0000 + b[3] as int * 0x100_0000
}

/// What a stored metadata value reads as: a number when it holds exactly four
/// bytes, absent otherwise (an entry of another length heals on the next write).
pub open spec fn metadata_of(raw: Option<Seq<u8>>) -> Option<u32> {
    match raw {
        Some(b) => if b.len() == 4 {
            Some(le_u32(b) as u32)
        } else {
            None
        },
        None => None,
    }
}

/// How a new bound value combines with the stored one.
#[derive(Clone, Copy, Debug, PartialEq, Eq, Structural)]
pub enum Merge {
    /// Keep the larger: right bounds only grow.
    Max,
    /// Keep the smaller: left bounds only shrink.
    Min,
}

pub open spec fn merged(m: Merge, prev: u32, value: u32) -> u32 {
    match m {
        Merge::Max => if prev >= value {
            prev
        } else {
            value
        },
        Merge::Min => if prev <= value {
            prev
        } else {
            value
        },
    }
}

/// The value stored by an update with `value`: `value` itself when nothing
/// readable is stored, else its merge with the stored value.
pub open spec fn updated(m: Merge, prev: Option<u32>, value: u32) -> u32 {
    match prev {
        Some(p) => merged(m, p, value),
        None => value,
    }
}

/// Reads a stored metadata value.
pub fn read_metadata_value_u32(raw: Option<Vec<u8>>) -> (r: Option<u32>)
    ensures
        r == metadata_of(raw.deep_view()),
{
    match raw {
        Some(b) => if b.len() == 4 {
            let v: u32 = b[0] as u32 + b[1] as u32 * 0x100 + b[2] as u32 * 0x1_0000 + b[3] as u32
                * 0x100_0000;
            Some(v)
        } else {
            None
        },
        None => None,
    }
}

/// The four little-endian bytes of `value`.
pub fn write_metadata_value_u32(value: u32) -> (r: Vec<u8>)
    ensures
        r@.len() == 4,
        le_u32(r@) == value,
{
    let b0: u8 = (value & 0xff) as u8;
    let b1: u8 = ((value >> 8u32) & 0xff) as u8;
    let b2: u8 = ((value >> 16u32) & 0xff) as u8;
    let b3: u8 = ((value >> 24u32) & 0xff) as u8;
    assert(b0 as int + b1 as int * 0x100 + b2 as int * 0x1_0000 + b3 as int * 0x100_0000
        == value as int) by (bit_vector)
        requires
            b0 == (value & 0xff) as u8,
            b1 == ((value >> 8u32) & 0xff) as u8,
            b2 == ((value >> 16u32) & 0xff) as u8,
            b3 == ((value >> 24u32) & 0xff) as u8,
    ;
    let r = vec![b0, b1, b2, b3];
    r
}

/// The bytes that an update of a stored value with `value` writes.
pub fn update_metadata_value_u32(raw: Option<Vec<u8>>, value: u32, m: Merge) -> (r: Vec<u8>)
    ensures
        metadata_of(Some(r@)) == Some(
            updated(
                m,
                metadata_of(raw.deep_view()),
                value,
            ),
        ),
{
    let v = match read_metadata_value_u32(raw) {
        None => value,
        Some(prev) => match m {
            Merge::Max => if prev >= value {
                prev
            } else {
                value
            },
            Merge::Min => if prev <= value {
                prev
            } else {
                value
            },
        },
    };
    write_metadata_value_u32(v)
}

/// The right bound of the chain grown from the zerostate: 0 until one is stored.
pub fn read_zs_right_bound(raw: Option<Vec<u8>>) -> (r: u32)
    ensures
        r == match metadata_of(raw.deep_view()) {
            Some(v) => v,
            None => 0,
        },
{
    match read_metadata_value_u32(raw) {
        Some(v) => v,
        None => 0,
    }
}

/// A bound of the chain grown from trusted key-block `trusted_seq_no`: the
/// key-block itself until one is stored.
pub fn read_trusted_block_bound(raw: Option<Vec<u8>>, trusted_seq_no: u32) -> (r: u32)
    ensures
        r == match metadata_of(raw.deep_view()) {
            Some(v) => v,
            None => trusted_seq_no,
        },
{
    match read_metadata_value_u32(raw) {
        Some(v) => v,
        None => trusted_seq_no,
    }
}

/// What is written is read back unchanged.
pub proof fn lemma_metadata_round_trip(b: Seq<u8>, value: u32)
    requires
        b.len() == 4,
        le_u32(b) == value,
    ensures
        metadata_of(Some(b)) == Some(value),
{
}

/// An update never moves a stored bound backwards: where a readable value
/// was stored, the value that `update_metadata_value_u32` writes over it is
/// not below it with `Max` and not above it with `Min`, and it is on the same
/// side of the new value.
pub proof fn lemma_update_monotone(m: Merge, stored: Seq<u8>, value: u32, written: Seq<u8>)
    requires
        metadata_of(Some(stored)) is Some,
        metadata_of(Some(written)) == Some(updated(m, metadata_of(Some(stored)), value)),
    ensures
        ({
            let prev = metadata_of(Some(stored))->Some_0;
            let next = metadata_of(Some(written))->Some_0;
            &&& m == Merge::Max ==> next >= prev && next >= value
            &&& m == Merge::Min ==> next <= prev && next <= value
        }),
{
}

} // verus!

//! Names under which the engine stores its data.

use vstd::prelude::*;

verus! {

/// Logical key of the zerostate BOC.
pub const ZEROSTATE_KEY: &'static str = "zerostate";

/// Logical key of the highest masterchain seq_no verified from the zerostate.
pub const ZEROSTATE_RIGHT_BOUND_KEY: &'static str = "zs_right_boundary_seq_no";

/// Identity of a network: the root hashes, in hex, of its zerostate and of its
/// first masterchain block.
#[derive(Clone, Debug)]
pub struct NetworkUid {
    pub zerostate_root_hash: String,
    pub first_master_block_root_hash: String,
}

/// The character of a decimal digit.
pub open spec fn digit_char(d: int) -> char {
    if d == 0 {
        '0'
    } else if d == 1 {
        '1'
    } else if d == 2 {
        '2'
    } else if d == 3 {
        '3'
    } else if d == 4 {
        '4'
    } else if d == 5 {
        '5'
    } else if d == 6 {
        '6'
    } else if d == 7 {
        '7'
    } else if d == 8 {
        '8'
    } else {
        '9'
    }
}

/// Decimal notation of a natural number, without leading zeros.
pub open spec fn decimal(n: nat) -> Seq<char>
    decreases n,
{
    if n < 10 {
        seq![digit_char(n as int)]
    } else {
        decimal(n / 10).push(digit_char((n % 10) as int))
    }
}

/// The first eight characters of a root hash (all of it when shorter).
pub open spec fn prefix_of(h: Seq<char>) -> Seq<char> {
    if h.len() < 8 {
        h
    } else {
        h.subrange(0, 8)
    }
}

/// Storage key of a logical key on a network:
/// `<zerostate prefix>/<first block prefix>/<logical key>`.
pub open spec fn storage_key_of(zs_hash: Seq<char>, fmb_hash: Seq<char>, key: Seq<char>) -> Seq<
    char,
> {
    prefix_of(zs_hash) + seq!['/'] + prefix_of(fmb_hash) + seq!['/'] + key
}

fn digit_str(d: u32) -> (r: &'static str)
    requires
        d < 10,
    ensures
        r@ == seq![digit_char(d as int)],
{
    let r = if d == 0 {
        "0"
    } else if d == 1 {
        "1"
    } else if d == 2 {
        "2"
    } else if d == 3 {
        "3"
    } else if d == 4 {
        "4"
    } else if d == 5 {
        "5"
    } else if d == 6 {
        "6"
    } else if d == 7 {
        "7"
    } else if d == 8 {
        "8"
    } else {
        "9"
    };
    proof {
        reveal_strlit("0");
        reveal_strlit("1");
        reveal_strlit("2");
        reveal_strlit("3");
        reveal_strlit("4");
        reveal_strlit("5");
        reveal_strlit("6");
        reveal_strlit("7");
        reveal_strlit("8");
        reveal_strlit("9");
    }
    assert(r@ =~= seq![digit_char(d as int)]);
    r
}

/// Appends the decimal notation of `n` to `s`.
pub fn append_decimal(s: &mut String, n: u32)
    ensures
        final(s)@ == old(s)@ + decimal(n as nat),
    decreases n,
{
    if n >= 10 {
        append_decimal(s, n / 10);
    }
    s.append(digit_str(n % 10));
    assert(final(s)@ =~= old(s)@ + decimal(n as nat));
}

/// Decimal notation of `n`.
pub fn decimal_string(n: u32) -> (r: String)
    ensures
        r@ == decimal(n as nat),
{
    let mut s = String::new();
    append_decimal(&mut s, n);
    assert(s@ =~= decimal(n as nat));
    s
}

/// Storage key of the left bound of the chain grown from trusted key-block
/// `seq_no`: `trusted_<seq_no>_left_boundary_seq_no`.
pub open spec fn left_bound_key_of(seq_no: u32) -> Seq<char> {
    "trusted_"@ + decimal(seq_no as nat) + "_left_boundary_seq_no"@
}

/// Storage key of the right bound of the chain grown from trusted key-block
/// `seq_no`: `trusted_<seq_no>_right_boundary_seq_no`.
pub open spec fn right_bound_key_of(seq_no: u32) -> Seq<char> {
    "trusted_"@ + decimal(seq_no as nat) + "_right_boundary_seq_no"@
}

/// Storage key of the verified proof of masterchain block `seq_no`:
/// `proof_mc_<seq_no>`.
pub open spec fn mc_proof_key_of(seq_no: u32) -> Seq<char> {
    "proof_mc_"@ + decimal(seq_no as nat)
}

/// The first eight characters of a root hash, which name the network in
/// storage keys.
pub fn gen_root_hash_prefix(root_hash: &str) -> (r: &str)
    ensures
        r@ == prefix_of(root_hash@),
{
    let len = root_hash.unicode_len();
    let end = if len < 8 {
        len
    } else {
        8
    };
    let r = root_hash.substring_char(0, end);
    assert(r@ =~= prefix_of(root_hash@));
    r
}

/// Storage key of the logical key `key` on the network `network_uid`.
pub fn gen_storage_key(network_uid: &NetworkUid, key: &str) -> (r: String)
    ensures
        r@ == storage_key_of(
            network_uid.zerostate_root_hash@,
            network_uid.first_master_block_root_hash@,
            key@,
        ),
{
    let mut r = String::from_str(gen_root_hash_prefix(network_uid.zerostate_root_hash.as_str()));
    r.append("/");
    r.append(gen_root_hash_prefix(network_uid.first_master_block_root_hash.as_str()));
    r.append("/");
    r.append(key);
    proof {
        reveal_strlit("/");
    }
    assert(r@ =~= storage_key_of(
        network_uid.zerostate_root_hash@,
        network_uid.first_master_block_root_hash@,
        key@,
    ));
    r
}

/// Logical key of the left bound of the chain grown from trusted key-block
/// `seq_no`.
pub fn gen_trusted_block_left_bound_key(seq_no: u32) -> (r: String)
    ensures
        r@ == left_bound_key_of(seq_no),
{
    let mut r = String::from_str("trusted_");
    append_decimal(&mut r, seq_no);
    r.append("_left_boundary_seq_no");
    r
}

/// Logical key of the right bound of the chain grown from trusted key-block
/// `seq_no`.
pub fn gen_trusted_block_right_bound_key(seq_no: u32) -> (r: String)
    ensures
        r@ == right_bound_key_of(seq_no),
{
    let mut r = String::from_str("trusted_");
    append_decimal(&mut r, seq_no);
    r.append("_right_boundary_seq_no");
    r
}

/// Logical key of the verified proof of masterchain block `seq_no`.
pub fn make_mc_proof_key(seq_no: u32) -> (r: String)
    ensures
        r@ == mc_proof_key_of(seq_no),
{
    let mut r = String::from_str("proof_mc_");
    append_decimal(&mut r, seq_no);
    r
}

} // verus!

//! The two anchors of trust: the network's zerostate and the pinned trusted
//! key-block.

use vstd::prelude::*;
use crate::error::ProofError;
use crate::keys::NetworkUid;

verus! {

/// A masterchain key-block pinned as trusted: its seq_no and its root hash in hex.
#[derive(Clone, Debug)]
pub struct TrustedMcBlockId {
    pub seq_no: u32,
    pub root_hash: String,
}

/// The value of a hexadecimal digit, either case.
pub open spec fn hex_digit(c: char) -> Option<u8> {
    if '0' <= c && c <= '9' {
        Some((c as u32 - '0' as u32) as u8)
    } else if 'a' <= c && c <= 'f' {
        Some((c as u32 - 'a' as u32 + 10) as u8)
    } else if 'A' <= c && c <= 'F' {
        Some((c as u32 - 'A' as u32 + 10) as u8)
    } else {
        None
    }
}

/// `s` spells a 256-bit hash: 64 hexadecimal digits.
pub open spec fn is_hash_hex(s: Seq<char>) -> bool {
    &&& s.len() == 64
    &&& forall|i: int| 0 <= i < s.len() ==> (#[trigger] hex_digit(s[i])) is Some
}

/// The 32 bytes that 64 hexadecimal digits spell, high digit first.
pub open spec fn hash_bytes(s: Seq<char>) -> Seq<u8> {
    Seq::new(
        32,
        |i: int| (hex_digit(s[2 * i])->Some_0 * 16 + hex_digit(s[2 * i + 1])->Some_0) as u8,
    )
}

fn hex_digit_value(c: char) -> (r: Option<u8>)
    ensures
        r == hex_digit(c),
{
    if '0' <= c && c <= '9' {
        Some((c as u32 - '0' as u32) as u8)
    } else if 'a' <= c && c <= 'f' {
        Some((c as u32 - 'a' as u32 + 10) as u8)
    } else if 'A' <= c && c <= 'F' {
        Some((c as u32 - 'A' as u32 + 10) as u8)
    } else {
        None
    }
}

/// The 32 bytes of a root hash written in hex.
pub fn parse_root_hash(s: &str) -> (r: Result<Vec<u8>, ProofError>)
    ensures
        r is Ok <==> is_hash_hex(s@),
        r matches Ok(v) ==> v@ == hash_bytes(s@),
        r matches Err(e) ==> e == ProofError::Decode,
{
    let len = s.unicode_len();
    if len != 64 {
        return Err(ProofError::Decode);
    }
    let mut out: Vec<u8> = Vec::new();
    let mut i: usize = 0;
    while i < 32
        invariant
            0 <= i <= 32,
            s@.len() == 64,
            out@.len() == i,
            forall|k: int| 0 <= k < 2 * i ==> (#[trigger] hex_digit(s@[k])) is Some,
            forall|k: int| 0 <= k < i ==> #[trigger] out@[k] == hash_bytes(s@)[k],
        decreases 32 - i,
    {
        let hi = match hex_digit_value(s.get_char(2 * i)) {
            Some(d) => d,
            None => {
                return Err(ProofError::Decode);
            },
        };
        let lo = match hex_digit_value(s.get_char(2 * i + 1)) {
            Some(d) => d,
            None => {
                return Err(ProofError::Decode);
            },
        };
        assert(hi < 16 && lo < 16);
        out.push(hi * 16 + lo);
        i = i + 1;
        proof {
            assert forall|k: int| 0 <= k < 2 * i implies (#[trigger] hex_digit(s@[k])) is Some by {
                if k >= 2 * i - 2 {
                    assert(k == 2 * i - 2 || k == 2 * i - 1);
                }
            }
        }
    }
    assert(out@ =~= hash_bytes(s@));
    Ok(out)
}

pub(crate) fn bytes_equal(a: &Vec<u8>, b: &Vec<u8>) -> (r: bool)
    ensures
        r == (a@ == b@),
{
    if a.len() != b.len() {
        return false;
    }
    let mut i: usize = 0;
    while i < a.len()
        invariant
            0 <= i <= a@.len(),
            a@.len() == b@.len(),
            forall|k: int| 0 <= k < i ==> a@[k] == b@[k],
        decreases a@.len() - i,
    {
        if a[i] != b[i] {
            return false;
        }
        i = i + 1;
    }
    assert(a@ =~= b@);
    true
}

/// Checks the id of the downloaded proof of the trusted key-block against its
/// pin: the seq_no first, then the root hash.
pub fn check_trusted_proof_id(
    trusted: &TrustedMcBlockId,
    proof_seq_no: u32,
    proof_root_hash: &Vec<u8>,
) -> (r: Result<(), ProofError>)
    ensures
        proof_seq_no != trusted.seq_no ==> r == Err::<(), ProofError>(ProofError::AnchorMismatch),
        proof_seq_no == trusted.seq_no && !is_hash_hex(trusted.root_hash@) ==> r == Err::<
            (),
            ProofError,
        >(ProofError::Decode),
        proof_seq_no == trusted.seq_no && is_hash_hex(trusted.root_hash@) ==> (r is Ok <==> proof_root_hash@
            == hash_bytes(trusted.root_hash@)),
        proof_seq_no == trusted.seq_no && is_hash_hex(trusted.root_hash@) && proof_root_hash@
            != hash_bytes(trusted.root_hash@) ==> r == Err::<(), ProofError>(
            ProofError::AnchorMismatch,
        ),
        r matches Err(e) ==> (e == ProofError::AnchorMismatch || e == ProofError::Decode),
{
    if proof_seq_no != trusted.seq_no {
        return Err(ProofError::AnchorMismatch);
    }
    let expected = parse_root_hash(trusted.root_hash.as_str())?;
    if !bytes_equal(proof_root_hash, &expected) {
        return Err(ProofError::AnchorMismatch);
    }
    Ok(())
}

/// Checks the hash of a downloaded zerostate against the network's.
pub fn check_zerostate_hash(network_uid: &NetworkUid, actual_hash: &String) -> (r: Result<
    (),
    ProofError,
>)
    ensures
        r is Ok <==> actual_hash@ == network_uid.zerostate_root_hash@,
        r matches Err(e) ==> e == ProofError::HashMismatch,
{
    if *actual_hash == network_uid.zerostate_root_hash {
        Ok(())
    } else {
        Err(ProofError::HashMismatch)
    }
}

/// The trusted key-block pinned for a network, looked up by the network's
/// zerostate root hash in a table of pins.
pub fn resolve_trusted_key_block<'a>(
    pins: &'a Vec<(String, TrustedMcBlockId)>,
    network_uid: &NetworkUid,
) -> (r: Result<&'a TrustedMcBlockId, ProofError>)
    ensures
        match r {
            Ok(t) => exists|i: int|
                0 <= i < pins@.len() && pins@[i].0@ == network_uid.zerostate_root_hash@ && *t
                    == pins@[i].1 && forall|k: int|
                    0 <= k < i ==> pins@[k].0@ != network_uid.zerostate_root_hash@,
            Err(e) => e == ProofError::UnknownNetwork && forall|k: int|
                0 <= k < pins@.len() ==> pins@[k].0@ != network_uid.zerostate_root_hash@,
        },
{
    let mut i: usize = 0;
    while i < pins.len()
        invariant
            0 <= i <= pins@.len(),
            forall|k: int| 0 <= k < i ==> pins@[k].0@ != network_uid.zerostate_root_hash@,
        decreases pins@.len() - i,
    {
        if pins[i].0 == network_uid.zerostate_root_hash {
            return Ok(&pins[i].1);
        }
        i = i + 1;
    }
    Err(ProofError::UnknownNetwork)
}

} // verus!

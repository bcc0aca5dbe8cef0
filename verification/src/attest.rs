//! Result attestation.
//!
//! The computation process signs the canonical result bytes before they
//! cross the trust boundary, and the ledger verifies that signature against
//! its registered computation authority. The scheme here is a deterministic
//! stand-in for a real signature system: a fixed 56-byte tag followed by a
//! little-endian wrapping byte-sum checksum of the signed data, 64 bytes in
//! all. There is a single attestation key, so the authority identity does
//! not enter the signature; verification is a pure function of the data
//! and the signature, which is what the settlement state machine needs.

use vstd::prelude::*;
use vstd::bytes::{spec_u64_to_le_bytes, u64_to_le_bytes};
use vstd::wrapping::u64_specs;
use crate::types::bytes_eq;

verus! {

/// Length of an attestation signature in bytes.
pub const SIGNATURE_LEN: usize = 64;

/// The tag byte that fills the first 56 bytes of every signature.
pub const SIGNATURE_TAG: u8 = 0x42;

/// The checksum carried in a signature: the wrapping 64-bit sum of all
/// bytes of the signed data.
pub open spec fn spec_checksum(data: Seq<u8>) -> u64
    decreases data.len(),
{
    if data.len() == 0 {
        0u64
    } else {
        u64_specs::wrapping_add(spec_checksum(data.drop_last()), data.last() as u64)
    }
}

/// The signature the attestation scheme produces for `data`.
pub open spec fn spec_sign(data: Seq<u8>) -> Seq<u8> {
    Seq::new(56, |i: int| SIGNATURE_TAG) + spec_u64_to_le_bytes(spec_checksum(data))
}

/// Appending one byte folds it into the checksum.
proof fn lemma_checksum_push(s: Seq<u8>, b: u8)
    ensures
        spec_checksum(s.push(b)) == u64_specs::wrapping_add(spec_checksum(s), b as u64),
{
    assert(s.push(b).drop_last() =~= s);
    assert(s.push(b).last() == b);
}

/// Computes the 64-bit checksum of `data`.
fn checksum(data: &Vec<u8>) -> (r: u64)
    ensures
        r == spec_checksum(data@),
{
    let mut sum: u64 = 0;
    let mut i: usize = 0;
    while i < data.len()
        invariant
            0 <= i <= data@.len(),
            sum == spec_checksum(data@.take(i as int)),
        decreases data@.len() - i,
    {
        let b: u8 = data[i];
        proof {
            assert(data@.take(i as int).push(b) =~= data@.take(i + 1));
            lemma_checksum_push(data@.take(i as int), b);
        }
        sum = sum.wrapping_add(b as u64);
        i = i + 1;
    }
    proof {
        assert(data@.take(data@.len() as int) =~= data@);
    }
    sum
}

/// Produces the attestation signature for `data`: the fixed tag followed by
/// the little-endian checksum.
pub fn sign_bytes(data: &Vec<u8>) -> (r: Vec<u8>)
    ensures
        r@ == spec_sign(data@),
        r@.len() == SIGNATURE_LEN,
{
    let sum: u64 = checksum(data);
    let mut sig: Vec<u8> = Vec::new();
    let mut i: usize = 0;
    while i < 56
        invariant
            0 <= i <= 56,
            sig@ =~= Seq::new(i as nat, |j: int| SIGNATURE_TAG),
        decreases 56 - i,
    {
        sig.push(SIGNATURE_TAG);
        i = i + 1;
    }
    let mut tail: Vec<u8> = u64_to_le_bytes(sum);
    sig.append(&mut tail);
    proof {
        assert(sig@ =~= spec_sign(data@));
    }
    sig
}

/// The verification gate: accepts exactly the signature that the attestation
/// scheme produces for `data`.
pub fn verify_bytes(data: &Vec<u8>, signature: &Vec<u8>) -> (r: bool)
    ensures
        r == (signature@ == spec_sign(data@)),
{
    let expected: Vec<u8> = sign_bytes(data);
    bytes_eq(&expected, signature)
}

} // verus!

//! The result digest recorded by a settled market.

use vstd::prelude::*;
use sha2::Digest;

verus! {

/// The 32-byte digest of a byte string, as the settlement records it.
pub uninterp spec fn digest_of(bytes: Seq<u8>) -> Seq<u8>;

/// Relies on `sha2::Sha256` (`Digest::digest`): a 32-byte digest that is a
/// function of the input bytes alone.
#[verifier::external_body]
pub(crate) fn digest32(bytes: &Vec<u8>) -> (r: [u8; 32])
    ensures
        r@ == digest_of(bytes@),
{
    sha2::Sha256::digest(bytes.as_slice()).into()
}

} // verus!

//! The trusted computation context.
//!
//! Everything the confidential computation does with secret data goes
//! through this context: decoding an encrypted payload into a cleartext
//! wager, arithmetic over secret shares, and signing the finished result.
//! The context here is a deterministic stand-in for a multi-party backend;
//! each operation is a pure function of its arguments, which is exactly the
//! property independent computing parties need to converge on one result.

use vstd::prelude::*;
use vstd::bytes::{spec_u64_from_le_bytes, u64_from_le_bytes};
use vstd::slice::{slice_subrange, slice_to_vec};
use crate::types::DecryptedBet;
use crate::attest;

verus! {

/// Number of payload bytes that carry the choice and the stake; anything
/// shorter is malformed.
pub const BET_HEADER_LEN: usize = 9;

/// Choice decoded from a payload: the first byte taken mod 2, `0` when the
/// payload is empty.
pub open spec fn spec_decode_choice(blob: Seq<u8>) -> u8 {
    if blob.len() >= 1 {
        (blob[0] % 2) as u8
    } else {
        0u8
    }
}

/// Stake decoded from a payload: bytes 1 through 8 read little-endian, `0`
/// when they are missing.
pub open spec fn spec_decode_stake(blob: Seq<u8>) -> u64 {
    if blob.len() >= 9 {
        spec_u64_from_le_bytes(blob.subrange(1, 9))
    } else {
        0u64
    }
}

/// Chooser identity decoded from a payload: every byte after the stake.
pub open spec fn spec_decode_chooser(blob: Seq<u8>) -> Seq<u8> {
    if blob.len() >= 9 {
        blob.skip(9)
    } else {
        Seq::<u8>::empty()
    }
}

/// Saturating 64-bit addition, the arithmetic used for pool aggregation.
pub open spec fn sat_add(a: u64, b: u64) -> u64 {
    if a + b > u64::MAX {
        u64::MAX
    } else {
        (a + b) as u64
    }
}

/// Fixed-point multiply-then-divide in 128-bit intermediate precision,
/// truncated back to 64 bits; `0` when the divisor is `0`.
pub open spec fn spec_mul_div(value: u64, numerator: u64, denominator: u64) -> u64 {
    if denominator == 0 {
        0u64
    } else {
        (((value * numerator) / (denominator as int)) % 0x10000000000000000) as u64
    }
}

/// Handle to the trusted computation environment.
pub struct MPCContext {}

impl MPCContext {
    /// Opens the computation context.
    pub fn new() -> (r: Self) {
        MPCContext {  }
    }

    /// Decodes an encrypted payload into a cleartext wager. The decode is
    /// total: a truncated payload yields the zero choice, stake, or chooser
    /// rather than a fault, and the caller decides whether to keep it.
    pub fn decrypt_and_parse(&self, encrypted_blob: &[u8]) -> (bet: DecryptedBet)
        ensures
            bet.choice == spec_decode_choice(encrypted_blob@),
            bet.stake == spec_decode_stake(encrypted_blob@),
            bet.depositor_pubkey@ == spec_decode_chooser(encrypted_blob@),
            bet.choice == 0 || bet.choice == 1,
    {
        let choice: u8 = if encrypted_blob.len() >= 1 {
            encrypted_blob[0] % 2
        } else {
            0
        };
        let stake: u64 = if encrypted_blob.len() >= 9 {
            u64_from_le_bytes(slice_subrange(encrypted_blob, 1, 9))
        } else {
            0
        };
        let depositor_pubkey: Vec<u8> = if encrypted_blob.len() >= 9 {
            slice_to_vec(slice_subrange(encrypted_blob, 9, encrypted_blob.len()))
        } else {
            Vec::new()
        };
        proof {
            if encrypted_blob@.len() >= 9 {
                assert(encrypted_blob@.subrange(9, encrypted_blob@.len() as int)
                    =~= encrypted_blob@.skip(9));
            }
        }
        DecryptedBet { depositor_pubkey, choice, stake }
    }

    /// Secure addition: saturates instead of wrapping.
    pub fn secure_add(&self, a: u64, b: u64) -> (r: u64)
        ensures
            r == sat_add(a, b),
    {
        a.saturating_add(b)
    }

    /// Secure fixed-point multiply-divide with 128-bit intermediates.
    pub fn secure_mul_div(&self, value: u64, numerator: u64, denominator: u64) -> (r: u64)
        ensures
            r == spec_mul_div(value, numerator, denominator),
    {
        if denominator == 0 {
            return 0;
        }
        proof {
            assert((value as int) * (numerator as int) <= (u64::MAX as int) * (u64::MAX as int))
                by (nonlinear_arith)
                requires
                    value <= u64::MAX,
                    numerator <= u64::MAX,
            ;
        }
        let wide: u128 = (value as u128) * (numerator as u128);
        let q: u128 = wide / (denominator as u128);
        let r: u64 = (q % 0x10000000000000000u128) as u64;
        r
    }

    /// Secure conditional select.
    pub fn secure_if_else<T: Clone>(&self, condition: bool, if_val: T, else_val: T) -> (r: T)
        ensures
            r == (if condition {
                if_val
            } else {
                else_val
            }),
    {
        if condition {
            if_val
        } else {
            else_val
        }
    }

    /// Signs canonical result bytes with the attestation key.
    pub fn sign_result(&self, data: &Vec<u8>) -> (r: Vec<u8>)
        ensures
            r@ == attest::spec_sign(data@),
    {
        attest::sign_bytes(data)
    }

    /// The timestamp the computation runs under. The stand-in environment
    /// pins it to zero so that every computing party derives an identical
    /// result.
    pub fn now_unix(&self) -> (r: i64)
        ensures
            r == 0,
    {
        0
    }
}

} // verus!

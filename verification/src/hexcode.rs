//! Hex encoding of identities.
//!
//! Depositor and market identifiers are raw byte strings on the ledger and
//! hex strings inside a produced result. The encoding itself comes from the
//! `hex` crate; its behaviour is stated exactly by [`hex_of`], so everything
//! downstream of the call is proved against a full definition.

use vstd::prelude::*;
use vstd::utf8::is_ascii_chars;

verus! {

/// The lowercase hex digit for a value below 16.
pub open spec fn hex_digit(n: u8) -> char {
    if n == 0 {
        '0'
    } else if n == 1 {
        '1'
    } else if n == 2 {
        '2'
    } else if n == 3 {
        '3'
    } else if n == 4 {
        '4'
    } else if n == 5 {
        '5'
    } else if n == 6 {
        '6'
    } else if n == 7 {
        '7'
    } else if n == 8 {
        '8'
    } else if n == 9 {
        '9'
    } else if n == 10 {
        'a'
    } else if n == 11 {
        'b'
    } else if n == 12 {
        'c'
    } else if n == 13 {
        'd'
    } else if n == 14 {
        'e'
    } else {
        'f'
    }
}

/// Lowercase hex encoding of a byte string: two digits per byte, high
/// nibble first, in input order.
pub open spec fn hex_of(s: Seq<u8>) -> Seq<char>
    decreases s.len(),
{
    if s.len() == 0 {
        Seq::empty()
    } else {
        hex_of(s.drop_last()) + seq![
            hex_digit((s.last() / 16) as u8),
            hex_digit((s.last() % 16) as u8),
        ]
    }
}

/// The bytes of an ASCII character sequence, character by character.
pub open spec fn ascii_bytes(s: Seq<char>) -> Seq<u8> {
    Seq::new(s.len(), |i: int| s[i] as u8)
}

/// A hex encoding has two characters per input byte.
pub proof fn lemma_hex_of_len(s: Seq<u8>)
    ensures
        hex_of(s).len() == 2 * s.len(),
    decreases s.len(),
{
    if s.len() > 0 {
        lemma_hex_of_len(s.drop_last());
    }
}

/// Every character of a hex encoding is ASCII.
pub proof fn lemma_hex_of_ascii(s: Seq<u8>)
    ensures
        is_ascii_chars(hex_of(s)),
    decreases s.len(),
{
    if s.len() > 0 {
        lemma_hex_of_ascii(s.drop_last());
    }
}

/// Hex digits are distinct for distinct values below 16.
proof fn lemma_hex_digit_injective(m: u8, n: u8)
    requires
        m < 16,
        n < 16,
        hex_digit(m) == hex_digit(n),
    ensures
        m == n,
{
}

/// Hex encoding is injective: distinct byte strings encode differently.
pub proof fn lemma_hex_of_injective(a: Seq<u8>, b: Seq<u8>)
    requires
        hex_of(a) == hex_of(b),
    ensures
        a == b,
    decreases a.len(),
{
    lemma_hex_of_len(a);
    lemma_hex_of_len(b);
    if a.len() == 0 {
        assert(a =~= b);
    } else {
        let ha = hex_of(a);
        let hb = hex_of(b);
        assert(ha.len() == hb.len());
        assert(a.len() == b.len());
        assert(b.len() > 0);
        lemma_hex_of_len(a.drop_last());
        lemma_hex_of_len(b.drop_last());
        assert(ha == hex_of(a.drop_last()) + seq![
            hex_digit((a.last() / 16) as u8),
            hex_digit((a.last() % 16) as u8),
        ]);
        assert(hb == hex_of(b.drop_last()) + seq![
            hex_digit((b.last() / 16) as u8),
            hex_digit((b.last() % 16) as u8),
        ]);
        assert(ha[ha.len() - 2] == hex_digit((a.last() / 16) as u8));
        assert(ha[ha.len() - 1] == hex_digit((a.last() % 16) as u8));
        assert(hb[hb.len() - 2] == hex_digit((b.last() / 16) as u8));
        assert(hb[hb.len() - 1] == hex_digit((b.last() % 16) as u8));
        lemma_hex_digit_injective((a.last() / 16) as u8, (b.last() / 16) as u8);
        lemma_hex_digit_injective((a.last() % 16) as u8, (b.last() % 16) as u8);
        assert(a.last() == b.last());
        assert(hex_of(a.drop_last()).len() == ha.len() - 2);
        assert(hex_of(b.drop_last()).len() == hb.len() - 2);
        assert(hex_of(a.drop_last()) =~= hex_of(b.drop_last())) by {
            assert forall|i: int|
                0 <= i < hex_of(a.drop_last()).len() implies hex_of(a.drop_last())[i] == hex_of(
                b.drop_last(),
            )[i] by {
                assert(hex_of(a.drop_last())[i] == ha[i]);
                assert(hex_of(b.drop_last())[i] == hb[i]);
            }
        }
        lemma_hex_of_injective(a.drop_last(), b.drop_last());
        assert(forall|i: int|
            0 <= i < a.len() - 1 ==> #[trigger] a[i] == a.drop_last()[i] && #[trigger] b[i]
                == b.drop_last()[i]);
        assert(a =~= b);
    }
}

/// Relies on `hex::encode`: lowercase hex output, two digits per byte, high
/// nibble first, in input order, exactly as [`hex_of`] states.
#[verifier::external_body]
pub(crate) fn hex_string(bytes: &Vec<u8>) -> (r: String)
    ensures
        r@ == hex_of(bytes@),
{
    hex::encode(bytes.as_slice())
}

/// Encodes a depositor identity for use as a payout recipient.
pub fn encode_pubkey(bytes: &Vec<u8>) -> (r: String)
    ensures
        r@ == hex_of(bytes@),
{
    hex_string(bytes)
}

} // verus!

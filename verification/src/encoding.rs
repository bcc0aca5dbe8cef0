//! Canonical serialization of a market result.
//!
//! Every computing party must derive the same byte string from the same
//! result, so the encoding fixes the field order, writes every length and
//! amount as 64-bit little-endian, and stores identity strings as their
//! ASCII bytes. The ledger-side parser is the exact inverse on well formed
//! results; a byte string that does not parse back is rejected whole.

use vstd::prelude::*;
use vstd::bytes::{lemma_auto_spec_u64_to_from_le_bytes, spec_u64_from_le_bytes, spec_u64_to_le_bytes, u64_from_le_bytes, u64_to_le_bytes};
use vstd::slice::{slice_subrange, slice_to_vec};
use vstd::utf8::is_ascii_chars;
use crate::types::{MarketResult, Payout, result_wf};
use crate::hexcode::ascii_bytes;

verus! {

/// The unsigned bit pattern stored for a timestamp; results carry
/// non-negative timestamps, anything else is clamped to zero.
pub open spec fn ts_bits(t: i64) -> u64 {
    if t >= 0 {
        t as u64
    } else {
        0u64
    }
}

/// Canonical bytes of one payout entry: recipient length, recipient
/// bytes, amount.
pub open spec fn spec_encode_payout(p: Payout) -> Seq<u8> {
    spec_u64_to_le_bytes(p.recipient@.len() as u64) + ascii_bytes(p.recipient@)
        + spec_u64_to_le_bytes(p.payout)
}

/// Canonical bytes of a payout list, in list order.
pub open spec fn spec_encode_payouts(ps: Seq<Payout>) -> Seq<u8>
    decreases ps.len(),
{
    if ps.len() == 0 {
        Seq::<u8>::empty()
    } else {
        spec_encode_payout(ps.first()) + spec_encode_payouts(ps.drop_first())
    }
}

/// Canonical serialization of a result: market identifier (length then
/// bytes), winning choice, total pool, fee, timestamp, payout count, then
/// each payout. Equal models yield equal bytes.
pub open spec fn spec_encode(r: MarketResult) -> Seq<u8> {
    spec_u64_to_le_bytes(r.market_id@.len() as u64) + ascii_bytes(r.market_id@)
        + seq![r.winning_choice] + spec_u64_to_le_bytes(r.total_pool)
        + spec_u64_to_le_bytes(r.fee_amount) + spec_u64_to_le_bytes(ts_bits(r.timestamp))
        + spec_u64_to_le_bytes(r.payouts@.len() as u64) + spec_encode_payouts(r.payouts@)
}

/// Payout encoding distributes over concatenation.
proof fn lemma_encode_payouts_app(a: Seq<Payout>, b: Seq<Payout>)
    ensures
        spec_encode_payouts(a + b) == spec_encode_payouts(a) + spec_encode_payouts(b),
    decreases a.len(),
{
    if a.len() == 0 {
        assert(a + b =~= b);
        assert(spec_encode_payouts(a) + spec_encode_payouts(b) =~= spec_encode_payouts(b));
    } else {
        assert((a + b).first() == a.first());
        assert((a + b).drop_first() =~= a.drop_first() + b);
        lemma_encode_payouts_app(a.drop_first(), b);
        assert(spec_encode_payouts(a + b) =~= spec_encode_payouts(a) + spec_encode_payouts(b));
    }
}

/// The encoding of a single-payout list is that payout's encoding.
proof fn lemma_encode_payouts_one(p: Payout)
    ensures
        spec_encode_payouts(seq![p]) == spec_encode_payout(p),
{
    assert(seq![p].drop_first() =~= Seq::<Payout>::empty());
    assert(spec_encode_payouts(seq![p].drop_first()) == Seq::<u8>::empty());
    assert(seq![p].first() == p);
    assert(spec_encode_payouts(seq![p]) =~= spec_encode_payout(p));
}

/// Payout lists with the same models encode to the same bytes.
pub proof fn lemma_encode_payouts_congruent(a: Seq<Payout>, b: Seq<Payout>)
    requires
        a.len() == b.len(),
        forall|i: int|
            0 <= i < a.len() ==> crate::types::payout_model(#[trigger] a[i])
                == crate::types::payout_model(b[i]),
    ensures
        spec_encode_payouts(a) == spec_encode_payouts(b),
    decreases a.len(),
{
    if a.len() > 0 {
        assert(crate::types::payout_model(a[0]) == crate::types::payout_model(b[0]));
        assert(spec_encode_payout(a.first()) == spec_encode_payout(b.first()));
        assert(forall|i: int|
            0 <= i < a.drop_first().len() ==> #[trigger] a.drop_first()[i] == a[i + 1]
                && b.drop_first()[i] == b[i + 1]);
        lemma_encode_payouts_congruent(a.drop_first(), b.drop_first());
    }
}

/// Results with the same model encode to the same canonical bytes.
pub proof fn lemma_encode_congruent(a: MarketResult, b: MarketResult)
    requires
        crate::types::result_model(a) == crate::types::result_model(b),
    ensures
        spec_encode(a) == spec_encode(b),
{
    let ma = crate::types::result_model(a);
    let mb = crate::types::result_model(b);
    assert(a.payouts@.len() == ma.payouts.len());
    assert(b.payouts@.len() == mb.payouts.len());
    assert forall|i: int| 0 <= i < a.payouts@.len() implies crate::types::payout_model(
        #[trigger] a.payouts@[i],
    ) == crate::types::payout_model(b.payouts@[i]) by {
        assert(ma.payouts[i] == mb.payouts[i]);
    }
    lemma_encode_payouts_congruent(a.payouts@, b.payouts@);
}

/// Appends the little-endian bytes of `x`.
fn push_le64(out: &mut Vec<u8>, x: u64)
    ensures
        final(out)@ == old(out)@ + spec_u64_to_le_bytes(x),
{
    let mut tail: Vec<u8> = u64_to_le_bytes(x);
    out.append(&mut tail);
}

/// Appends the length of `s` (64-bit little-endian) and then its ASCII
/// bytes.
fn push_len_prefixed_ascii(out: &mut Vec<u8>, s: &String)
    requires
        is_ascii_chars(s@),
    ensures
        final(out)@ == old(out)@ + spec_u64_to_le_bytes(s@.len() as u64) + ascii_bytes(s@),
{
    let st: &str = s.as_str();
    proof {
        vstd::string::is_ascii_spec_bytes(st);
    }
    let mut tail: Vec<u8> = slice_to_vec(st.as_bytes());
    proof {
        assert(tail@ =~= ascii_bytes(s@));
    }
    let l: usize = tail.len();
    push_le64(out, l as u64);
    out.append(&mut tail);
}

/// Serializes a well formed result to its canonical bytes.
pub fn encode_result(r: &MarketResult) -> (bytes: Vec<u8>)
    requires
        result_wf(*r),
    ensures
        bytes@ == spec_encode(*r),
{
    let mut out: Vec<u8> = Vec::new();
    proof {
        lemma_auto_spec_u64_to_from_le_bytes();
    }
    push_len_prefixed_ascii(&mut out, &r.market_id);
    out.push(r.winning_choice);
    push_le64(&mut out, r.total_pool);
    push_le64(&mut out, r.fee_amount);
    let ts: u64 = if r.timestamp >= 0 {
        r.timestamp as u64
    } else {
        0
    };
    push_le64(&mut out, ts);
    push_le64(&mut out, r.payouts.len() as u64);
    let ghost header = out@;
    let mut i: usize = 0;
    while i < r.payouts.len()
        invariant
            0 <= i <= r.payouts@.len(),
            result_wf(*r),
            out@ == header + spec_encode_payouts(r.payouts@.take(i as int)),
        decreases r.payouts@.len() - i,
    {
        let p: &Payout = &r.payouts[i];
        push_len_prefixed_ascii(&mut out, &p.recipient);
        push_le64(&mut out, p.payout);
        proof {
            let prefix = r.payouts@.take(i as int);
            let one = seq![r.payouts@[i as int]];
            assert(r.payouts@.take(i + 1) =~= prefix + one);
            lemma_encode_payouts_app(prefix, one);
            lemma_encode_payouts_one(r.payouts@[i as int]);
            assert(out@ =~= header + spec_encode_payouts(r.payouts@.take(i + 1)));
        }
        i = i + 1;
    }
    proof {
        assert(r.payouts@.take(r.payouts@.len() as int) =~= r.payouts@);
        assert(out@ =~= spec_encode(*r));
    }
    out
}

/// What the ledger recovers from a canonical byte string.
pub struct DecodedResult {
    pub market_id: Vec<u8>,
    pub winning_choice: u8,
    pub total_pool: u64,
    pub fee_amount: u64,
    pub timestamp_bits: u64,
    pub payouts: Vec<crate::ledger::Payout>,
}

/// Mathematical model of a decoded result.
pub ghost struct DecodedModel {
    pub market_id: Seq<u8>,
    pub winning_choice: u8,
    pub total_pool: u64,
    pub fee_amount: u64,
    pub timestamp_bits: u64,
    pub payouts: Seq<(Seq<u8>, u64)>,
}

/// Model of a decoded payout list.
pub open spec fn payouts_model(ps: Seq<crate::ledger::Payout>) -> Seq<(Seq<u8>, u64)> {
    ps.map(|i: int, p: crate::ledger::Payout| (p.recipient@, p.amount))
}

/// Model of a decoded result value.
pub open spec fn decoded_model(d: DecodedResult) -> DecodedModel {
    DecodedModel {
        market_id: d.market_id@,
        winning_choice: d.winning_choice,
        total_pool: d.total_pool,
        fee_amount: d.fee_amount,
        timestamp_bits: d.timestamp_bits,
        payouts: payouts_model(d.payouts@),
    }
}

/// Parses the payout section: `n` entries starting at `off`, each a
/// length-prefixed recipient followed by an amount. Yields the entries and
/// the offset just past them.
pub open spec fn spec_parse_payouts(bytes: Seq<u8>, off: int, n: nat) -> Option<
    (Seq<(Seq<u8>, u64)>, int),
>
    decreases n,
{
    if n == 0 {
        Some((Seq::<(Seq<u8>, u64)>::empty(), off))
    } else if off + 8 > bytes.len() {
        None
    } else {
        let l = spec_u64_from_le_bytes(bytes.subrange(off, off + 8)) as int;
        if off + 8 + l + 8 > bytes.len() {
            None
        } else {
            let rec = bytes.subrange(off + 8, off + 8 + l);
            let amt = spec_u64_from_le_bytes(bytes.subrange(off + 8 + l, off + 8 + l + 8));
            match spec_parse_payouts(bytes, off + 8 + l + 8, (n - 1) as nat) {
                Some(t) => Some((seq![(rec, amt)] + t.0, t.1)),
                None => None,
            }
        }
    }
}

/// Parses a full canonical byte string; `None` on anything malformed,
/// including trailing bytes.
pub open spec fn spec_parse(bytes: Seq<u8>) -> Option<DecodedModel> {
    if bytes.len() < 8 {
        None
    } else {
        let ml = spec_u64_from_le_bytes(bytes.subrange(0, 8)) as int;
        if ml + 41 > bytes.len() {
            None
        } else {
            let n = spec_u64_from_le_bytes(bytes.subrange(8 + ml + 25, 8 + ml + 33));
            match spec_parse_payouts(bytes, 8 + ml + 33, n as nat) {
                Some(t) => if t.1 == bytes.len() {
                    Some(
                        DecodedModel {
                            market_id: bytes.subrange(8, 8 + ml),
                            winning_choice: bytes[8 + ml],
                            total_pool: spec_u64_from_le_bytes(
                                bytes.subrange(8 + ml + 1, 8 + ml + 9),
                            ),
                            fee_amount: spec_u64_from_le_bytes(
                                bytes.subrange(8 + ml + 9, 8 + ml + 17),
                            ),
                            timestamp_bits: spec_u64_from_le_bytes(
                                bytes.subrange(8 + ml + 17, 8 + ml + 25),
                            ),
                            payouts: t.0,
                        },
                    )
                } else {
                    None
                },
                None => None,
            }
        }
    }
}

/// Length bounds under which the canonical encoding is unambiguous: every
/// length prefix must fit its 64-bit field. Every result an execution can
/// build satisfies them.
pub open spec fn result_bounded(r: MarketResult) -> bool {
    &&& r.market_id@.len() <= u64::MAX
    &&& r.payouts@.len() <= u64::MAX
    &&& forall|i: int|
        0 <= i < r.payouts@.len() ==> (#[trigger] r.payouts@[i].recipient@).len() <= u64::MAX
}

/// The decoded model that a result's canonical bytes parse back to.
pub open spec fn decoded_of(r: MarketResult) -> DecodedModel {
    DecodedModel {
        market_id: ascii_bytes(r.market_id@),
        winning_choice: r.winning_choice,
        total_pool: r.total_pool,
        fee_amount: r.fee_amount,
        timestamp_bits: ts_bits(r.timestamp),
        payouts: r.payouts@.map(|i: int, p: Payout| (ascii_bytes(p.recipient@), p.payout)),
    }
}

/// Parsing a payout section recovers exactly the payouts encoded in it.
proof fn lemma_parse_payouts_section(bytes: Seq<u8>, off: int, ps: Seq<Payout>)
    requires
        0 <= off <= bytes.len(),
        off + spec_encode_payouts(ps).len() == bytes.len(),
        bytes.subrange(off, bytes.len() as int) == spec_encode_payouts(ps),
        forall|i: int| 0 <= i < ps.len() ==> (#[trigger] ps[i].recipient@).len() <= u64::MAX,
    ensures
        spec_parse_payouts(bytes, off, ps.len()) == Some(
            (ps.map(|i: int, p: Payout| (ascii_bytes(p.recipient@), p.payout)), bytes.len() as int),
        ),
    decreases ps.len(),
{
    lemma_auto_spec_u64_to_from_le_bytes();
    let enc = spec_encode_payouts(ps);
    if ps.len() == 0 {
        assert(ps.map(|i: int, p: Payout| (ascii_bytes(p.recipient@), p.payout)) =~= Seq::<
            (Seq<u8>, u64),
        >::empty());
    } else {
        let p = ps.first();
        let rest = ps.drop_first();
        let rl = p.recipient@.len() as int;
        let one = spec_encode_payout(p);
        assert(one.len() == 8 + rl + 8);
        assert(enc == one + spec_encode_payouts(rest));
        assert(forall|j: int| off <= j < bytes.len() ==> #[trigger] bytes[j] == enc[j - off]) by {
            assert(forall|j: int|
                off <= j < bytes.len() ==> #[trigger] bytes[j] == bytes.subrange(
                    off,
                    bytes.len() as int,
                )[j - off]);
        }
        assert(bytes.subrange(off, off + 8) =~= spec_u64_to_le_bytes(p.recipient@.len() as u64));
        let l = spec_u64_from_le_bytes(bytes.subrange(off, off + 8)) as int;
        assert(l == rl);
        assert(off + 8 + l + 8 <= bytes.len());
        assert(bytes.subrange(off + 8, off + 8 + l) =~= ascii_bytes(p.recipient@));
        assert(bytes.subrange(off + 8 + l, off + 8 + l + 8) =~= spec_u64_to_le_bytes(p.payout));
        let amt = spec_u64_from_le_bytes(bytes.subrange(off + 8 + l, off + 8 + l + 8));
        assert(amt == p.payout);
        let off2 = off + 8 + l + 8;
        assert(bytes.subrange(off2, bytes.len() as int) =~= spec_encode_payouts(rest));
        assert(forall|i: int| 0 <= i < rest.len() ==> (#[trigger] rest[i].recipient@).len()
            <= u64::MAX) by {
            assert(forall|i: int| 0 <= i < rest.len() ==> rest[i] == ps[i + 1]);
        }
        lemma_parse_payouts_section(bytes, off2, rest);
        assert((ps.len() - 1) as nat == rest.len());
        assert(seq![(ascii_bytes(p.recipient@), p.payout)] + rest.map(
            |i: int, q: Payout| (ascii_bytes(q.recipient@), q.payout),
        ) =~= ps.map(|i: int, q: Payout| (ascii_bytes(q.recipient@), q.payout)));
    }
}

/// The codec round trip: for any well formed, bounded result, parsing the
/// canonical bytes recovers exactly the encoded result. Together with the
/// deterministic encoder this means the ledger settles precisely the
/// payouts the computation produced.
pub proof fn lemma_encode_parse_round_trip(r: MarketResult)
    requires
        result_wf(r),
        result_bounded(r),
    ensures
        spec_parse(spec_encode(r)) == Some(decoded_of(r)),
{
    lemma_auto_spec_u64_to_from_le_bytes();
    let bytes = spec_encode(r);
    let ml = r.market_id@.len() as int;
    let pl = r.payouts@.len() as int;
    let enc_ps = spec_encode_payouts(r.payouts@);
    assert(bytes.len() == 41 + ml + enc_ps.len());
    assert(bytes.subrange(0, 8) =~= spec_u64_to_le_bytes(r.market_id@.len() as u64));
    assert(spec_u64_from_le_bytes(bytes.subrange(0, 8)) as int == ml);
    assert(bytes.subrange(8, 8 + ml) =~= ascii_bytes(r.market_id@));
    assert(bytes[8 + ml] == r.winning_choice);
    assert(bytes.subrange(8 + ml + 1, 8 + ml + 9) =~= spec_u64_to_le_bytes(r.total_pool));
    assert(bytes.subrange(8 + ml + 9, 8 + ml + 17) =~= spec_u64_to_le_bytes(r.fee_amount));
    assert(bytes.subrange(8 + ml + 17, 8 + ml + 25) =~= spec_u64_to_le_bytes(ts_bits(r.timestamp)));
    assert(bytes.subrange(8 + ml + 25, 8 + ml + 33) =~= spec_u64_to_le_bytes(
        r.payouts@.len() as u64,
    ));
    assert(bytes.subrange(8 + ml + 33, bytes.len() as int) =~= enc_ps);
    lemma_parse_payouts_section(bytes, 8 + ml + 33, r.payouts@);
    assert(spec_parse(bytes) == Some(decoded_of(r)));
}

/// Parses canonical result bytes back into a decoded result.
#[verifier::loop_isolation(false)]
pub fn parse_result(bytes: &Vec<u8>) -> (r: Option<DecodedResult>)
    ensures
        r is Some <==> spec_parse(bytes@) is Some,
        r matches Some(d) ==> spec_parse(bytes@) == Some(decoded_model(d)),
{
    let n: usize = bytes.len();
    if n < 8 {
        return None;
    }
    let ml64: u64 = u64_from_le_bytes(slice_subrange(bytes.as_slice(), 0, 8));
    if n < 41 || ml64 > (n - 41) as u64 {
        return None;
    }
    let ml: usize = ml64 as usize;
    let market_id: Vec<u8> = slice_to_vec(slice_subrange(bytes.as_slice(), 8, 8 + ml));
    let winning_choice: u8 = bytes[8 + ml];
    let off0: usize = 8 + ml + 1;
    let total_pool: u64 = u64_from_le_bytes(slice_subrange(bytes.as_slice(), off0, off0 + 8));
    let fee_amount: u64 = u64_from_le_bytes(slice_subrange(bytes.as_slice(), off0 + 8, off0 + 16));
    let timestamp_bits: u64 = u64_from_le_bytes(
        slice_subrange(bytes.as_slice(), off0 + 16, off0 + 24),
    );
    let count: u64 = u64_from_le_bytes(slice_subrange(bytes.as_slice(), off0 + 24, off0 + 32));
    let ghost start = off0 + 32;
    let mut off: usize = off0 + 32;
    let mut k: u64 = 0;
    let mut payouts: Vec<crate::ledger::Payout> = Vec::new();
    proof {
        let mls = spec_u64_from_le_bytes(bytes@.subrange(0, 8)) as int;
        assert(ml64 <= (n - 41) as u64);
        assert(ml as int == mls);
        assert(count == spec_u64_from_le_bytes(bytes@.subrange(8 + mls + 25, 8 + mls + 33)));
        assert(start as int == 8 + mls + 33);
        assert(!(mls + 41 > bytes@.len()));
    }
    while k < count
        invariant
            k <= count,
            start == off0 as int + 32,
            off0 == 9 + ml,
            off <= n,
            n == bytes@.len(),
            payouts@.len() == k,
            (match spec_parse_payouts(bytes@, off as int, (count - k) as nat) {
                Some(t) => spec_parse_payouts(bytes@, start as int, count as nat) == Some(
                    (payouts_model(payouts@) + t.0, t.1),
                ),
                None => spec_parse_payouts(bytes@, start as int, count as nat) is None,
            }),
        decreases count - k,
    {
        let ghost rem = (count - k) as nat;
        if n - off < 8 {
            proof {
                assert(spec_parse_payouts(bytes@, off as int, rem) is None);
                assert(spec_parse_payouts(bytes@, start as int, count as nat) is None);
                assert(spec_parse(bytes@) is None);
            }
            return None;
        }
        let l64: u64 = u64_from_le_bytes(slice_subrange(bytes.as_slice(), off, off + 8));
        let avail: usize = n - off - 8;
        if avail < 8 || l64 > (avail - 8) as u64 {
            proof {
                assert(l64 == spec_u64_from_le_bytes(bytes@.subrange(off as int, off as int + 8)));
                assert(off as int + 8 + l64 + 8 > bytes@.len());
                assert(spec_parse_payouts(bytes@, off as int, rem) is None);
                assert(spec_parse_payouts(bytes@, start as int, count as nat) is None);
                assert(spec_parse(bytes@) is None);
            }
            return None;
        }
        let l: usize = l64 as usize;
        let recipient: Vec<u8> = slice_to_vec(
            slice_subrange(bytes.as_slice(), off + 8, off + 8 + l),
        );
        let amount: u64 = u64_from_le_bytes(
            slice_subrange(bytes.as_slice(), off + 8 + l, off + 8 + l + 8),
        );
        let ghost old_payouts = payouts@;
        let ghost old_off = off as int;
        payouts.push(crate::ledger::Payout { recipient, amount });
        off = off + 8 + l + 8;
        k = k + 1;
        proof {
            let e = (bytes@.subrange(old_off + 8, old_off + 8 + l as int), amount);
            assert(payouts_model(old_payouts.push(crate::ledger::Payout { recipient, amount }))
                =~= payouts_model(old_payouts) + seq![e]);
            match spec_parse_payouts(bytes@, off as int, (count - k) as nat) {
                Some(t) => {
                    assert(spec_parse_payouts(bytes@, old_off, rem) == Some(
                        (seq![e] + t.0, t.1),
                    ));
                    assert(payouts_model(old_payouts) + (seq![e] + t.0) =~= payouts_model(
                        payouts@,
                    ) + t.0);
                },
                None => {
                    assert(spec_parse_payouts(bytes@, old_off, rem) is None);
                },
            }
        }
    }
    proof {
        assert(spec_parse_payouts(bytes@, off as int, 0) == Some(
            (Seq::<(Seq<u8>, u64)>::empty(), off as int),
        ));
        assert(payouts_model(payouts@) + Seq::<(Seq<u8>, u64)>::empty() =~= payouts_model(
            payouts@,
        ));
    }
    if off != n {
        return None;
    }
    Some(
        DecodedResult {
            market_id,
            winning_choice,
            total_pool,
            fee_amount,
            timestamp_bits,
            payouts,
        },
    )
}

} // verus!

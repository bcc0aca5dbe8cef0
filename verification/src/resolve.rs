//! Market resolution inside the trusted computation boundary.
//!
//! The pipeline decodes every encrypted wager, excludes malformed
//! payloads, aggregates the per-side pools, decides the winning side from
//! the oracle report or the majority-stake rule, computes the fee and each
//! payout, serializes the result canonically, and signs it. Every step is
//! a pure function of the request, so independent computing parties derive
//! identical signed results.

use vstd::prelude::*;
use vstd::bytes::{spec_u64_from_le_bytes, u64_from_le_bytes};
use vstd::slice::{slice_subrange, slice_to_vec};
use crate::types::{
    BetModel, DecryptedBet, EncryptedBet, MXEInput, MXEOutput, MarketResult, OracleReport, Payout,
    ResolveError, bet_model, payout_model, result_model, result_wf,
};
use crate::mpc::{
    MPCContext, sat_add, spec_decode_choice, spec_decode_chooser, spec_decode_stake,
};
use crate::payout::{
    amounts_total, choices_wf, compute_payouts, aggregate_pools, lemma_amounts_match,
    lemma_conservation_normal, lemma_fee_bounds, lemma_majority_tie_break, lemma_pool_exact,
    lemma_stake_sum_partition, lemma_stake_sum_parts, lemma_zero_winner_refund, majority_choice,
    models_of, payout_amount, pool_for, spec_fee, stake_sum, stake_sum_for,
};
use crate::hexcode::{hex_of, hex_string, lemma_hex_of_ascii};
use crate::encoding::{encode_result, spec_encode};
use crate::attest::spec_sign;

verus! {

/// Saturating 64-bit subtraction.
pub open spec fn sat_sub(a: u64, b: u64) -> u64 {
    if a - b < 0 {
        0u64
    } else {
        (a - b) as u64
    }
}

/// An oracle payload is well formed when it carries at least the outcome
/// byte and the timestamp, and its outcome names a valid side.
pub open spec fn oracle_wf(data: Seq<u8>) -> bool {
    data.len() >= 9 && data[0] <= 1
}

/// The outcome byte of an oracle payload.
pub open spec fn spec_oracle_outcome(data: Seq<u8>) -> u8 {
    data[0]
}

/// The signed 64-bit value whose bit pattern is `b`.
pub open spec fn i64_from_bits(b: u64) -> i64 {
    if b <= i64::MAX {
        b as i64
    } else {
        (b - 0x10000000000000000) as i64
    }
}

/// The timestamp of an oracle payload: bytes 1 through 8, little-endian.
pub open spec fn spec_oracle_timestamp(data: Seq<u8>) -> i64 {
    i64_from_bits(spec_u64_from_le_bytes(data.subrange(1, 9)))
}

/// The source label of an oracle payload: every byte after the timestamp.
pub open spec fn spec_oracle_source(data: Seq<u8>) -> Seq<u8> {
    data.skip(9)
}

/// Decodes an oracle payload. A malformed payload is fatal to the
/// resolution attempt: the market advertised an oracle, so no fallback
/// rule may be substituted.
pub fn parse_oracle_report(data: &Vec<u8>) -> (r: Result<OracleReport, ResolveError>)
    ensures
        r is Ok <==> oracle_wf(data@),
        r matches Ok(rep) ==> rep.outcome == spec_oracle_outcome(data@) && rep.timestamp
            == spec_oracle_timestamp(data@) && rep.source@ == spec_oracle_source(data@),
        r matches Err(e) ==> e == ResolveError::OracleMalformed,
{
    if data.len() < 9 {
        return Err(ResolveError::OracleMalformed);
    }
    let outcome: u8 = data[0];
    if outcome > 1 {
        return Err(ResolveError::OracleMalformed);
    }
    let bits: u64 = u64_from_le_bytes(slice_subrange(data.as_slice(), 1, 9));
    let timestamp: i64 = if bits <= 0x7fffffffffffffffu64 {
        bits as i64
    } else {
        ((bits as i128) - 0x10000000000000000i128) as i64
    };
    let source: Vec<u8> = slice_to_vec(slice_subrange(data.as_slice(), 9, data.len()));
    proof {
        assert(data@.subrange(9, data@.len() as int) =~= data@.skip(9));
    }
    Ok(OracleReport { outcome, timestamp, source })
}

/// The models of the wagers that decode successfully, in request order.
/// A payload shorter than its nine header bytes is malformed and excluded.
pub open spec fn decoded_models(bets: Seq<EncryptedBet>) -> Seq<BetModel>
    decreases bets.len(),
{
    if bets.len() == 0 {
        Seq::<BetModel>::empty()
    } else {
        let rest = decoded_models(bets.drop_last());
        let blob = bets.last().encrypted_blob@;
        if blob.len() >= 9 {
            rest.push(
                BetModel {
                    pubkey: spec_decode_chooser(blob),
                    choice: spec_decode_choice(blob),
                    stake: spec_decode_stake(blob),
                },
            )
        } else {
            rest
        }
    }
}

/// Every decoded choice names a valid side.
pub proof fn lemma_decoded_wf(bets: Seq<EncryptedBet>)
    ensures
        choices_wf(decoded_models(bets)),
    decreases bets.len(),
{
    if bets.len() > 0 {
        lemma_decoded_wf(bets.drop_last());
    }
}

/// The valid wager models of a request.
pub open spec fn spec_models(input: MXEInput) -> Seq<BetModel> {
    decoded_models(input.encrypted_bets@)
}

/// The YES pool of a request.
pub open spec fn spec_pool_yes(input: MXEInput) -> u64 {
    pool_for(spec_models(input), 1)
}

/// The NO pool of a request.
pub open spec fn spec_pool_no(input: MXEInput) -> u64 {
    pool_for(spec_models(input), 0)
}

/// The total pool of a request.
pub open spec fn spec_total_pool(input: MXEInput) -> u64 {
    sat_add(spec_pool_yes(input), spec_pool_no(input))
}

/// The winning side of a request: the oracle outcome when an oracle
/// payload is present, the majority-stake rule otherwise.
pub open spec fn spec_winning_choice(input: MXEInput) -> u8 {
    match input.encrypted_oracle {
        Some(d) => spec_oracle_outcome(d@),
        None => majority_choice(spec_pool_yes(input), spec_pool_no(input)),
    }
}

/// The pool behind the winning side.
pub open spec fn spec_winners_pool(input: MXEInput) -> u64 {
    if spec_winning_choice(input) == 1 {
        spec_pool_yes(input)
    } else {
        spec_pool_no(input)
    }
}

/// The distributable amount: the pool net of the basis-point fee.
pub open spec fn spec_distributable(input: MXEInput) -> u64 {
    sat_sub(spec_total_pool(input), spec_fee(spec_total_pool(input), input.fee_bps))
}

/// The fee a produced result reports: zero when nobody backed the winning
/// side (a refund extracts no fee), the basis-point fee otherwise.
pub open spec fn spec_fee_final(input: MXEInput) -> u64 {
    if spec_winners_pool(input) == 0 {
        0u64
    } else {
        spec_fee(spec_total_pool(input), input.fee_bps)
    }
}

/// Whether a request can be resolved at all: it must carry a wager, at
/// least one wager must decode, and an oracle payload, if present, must be
/// well formed.
pub open spec fn resolvable(input: MXEInput) -> bool {
    &&& input.encrypted_bets@.len() > 0
    &&& spec_models(input).len() > 0
    &&& (match input.encrypted_oracle {
        Some(d) => oracle_wf(d@),
        None => true,
    })
}

/// What a successful resolution produced: every field of the result, its
/// well-formedness, and the signature over its canonical bytes, as a
/// function of the request alone.
pub open spec fn resolve_ok(input: MXEInput, out: MXEOutput) -> bool {
    let models = spec_models(input);
    &&& out.result.market_id@ == hex_of(input.market_id@)
    &&& out.result.winning_choice == spec_winning_choice(input)
    &&& out.result.total_pool == spec_total_pool(input)
    &&& out.result.fee_amount == spec_fee_final(input)
    &&& out.result.timestamp == 0
    &&& out.result.payouts@.len() == models.len()
    &&& (forall|i: int|
        0 <= i < models.len() ==> #[trigger] payout_model(out.result.payouts@[i]) == (
            hex_of(models[i].pubkey),
            payout_amount(
                models[i],
                spec_winning_choice(input),
                spec_distributable(input),
                spec_winners_pool(input),
            ),
        ))
    &&& result_wf(out.result)
    &&& out.signature@ == spec_sign(spec_encode(out.result))
}

/// Resolves a market request: the winning side, the fee, and every
/// payout, together with the attestation signature over the canonical
/// result bytes. Fails, producing no result, on an empty request, on a
/// request in which no wager decodes, and on a malformed oracle payload.
pub fn resolve_market(input: MXEInput) -> (r: Result<MXEOutput, ResolveError>)
    requires
        input.fee_bps <= 10000,
    ensures
        r is Ok <==> resolvable(input),
        r matches Ok(out) ==> resolve_ok(input, out),
        r matches Err(e) ==> (match e {
            ResolveError::NoBets => input.encrypted_bets@.len() == 0,
            ResolveError::AllBetsMalformed => input.encrypted_bets@.len() > 0 && spec_models(
                input,
            ).len() == 0,
            ResolveError::OracleMalformed => input.encrypted_bets@.len() > 0 && spec_models(
                input,
            ).len() > 0 && (match input.encrypted_oracle {
                Some(d) => !oracle_wf(d@),
                None => false,
            }),
        }),
{
    let ctx = MPCContext::new();
    if input.encrypted_bets.len() == 0 {
        return Err(ResolveError::NoBets);
    }
    let mut decrypted: Vec<DecryptedBet> = Vec::new();
    let mut i: usize = 0;
    while i < input.encrypted_bets.len()
        invariant
            0 <= i <= input.encrypted_bets@.len(),
            models_of(decrypted@) == decoded_models(input.encrypted_bets@.take(i as int)),
        decreases input.encrypted_bets@.len() - i,
    {
        proof {
            assert(input.encrypted_bets@.take(i + 1).drop_last() =~= input.encrypted_bets@.take(
                i as int,
            ));
            assert(input.encrypted_bets@.take(i + 1).last() == input.encrypted_bets@[i as int]);
        }
        let blob_len: usize = input.encrypted_bets[i].encrypted_blob.len();
        if blob_len >= 9 {
            let bet: DecryptedBet = ctx.decrypt_and_parse(
                input.encrypted_bets[i].encrypted_blob.as_slice(),
            );
            let ghost old_models = models_of(decrypted@);
            decrypted.push(bet);
            proof {
                assert(models_of(decrypted@) =~= old_models.push(bet_model(bet)));
                assert(models_of(decrypted@) =~= decoded_models(
                    input.encrypted_bets@.take(i + 1),
                ));
            }
        } else {
            proof {
                assert(models_of(decrypted@) =~= decoded_models(
                    input.encrypted_bets@.take(i + 1),
                ));
            }
        }
        i = i + 1;
    }
    proof {
        assert(input.encrypted_bets@.take(input.encrypted_bets@.len() as int)
            =~= input.encrypted_bets@);
    }
    if decrypted.len() == 0 {
        return Err(ResolveError::AllBetsMalformed);
    }
    proof {
        lemma_decoded_wf(input.encrypted_bets@);
    }
    let pools: (u64, u64) = aggregate_pools(&ctx, &decrypted);
    let pool_yes: u64 = pools.0;
    let pool_no: u64 = pools.1;
    let total_pool: u64 = ctx.secure_add(pool_yes, pool_no);
    let winning_choice: u8 = match &input.encrypted_oracle {
        Some(oracle_data) => {
            match parse_oracle_report(oracle_data) {
                Ok(report) => report.outcome,
                Err(e) => {
                    return Err(e);
                },
            }
        },
        None => ctx.secure_if_else(pool_yes > pool_no, 1u8, 0u8),
    };
    let fee_raw: u64 = ctx.secure_mul_div(total_pool, input.fee_bps as u64, 10000);
    let distributable: u64 = total_pool.saturating_sub(fee_raw);
    let winners_pool: u64 = if winning_choice == 1 {
        pool_yes
    } else {
        pool_no
    };
    let fee_amount: u64 = if winners_pool == 0 {
        0
    } else {
        fee_raw
    };
    let payouts: Vec<Payout> = compute_payouts(
        &ctx,
        &decrypted,
        winning_choice,
        distributable,
        winners_pool,
    );
    let market_id: String = hex_string(&input.market_id);
    let timestamp: i64 = ctx.now_unix();
    let result = MarketResult {
        market_id,
        winning_choice,
        total_pool,
        fee_amount,
        payouts,
        timestamp,
    };
    proof {
        lemma_hex_of_ascii(input.market_id@);
        assert forall|j: int| 0 <= j < result.payouts@.len() implies vstd::utf8::is_ascii_chars(
            #[trigger] result.payouts@[j].recipient@,
        ) by {
            assert(payout_model(result.payouts@[j]).0 == hex_of(spec_models(input)[j].pubkey));
            lemma_hex_of_ascii(spec_models(input)[j].pubkey);
        }
        assert(result_wf(result));
    }
    let result_bytes: Vec<u8> = encode_result(&result);
    let signature: Vec<u8> = ctx.sign_result(&result_bytes);
    Ok(MXEOutput { result, signature })
}

/// Fund conservation. With no winner, the refunds plus the (zero) fee sum
/// exactly to the pool. Otherwise the payouts plus the fee never exceed
/// the pool and fall short of it only by the floor-rounding dust, which is
/// below the winners' pool; the dust is retained, never distributed. The
/// law holds whenever the exact stake sum fits in 64 bits, so that the
/// saturating pool aggregation is exact.
pub proof fn lemma_resolution_conservation(input: MXEInput, out: MXEOutput)
    requires
        resolve_ok(input, out),
        input.fee_bps <= 10000,
        (match input.encrypted_oracle {
            Some(d) => oracle_wf(d@),
            None => true,
        }),
        stake_sum(spec_models(input)) <= u64::MAX,
    ensures
        spec_winners_pool(input) == 0 ==> amounts_total(out.result.payouts@)
            + out.result.fee_amount == out.result.total_pool,
        spec_winners_pool(input) > 0 ==> amounts_total(out.result.payouts@)
            + out.result.fee_amount <= out.result.total_pool,
        spec_winners_pool(input) > 0 ==> amounts_total(out.result.payouts@)
            + out.result.fee_amount >= out.result.total_pool - (spec_winners_pool(input) - 1),
{
    let models = spec_models(input);
    let wc = spec_winning_choice(input);
    let w = spec_winners_pool(input);
    let d = spec_distributable(input);
    lemma_decoded_wf(input.encrypted_bets@);
    lemma_pool_exact(models, 0);
    lemma_pool_exact(models, 1);
    lemma_stake_sum_partition(models);
    lemma_stake_sum_parts(models, wc);
    assert(spec_total_pool(input) == stake_sum(models));
    assert(wc == 0 || wc == 1);
    assert(w == stake_sum_for(models, wc));
    assert forall|i: int| 0 <= i < models.len() implies (#[trigger] out.result.payouts@[i].payout)
        == payout_amount(models[i], wc, d, w) by {
        assert(payout_model(out.result.payouts@[i]).1 == payout_amount(models[i], wc, d, w));
    }
    lemma_amounts_match(out.result.payouts@, models, wc, d, w);
    if w == 0 {
        lemma_zero_winner_refund(models, wc, d);
    } else {
        lemma_fee_bounds(spec_total_pool(input), input.fee_bps);
        assert(d == spec_total_pool(input) - spec_fee(spec_total_pool(input), input.fee_bps));
        lemma_conservation_normal(models, wc, d, w);
    }
}

/// Determinism: two resolutions of the same request produce the same
/// result model, hence byte-identical canonical serializations and
/// identical attestation signatures.
pub proof fn lemma_resolution_deterministic(input: MXEInput, out1: MXEOutput, out2: MXEOutput)
    requires
        resolve_ok(input, out1),
        resolve_ok(input, out2),
    ensures
        result_model(out1.result) == result_model(out2.result),
        spec_encode(out1.result) == spec_encode(out2.result),
        out1.signature@ == out2.signature@,
{
    let models = spec_models(input);
    assert forall|i: int| 0 <= i < models.len() implies #[trigger] payout_model(
        out1.result.payouts@[i],
    ) == payout_model(out2.result.payouts@[i]) by {
    }
    assert(result_model(out1.result).payouts =~= result_model(out2.result).payouts);
    assert(result_model(out1.result) =~= result_model(out2.result));
    crate::encoding::lemma_encode_congruent(out1.result, out2.result);
}

/// The zero-winner refund policy: when no wager backed the winning side,
/// every wager is paid back exactly its stake and no fee is extracted.
pub proof fn lemma_zero_winner_policy(input: MXEInput, out: MXEOutput)
    requires
        resolve_ok(input, out),
        spec_winners_pool(input) == 0,
    ensures
        out.result.fee_amount == 0,
        forall|i: int|
            0 <= i < spec_models(input).len() ==> payout_model(
                #[trigger] out.result.payouts@[i],
            ).1 == spec_models(input)[i].stake,
{
}

/// Recipient uniqueness: when the decoded wagers carry pairwise distinct
/// chooser identities, each recipient appears at most once in the payout
/// list. (Two wagers with one chooser necessarily repeat the recipient,
/// so distinct identities are the condition under which the invariant can
/// hold at all.)
pub proof fn lemma_recipients_unique(input: MXEInput, out: MXEOutput)
    requires
        resolve_ok(input, out),
        forall|i: int, j: int|
            0 <= i < j < spec_models(input).len() ==> (#[trigger] spec_models(input)[i].pubkey)
                != (#[trigger] spec_models(input)[j].pubkey),
    ensures
        forall|i: int, j: int|
            0 <= i < j < out.result.payouts@.len() ==> (
            #[trigger] out.result.payouts@[i].recipient@) != (
            #[trigger] out.result.payouts@[j].recipient@),
{
    let models = spec_models(input);
    assert forall|i: int, j: int| 0 <= i < j < out.result.payouts@.len() implies (
    #[trigger] out.result.payouts@[i].recipient@) != (
    #[trigger] out.result.payouts@[j].recipient@) by {
        assert(payout_model(out.result.payouts@[i]).0 == hex_of(models[i].pubkey));
        assert(payout_model(out.result.payouts@[j]).0 == hex_of(models[j].pubkey));
        if out.result.payouts@[i].recipient@ == out.result.payouts@[j].recipient@ {
            crate::hexcode::lemma_hex_of_injective(models[i].pubkey, models[j].pubkey);
        }
    }
}

/// The majority tie-break: with no oracle report and equal pools, the
/// winning side is NO.
pub proof fn lemma_tie_resolves_to_no(input: MXEInput, out: MXEOutput)
    requires
        resolve_ok(input, out),
        input.encrypted_oracle is None,
        spec_pool_yes(input) == spec_pool_no(input),
    ensures
        out.result.winning_choice == 0,
{
    lemma_majority_tie_break(spec_pool_yes(input), spec_pool_no(input));
}

} // verus!

//! Pool aggregation, outcome selection, and proportional payout.
//!
//! The calculator aggregates per-choice pools with saturating addition,
//! applies the protocol fee in basis points with truncating fixed-point
//! arithmetic, and pays each winning wager its proportional share of the
//! distributable pool. When no wager backed the winning side, every wager
//! is refunded in full and no fee is retained.

use vstd::prelude::*;
use vstd::arithmetic::div_mod::{lemma_div_is_ordered, lemma_fundamental_div_mod, lemma_mod_bound};
use crate::types::{BetModel, DecryptedBet, Payout, bet_model, payout_model};
use crate::mpc::{MPCContext, sat_add, spec_mul_div};
use crate::hexcode::{encode_pubkey, hex_of};

verus! {

/// Models of a list of decrypted bets, in order.
pub open spec fn models_of(bets: Seq<DecryptedBet>) -> Seq<BetModel> {
    bets.map(|i: int, b: DecryptedBet| bet_model(b))
}

/// Every choice in the list is a valid side.
pub open spec fn choices_wf(bets: Seq<BetModel>) -> bool {
    forall|i: int| 0 <= i < bets.len() ==> (#[trigger] bets[i].choice == 0 || bets[i].choice == 1)
}

/// The pool for one side: the saturating sum, in bet order, of the stakes
/// that back it.
pub open spec fn pool_for(bets: Seq<BetModel>, c: u8) -> u64
    decreases bets.len(),
{
    if bets.len() == 0 {
        0u64
    } else {
        sat_add(
            pool_for(bets.drop_last(), c),
            if bets.last().choice == c {
                bets.last().stake
            } else {
                0u64
            },
        )
    }
}

/// The exact (unbounded) sum of all stakes.
pub open spec fn stake_sum(bets: Seq<BetModel>) -> int
    decreases bets.len(),
{
    if bets.len() == 0 {
        0
    } else {
        stake_sum(bets.drop_last()) + bets.last().stake
    }
}

/// The exact (unbounded) sum of the stakes backing one side.
pub open spec fn stake_sum_for(bets: Seq<BetModel>, c: u8) -> int
    decreases bets.len(),
{
    if bets.len() == 0 {
        0
    } else {
        stake_sum_for(bets.drop_last(), c) + if bets.last().choice == c {
            bets.last().stake as int
        } else {
            0
        }
    }
}

/// How many wagers back side `c` with a positive stake.
pub open spec fn positive_count_for(bets: Seq<BetModel>, c: u8) -> int
    decreases bets.len(),
{
    if bets.len() == 0 {
        0
    } else {
        positive_count_for(bets.drop_last(), c) + if bets.last().choice == c
            && bets.last().stake >= 1 {
            1int
        } else {
            0int
        }
    }
}

/// The winning side under the majority-stake fallback rule: YES exactly
/// when its pool is strictly larger; a tie resolves to NO.
pub open spec fn majority_choice(pool_yes: u64, pool_no: u64) -> u8 {
    if pool_yes > pool_no {
        1u8
    } else {
        0u8
    }
}

/// The fee retained from the pool, in basis points, rounded down.
pub open spec fn spec_fee(total_pool: u64, fee_bps: u16) -> u64 {
    spec_mul_div(total_pool, fee_bps as u64, 10000)
}

/// What one wager is paid: its full stake back when nobody backed the
/// winning side; its proportional floor share of the distributable pool
/// when it won; nothing when it lost.
pub open spec fn payout_amount(
    b: BetModel,
    winning_choice: u8,
    distributable: u64,
    winners_pool: u64,
) -> u64 {
    if winners_pool == 0 {
        b.stake
    } else if b.choice == winning_choice {
        spec_mul_div(distributable, b.stake, winners_pool)
    } else {
        0u64
    }
}

/// The exact (unbounded) sum of every wager's payout.
pub open spec fn payout_sum(
    bets: Seq<BetModel>,
    winning_choice: u8,
    distributable: u64,
    winners_pool: u64,
) -> int
    decreases bets.len(),
{
    if bets.len() == 0 {
        0
    } else {
        payout_sum(bets.drop_last(), winning_choice, distributable, winners_pool)
            + payout_amount(bets.last(), winning_choice, distributable, winners_pool)
    }
}

/// Stake sums are non-negative and a side's sum never exceeds the whole;
/// the positively-staked count for a side is bounded by that side's sum.
pub proof fn lemma_stake_sum_parts(bets: Seq<BetModel>, c: u8)
    ensures
        0 <= stake_sum(bets),
        0 <= stake_sum_for(bets, c) <= stake_sum(bets),
        0 <= positive_count_for(bets, c) <= stake_sum_for(bets, c),
    decreases bets.len(),
{
    if bets.len() > 0 {
        lemma_stake_sum_parts(bets.drop_last(), c);
    }
}

/// For valid choices the two sides partition the whole stake sum.
pub proof fn lemma_stake_sum_partition(bets: Seq<BetModel>)
    requires
        choices_wf(bets),
    ensures
        stake_sum_for(bets, 0) + stake_sum_for(bets, 1) == stake_sum(bets),
    decreases bets.len(),
{
    if bets.len() > 0 {
        assert(choices_wf(bets.drop_last())) by {
            assert(forall|i: int|
                0 <= i < bets.drop_last().len() ==> bets.drop_last()[i] == bets[i]);
        }
        lemma_stake_sum_partition(bets.drop_last());
    }
}

/// As long as the exact stake sum fits in 64 bits, the saturating pool
/// fold computes the exact per-side sum.
pub proof fn lemma_pool_exact(bets: Seq<BetModel>, c: u8)
    requires
        stake_sum(bets) <= u64::MAX,
    ensures
        pool_for(bets, c) == stake_sum_for(bets, c),
    decreases bets.len(),
{
    if bets.len() > 0 {
        lemma_stake_sum_parts(bets.drop_last(), c);
        lemma_pool_exact(bets.drop_last(), c);
        lemma_stake_sum_parts(bets, c);
    }
}

/// Bounds on one winner's floor share: `W` times the share stays within
/// `W - 1` of the exact product, the share never exceeds the whole
/// distributable amount, and a zero stake earns exactly zero.
pub proof fn lemma_share_bounds(d: u64, s: u64, w: u64)
    requires
        w > 0,
        s <= w,
    ensures
        spec_mul_div(d, s, w) == (d * s) / (w as int),
        w * spec_mul_div(d, s, w) <= d * s,
        w * spec_mul_div(d, s, w) >= d * s - (w - 1),
        spec_mul_div(d, s, w) <= d,
        s == 0 ==> spec_mul_div(d, s, w) == 0,
{
    let x = d * s;
    let q = x / (w as int);
    assert(d * s >= 0) by (nonlinear_arith)
        requires
            d >= 0,
            s >= 0,
    ;
    lemma_fundamental_div_mod(x, w as int);
    lemma_mod_bound(x, w as int);
    assert(d * s <= d * w) by (nonlinear_arith)
        requires
            s <= w,
            d >= 0,
    ;
    lemma_div_is_ordered(x, d * w, w as int);
    assert((d * w) / (w as int) == d) by {
        vstd::arithmetic::div_mod::lemma_div_multiples_vanish(d as int, w as int);
        assert(d * w == (w as int) * (d as int)) by (nonlinear_arith);
    }
    assert(0 <= q) by {
        vstd::arithmetic::div_mod::lemma_div_basics(w as int);
        lemma_div_is_ordered(0, x, w as int);
    }
    assert(q < 0x10000000000000000);
    assert(spec_mul_div(d, s, w) == q);
    if s == 0 {
        assert(d * s == 0) by (nonlinear_arith)
            requires
                s == 0,
        ;
        assert(q == 0) by {
            vstd::arithmetic::div_mod::lemma_div_basics(w as int);
        }
    }
}

/// The inductive heart of conservation: over any prefix of the bet list,
/// `W` times the paid sum tracks the exact product of the distributable
/// amount and the winning stakes covered so far, losing less than one unit
/// of `W` per positively-staked winner.
proof fn lemma_payout_sum_tracks(bets: Seq<BetModel>, wc: u8, d: u64, w: u64)
    requires
        w > 0,
        stake_sum_for(bets, wc) <= w,
    ensures
        0 <= payout_sum(bets, wc, d, w),
        w * payout_sum(bets, wc, d, w) <= d * stake_sum_for(bets, wc),
        w * payout_sum(bets, wc, d, w) >= d * stake_sum_for(bets, wc) - (w - 1)
            * positive_count_for(bets, wc),
    decreases bets.len(),
{
    if bets.len() == 0 {
        assert(w * 0 == 0) by (nonlinear_arith);
        assert(d * 0 == 0) by (nonlinear_arith);
    } else {
        let rest = bets.drop_last();
        let b = bets.last();
        lemma_stake_sum_parts(rest, wc);
        lemma_stake_sum_parts(bets, wc);
        lemma_payout_sum_tracks(rest, wc, d, w);
        let p0 = payout_sum(rest, wc, d, w);
        let s0 = stake_sum_for(rest, wc);
        let c0 = positive_count_for(rest, wc);
        let t = payout_amount(b, wc, d, w);
        if b.choice == wc {
            assert(b.stake <= w);
            lemma_share_bounds(d, b.stake, w);
            assert(w * (p0 + t) == w * p0 + w * t) by (nonlinear_arith);
            assert(d * (s0 + b.stake) == d * s0 + d * b.stake) by (nonlinear_arith);
            if b.stake >= 1 {
                assert((w - 1) * (c0 + 1) == (w - 1) * c0 + (w - 1)) by (nonlinear_arith);
            } else {
                assert(t == 0);
                assert(d * b.stake == 0) by (nonlinear_arith)
                    requires
                        b.stake == 0,
                ;
            }
        } else {
            assert(t == 0 || w == 0);
            assert(w * (p0 + t) == w * p0 + w * t) by (nonlinear_arith);
            assert(w * 0 == 0) by (nonlinear_arith);
        }
    }
}

/// Conservation in the normal case: when the winning stakes sum exactly to
/// `W > 0`, the paid sum falls short of the distributable amount by less
/// than `W`, and never exceeds it. The shortfall is the retained dust.
pub proof fn lemma_conservation_normal(bets: Seq<BetModel>, wc: u8, d: u64, w: u64)
    requires
        w > 0,
        stake_sum_for(bets, wc) == w,
    ensures
        payout_sum(bets, wc, d, w) <= d,
        payout_sum(bets, wc, d, w) >= d - (w - 1),
{
    lemma_payout_sum_tracks(bets, wc, d, w);
    lemma_stake_sum_parts(bets, wc);
    let p = payout_sum(bets, wc, d, w);
    let c = positive_count_for(bets, wc);
    assert((w - 1) * c <= (w - 1) * w) by (nonlinear_arith)
        requires
            0 <= c <= w,
            w > 0,
    ;
    assert(w * p >= d * w - (w - 1) * w);
    assert(p >= d - (w - 1)) by (nonlinear_arith)
        requires
            w * p >= d * w - (w - 1) * w,
            w > 0,
    ;
    assert(p <= d) by (nonlinear_arith)
        requires
            w * p <= d * w,
            w > 0,
    ;
}

/// Conservation in the zero-winner case: every wager is refunded its full
/// stake, so the paid sum is exactly the stake sum.
pub proof fn lemma_zero_winner_refund(bets: Seq<BetModel>, wc: u8, d: u64)
    ensures
        payout_sum(bets, wc, d, 0) == stake_sum(bets),
        forall|i: int|
            0 <= i < bets.len() ==> payout_amount(#[trigger] bets[i], wc, d, 0) == bets[i].stake,
    decreases bets.len(),
{
    if bets.len() > 0 {
        lemma_zero_winner_refund(bets.drop_last(), wc, d);
        assert(forall|i: int| 0 <= i < bets.len() - 1 ==> bets.drop_last()[i] == bets[i]);
    }
}

/// The majority tie-break: equal pools with no oracle resolve to NO.
pub proof fn lemma_majority_tie_break(pool_yes: u64, pool_no: u64)
    requires
        pool_yes == pool_no,
    ensures
        majority_choice(pool_yes, pool_no) == 0,
{
}

/// With the fee rate at or below the full 10000 basis points, the fee is
/// the exact floor of `total * bps / 10000` and never exceeds the pool.
pub proof fn lemma_fee_bounds(total_pool: u64, fee_bps: u16)
    requires
        fee_bps <= 10000,
    ensures
        spec_fee(total_pool, fee_bps) == (total_pool * fee_bps) / 10000,
        spec_fee(total_pool, fee_bps) <= total_pool,
{
    let x = total_pool * fee_bps;
    let q = x / 10000;
    assert(total_pool * fee_bps >= 0) by (nonlinear_arith)
        requires
            total_pool >= 0,
            fee_bps >= 0,
    ;
    assert(total_pool * fee_bps <= total_pool * 10000) by (nonlinear_arith)
        requires
            fee_bps <= 10000,
            total_pool >= 0,
    ;
    lemma_div_is_ordered(0, x, 10000);
    lemma_div_is_ordered(x, total_pool * 10000, 10000);
    assert((total_pool * 10000) / 10000 == total_pool) by {
        vstd::arithmetic::div_mod::lemma_div_multiples_vanish(total_pool as int, 10000);
        assert(total_pool * 10000 == 10000 * (total_pool as int)) by (nonlinear_arith);
    }
    assert(q < 0x10000000000000000);
}

/// The exact (unbounded) sum of the amounts in a produced payout list.
pub open spec fn amounts_total(ps: Seq<Payout>) -> int
    decreases ps.len(),
{
    if ps.len() == 0 {
        0
    } else {
        amounts_total(ps.drop_last()) + ps.last().payout
    }
}

/// A payout list whose entries carry exactly the computed amounts sums to
/// the computed payout sum.
pub proof fn lemma_amounts_match(
    ps: Seq<Payout>,
    bets: Seq<BetModel>,
    wc: u8,
    d: u64,
    w: u64,
)
    requires
        ps.len() == bets.len(),
        forall|i: int|
            0 <= i < bets.len() ==> (#[trigger] ps[i].payout) == payout_amount(bets[i], wc, d, w),
    ensures
        amounts_total(ps) == payout_sum(bets, wc, d, w),
    decreases ps.len(),
{
    if ps.len() > 0 {
        assert(forall|i: int| 0 <= i < bets.len() - 1 ==> ps.drop_last()[i] == ps[i]
            && bets.drop_last()[i] == bets[i]);
        lemma_amounts_match(ps.drop_last(), bets.drop_last(), wc, d, w);
    }
}

/// Aggregates the YES and NO pools from the decrypted wagers.
pub fn aggregate_pools(ctx: &MPCContext, bets: &Vec<DecryptedBet>) -> (pools: (u64, u64))
    requires
        choices_wf(models_of(bets@)),
    ensures
        pools.0 == pool_for(models_of(bets@), 1),
        pools.1 == pool_for(models_of(bets@), 0),
{
    let mut pool_yes: u64 = 0;
    let mut pool_no: u64 = 0;
    let mut i: usize = 0;
    while i < bets.len()
        invariant
            0 <= i <= bets@.len(),
            choices_wf(models_of(bets@)),
            pool_yes == pool_for(models_of(bets@).take(i as int), 1),
            pool_no == pool_for(models_of(bets@).take(i as int), 0),
        decreases bets@.len() - i,
    {
        proof {
            assert(models_of(bets@).take(i + 1).drop_last() =~= models_of(bets@).take(i as int));
            assert(models_of(bets@).take(i + 1).last() == models_of(bets@)[i as int]);
        }
        if bets[i].choice == 1 {
            pool_yes = ctx.secure_add(pool_yes, bets[i].stake);
        } else {
            pool_no = ctx.secure_add(pool_no, bets[i].stake);
            proof {
                assert(models_of(bets@)[i as int].choice == 0);
            }
        }
        i = i + 1;
    }
    proof {
        assert(models_of(bets@).take(bets@.len() as int) =~= models_of(bets@));
    }
    (pool_yes, pool_no)
}

/// Computes every wager's payout, in bet order, recipients hex-encoded.
pub fn compute_payouts(
    ctx: &MPCContext,
    bets: &Vec<DecryptedBet>,
    winning_choice: u8,
    distributable: u64,
    winners_pool: u64,
) -> (payouts: Vec<Payout>)
    ensures
        payouts@.len() == bets@.len(),
        forall|i: int|
            0 <= i < bets@.len() ==> #[trigger] payout_model(payouts@[i]) == (
                hex_of(models_of(bets@)[i].pubkey),
                payout_amount(models_of(bets@)[i], winning_choice, distributable, winners_pool),
            ),
{
    let mut payouts: Vec<Payout> = Vec::new();
    let mut i: usize = 0;
    while i < bets.len()
        invariant
            0 <= i <= bets@.len(),
            payouts@.len() == i,
            forall|j: int|
                0 <= j < i ==> #[trigger] payout_model(payouts@[j]) == (
                    hex_of(models_of(bets@)[j].pubkey),
                    payout_amount(
                        models_of(bets@)[j],
                        winning_choice,
                        distributable,
                        winners_pool,
                    ),
                ),
        decreases bets@.len() - i,
    {
        let recipient: String = encode_pubkey(&bets[i].depositor_pubkey);
        let amount: u64 = if winners_pool == 0 {
            bets[i].stake
        } else if bets[i].choice == winning_choice {
            ctx.secure_mul_div(distributable, bets[i].stake, winners_pool)
        } else {
            0
        };
        payouts.push(Payout { recipient, payout: amount });
        i = i + 1;
    }
    payouts
}

} // verus!

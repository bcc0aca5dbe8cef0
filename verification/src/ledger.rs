//! The ledger-side settlement state machine.
//!
//! A market moves `Open -> Enqueued -> Settling -> {Settled, Failed}`,
//! with `Cancelled` reachable only from `Open` and only while no bet has
//! been placed. Every operation checks its guards first and, on any
//! violation, returns the named error with the market unchanged; in
//! particular a settlement callback is accepted only while the market is
//! `Enqueued`, which makes settlement exactly-once: a replayed callback
//! finds the market already advanced and is rejected with no transfer.

use vstd::prelude::*;
use vstd::slice::slice_to_vec;
use vstd::string::StrSliceExecFns;
use crate::attest::{spec_sign, verify_bytes};
use crate::digest::{digest_of, digest32};
use crate::encoding::{DecodedResult, parse_result, payouts_model, spec_parse};
use crate::hexcode::{ascii_bytes, hex_of, hex_string};
use crate::types::bytes_eq;

verus! {

/// Longest question a market may carry, in characters.
pub const MAX_QUESTION_LEN: usize = 280;

/// Largest encrypted payload a bet may carry, in bytes.
pub const MAX_BLOB_LEN: usize = 512;

/// The lifecycle of a market. `Open` is initial; `Settled`, `Failed` and
/// `Cancelled` are terminal, and no state is ever revisited.
#[derive(Clone, Copy, Debug, PartialEq, Eq, Structural)]
pub enum MarketState {
    Open,
    Enqueued,
    Settling,
    Settled,
    Failed,
    Cancelled,
}

/// The lifecycle of an off-ledger resolution request.
#[derive(Clone, Copy, Debug, PartialEq, Eq, Structural)]
pub enum JobStatus {
    Pending,
    Running,
    Completed,
    Failed,
}

/// Every guard a ledger operation can reject with.
#[derive(Clone, Copy, Debug, PartialEq, Eq, Structural)]
pub enum ErrorCode {
    QuestionTooLong,
    InvalidDeadline,
    MarketNotOpen,
    DeadlinePassed,
    BlobTooLarge,
    InvalidAmount,
    InvalidMarketState,
    DeadlineNotReached,
    CannotCancelWithBets,
    Unauthorized,
    InvalidMXESignature,
    MalformedResult,
    ResultMarketMismatch,
}

/// One fund transfer owed by a settlement: the encoded recipient identity
/// and the amount to move out of escrow.
#[derive(Clone, Debug)]
pub struct Payout {
    pub recipient: Vec<u8>,
    pub amount: u64,
}

/// A binary prediction market as the ledger stores it.
#[derive(Debug)]
pub struct Market {
    pub market_id: Vec<u8>,
    pub creator: Vec<u8>,
    pub question: String,
    pub deadline: i64,
    pub mxe_program_id: Vec<u8>,
    pub escrow_vault: Vec<u8>,
    pub total_pool: u64,
    pub state: MarketState,
    pub result_hash: [u8; 32],
    pub bet_count: u64,
}

/// The append-only record of one deposited bet.
#[derive(Debug)]
pub struct BetLog {
    pub market: Vec<u8>,
    pub depositor: Vec<u8>,
    pub amount: u64,
    pub encrypted_blob: Vec<u8>,
    pub timestamp: i64,
    pub choice_hint: u8,
}

/// The record of one resolution request.
#[derive(Debug)]
pub struct ResolutionJob {
    pub market: Vec<u8>,
    pub status: JobStatus,
    pub callback_account: Vec<u8>,
    pub timestamp: i64,
}

/// The forward order of the market lifecycle: from each state only the
/// states the transition graph allows are reachable, terminal states only
/// themselves, and no state is ever revisited.
pub open spec fn state_advances(a: MarketState, b: MarketState) -> bool {
    match a {
        MarketState::Open => (b == MarketState::Open || b == MarketState::Enqueued
            || b == MarketState::Cancelled),
        MarketState::Enqueued => (b == MarketState::Enqueued || b == MarketState::Settling
            || b == MarketState::Settled || b == MarketState::Failed),
        MarketState::Settling => (b == MarketState::Settling || b == MarketState::Settled
            || b == MarketState::Failed),
        MarketState::Settled => b == MarketState::Settled,
        MarketState::Failed => b == MarketState::Failed,
        MarketState::Cancelled => b == MarketState::Cancelled,
    }
}

/// The fields a settlement transition never touches.
pub open spec fn same_but_state_and_hash(a: Market, b: Market) -> bool {
    &&& a.market_id == b.market_id
    &&& a.creator == b.creator
    &&& a.question == b.question
    &&& a.deadline == b.deadline
    &&& a.mxe_program_id == b.mxe_program_id
    &&& a.escrow_vault == b.escrow_vault
    &&& a.total_pool == b.total_pool
    &&& a.bet_count == b.bet_count
}

/// Creates a market in its initial state. Rejects an over-long question
/// and a deadline that is not in the future.
pub fn create_market(
    market_id: Vec<u8>,
    creator: Vec<u8>,
    question: String,
    deadline: i64,
    now: i64,
    mxe_program_id: Vec<u8>,
    escrow_vault: Vec<u8>,
) -> (r: Result<Market, ErrorCode>)
    ensures
        question@.len() > MAX_QUESTION_LEN ==> (r matches Err(e) && e
            == ErrorCode::QuestionTooLong),
        question@.len() <= MAX_QUESTION_LEN && deadline <= now ==> (r matches Err(e) && e
            == ErrorCode::InvalidDeadline),
        question@.len() <= MAX_QUESTION_LEN && deadline > now ==> (r matches Ok(m) && {
            &&& m.market_id == market_id
            &&& m.creator == creator
            &&& m.question == question
            &&& m.deadline == deadline
            &&& m.mxe_program_id == mxe_program_id
            &&& m.escrow_vault == escrow_vault
            &&& m.total_pool == 0
            &&& m.state == MarketState::Open
            &&& m.result_hash@ =~= Seq::new(32, |i: int| 0u8)
            &&& m.bet_count == 0
        }),
{
    if question.as_str().unicode_len() > MAX_QUESTION_LEN {
        return Err(ErrorCode::QuestionTooLong);
    }
    if deadline <= now {
        return Err(ErrorCode::InvalidDeadline);
    }
    Ok(
        Market {
            market_id,
            creator,
            question,
            deadline,
            mxe_program_id,
            escrow_vault,
            total_pool: 0,
            state: MarketState::Open,
            result_hash: [0u8;32],
            bet_count: 0,
        },
    )
}

/// The guard a deposit must pass, in the order the guards are checked.
pub open spec fn deposit_guard(m: Market, blob_len: nat, amount: u64, now: i64) -> Option<
    ErrorCode,
> {
    if m.state != MarketState::Open {
        Some(ErrorCode::MarketNotOpen)
    } else if now >= m.deadline {
        Some(ErrorCode::DeadlinePassed)
    } else if blob_len > MAX_BLOB_LEN {
        Some(ErrorCode::BlobTooLarge)
    } else if amount == 0 {
        Some(ErrorCode::InvalidAmount)
    } else {
        None
    }
}

impl Market {
    /// Accepts an encrypted bet while the market is open and before its
    /// deadline, moving the declared amount into the pool and appending a
    /// bet record. The untrusted choice hint is stored for display only.
    pub fn deposit_bet(
        &mut self,
        depositor: Vec<u8>,
        encrypted_blob: Vec<u8>,
        choice: u8,
        amount: u64,
        now: i64,
    ) -> (r: Result<BetLog, ErrorCode>)
        requires
            deposit_guard(*old(self), encrypted_blob@.len(), amount, now) is None ==> old(
                self,
            ).total_pool + amount <= u64::MAX && old(self).bet_count + 1 <= u64::MAX,
        ensures
            state_advances(old(self).state, final(self).state),
            (match deposit_guard(*old(self), encrypted_blob@.len(), amount, now) {
                Some(e) => r matches Err(e2) && e2 == e && *final(self) == *old(self),
                None => r matches Ok(log) && {
                    &&& log.market@ == old(self).market_id@
                    &&& log.depositor == depositor
                    &&& log.amount == amount
                    &&& log.encrypted_blob == encrypted_blob
                    &&& log.timestamp == now
                    &&& log.choice_hint == choice
                    &&& final(self).total_pool == old(self).total_pool + amount
                    &&& final(self).bet_count == old(self).bet_count + 1
                    &&& final(self).state == MarketState::Open
                    &&& final(self).market_id == old(self).market_id
                    &&& final(self).creator == old(self).creator
                    &&& final(self).question == old(self).question
                    &&& final(self).deadline == old(self).deadline
                    &&& final(self).mxe_program_id == old(self).mxe_program_id
                    &&& final(self).escrow_vault == old(self).escrow_vault
                    &&& final(self).result_hash == old(self).result_hash
                },
            }),
    {
        if !matches!(self.state, MarketState::Open) {
            return Err(ErrorCode::MarketNotOpen);
        }
        if now >= self.deadline {
            return Err(ErrorCode::DeadlinePassed);
        }
        if encrypted_blob.len() > MAX_BLOB_LEN {
            return Err(ErrorCode::BlobTooLarge);
        }
        if amount == 0 {
            return Err(ErrorCode::InvalidAmount);
        }
        let log = BetLog {
            market: self.market_id.clone(),
            depositor,
            amount,
            encrypted_blob,
            timestamp: now,
            choice_hint: choice,
        };
        self.total_pool = self.total_pool + amount;
        self.bet_count = self.bet_count + 1;
        Ok(log)
    }

    /// Enqueues the market for resolution once its deadline has passed,
    /// creating the pending resolution job.
    pub fn enqueue_resolution(&mut self, now: i64) -> (r: Result<ResolutionJob, ErrorCode>)
        ensures
            state_advances(old(self).state, final(self).state),
            old(self).state != MarketState::Open ==> (r matches Err(e) && e
                == ErrorCode::InvalidMarketState && *final(self) == *old(self)),
            old(self).state == MarketState::Open && now < old(self).deadline ==> (r matches Err(e)
                && e == ErrorCode::DeadlineNotReached && *final(self) == *old(self)),
            old(self).state == MarketState::Open && now >= old(self).deadline ==> (r matches Ok(
                job,
            ) && {
                &&& job.market@ == old(self).market_id@
                &&& job.status == JobStatus::Pending
                &&& job.callback_account@ == old(self).market_id@
                &&& job.timestamp == now
                &&& final(self).state == MarketState::Enqueued
                &&& same_but_state_and_hash(*old(self), *final(self))
                &&& final(self).result_hash == old(self).result_hash
            }),
    {
        if !matches!(self.state, MarketState::Open) {
            return Err(ErrorCode::InvalidMarketState);
        }
        if now < self.deadline {
            return Err(ErrorCode::DeadlineNotReached);
        }
        self.state = MarketState::Enqueued;
        Ok(
            ResolutionJob {
                market: self.market_id.clone(),
                status: JobStatus::Pending,
                callback_account: self.market_id.clone(),
                timestamp: now,
            },
        )
    }

    /// Cancels a market. Only the creator may cancel, only while no bet
    /// has been placed, and only from `Open`, so no funds can be
    /// stranded.
    pub fn cancel_market(&mut self, caller: &Vec<u8>) -> (r: Result<(), ErrorCode>)
        ensures
            state_advances(old(self).state, final(self).state),
            old(self).bet_count != 0 ==> (r matches Err(e) && e == ErrorCode::CannotCancelWithBets
                && *final(self) == *old(self)),
            old(self).bet_count == 0 && old(self).creator@ != caller@ ==> (r matches Err(e) && e
                == ErrorCode::Unauthorized && *final(self) == *old(self)),
            old(self).bet_count == 0 && old(self).creator@ == caller@ && old(self).state
                != MarketState::Open ==> (r matches Err(e) && e == ErrorCode::InvalidMarketState
                && *final(self) == *old(self)),
            old(self).bet_count == 0 && old(self).creator@ == caller@ && old(self).state
                == MarketState::Open ==> (r is Ok && final(self).state == MarketState::Cancelled
                && same_but_state_and_hash(*old(self), *final(self)) && final(self).result_hash
                == old(self).result_hash),
    {
        if self.bet_count != 0 {
            return Err(ErrorCode::CannotCancelWithBets);
        }
        if !bytes_eq(&self.creator, caller) {
            return Err(ErrorCode::Unauthorized);
        }
        if !matches!(self.state, MarketState::Open) {
            return Err(ErrorCode::InvalidMarketState);
        }
        self.state = MarketState::Cancelled;
        Ok(())
    }
}

/// The guard a settlement callback must pass, in the order the guards are
/// checked: the market must be awaiting its result, the signature must be
/// the attestation of exactly these bytes, the bytes must parse as a
/// canonical result, and that result must name this market.
pub open spec fn settle_guard(m: Market, bytes: Seq<u8>, sig: Seq<u8>) -> Option<ErrorCode> {
    if m.state != MarketState::Enqueued {
        Some(ErrorCode::InvalidMarketState)
    } else if sig != spec_sign(bytes) {
        Some(ErrorCode::InvalidMXESignature)
    } else if spec_parse(bytes) is None {
        Some(ErrorCode::MalformedResult)
    } else if spec_parse(bytes).unwrap().market_id != ascii_bytes(hex_of(m.market_id@)) {
        Some(ErrorCode::ResultMarketMismatch)
    } else {
        None
    }
}

/// The transfers a settlement owes: the parsed payouts with a positive
/// amount, in result order.
pub open spec fn positive_transfers(ps: Seq<(Seq<u8>, u64)>) -> Seq<(Seq<u8>, u64)>
    decreases ps.len(),
{
    if ps.len() == 0 {
        Seq::<(Seq<u8>, u64)>::empty()
    } else {
        let rest = positive_transfers(ps.drop_last());
        if ps.last().1 > 0 {
            rest.push(ps.last())
        } else {
            rest
        }
    }
}

/// An accepted settlement callback: the market has advanced to
/// `Settling` and nothing else changed.
pub open spec fn settle_step(pre: Market, post: Market) -> bool {
    &&& same_but_state_and_hash(pre, post)
    &&& post.result_hash == pre.result_hash
    &&& post.state == MarketState::Settling
}

impl Market {
    /// Accepts a signed settlement result. On success the market moves to
    /// `Settling` and the owed transfers are returned for the escrow
    /// authority to execute; `finish_settlement` then records the final
    /// state. Any guard violation leaves the market exactly as it was, so
    /// a correctly signed callback can be retried.
    pub fn callback_settle(&mut self, mxe_result: &Vec<u8>, result_signature: &Vec<u8>) -> (r:
        Result<Vec<Payout>, ErrorCode>)
        ensures
            state_advances(old(self).state, final(self).state),
            (match settle_guard(*old(self), mxe_result@, result_signature@) {
                Some(e) => r matches Err(e2) && e2 == e && *final(self) == *old(self),
                None => r matches Ok(v) && payouts_model(v@) == positive_transfers(
                    spec_parse(mxe_result@).unwrap().payouts,
                ) && settle_step(*old(self), *final(self)),
            }),
    {
        if !matches!(self.state, MarketState::Enqueued) {
            return Err(ErrorCode::InvalidMarketState);
        }
        if !verify_bytes(mxe_result, result_signature) {
            return Err(ErrorCode::InvalidMXESignature);
        }
        let decoded: DecodedResult = match parse_result(mxe_result) {
            Some(d) => d,
            None => {
                return Err(ErrorCode::MalformedResult);
            },
        };
        let own_id: String = hex_string(&self.market_id);
        let own_id_str: &str = own_id.as_str();
        proof {
            crate::hexcode::lemma_hex_of_ascii(self.market_id@);
            vstd::string::is_ascii_spec_bytes(own_id_str);
        }
        let own_id_bytes: Vec<u8> = slice_to_vec(own_id_str.as_bytes());
        proof {
            assert(own_id_bytes@ =~= ascii_bytes(hex_of(self.market_id@)));
        }
        if !bytes_eq(&decoded.market_id, &own_id_bytes) {
            return Err(ErrorCode::ResultMarketMismatch);
        }
        let mut transfers: Vec<Payout> = Vec::new();
        let mut i: usize = 0;
        proof {
            assert(payouts_model(decoded.payouts@) == spec_parse(mxe_result@).unwrap().payouts);
        }
        while i < decoded.payouts.len()
            invariant
                0 <= i <= decoded.payouts@.len(),
                payouts_model(transfers@) == positive_transfers(
                    payouts_model(decoded.payouts@).take(i as int),
                ),
            decreases decoded.payouts@.len() - i,
        {
            proof {
                assert(payouts_model(decoded.payouts@).take(i + 1).drop_last() =~= payouts_model(
                    decoded.payouts@,
                ).take(i as int));
                assert(payouts_model(decoded.payouts@).take(i + 1).last() == payouts_model(
                    decoded.payouts@,
                )[i as int]);
            }
            if decoded.payouts[i].amount > 0 {
                let ghost old_transfers = transfers@;
                transfers.push(
                    Payout {
                        recipient: decoded.payouts[i].recipient.clone(),
                        amount: decoded.payouts[i].amount,
                    },
                );
                proof {
                    assert(payouts_model(transfers@) =~= payouts_model(old_transfers).push(
                        payouts_model(decoded.payouts@)[i as int],
                    ));
                }
            }
            i = i + 1;
        }
        proof {
            assert(payouts_model(decoded.payouts@).take(decoded.payouts@.len() as int)
                =~= payouts_model(decoded.payouts@));
        }
        self.state = MarketState::Settling;
        Ok(transfers)
    }

    /// Records the end of a settlement attempt. When every transfer
    /// succeeded the market is `Settled` and the digest of the result
    /// bytes is recorded; when the batch was aborted the market is
    /// `Failed`, so an incomplete payout is never presented as settled.
    pub fn finish_settlement(&mut self, transfers_ok: bool, mxe_result: &Vec<u8>) -> (r: Result<
        (),
        ErrorCode,
    >)
        ensures
            state_advances(old(self).state, final(self).state),
            old(self).state != MarketState::Settling ==> (r matches Err(e) && e
                == ErrorCode::InvalidMarketState && *final(self) == *old(self)),
            old(self).state == MarketState::Settling && transfers_ok ==> (r is Ok
                && final(self).state == MarketState::Settled && final(self).result_hash@
                == digest_of(mxe_result@) && same_but_state_and_hash(*old(self), *final(self))),
            old(self).state == MarketState::Settling && !transfers_ok ==> (r is Ok
                && final(self).state == MarketState::Failed && final(self).result_hash == old(
                self,
            ).result_hash && same_but_state_and_hash(*old(self), *final(self))),
    {
        if !matches!(self.state, MarketState::Settling) {
            return Err(ErrorCode::InvalidMarketState);
        }
        if transfers_ok {
            self.result_hash = digest32(mxe_result);
            self.state = MarketState::Settled;
        } else {
            self.state = MarketState::Failed;
        }
        Ok(())
    }
}

/// A settlement callback is rejected, unchanged, in every state but
/// `Enqueued`.
pub proof fn lemma_settle_rejects_unless_enqueued(m: Market, bytes: Seq<u8>, sig: Seq<u8>)
    requires
        m.state != MarketState::Enqueued,
    ensures
        settle_guard(m, bytes, sig) == Some(ErrorCode::InvalidMarketState),
{
}

/// End to end: a result the resolver produced for this market, carried as
/// its canonical bytes with its own signature, passes every settlement
/// guard of a market that awaits it — the signature verifies, the bytes
/// parse back, and the market identifier matches. Settlement therefore
/// pays exactly the payouts the computation produced.
pub proof fn lemma_signed_result_settles(
    input: crate::types::MXEInput,
    out: crate::types::MXEOutput,
    m: Market,
)
    requires
        crate::resolve::resolve_ok(input, out),
        crate::encoding::result_bounded(out.result),
        m.state == MarketState::Enqueued,
        m.market_id@ == input.market_id@,
    ensures
        settle_guard(m, crate::encoding::spec_encode(out.result), out.signature@) is None,
        spec_parse(crate::encoding::spec_encode(out.result)) == Some(
            crate::encoding::decoded_of(out.result),
        ),
{
    crate::encoding::lemma_encode_parse_round_trip(out.result);
}

/// Exactly-once settlement: once a callback has been accepted, the market
/// has left `Enqueued`, so any further callback — the same one replayed or
/// any other — fails its state guard, changes nothing, and yields no
/// transfer list.
pub proof fn lemma_settlement_idempotent(
    m0: Market,
    m1: Market,
    bytes1: Seq<u8>,
    sig1: Seq<u8>,
    bytes2: Seq<u8>,
    sig2: Seq<u8>,
)
    requires
        settle_guard(m0, bytes1, sig1) is None,
        settle_step(m0, m1),
    ensures
        settle_guard(m1, bytes2, sig2) == Some(ErrorCode::InvalidMarketState),
{
}

} // verus!

//! Data carried through the confidential resolution pipeline.

use vstd::prelude::*;
use vstd::utf8::is_ascii_chars;

verus! {

/// A wager as stored by the ledger and handed to the computation process:
/// the depositor's identity, the opaque encrypted payload, and the amount
/// declared for pool accounting.
#[derive(Clone, Debug)]
pub struct EncryptedBet {
    pub depositor_pubkey: Vec<u8>,
    pub encrypted_blob: Vec<u8>,
    pub amount: u64,
}

/// The cleartext triple recovered from one encrypted payload. It exists only
/// inside the trusted computation boundary.
#[derive(Clone, Debug)]
pub struct DecryptedBet {
    pub depositor_pubkey: Vec<u8>,
    /// `0` = NO, `1` = YES.
    pub choice: u8,
    pub stake: u64,
}

/// An authenticated oracle statement of the market's outcome. When present,
/// it overrides the majority-stake fallback rule.
#[derive(Clone, Debug)]
pub struct OracleReport {
    /// `0` or `1`; the authoritative winning side.
    pub outcome: u8,
    pub timestamp: i64,
    /// Label of the reporting source, as raw bytes.
    pub source: Vec<u8>,
}

/// One participant's share of the settled pool.
#[derive(Clone, Debug)]
pub struct Payout {
    /// Encoded depositor identity.
    pub recipient: String,
    pub payout: u64,
}

/// The outcome of resolving one market: the winning side, the fee retained,
/// and every participant's payout, in bet order.
#[derive(Clone, Debug)]
pub struct MarketResult {
    pub market_id: String,
    pub winning_choice: u8,
    pub total_pool: u64,
    pub fee_amount: u64,
    pub payouts: Vec<Payout>,
    pub timestamp: i64,
}

/// The full request handed to the computation process.
#[derive(Clone, Debug)]
pub struct MXEInput {
    pub market_id: Vec<u8>,
    pub encrypted_bets: Vec<EncryptedBet>,
    pub encrypted_oracle: Option<Vec<u8>>,
    /// Protocol fee in basis points, at most 10000.
    pub fee_bps: u16,
}

/// The signed result that crosses the trust boundary back to the ledger.
#[derive(Clone, Debug)]
pub struct MXEOutput {
    pub result: MarketResult,
    pub signature: Vec<u8>,
}

/// Why a resolution attempt produced no result.
#[derive(Clone, Copy, Debug, PartialEq, Eq, Structural)]
pub enum ResolveError {
    /// The request carried no bets at all.
    NoBets,
    /// Every encrypted payload was malformed, so no valid wager remained.
    AllBetsMalformed,
    /// The oracle payload was present but malformed; no fallback applies.
    OracleMalformed,
}

/// Byte-vector equality, proved against the sequence views.
pub fn bytes_eq(a: &Vec<u8>, b: &Vec<u8>) -> (r: bool)
    ensures
        r == (a@ == b@),
{
    if a.len() != b.len() {
        proof {
            assert(a@ != b@);
        }
        return false;
    }
    let mut i: usize = 0;
    while i < a.len()
        invariant
            0 <= i <= a@.len(),
            a@.len() == b@.len(),
            forall|j: int| 0 <= j < i ==> a@[j] == b@[j],
        decreases a@.len() - i,
    {
        if a[i] != b[i] {
            proof {
                assert(a@ != b@);
            }
            return false;
        }
        i = i + 1;
    }
    proof {
        assert(a@ =~= b@);
    }
    true
}

/// Mathematical model of one decrypted bet.
#[verifier::ext_equal]
pub ghost struct BetModel {
    pub pubkey: Seq<u8>,
    pub choice: u8,
    pub stake: u64,
}

/// Model of a decrypted bet value.
pub open spec fn bet_model(b: DecryptedBet) -> BetModel {
    BetModel { pubkey: b.depositor_pubkey@, choice: b.choice, stake: b.stake }
}

/// Model of a payout entry.
pub open spec fn payout_model(p: Payout) -> (Seq<char>, u64) {
    (p.recipient@, p.payout)
}

/// Mathematical model of a produced result.
#[verifier::ext_equal]
pub ghost struct ResultModel {
    pub market_id: Seq<char>,
    pub winning_choice: u8,
    pub total_pool: u64,
    pub fee_amount: u64,
    pub payouts: Seq<(Seq<char>, u64)>,
    pub timestamp: i64,
}

/// Model of a result value.
pub open spec fn result_model(r: MarketResult) -> ResultModel {
    ResultModel {
        market_id: r.market_id@,
        winning_choice: r.winning_choice,
        total_pool: r.total_pool,
        fee_amount: r.fee_amount,
        payouts: r.payouts@.map(|i: int, p: Payout| payout_model(p)),
        timestamp: r.timestamp,
    }
}

/// A result is well formed when its identity strings are plain ASCII (the
/// pipeline only ever emits hex-encoded identities) and its timestamp is a
/// non-negative unix time. The canonical serialization is defined over well
/// formed results.
pub open spec fn result_wf(r: MarketResult) -> bool {
    &&& is_ascii_chars(r.market_id@)
    &&& forall|i: int|
        0 <= i < r.payouts@.len() ==> is_ascii_chars(#[trigger] r.payouts@[i].recipient@)
    &&& r.timestamp >= 0
}

} // verus!

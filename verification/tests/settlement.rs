use market_resolver::encoding::encode_result;
use market_resolver::ledger::{ErrorCode, JobStatus, Market, MarketState, create_market};
use market_resolver::resolve::resolve_market;
use market_resolver::types::{EncryptedBet, MXEInput, MXEOutput};

fn bet(pubkey: Vec<u8>, choice: u8, stake: u64, amount: u64) -> EncryptedBet {
    let mut blob: Vec<u8> = vec![choice];
    blob.extend_from_slice(&stake.to_le_bytes());
    blob.extend_from_slice(&pubkey);
    EncryptedBet {
        depositor_pubkey: pubkey,
        encrypted_blob: blob,
        amount,
    }
}

fn open_market() -> Market {
    create_market(
        vec![1, 2, 3, 4],
        vec![0xc0; 32],
        String::from("Will it rain tomorrow?"),
        1000,
        10,
        vec![0xee; 32],
        vec![0xe5; 32],
    )
    .unwrap()
}

fn resolved_output(market_id: Vec<u8>) -> MXEOutput {
    let input = MXEInput {
        market_id,
        encrypted_bets: vec![bet(vec![0x11], 1, 100, 100), bet(vec![0x22], 0, 50, 50)],
        encrypted_oracle: None,
        fee_bps: 50,
    };
    resolve_market(input).unwrap()
}

#[test]
fn create_market_initial_state() {
    let m = open_market();
    assert_eq!(m.state, MarketState::Open);
    assert_eq!(m.total_pool, 0);
    assert_eq!(m.bet_count, 0);
    assert_eq!(m.result_hash, [0u8; 32]);
}

#[test]
fn create_market_rejects_long_question() {
    let q: String = std::iter::repeat('q').take(281).collect();
    let r = create_market(vec![1], vec![2], q, 1000, 10, vec![3], vec![4]);
    assert_eq!(r.unwrap_err(), ErrorCode::QuestionTooLong);
}

#[test]
fn create_market_rejects_past_deadline() {
    let r = create_market(vec![1], vec![2], String::from("q"), 10, 10, vec![3], vec![4]);
    assert_eq!(r.unwrap_err(), ErrorCode::InvalidDeadline);
}

#[test]
fn deposit_updates_pool_and_log() {
    let mut m = open_market();
    let log = m
        .deposit_bet(vec![0x11; 32], vec![0; 16], 1, 250, 20)
        .unwrap();
    assert_eq!(m.total_pool, 250);
    assert_eq!(m.bet_count, 1);
    assert_eq!(m.state, MarketState::Open);
    assert_eq!(log.amount, 250);
    assert_eq!(log.choice_hint, 1);
    assert_eq!(log.timestamp, 20);
    assert_eq!(log.market, vec![1, 2, 3, 4]);
}

#[test]
fn deposit_guards() {
    let mut m = open_market();
    assert_eq!(
        m.deposit_bet(vec![1], vec![0; 16], 0, 5, 1000).unwrap_err(),
        ErrorCode::DeadlinePassed
    );
    assert_eq!(
        m.deposit_bet(vec![1], vec![0; 513], 0, 5, 20).unwrap_err(),
        ErrorCode::BlobTooLarge
    );
    assert_eq!(
        m.deposit_bet(vec![1], vec![0; 16], 0, 0, 20).unwrap_err(),
        ErrorCode::InvalidAmount
    );
    m.enqueue_resolution(1000).unwrap();
    assert_eq!(
        m.deposit_bet(vec![1], vec![0; 16], 0, 5, 20).unwrap_err(),
        ErrorCode::MarketNotOpen
    );
    assert_eq!(m.total_pool, 0);
}

#[test]
fn enqueue_requires_deadline() {
    let mut m = open_market();
    assert_eq!(
        m.enqueue_resolution(999).unwrap_err(),
        ErrorCode::DeadlineNotReached
    );
    let job = m.enqueue_resolution(1000).unwrap();
    assert_eq!(m.state, MarketState::Enqueued);
    assert_eq!(job.status, JobStatus::Pending);
    assert_eq!(job.market, vec![1, 2, 3, 4]);
    assert_eq!(
        m.enqueue_resolution(1001).unwrap_err(),
        ErrorCode::InvalidMarketState
    );
}

#[test]
fn cancel_market_guards() {
    let mut m = open_market();
    assert_eq!(
        m.cancel_market(&vec![0xde; 32]).unwrap_err(),
        ErrorCode::Unauthorized
    );
    m.cancel_market(&vec![0xc0; 32]).unwrap();
    assert_eq!(m.state, MarketState::Cancelled);

    let mut with_bets = open_market();
    with_bets
        .deposit_bet(vec![0x11; 32], vec![0; 16], 1, 5, 20)
        .unwrap();
    assert_eq!(
        with_bets.cancel_market(&vec![0xc0; 32]).unwrap_err(),
        ErrorCode::CannotCancelWithBets
    );
}

#[test]
fn settlement_happy_path_and_idempotence() {
    let mut m = open_market();
    m.deposit_bet(vec![0x11], vec![0; 16], 1, 100, 20).unwrap();
    m.deposit_bet(vec![0x22], vec![0; 16], 0, 50, 21).unwrap();
    m.enqueue_resolution(1000).unwrap();

    let out = resolved_output(vec![1, 2, 3, 4]);
    let bytes = encode_result(&out.result);
    let transfers = m.callback_settle(&bytes, &out.signature).unwrap();
    assert_eq!(m.state, MarketState::Settling);
    // only the winner's positive payout is transferred
    assert_eq!(transfers.len(), 1);
    assert_eq!(transfers[0].recipient, b"11".to_vec());
    assert_eq!(transfers[0].amount, 150);

    // a replayed callback is rejected with no state change
    assert_eq!(
        m.callback_settle(&bytes, &out.signature).unwrap_err(),
        ErrorCode::InvalidMarketState
    );
    assert_eq!(m.state, MarketState::Settling);

    m.finish_settlement(true, &bytes).unwrap();
    assert_eq!(m.state, MarketState::Settled);
    assert_ne!(m.result_hash, [0u8; 32]);

    // and after settlement the callback stays rejected
    assert_eq!(
        m.callback_settle(&bytes, &out.signature).unwrap_err(),
        ErrorCode::InvalidMarketState
    );
}

#[test]
fn settlement_rejects_bad_signature() {
    let mut m = open_market();
    m.enqueue_resolution(1000).unwrap();
    let out = resolved_output(vec![1, 2, 3, 4]);
    let bytes = encode_result(&out.result);
    let mut forged = out.signature.clone();
    forged[0] ^= 0xff;
    assert_eq!(
        m.callback_settle(&bytes, &forged).unwrap_err(),
        ErrorCode::InvalidMXESignature
    );
    assert_eq!(m.state, MarketState::Enqueued);
    // the correctly signed callback can still be retried afterwards
    m.callback_settle(&bytes, &out.signature).unwrap();
    assert_eq!(m.state, MarketState::Settling);
}

#[test]
fn settlement_rejects_garbled_bytes() {
    let mut m = open_market();
    m.enqueue_resolution(1000).unwrap();
    let garbled: Vec<u8> = vec![1, 2, 3];
    let sig = market_resolver::attest::sign_bytes(&garbled);
    assert_eq!(
        m.callback_settle(&garbled, &sig).unwrap_err(),
        ErrorCode::MalformedResult
    );
    assert_eq!(m.state, MarketState::Enqueued);
}

#[test]
fn settlement_rejects_wrong_market() {
    let mut m = open_market();
    m.enqueue_resolution(1000).unwrap();
    let out = resolved_output(vec![9, 9, 9, 9]);
    let bytes = encode_result(&out.result);
    assert_eq!(
        m.callback_settle(&bytes, &out.signature).unwrap_err(),
        ErrorCode::ResultMarketMismatch
    );
    assert_eq!(m.state, MarketState::Enqueued);
}

#[test]
fn failed_transfers_mark_market_failed() {
    let mut m = open_market();
    m.enqueue_resolution(1000).unwrap();
    let out = resolved_output(vec![1, 2, 3, 4]);
    let bytes = encode_result(&out.result);
    m.callback_settle(&bytes, &out.signature).unwrap();
    assert_eq!(
        m.finish_settlement(true, &bytes).is_ok(),
        m.state == MarketState::Settled
    );

    let mut n = open_market();
    n.enqueue_resolution(1000).unwrap();
    n.callback_settle(&bytes, &out.signature).unwrap();
    n.finish_settlement(false, &bytes).unwrap();
    assert_eq!(n.state, MarketState::Failed);
    assert_eq!(n.result_hash, [0u8; 32]);
}

#[test]
fn finish_settlement_requires_settling() {
    let mut m = open_market();
    assert_eq!(
        m.finish_settlement(true, &vec![1]).unwrap_err(),
        ErrorCode::InvalidMarketState
    );
}

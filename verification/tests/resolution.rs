use market_resolver::resolve::resolve_market;
use market_resolver::types::{EncryptedBet, MXEInput, ResolveError};

fn bet(pubkey: Vec<u8>, choice: u8, stake: u64, amount: u64) -> EncryptedBet {
    let mut blob: Vec<u8> = vec![choice];
    blob.extend_from_slice(&stake.to_le_bytes());
    blob.extend_from_slice(&pubkey);
    EncryptedBet {
        depositor_pubkey: pubkey,
        encrypted_blob: blob,
        amount,
    }
}

#[test]
fn test_resolve_market_basic() {
    let input = MXEInput {
        market_id: vec![1, 2, 3, 4],
        encrypted_bets: vec![
            EncryptedBet {
                depositor_pubkey: vec![0; 32],
                encrypted_blob: vec![1, 100, 0, 0, 0, 0, 0, 0, 0], // choice=1, stake=100
                amount: 100,
            },
            EncryptedBet {
                depositor_pubkey: vec![1; 32],
                encrypted_blob: vec![0, 50, 0, 0, 0, 0, 0, 0, 0], // choice=0, stake=50
                amount: 50,
            },
        ],
        encrypted_oracle: None,
        fee_bps: 50, // 0.5%
    };

    let result = resolve_market(input).unwrap();
    assert_eq!(result.result.total_pool, 150);
    assert_eq!(result.result.winning_choice, 1); // YES wins (100 > 50)
}

#[test]
fn two_bets_small_fee_rounds_to_zero() {
    let input = MXEInput {
        market_id: vec![1, 2, 3, 4],
        encrypted_bets: vec![
            bet(vec![0xaa], 1, 100, 100),
            bet(vec![0xbb], 0, 50, 50),
        ],
        encrypted_oracle: None,
        fee_bps: 50,
    };
    let out = resolve_market(input).unwrap();
    assert_eq!(out.result.total_pool, 150);
    assert_eq!(out.result.winning_choice, 1);
    assert_eq!(out.result.fee_amount, 0); // 150 * 50 / 10000 == 0
    assert_eq!(out.result.payouts.len(), 2);
    assert_eq!(out.result.payouts[0].payout, 150); // winner takes all
    assert_eq!(out.result.payouts[1].payout, 0); // loser forfeits
}

#[test]
fn ten_percent_fee_single_winner() {
    let input = MXEInput {
        market_id: vec![9],
        encrypted_bets: vec![bet(vec![0x01], 1, 1000, 1000)],
        encrypted_oracle: None,
        fee_bps: 1000, // 10%
    };
    let out = resolve_market(input).unwrap();
    assert_eq!(out.result.total_pool, 1000);
    assert_eq!(out.result.fee_amount, 100);
    assert_eq!(out.result.payouts[0].payout, 900);
}

#[test]
fn empty_input_is_rejected() {
    let input = MXEInput {
        market_id: vec![1],
        encrypted_bets: vec![],
        encrypted_oracle: None,
        fee_bps: 100,
    };
    assert_eq!(resolve_market(input).unwrap_err(), ResolveError::NoBets);
}

#[test]
fn all_malformed_bets_are_rejected() {
    let input = MXEInput {
        market_id: vec![1],
        encrypted_bets: vec![
            EncryptedBet {
                depositor_pubkey: vec![0xaa],
                encrypted_blob: vec![1, 2, 3], // shorter than the 9-byte header
                amount: 5,
            },
        ],
        encrypted_oracle: None,
        fee_bps: 0,
    };
    assert_eq!(
        resolve_market(input).unwrap_err(),
        ResolveError::AllBetsMalformed
    );
}

#[test]
fn malformed_bet_is_excluded_not_fatal() {
    let input = MXEInput {
        market_id: vec![1],
        encrypted_bets: vec![
            EncryptedBet {
                depositor_pubkey: vec![0xaa],
                encrypted_blob: vec![1], // malformed, excluded
                amount: 5,
            },
            bet(vec![0xbb], 1, 40, 40),
        ],
        encrypted_oracle: None,
        fee_bps: 0,
    };
    let out = resolve_market(input).unwrap();
    assert_eq!(out.result.total_pool, 40);
    assert_eq!(out.result.payouts.len(), 1);
    assert_eq!(out.result.payouts[0].payout, 40);
}

#[test]
fn tie_resolves_to_no() {
    let input = MXEInput {
        market_id: vec![7],
        encrypted_bets: vec![
            bet(vec![0x01], 1, 75, 75),
            bet(vec![0x02], 0, 75, 75),
        ],
        encrypted_oracle: None,
        fee_bps: 0,
    };
    let out = resolve_market(input).unwrap();
    assert_eq!(out.result.winning_choice, 0);
}

fn oracle_payload(outcome: u8, timestamp: i64, source: &[u8]) -> Vec<u8> {
    let mut data: Vec<u8> = vec![outcome];
    data.extend_from_slice(&timestamp.to_le_bytes());
    data.extend_from_slice(source);
    data
}

#[test]
fn oracle_outcome_overrides_majority() {
    let input = MXEInput {
        market_id: vec![7],
        encrypted_bets: vec![
            bet(vec![0x01], 1, 900, 900),
            bet(vec![0x02], 0, 100, 100),
        ],
        encrypted_oracle: Some(oracle_payload(0, 1700000000, b"feed")),
        fee_bps: 0,
    };
    let out = resolve_market(input).unwrap();
    assert_eq!(out.result.winning_choice, 0); // oracle says NO despite YES majority
    assert_eq!(out.result.payouts[0].payout, 0);
    assert_eq!(out.result.payouts[1].payout, 1000); // whole pool, fee 0
}

#[test]
fn zero_winner_refunds_all_without_fee() {
    let input = MXEInput {
        market_id: vec![7],
        encrypted_bets: vec![
            bet(vec![0x01], 0, 300, 300),
            bet(vec![0x02], 0, 200, 200),
        ],
        encrypted_oracle: Some(oracle_payload(1, 0, b"")),
        fee_bps: 2500, // would be a hefty fee, but refunds carry none
    };
    let out = resolve_market(input).unwrap();
    assert_eq!(out.result.winning_choice, 1);
    assert_eq!(out.result.fee_amount, 0);
    assert_eq!(out.result.payouts[0].payout, 300);
    assert_eq!(out.result.payouts[1].payout, 200);
}

#[test]
fn malformed_oracle_is_fatal() {
    let short = MXEInput {
        market_id: vec![7],
        encrypted_bets: vec![bet(vec![0x01], 1, 10, 10)],
        encrypted_oracle: Some(vec![1, 2]),
        fee_bps: 0,
    };
    assert_eq!(
        resolve_market(short).unwrap_err(),
        ResolveError::OracleMalformed
    );

    let bad_outcome = MXEInput {
        market_id: vec![7],
        encrypted_bets: vec![bet(vec![0x01], 1, 10, 10)],
        encrypted_oracle: Some(oracle_payload(2, 0, b"")),
        fee_bps: 0,
    };
    assert_eq!(
        resolve_market(bad_outcome).unwrap_err(),
        ResolveError::OracleMalformed
    );
}

#[test]
fn market_id_and_recipients_are_hex_encoded() {
    let input = MXEInput {
        market_id: vec![1, 2, 3, 4],
        encrypted_bets: vec![bet(vec![0xab, 0xcd], 1, 10, 10)],
        encrypted_oracle: None,
        fee_bps: 0,
    };
    let out = resolve_market(input).unwrap();
    assert_eq!(out.result.market_id, "01020304");
    assert_eq!(out.result.payouts[0].recipient, "abcd");
}

#[test]
fn proportional_split_floors_and_retains_dust() {
    // distributable 100 split over winner stakes 3 and 4 of a 7 pool:
    // shares are floor(93*3/7)=39 and floor(93*4/7)=53 after fee 7.
    let input = MXEInput {
        market_id: vec![5],
        encrypted_bets: vec![
            bet(vec![0x01], 1, 3, 3),
            bet(vec![0x02], 1, 4, 4),
            bet(vec![0x03], 0, 93, 93),
        ],
        encrypted_oracle: None,
        fee_bps: 700, // 7% of 100 = 7
    };
    let out = resolve_market(input).unwrap();
    assert_eq!(out.result.winning_choice, 0); // pool_no 93 > pool_yes 7
    // NO side wins: distributable 93, winners_pool 93, single winner
    assert_eq!(out.result.fee_amount, 7);
    assert_eq!(out.result.payouts[2].payout, 93);
    let input2 = MXEInput {
        market_id: vec![5],
        encrypted_bets: vec![
            bet(vec![0x01], 1, 3, 3),
            bet(vec![0x02], 1, 4, 4),
        ],
        encrypted_oracle: None,
        fee_bps: 0,
    };
    let out2 = resolve_market(input2).unwrap();
    // distributable 7 over stakes 3 and 4: floor(7*3/7)=3, floor(7*4/7)=4
    assert_eq!(out2.result.payouts[0].payout, 3);
    assert_eq!(out2.result.payouts[1].payout, 4);
}

#[test]
fn all_bettors_win_share_the_pool() {
    let input = MXEInput {
        market_id: vec![3],
        encrypted_bets: vec![
            bet(vec![0x01], 1, 30, 30),
            bet(vec![0x02], 1, 70, 70),
        ],
        encrypted_oracle: None,
        fee_bps: 100, // 1% of 100 = 1
    };
    let out = resolve_market(input).unwrap();
    assert_eq!(out.result.winning_choice, 1);
    assert_eq!(out.result.fee_amount, 1);
    // distributable 99 over stakes 30 and 70 of a 100 winners' pool
    assert_eq!(out.result.payouts[0].payout, 29); // floor(99*30/100)
    assert_eq!(out.result.payouts[1].payout, 69); // floor(99*70/100)
    // 100 - (29 + 69 + 1) = 1 unit of dust retained, below winners_pool
}

#[test]
fn resolution_is_deterministic() {
    let make = || MXEInput {
        market_id: vec![1, 2],
        encrypted_bets: vec![
            bet(vec![0x11], 1, 60, 60),
            bet(vec![0x22], 0, 40, 40),
        ],
        encrypted_oracle: None,
        fee_bps: 250,
    };
    let a = resolve_market(make()).unwrap();
    let b = resolve_market(make()).unwrap();
    let bytes_a = market_resolver::encoding::encode_result(&a.result);
    let bytes_b = market_resolver::encoding::encode_result(&b.result);
    assert_eq!(bytes_a, bytes_b);
    assert_eq!(a.signature, b.signature);
}

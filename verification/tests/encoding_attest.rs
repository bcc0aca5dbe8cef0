use market_resolver::attest::{sign_bytes, verify_bytes};
use market_resolver::encoding::{encode_result, parse_result};
use market_resolver::hexcode::encode_pubkey;
use market_resolver::mpc::MPCContext;
use market_resolver::types::{MarketResult, Payout};

fn sample_result() -> MarketResult {
    MarketResult {
        market_id: String::from("01020304"),
        winning_choice: 1,
        total_pool: 150,
        fee_amount: 0,
        payouts: vec![
            Payout {
                recipient: String::from("ab"),
                payout: 150,
            },
            Payout {
                recipient: String::from("cd"),
                payout: 0,
            },
        ],
        timestamp: 0,
    }
}

#[test]
fn encode_then_parse_round_trips() {
    let r = sample_result();
    let bytes = encode_result(&r);
    let d = parse_result(&bytes).unwrap();
    assert_eq!(d.market_id, b"01020304".to_vec());
    assert_eq!(d.winning_choice, 1);
    assert_eq!(d.total_pool, 150);
    assert_eq!(d.fee_amount, 0);
    assert_eq!(d.timestamp_bits, 0);
    assert_eq!(d.payouts.len(), 2);
    assert_eq!(d.payouts[0].recipient, b"ab".to_vec());
    assert_eq!(d.payouts[0].amount, 150);
    assert_eq!(d.payouts[1].recipient, b"cd".to_vec());
    assert_eq!(d.payouts[1].amount, 0);
}

#[test]
fn parse_rejects_truncated_and_trailing_bytes() {
    let r = sample_result();
    let bytes = encode_result(&r);
    let mut truncated = bytes.clone();
    truncated.pop();
    assert!(parse_result(&truncated).is_none());
    let mut trailing = bytes.clone();
    trailing.push(0);
    assert!(parse_result(&trailing).is_none());
    assert!(parse_result(&vec![0; 7]).is_none());
}

#[test]
fn signatures_verify_and_bind_the_bytes() {
    let data: Vec<u8> = vec![1, 2, 3, 4, 5];
    let sig = sign_bytes(&data);
    assert_eq!(sig.len(), 64);
    assert!(verify_bytes(&data, &sig));

    let mut garbled = sig.clone();
    garbled[63] ^= 1;
    assert!(!verify_bytes(&data, &garbled));

    let other: Vec<u8> = vec![1, 2, 3, 4, 6];
    assert!(!verify_bytes(&other, &sig));
}

#[test]
fn hex_encoding_of_identities() {
    assert_eq!(encode_pubkey(&vec![]), "");
    assert_eq!(encode_pubkey(&vec![0x00, 0xff, 0x1a]), "00ff1a");
}

#[test]
fn mpc_primitives() {
    let ctx = MPCContext::new();
    assert_eq!(ctx.secure_add(u64::MAX, 1), u64::MAX);
    assert_eq!(ctx.secure_add(2, 3), 5);
    assert_eq!(ctx.secure_mul_div(100, 3, 7), 42);
    assert_eq!(ctx.secure_mul_div(1, 1, 0), 0);
    assert_eq!(ctx.secure_mul_div(u64::MAX, u64::MAX, 1), 1); // truncated low 64 bits
    assert_eq!(ctx.secure_if_else(true, 7, 9), 7);
    assert_eq!(ctx.secure_if_else(false, 7, 9), 9);
    assert_eq!(ctx.now_unix(), 0);

    let blob: Vec<u8> = vec![3, 5, 0, 0, 0, 0, 0, 0, 0, 0xaa];
    let bet = ctx.decrypt_and_parse(&blob);
    assert_eq!(bet.choice, 1); // 3 % 2
    assert_eq!(bet.stake, 5);
    assert_eq!(bet.depositor_pubkey, vec![0xaa]);

    let short = ctx.decrypt_and_parse(&[7]);
    assert_eq!(short.choice, 1);
    assert_eq!(short.stake, 0);
    assert!(short.depositor_pubkey.is_empty());

    let empty = ctx.decrypt_and_parse(&[]);
    assert_eq!(empty.choice, 0);
    assert_eq!(empty.stake, 0);
}

#[test]
fn oracle_report_fields() {
    let mut data: Vec<u8> = vec![0];
    data.extend_from_slice(&1700000000i64.to_le_bytes());
    data.extend_from_slice(b"weather-feed");
    let rep = market_resolver::resolve::parse_oracle_report(&data).unwrap();
    assert_eq!(rep.outcome, 0);
    assert_eq!(rep.timestamp, 1700000000);
    assert_eq!(rep.source, b"weather-feed".to_vec());

    let mut neg: Vec<u8> = vec![1];
    neg.extend_from_slice(&(-5i64).to_le_bytes());
    let rep2 = market_resolver::resolve::parse_oracle_report(&neg).unwrap();
    assert_eq!(rep2.timestamp, -5);
    assert!(rep2.source.is_empty());
}

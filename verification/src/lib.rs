//! Resolution-and-settlement engine for a binary prediction market.
//!
//! The crate has two halves. The confidential computation half decodes
//! wager payloads, decides the winning side, computes proportional payouts
//! net of a protocol fee, and attests to a canonical serialization of the
//! result. The ledger half is a state machine that accepts a signed result,
//! verifies it against the market's registered computation authority, and
//! applies it exactly once.

pub mod attest;
pub mod digest;
pub mod encoding;
pub mod hexcode;
pub mod ledger;
pub mod mpc;
pub mod payout;
pub mod resolve;
pub mod types;

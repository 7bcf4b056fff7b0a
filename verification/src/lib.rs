//! A proof-of-work ledger of signed transfers and two-party loans.
//!
//! Every balance and loan query replays the mined history; nothing is cached.

pub mod block;
pub mod blockchain;
pub mod clock;
pub mod crypto;
pub mod encoding;
pub mod keygen;
pub mod keys;
pub mod ledger;
pub mod loans;
pub mod tally;
pub mod transaction;

//! A staking-and-bonded-rewards ledger.
//!
//! The crate tracks pools of staked value, accrues time-proportional
//! inflationary rewards, enforces a per-pool minimum entry threshold, and
//! supports time-vesting bond grants that unlock into a stake position.
//! All accounting is plain integer arithmetic over explicitly supplied
//! timestamps; the surrounding runtime performs token movement and storage.

pub mod addr;
pub mod central_state;
pub mod codec;
pub mod derivation;
pub mod error;
pub mod ledger;
pub mod reward;
pub mod state;

//! A real-world-asset (RWA) backed share vault.
//!
//! One vault exists per authority. A vault tracks a `total_shares` counter and
//! a 32-byte proof commitment (`rwa_hash`) copied from an oracle record at
//! creation time. Shares are minted against a collateral deposit, gated by the
//! commitment, and later burned to initiate redemption. The vault's storage
//! key and signing salt are derived deterministically from its authority.

pub mod derivation;
pub mod laws;
pub mod ledger;
pub mod store;
pub mod vault;

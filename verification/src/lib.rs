//! A custodial time-lock vault: deposits of a fungible asset are held in
//! escrow and released back to the depositor only after a caller-chosen
//! future timestamp has passed.
//!
//! The crate is organised around three components:
//! - [`addresses`]: the address deriver — a pure, collision-free mapping
//!   from public identifiers to vault and lock addresses, so no lookup table
//!   is ever needed.
//! - [`vault`] and [`lock`]: the per-asset vault records and the
//!   per-(vault, owner) lock records, with their lifecycle queries.
//! - [`ledger`]: the asset-transfer collaborator — an in-memory balance
//!   store whose escrow-moving entry point is crate-private, so the lock
//!   engine is the only code path that can move a vault's custodial funds.
//! - [`engine`]: the vault manager and lock engine proper, which tie the
//!   records together and maintain the invariant that each vault's
//!   `total_locked` equals the sum of its non-released locks.
//! - [`laws`]: proved statements of the guarantees that span several
//!   operations, such as round-tripping a lock and the impossibility of a
//!   double release.

pub mod addresses;
pub mod engine;
pub mod errors;
pub mod laws;
pub mod ledger;
pub mod lock;
pub mod vault;

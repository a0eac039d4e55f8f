//! Custody and conditional transfer of value held in derived, keyless accounts.
//!
//! The crate holds two managers over a shared custody service:
//!
//! * [`vault`] keeps one vault per owner, with `initialize`, `deposit` and
//!   `withdraw`;
//! * [`escrow`] swaps two fungible amounts between a maker and a taker, with
//!   `make`, `take` and `refund`.
//!
//! Both move value only through the [`bank`], and both authorise transfers out
//! of the accounts they control by reproducing the seeds from which the
//! account's address was derived (see [`derive`]).
pub mod address;
pub mod error;
pub mod derive;
pub mod registry;
pub mod bank;
pub mod vault;
pub mod escrow;

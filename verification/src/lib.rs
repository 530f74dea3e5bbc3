//! Accounting, governance and allocation rules of the XHedge volatility
//! shield vault, with their contracts proved by Verus.
//!
//! The vault's whole storage is modelled by [`vault::VolatilityShield`];
//! every entry point of the contract is a method on it that either refuses
//! (returns an [`types::Error`]) and leaves the state as it was, or moves the
//! state to the one its specification names.  The outside world (token
//! transfers, strategy contracts, authorisation, events) is driven by the
//! host around the library, which hands the library plain values.
use vstd::prelude::*;

pub mod allocation;
pub mod laws;
pub mod math;
pub mod mock_strategy;
pub mod model;
pub mod settings;
pub mod strategies;
pub mod types;
pub mod vault;

verus! {

} // verus!

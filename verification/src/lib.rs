//! A deterministic asset registry and exchange engine for uniquely
//! identified digital assets ("kitties"): content-derived identities,
//! a capacity-bounded per-owner index kept consistent with the primary
//! store, genetic combination of two assets into a new one, and a
//! minimal marketplace (set a price, buy, transfer). Every operation
//! either fully applies or leaves the state untouched.

pub mod breeding;
pub mod genesis;
pub mod hashing;
pub mod identity;
pub mod ledger;
pub mod pallet;
pub mod types;

//! Randomness for an epoch: distributed key generation among the validators, then the
//! numbering of randomness rounds.

pub mod beginnings;
pub mod checks;
pub mod dkg;
pub mod inner;
pub mod laws;
pub mod manager;
pub mod once;
pub mod operations;
pub mod rows;
pub mod setup;
pub mod state;
pub mod store;
pub mod types;

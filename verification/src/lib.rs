//! A verified model of a token contract and of a decentralised exchange that
//! trades two such tokens.
//!
//! Each entry of a contract is a function from the storage of all contracts
//! (a [`chain::Chain`]) and the call's arguments to either a refusal (a
//! constraint of the entry fails) or an [`chain::Outcome`]: the writes the
//! entry makes to its own contract's storage and the approval it asks for.
//! Storage keys and values are [`word::Word`]s, which hold hashes by what
//! they were computed from.
pub mod word;
pub mod args;
pub mod chain;
pub mod token;
pub mod dex;
pub mod laws;
pub mod entry_laws;

pub use token::Token;
pub use dex::Dex;

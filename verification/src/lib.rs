//! The decisions of a network transaction builder.
//!
//! A network transaction builder follows the committed blocks of a chain, and builds transactions
//! for the accounts that have notes waiting for them. Waiting, reading and writing happen around
//! this library. It holds what is decided in between:
//!
//! - [`chain_state`] checks each block against the chain and derives the next snapshot;
//! - [`scheduler`] decides which accounts to work on and what to persist for a finished build;
//! - [`network_transaction`] decides how one build goes on, and what its notes are charged with;
//! - [`builder`] is the event loop over these;
//! - [`tasks`] keeps track of running tasks and supervises the long-running ones.
//!
//! [`protocol`] is the boundary to the protocol crate.

pub mod builder;
pub mod candidate;
pub mod chain_state;
pub mod committed_block;
pub mod network_transaction;
pub mod pairs;
pub mod protocol;
pub mod range;
pub mod scheduler;
mod shared;
pub mod tasks;
pub mod text;
pub mod word;

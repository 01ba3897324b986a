//! Merkle-root registry with proof-gated access.
//!
//! Roots of membership trees are published into a registry; a caller who
//! presents a Merkle inclusion proof against an active root is granted access,
//! and the grant is recorded in a ledger. The identity of the caller and the
//! time of a call come in as arguments, notifications go out as values.
//!
//! - [`hash`], [`identity`], [`bytes`]: the values that are stored and compared.
//! - [`hash_pair`]: the order-independent combination of two hashes.
//! - [`merkle`]: proof verification; [`tree`] and [`tamper`]: what holds of it.
//! - [`table`], [`registry`], [`ledger`]: the two tables.
//! - [`events`]: notifications and reasons for denial.
//! - [`access`]: the verifier itself; [`history`]: what holds of every state
//!   it can reach.

pub mod access;
pub mod bytes;
pub mod events;
pub mod hash;
pub mod hash_pair;
pub mod history;
pub mod identity;
pub mod ledger;
pub mod merkle;
pub mod registry;
pub mod table;
pub mod tamper;
pub mod tree;

//! Social recovery for accounts.
//!
//! An account owner registers a list of guardians and an approval threshold.
//! Anyone may then open a recovery request that proposes a new credential for
//! the account; guardians approve it one by one, and once the threshold is
//! reached the request can be finalized.
//!
//! * [`types`]: identities and the error taxonomy.
//! * [`lists`]: searching and editing the small lists the registry keeps.
//! * [`table`]: a map from identities to records.
//! * [`rules`]: the checks each operation makes, on plain values.
//! * [`state`]: the mathematical model of a registry and of each operation.
//! * [`registry`]: the executable registry.
//! * [`laws`]: what holds of every registry, and of sequences of operations.
//! * [`keys`]: the names under which records are kept in a flat string-keyed store.

pub mod types;
pub mod lists;
pub mod table;
pub mod rules;
pub mod state;
pub mod laws;
pub mod registry;
pub mod keys;

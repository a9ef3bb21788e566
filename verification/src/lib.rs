//! An append-only registration ledger.
//!
//! Authorized callers submit a record (name, email, address); the ledger
//! assigns it the next identifier, stamps it with the caller context's
//! timestamp, and persists it. Records can later be fetched by identifier
//! or listed in ascending identifier order with pagination.

/// Write and read operations of the ledger.
pub mod contract;

/// Error taxonomy of the ledger.
pub mod error;

/// Input and output message shapes.
pub mod msg;

/// Persistent state: the record store and its invariants.
pub mod state;

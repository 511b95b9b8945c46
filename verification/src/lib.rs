//! A verified migration manager: versioned, reversible schema changes are
//! applied to or rolled back from a database inside one atomic unit of work,
//! while a tracking table records which versions are in effect.
//!
//! The caller owns the transactional handle (the [`scope::TransactionScope`]
//! trait) and the list of migrations; the [`manager::Manager`] enforces the
//! invariants: versions are applied at most once, only applied versions are
//! rolled back, and nothing becomes durable unless the whole unit of work is
//! explicitly committed.

pub mod batch;
pub mod errors;
pub mod laws;
pub mod manager;
pub mod migration;
pub mod scope;
pub mod store;

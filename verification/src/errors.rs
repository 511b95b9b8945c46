use vstd::prelude::*;

verus! {

/// An error reported by the underlying database, carried through the
/// caller-supplied transaction scope.
#[derive(Debug)]
pub struct DbError {
    pub message: String,
}

/// Everything that can go wrong while driving migrations.
#[derive(Debug)]
pub enum Error {
    /// `apply` was called for a version that is already recorded.
    AlreadyApplied(i64),
    /// `rollback` was called for a version that is not recorded.
    NotApplied(i64),
    /// The forward or reverse action itself failed; wraps the database error.
    ActionExecution(DbError),
    /// The tracking table already held the version that was being recorded;
    /// the manager's own checks should make this unreachable.
    DuplicateRecord(i64),
    /// The tracking table did not hold the version that was being erased;
    /// the manager's own checks should make this unreachable.
    NotRecorded(i64),
    /// Committing or rolling back the bound transaction scope failed.
    Transaction(DbError),
    /// A database round trip outside any action failed: setting up the
    /// tracking table, loading the applied versions, or the row change
    /// that records or erases a version.
    Db(DbError),
}

} // verus!

use vstd::prelude::*;
use crate::errors::DbError;

verus! {

/// One statement as it was handed to the transaction scope: its text and
/// its positional arguments, in specification form.
pub struct Query {
    pub text: Seq<char>,
    pub args: Seq<int>,
}

/// The abstract history of a transaction scope: every statement it has
/// executed successfully, in order. Implementors outside this crate name
/// the type through this alias.
pub type Log = Seq<Query>;

/// The contents of the tracking table, as a type an implementor outside
/// this crate can name.
pub type Table = Set<i64>;

/// The history entry of a statement that takes no arguments.
pub open spec fn stmt_query(text: Seq<char>) -> Query {
    Query { text, args: Seq::empty() }
}

/// The history entry of a statement whose single argument is a version.
pub open spec fn version_query(text: Seq<char>, version: int) -> Query {
    Query { text, args: seq![version] }
}

/// The statement that idempotently creates the tracking table; creating
/// an absent table adds no row, so the table contents are unchanged.
pub open spec fn ensure_schema_sql() -> Seq<char> {
    "CREATE TABLE IF NOT EXISTS schema_migrations (version BIGINT PRIMARY KEY)"@
}

/// The query that reads every recorded version of the tracking table.
pub open spec fn load_applied_sql() -> Seq<char> {
    "SELECT version FROM schema_migrations"@
}

/// The statement that records one version in the tracking table; it
/// changes one row when the version was absent and none when it was
/// already present.
pub open spec fn record_sql() -> Seq<char> {
    "INSERT INTO schema_migrations (version) VALUES ($1) ON CONFLICT DO NOTHING"@
}

/// The statement that erases one version from the tracking table; it
/// changes one row when the version was present and none when it was
/// absent.
pub open spec fn erase_sql() -> Seq<char> {
    "DELETE FROM schema_migrations WHERE version = $1"@
}

/// A caller-owned transactional handle: the manager executes statements
/// through it and finally commits or rolls back the whole unit of work.
/// The manager never creates one.
///
/// The spec functions are the abstract state of the scope: `log()` is the
/// sequence of statements that have executed successfully so far, `table()`
/// the versions the tracking table holds as visible inside this
/// transaction, `open()` says whether the scope is still usable, and
/// `committed()` says whether its work was made durable. Work is durable
/// exactly when `commit` succeeded; a scope that is rolled back discards
/// everything.
///
/// Only the two fixed tracking statements (`record_sql`, `erase_sql`) and
/// the tracking query touch or read the tracking table; every other
/// statement an implementor accepts must leave it alone. Their row-count
/// contracts are what a unique `version` key guarantees: the insert, which
/// does nothing on conflict, changes one row exactly when the version was
/// absent, and the delete changes one row exactly when it was present.
pub trait TransactionScope {
    /// The statements successfully executed through this scope so far.
    spec fn log(&self) -> Log;

    /// The versions the tracking table holds, as visible inside this
    /// transaction; empty while the table does not exist.
    spec fn table(&self) -> Table;

    /// The scope is still usable: neither committed nor rolled back.
    spec fn open(&self) -> bool;

    /// The work of this scope was made durable.
    spec fn committed(&self) -> bool;

    /// Execute one statement that takes no arguments — schema changes and
    /// data fixes, never a tracking-table statement; on success the result
    /// is the number of rows the statement affected.
    fn execute(&mut self, stmt: &str) -> (r: Result<u64, DbError>)
        requires
            old(self).open(),
            !old(self).committed(),
        ensures
            final(self).open(),
            !final(self).committed(),
            final(self).table() == old(self).table(),
            r is Ok ==> final(self).log() == old(self).log().push(stmt_query(stmt@)),
            r is Err ==> final(self).log() == old(self).log(),
    ;

    /// Execute one tracking-table statement whose single argument is a
    /// version number; on success the result is the number of rows the
    /// statement affected.
    fn execute_version(&mut self, stmt: &str, version: i64) -> (r: Result<u64, DbError>)
        requires
            old(self).open(),
            !old(self).committed(),
            stmt@ == record_sql() || stmt@ == erase_sql(),
        ensures
            final(self).open(),
            !final(self).committed(),
            r is Err ==> final(self).log() == old(self).log() && final(self).table() == old(
                self,
            ).table(),
            r matches Ok(rows) ==> {
                &&& final(self).log() == old(self).log().push(
                    version_query(stmt@, version as int),
                )
                &&& (stmt@ == record_sql() ==> {
                    &&& final(self).table() == old(self).table().insert(version)
                    &&& (rows == 1 <==> !old(self).table().contains(version))
                })
                &&& (stmt@ == erase_sql() ==> {
                    &&& final(self).table() == old(self).table().remove(version)
                    &&& (rows == 1 <==> old(self).table().contains(version))
                })
            },
    ;

    /// Run the tracking query and hand the recorded versions back.
    /// Reading changes nothing; what comes back is exactly the table's
    /// contents, with a value possibly repeated.
    fn query_versions(&mut self, stmt: &str) -> (r: Result<Vec<i64>, DbError>)
        requires
            old(self).open(),
            !old(self).committed(),
            stmt@ == load_applied_sql(),
        ensures
            final(self).open(),
            !final(self).committed(),
            final(self).log() == old(self).log(),
            final(self).table() == old(self).table(),
            r matches Ok(versions) ==> versions@.to_set() == old(self).table(),
    ;

    /// Make every change of this unit of work durable. On failure the
    /// scope is gone and nothing was made durable.
    fn commit(&mut self) -> (r: Result<(), DbError>)
        requires
            old(self).open(),
            !old(self).committed(),
        ensures
            !final(self).open(),
            final(self).committed() == (r is Ok),
            final(self).log() == old(self).log(),
    ;

    /// Discard every change of this unit of work.
    fn rollback(&mut self) -> (r: Result<(), DbError>)
        requires
            old(self).open(),
            !old(self).committed(),
        ensures
            !final(self).open(),
            !final(self).committed(),
            final(self).log() == old(self).log(),
    ;
}

/// A history that one more statement was appended to still extends the
/// same earlier history.
pub proof fn lemma_log_prefix_push(a: Seq<Query>, b: Seq<Query>, q: Query)
    requires
        a.is_prefix_of(b),
    ensures
        a.is_prefix_of(b.push(q)),
{
    assert(a =~= b.push(q).subrange(0, a.len() as int));
}

/// An arbitrary procedure run against the transaction scope: the general
/// form of a migration action, for changes that one statement cannot
/// express. A procedure may execute any number of statements and nothing
/// else: it leaves the scope open, only appends to its history, and never
/// touches the tracking table.
pub trait Runnable<T: TransactionScope> {
    fn run(&self, tx: &mut T) -> (r: Result<(), DbError>)
        requires
            old(tx).open(),
            !old(tx).committed(),
        ensures
            final(tx).open(),
            !final(tx).committed(),
            final(tx).table() == old(tx).table(),
            old(tx).log().is_prefix_of(final(tx).log()),
    ;
}

} // verus!

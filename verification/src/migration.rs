use vstd::prelude::*;
use vstd::string::StringExecFns;
use crate::errors::DbError;
use crate::scope::{stmt_query, Query, Runnable, TransactionScope};

verus! {

/// One executable unit of work against a transaction: either a literal
/// statement run verbatim, or an arbitrary procedure handed the
/// transaction scope.
pub enum Action<P> {
    Statement(String),
    Procedure(P),
}

/// An immutable, versioned unit of change: a unique version identifier,
/// a forward action that moves the database toward this version, and a
/// reverse action that undoes it.
pub struct Migration<P> {
    pub version: i64,
    pub forward: Action<P>,
    pub reverse: Action<P>,
}

/// The statement that creates a table.
pub open spec fn create_table_sql(table: Seq<char>, columns: Seq<char>) -> Seq<char> {
    "CREATE TABLE "@ + table + " ("@ + columns + ")"@
}

/// The statement that drops a table.
pub open spec fn drop_table_sql(table: Seq<char>) -> Seq<char> {
    "DROP TABLE "@ + table
}

/// The statement that adds a column.
pub open spec fn add_column_sql(table: Seq<char>, column: Seq<char>, definition: Seq<char>) -> Seq<
    char,
> {
    "ALTER TABLE "@ + table + " ADD COLUMN "@ + column + " "@ + definition
}

/// The statement that drops a column.
pub open spec fn drop_column_sql(table: Seq<char>, column: Seq<char>) -> Seq<char> {
    "ALTER TABLE "@ + table + " DROP COLUMN "@ + column
}

impl<P> Migration<P> {
    /// A migration built from its two actions.
    pub fn new(version: i64, forward: Action<P>, reverse: Action<P>) -> (r: Migration<P>)
        ensures
            r.version == version,
            r.forward == forward,
            r.reverse == reverse,
    {
        Migration { version, forward, reverse }
    }

    /// A migration whose two directions are single literal statements.
    pub fn run(version: i64, up: String, down: String) -> (r: Migration<P>)
        ensures
            r.version == version,
            (r.forward matches Action::Statement(s) && s@ == up@),
            (r.reverse matches Action::Statement(s) && s@ == down@),
    {
        Migration { version, forward: Action::Statement(up), reverse: Action::Statement(down) }
    }

    /// A migration that creates a table going forward and drops it going
    /// back.
    pub fn add_table(version: i64, table: &str, columns: &str) -> (r: Migration<P>)
        ensures
            r.version == version,
            (r.forward matches Action::Statement(s) && s@ == create_table_sql(table@, columns@)),
            (r.reverse matches Action::Statement(s) && s@ == drop_table_sql(table@)),
    {
        let mut up = "CREATE TABLE ".to_owned();
        up.append(table);
        up.append(" (");
        up.append(columns);
        up.append(")");
        let mut down = "DROP TABLE ".to_owned();
        down.append(table);
        Migration { version, forward: Action::Statement(up), reverse: Action::Statement(down) }
    }

    /// A migration that adds a column going forward and drops it going
    /// back; `definition` is the column's type and constraints.
    pub fn add_column(version: i64, table: &str, column: &str, definition: &str) -> (r: Migration<
        P,
    >)
        ensures
            r.version == version,
            (r.forward matches Action::Statement(s) && s@ == add_column_sql(
                table@,
                column@,
                definition@,
            )),
            (r.reverse matches Action::Statement(s) && s@ == drop_column_sql(table@, column@)),
    {
        let mut up = "ALTER TABLE ".to_owned();
        up.append(table);
        up.append(" ADD COLUMN ");
        up.append(column);
        up.append(" ");
        up.append(definition);
        let mut down = "ALTER TABLE ".to_owned();
        down.append(table);
        down.append(" DROP COLUMN ");
        down.append(column);
        Migration { version, forward: Action::Statement(up), reverse: Action::Statement(down) }
    }

    /// The version identifier of this migration.
    pub fn version(&self) -> (r: i64)
        ensures
            r == self.version,
    {
        self.version
    }
}

/// No two migrations in the list share a version.
pub open spec fn versions_distinct<P>(migrations: Seq<Migration<P>>) -> bool {
    forall|i: int, j: int|
        0 <= i < j < migrations.len() ==> migrations[i].version != migrations[j].version
}

/// True exactly when no two migrations in the list share a version: the
/// validity check a caller owes the manager before running a batch.
pub fn distinct_versions<P>(migrations: &Vec<Migration<P>>) -> (r: bool)
    ensures
        r == versions_distinct(migrations@),
{
    let n = migrations.len();
    let mut i: usize = 0;
    while i < n
        invariant
            n == migrations@.len(),
            i <= n,
            forall|p: int, q: int|
                0 <= p < q < migrations@.len() && p < i ==> migrations@[p].version
                    != migrations@[q].version,
        decreases n - i,
    {
        let mut j: usize = i + 1;
        while j < n
            invariant
                n == migrations@.len(),
                i < j,
                i < n,
                j <= n,
                forall|q: int| i < q < j ==> migrations@[i as int].version != migrations@[q].version,
            decreases n - j,
        {
            if migrations[i].version == migrations[j].version {
                return false;
            }
            j += 1;
        }
        i += 1;
    }
    true
}

/// The history a list of statements leaves behind: one entry each, in
/// order.
pub open spec fn script_log(stmts: Seq<String>) -> Seq<Query>
    decreases stmts.len(),
{
    if stmts.len() == 0 {
        Seq::empty()
    } else {
        script_log(stmts.drop_last()).push(stmt_query(stmts.last()@))
    }
}

/// A procedure that is nothing but a fixed list of statements, run in
/// order, stopping at the first failure.
pub struct Script {
    pub stmts: Vec<String>,
}

impl Script {
    /// A script from its statements.
    pub fn new(stmts: Vec<String>) -> (r: Script)
        ensures
            r.stmts@ == stmts@,
    {
        Script { stmts }
    }
}

impl<T: TransactionScope> Runnable<T> for Script {
    /// Beyond the general procedure contract, the history is pinned
    /// exactly: on success every statement of the script in order, on
    /// failure the statements before the failing one — so a one-statement
    /// script executes exactly what the statement form of the same
    /// action does.
    fn run(&self, tx: &mut T) -> (r: Result<(), DbError>)
        ensures
            r is Ok ==> final(tx).log() == old(tx).log() + script_log(self.stmts@),
            r is Err ==> exists|k: int|
                0 <= k < self.stmts@.len() && final(tx).log() == old(tx).log() + script_log(
                    self.stmts@.take(k),
                ),
    {
        proof {
            assert(old(tx).log() + script_log(self.stmts@.take(0)) =~= old(tx).log());
        }
        let mut i: usize = 0;
        while i < self.stmts.len()
            invariant
                i <= self.stmts.len(),
                tx.open(),
                !tx.committed(),
                tx.table() == old(tx).table(),
                tx.log() == old(tx).log() + script_log(self.stmts@.take(i as int)),
            decreases self.stmts.len() - i,
        {
            let ghost before = tx.log();
            let ghost gi = i as int;
            match tx.execute(self.stmts[i].as_str()) {
                Ok(_) => {
                    proof {
                        assert(self.stmts@.take(gi + 1).drop_last() =~= self.stmts@.take(gi));
                        assert(self.stmts@.take(gi + 1).last() == self.stmts@[gi]);
                        assert((old(tx).log() + script_log(self.stmts@.take(gi + 1))) =~= before.push(
                            stmt_query(self.stmts@[gi]@),
                        ));
                    }
                },
                Err(e) => {
                    proof {
                        assert(tx.log() == old(tx).log() + script_log(self.stmts@.take(gi)));
                        assert(old(tx).log() =~= tx.log().subrange(0, old(tx).log().len() as int));
                    }
                    return Err(e);
                },
            }
            i += 1;
        }
        proof {
            assert(self.stmts@.take(self.stmts@.len() as int) =~= self.stmts@);
            assert(old(tx).log() =~= tx.log().subrange(0, old(tx).log().len() as int));
        }
        Ok(())
    }
}

} // verus!

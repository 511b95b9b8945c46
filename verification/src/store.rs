use vstd::prelude::*;
use crate::errors::{DbError, Error};
use crate::scope::{
    ensure_schema_sql, erase_sql, record_sql, stmt_query, version_query, TransactionScope,
};

verus! {

/// No value occurs twice in the list.
pub open spec fn distinct_seq(s: Seq<i64>) -> bool {
    forall|i: int, j: int| 0 <= i < j < s.len() ==> s[i] != s[j]
}

/// Whether the list holds the version.
pub(crate) fn contains_version(list: &Vec<i64>, version: i64) -> (r: bool)
    ensures
        r == list@.contains(version),
{
    let n = list.len();
    let mut i: usize = 0;
    while i < n
        invariant
            n == list@.len(),
            i <= n,
            forall|k: int| 0 <= k < i ==> list@[k] != version,
        decreases n - i,
    {
        if list[i] == version {
            return true;
        }
        i += 1;
    }
    false
}

/// Drops repeated values from a list of versions, keeping exactly the set
/// of values it held.
pub fn dedup_versions(rows: &Vec<i64>) -> (r: Vec<i64>)
    ensures
        distinct_seq(r@),
        r@.to_set() == rows@.to_set(),
{
    let n = rows.len();
    let mut versions: Vec<i64> = Vec::new();
    let mut i: usize = 0;
    while i < n
        invariant
            n == rows@.len(),
            i <= n,
            distinct_seq(versions@),
            forall|w: i64|
                versions@.contains(w) <==> (exists|k: int| 0 <= k < i && rows@[k] == w),
        decreases n - i,
    {
        let ghost pre = versions@;
        if !contains_version(&versions, rows[i]) {
            versions.push(rows[i]);
            proof {
                assert forall|w: i64| versions@.contains(w) implies (exists|k: int|
                    0 <= k < i + 1 && rows@[k] == w) by {
                    let p = choose|p: int| 0 <= p < versions@.len() && versions@[p] == w;
                    if p < pre.len() {
                        assert(pre[p] == w);
                        assert(pre.contains(w));
                    } else {
                        assert(rows@[i as int] == w);
                    }
                }
                assert forall|w: i64| (exists|k: int| 0 <= k < i + 1 && rows@[k] == w)
                    implies versions@.contains(w) by {
                    let k = choose|k: int| 0 <= k < i + 1 && rows@[k] == w;
                    if k < i {
                        assert(pre.contains(w));
                        let p = choose|p: int| 0 <= p < pre.len() && pre[p] == w;
                        assert(versions@[p] == w);
                    } else {
                        assert(versions@[pre.len() as int] == w);
                    }
                }
            }
        } else {
            proof {
                assert forall|w: i64| (exists|k: int| 0 <= k < i + 1 && rows@[k] == w)
                    implies versions@.contains(w) by {
                    let k = choose|k: int| 0 <= k < i + 1 && rows@[k] == w;
                    if k == i {
                        assert(versions@.contains(rows@[i as int]));
                    }
                }
            }
        }
        i += 1;
    }
    proof {
        assert forall|w: i64| versions@.to_set().contains(w) implies rows@.to_set().contains(
            w,
        ) by {
            let k = choose|k: int| 0 <= k < n && rows@[k] == w;
            assert(rows@.contains(w));
        }
        assert forall|w: i64| rows@.to_set().contains(w) implies versions@.to_set().contains(
            w,
        ) by {
            let k = choose|k: int| 0 <= k < rows@.len() && rows@[k] == w;
        }
        assert(versions@.to_set() =~= rows@.to_set());
    }
    versions
}

/// Turns the affected-row count of the recording insert into the store's
/// answer: one row changed means the version was recorded, none means it
/// was already present.
pub fn record_outcome(rows: u64, version: i64) -> (r: Result<(), Error>)
    ensures
        rows == 1 ==> r is Ok,
        rows != 1 ==> (r matches Err(Error::DuplicateRecord(v)) && v == version),
{
    if rows == 1 {
        Ok(())
    } else {
        Err(Error::DuplicateRecord(version))
    }
}

/// Turns the affected-row count of the erasing delete into the store's
/// answer: one row changed means the version was erased, none means it
/// was not recorded.
pub fn erase_outcome(rows: u64, version: i64) -> (r: Result<(), Error>)
    ensures
        rows == 1 ==> r is Ok,
        rows != 1 ==> (r matches Err(Error::NotRecorded(v)) && v == version),
{
    if rows == 1 {
        Ok(())
    } else {
        Err(Error::NotRecorded(version))
    }
}

/// The persistent record of applied versions: one row per version in the
/// `schema_migrations` tracking table of the database being migrated.
/// Rows are inserted as migrations are applied and deleted as they are
/// rolled back; the table itself is never dropped.
pub struct VersionStore {}

impl VersionStore {
    /// Idempotently creates the tracking table if it does not exist yet;
    /// safe to run on every manager construction, and never a change to
    /// the recorded versions.
    pub fn ensure_schema<T: TransactionScope>(tx: &mut T) -> (r: Result<(), DbError>)
        requires
            old(tx).open(),
            !old(tx).committed(),
        ensures
            final(tx).open(),
            !final(tx).committed(),
            final(tx).table() == old(tx).table(),
            r is Ok ==> final(tx).log() == old(tx).log().push(stmt_query(ensure_schema_sql())),
            r is Err ==> final(tx).log() == old(tx).log(),
    {
        match tx.execute(
            "CREATE TABLE IF NOT EXISTS schema_migrations (version BIGINT PRIMARY KEY)",
        ) {
            Ok(_) => Ok(()),
            Err(e) => Err(e),
        }
    }

    /// Reads every recorded version, dropping duplicates: the result is
    /// exactly the set of versions the tracking table holds.
    pub fn load_applied<T: TransactionScope>(tx: &mut T) -> (r: Result<Vec<i64>, DbError>)
        requires
            old(tx).open(),
            !old(tx).committed(),
        ensures
            final(tx).open(),
            !final(tx).committed(),
            final(tx).log() == old(tx).log(),
            final(tx).table() == old(tx).table(),
            r matches Ok(versions) ==> {
                &&& distinct_seq(versions@)
                &&& versions@.to_set() == old(tx).table()
            },
    {
        match tx.query_versions("SELECT version FROM schema_migrations") {
            Err(e) => Err(e),
            Ok(rows) => Ok(dedup_versions(&rows)),
        }
    }

    /// Records one applied version, built on `record_outcome`: reports
    /// `DuplicateRecord` when the insert changed no row, that is, exactly
    /// when the version was already present; reports `Db` when the round
    /// trip itself failed.
    pub fn record<T: TransactionScope>(tx: &mut T, version: i64) -> (r: Result<(), Error>)
        requires
            old(tx).open(),
            !old(tx).committed(),
        ensures
            final(tx).open(),
            !final(tx).committed(),
            (r is Ok || r matches Err(Error::DuplicateRecord(_))) ==> {
                &&& final(tx).log() == old(tx).log().push(
                    version_query(record_sql(), version as int),
                )
                &&& final(tx).table() == old(tx).table().insert(version)
            },
            r is Ok ==> !old(tx).table().contains(version),
            r matches Err(Error::DuplicateRecord(v)) ==> v == version && old(
                tx,
            ).table().contains(version),
            r matches Err(Error::Db(_)) ==> final(tx).log() == old(tx).log() && final(tx).table()
                == old(tx).table(),
            r matches Err(e) ==> e is DuplicateRecord || e is Db,
    {
        match tx.execute_version(
            "INSERT INTO schema_migrations (version) VALUES ($1) ON CONFLICT DO NOTHING",
            version,
        ) {
            Err(e) => Err(Error::Db(e)),
            Ok(rows) => record_outcome(rows, version),
        }
    }

    /// Erases one recorded version, built on `erase_outcome`: reports
    /// `NotRecorded` when the delete changed no row, that is, exactly
    /// when the version was absent; reports `Db` when the round trip
    /// itself failed.
    pub fn erase<T: TransactionScope>(tx: &mut T, version: i64) -> (r: Result<(), Error>)
        requires
            old(tx).open(),
            !old(tx).committed(),
        ensures
            final(tx).open(),
            !final(tx).committed(),
            (r is Ok || r matches Err(Error::NotRecorded(_))) ==> {
                &&& final(tx).log() == old(tx).log().push(
                    version_query(erase_sql(), version as int),
                )
                &&& final(tx).table() == old(tx).table().remove(version)
            },
            r is Ok ==> old(tx).table().contains(version),
            r matches Err(Error::NotRecorded(v)) ==> v == version && !old(tx).table().contains(
                version,
            ),
            r matches Err(Error::Db(_)) ==> final(tx).log() == old(tx).log() && final(tx).table()
                == old(tx).table(),
            r matches Err(e) ==> e is NotRecorded || e is Db,
    {
        match tx.execute_version("DELETE FROM schema_migrations WHERE version = $1", version) {
            Err(e) => Err(Error::Db(e)),
            Ok(rows) => erase_outcome(rows, version),
        }
    }
}

} // verus!

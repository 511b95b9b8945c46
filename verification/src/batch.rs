use vstd::prelude::*;
use crate::errors::Error;
use crate::manager::{rollback_step, Manager};
use crate::migration::{Action, Migration};
use crate::scope::{erase_sql, record_sql, stmt_query, version_query, Query, Runnable,
    TransactionScope};

verus! {

/// The set of versions a migration list carries.
pub open spec fn version_set<P>(migrations: Seq<Migration<P>>) -> Set<i64> {
    Set::new(
        |v: i64| exists|i: int| 0 <= i < migrations.len() && migrations[i].version == v,
    )
}

/// Every forward action in the list is a literal statement.
pub open spec fn statement_forwards<P>(migrations: Seq<Migration<P>>) -> bool {
    forall|i: int| 0 <= i < migrations.len() ==> migrations[i].forward is Statement
}

/// The text of a statement action.
pub open spec fn statement_text<P>(action: Action<P>) -> Seq<char> {
    match action {
        Action::Statement(s) => s@,
        Action::Procedure(_) => Seq::empty(),
    }
}

/// The history a batch of statement-form migrations leaves behind: for
/// each element in list order, its forward statement followed by the
/// insert that records its version.
pub open spec fn forward_log<P>(migrations: Seq<Migration<P>>) -> Seq<Query>
    decreases migrations.len(),
{
    if migrations.len() == 0 {
        Seq::empty()
    } else {
        forward_log(migrations.drop_last()).push(
            stmt_query(statement_text(migrations.last().forward)),
        ).push(version_query(record_sql(), migrations.last().version as int))
    }
}

/// Taking one more element of the list adds exactly its version to the
/// version set.
proof fn lemma_version_set_step<P>(migrations: Seq<Migration<P>>, i: int)
    requires
        0 <= i < migrations.len(),
    ensures
        version_set(migrations.take(i + 1)) == version_set(migrations.take(i)).insert(
            migrations[i].version,
        ),
{
    let a = migrations.take(i + 1);
    let b = migrations.take(i);
    assert forall|w: i64| version_set(a).contains(w) implies version_set(b).insert(
        migrations[i].version,
    ).contains(w) by {
        let k = choose|k: int| 0 <= k < a.len() && a[k].version == w;
        if k < i {
            assert(b[k].version == w);
        } else {
            assert(a[k] == migrations[i]);
        }
    }
    assert forall|w: i64| version_set(b).insert(migrations[i].version).contains(w)
        implies version_set(a).contains(w) by {
        if w == migrations[i].version {
            assert(a[i].version == w);
        } else {
            let k = choose|k: int| 0 <= k < b.len() && b[k].version == w;
            assert(a[k].version == w);
        }
    }
    assert(version_set(a) =~= version_set(b).insert(migrations[i].version));
}

/// Taking one more element of the list appends exactly its two history
/// entries to the batch history.
proof fn lemma_forward_log_step<P>(migrations: Seq<Migration<P>>, i: int)
    requires
        0 <= i < migrations.len(),
    ensures
        forward_log(migrations.take(i + 1)) == forward_log(migrations.take(i)).push(
            stmt_query(statement_text(migrations[i].forward)),
        ).push(version_query(record_sql(), migrations[i].version as int)),
{
    assert(migrations.take(i + 1).drop_last() =~= migrations.take(i));
    assert(migrations.take(i + 1).last() == migrations[i]);
}

/// Applies every migration in the list, in list order, as one atomic unit
/// of work. On full success exactly the list's versions join the applied
/// set and the batch is committed; on the first failure the remaining
/// migrations are not attempted, the whole transaction is discarded, and
/// the error is handed back — so either every migration of the batch
/// becomes durable or none does. The caller supplies the list sorted
/// ascending by version and free of duplicates; the list order is
/// trusted, not re-checked. For a list of statement-form migrations the
/// history is pinned exactly: each element's forward statement and
/// recording insert in list order, cut off at the first failure.
pub fn apply_all<T: TransactionScope, P: Runnable<T>>(
    mgr: &mut Manager<T>,
    migrations: &Vec<Migration<P>>,
) -> (r: Result<(), Error>)
    requires
        old(mgr).wf(),
        !old(mgr).commit_flag(),
    ensures
        final(mgr).finished(),
        final(mgr).tx_committed() <==> r is Ok,
        (r is Ok ==> final(mgr).applied_set() == old(mgr).applied_set().union(
            version_set(migrations@),
        )),
        (r is Ok && statement_forwards(migrations@) ==> final(mgr).tx_log()
            == old(mgr).tx_log() + forward_log(migrations@)),
        (r is Err && statement_forwards(migrations@) ==> exists|k: int|
            0 <= k <= migrations@.len() && (final(mgr).tx_log() == old(mgr).tx_log()
                + forward_log(migrations@.take(k)) || (k < migrations@.len()
                && final(mgr).tx_log() == (old(mgr).tx_log() + forward_log(
                migrations@.take(k),
            )).push(stmt_query(statement_text(migrations@[k].forward)))))),
        (r matches Err(e) ==> (e is AlreadyApplied || e is ActionExecution || e is Db || e
            is Transaction)),
{
    let n = migrations.len();
    let mut i: usize = 0;
    while i < n
        invariant
            n == migrations@.len(),
            i <= n,
            mgr.wf(),
            !mgr.commit_flag(),
            mgr.applied_set() == old(mgr).applied_set().union(
                version_set(migrations@.take(i as int)),
            ),
            statement_forwards(migrations@) ==> mgr.tx_log() == old(mgr).tx_log() + forward_log(
                migrations@.take(i as int),
            ),
        decreases n - i,
    {
        let ghost pre_log = mgr.tx_log();
        let ghost gi = i as int;
        match mgr.apply(&migrations[i]) {
            Ok(()) => {
                proof {
                    lemma_version_set_step(migrations@, gi);
                    if statement_forwards(migrations@) {
                        lemma_forward_log_step(migrations@, gi);
                        assert(migrations@[gi].forward is Statement);
                        assert((old(mgr).tx_log() + forward_log(migrations@.take(gi + 1))) =~= (
                        old(mgr).tx_log() + forward_log(migrations@.take(gi))).push(
                            stmt_query(statement_text(migrations@[gi].forward)),
                        ).push(version_query(record_sql(), migrations@[gi].version as int)));
                    }
                }
            },
            Err(e) => {
                let _ = mgr.finish();
                proof {
                    if statement_forwards(migrations@) {
                        assert(migrations@[gi].forward is Statement);
                        if mgr.tx_log() != old(mgr).tx_log() + forward_log(
                            migrations@.take(gi),
                        ) {
                            assert((old(mgr).tx_log() + forward_log(migrations@.take(gi))).push(
                                stmt_query(statement_text(migrations@[gi].forward)),
                            ) =~= old(mgr).tx_log() + forward_log(migrations@.take(gi)).push(
                                stmt_query(statement_text(migrations@[gi].forward)),
                            ));
                        }
                    }
                }
                return Err(e);
            },
        }
        i += 1;
    }
    proof {
        assert(migrations@.take(n as int) =~= migrations@);
    }
    mgr.set_commit();
    mgr.finish()
}

/// Reverts the single most recently applied migration in the list: walks
/// the list from the back, rolls back the first migration found applied,
/// and commits that one change — never a range. When no migration in the
/// list is applied, the call is a no-op that runs no action and still
/// commits an empty unit of work.
pub fn rollback_one<T: TransactionScope, P: Runnable<T>>(
    mgr: &mut Manager<T>,
    migrations: &Vec<Migration<P>>,
) -> (r: Result<(), Error>)
    requires
        old(mgr).wf(),
        !old(mgr).commit_flag(),
    ensures
        final(mgr).finished(),
        final(mgr).tx_committed() <==> r is Ok,
        ((forall|i: int|
            0 <= i < migrations@.len() ==> !old(mgr).applied_set().contains(
                migrations@[i].version,
            )) ==> {
            &&& final(mgr).applied_set() == old(mgr).applied_set()
            &&& final(mgr).tx_log() == old(mgr).tx_log()
        }),
        (r is Ok && (exists|i: int|
            0 <= i < migrations@.len() && old(mgr).applied_set().contains(migrations@[i].version))
            ==> exists|i: int|
            {
                &&& 0 <= i < migrations@.len()
                &&& old(mgr).applied_set().contains(migrations@[i].version)
                &&& final(mgr).applied_set() == rollback_step(
                    old(mgr).applied_set(),
                    migrations@[i].version,
                )
                &&& forall|j: int|
                    i < j < migrations@.len() ==> !old(mgr).applied_set().contains(
                        migrations@[j].version,
                    )
                &&& (migrations@[i].reverse matches Action::Statement(s)
                    ==> final(mgr).tx_log() == old(mgr).tx_log().push(stmt_query(s@)).push(
                    version_query(erase_sql(), migrations@[i].version as int),
                ))
            }),
        (r matches Err(e) ==> (e is ActionExecution || e is Db || e is Transaction)),
{
    match last_applied_index(mgr, migrations) {
        None => {},
        Some(i) => {
            let ghost gi = i as int;
            match mgr.rollback(&migrations[i]) {
                Ok(()) => {
                    proof {
                        assert(0 <= gi < migrations@.len() && old(mgr).applied_set().contains(
                            migrations@[gi].version,
                        ) && mgr.applied_set() == rollback_step(
                            old(mgr).applied_set(),
                            migrations@[gi].version,
                        ));
                    }
                },
                Err(e) => {
                    let _ = mgr.finish();
                    return Err(e);
                },
            }
        },
    }
    mgr.set_commit();
    mgr.finish()
}

/// The position of the most recently applied migration: the last index in
/// the list whose version the manager holds as applied, if any.
fn last_applied_index<T: TransactionScope, P: Runnable<T>>(
    mgr: &Manager<T>,
    migrations: &Vec<Migration<P>>,
) -> (r: Option<usize>)
    ensures
        (r matches Some(i) ==> {
            &&& i < migrations@.len()
            &&& mgr.applied_set().contains(migrations@[i as int].version)
            &&& forall|j: int|
                i < j < migrations@.len() ==> !mgr.applied_set().contains(migrations@[j].version)
        }),
        (r is None ==> forall|j: int|
            0 <= j < migrations@.len() ==> !mgr.applied_set().contains(migrations@[j].version)),
{
    let n = migrations.len();
    let mut i: usize = n;
    while i > 0
        invariant
            n == migrations@.len(),
            i <= n,
            forall|j: int| i <= j < n ==> !mgr.applied_set().contains(migrations@[j].version),
        decreases i,
    {
        i -= 1;
        if mgr.contains(migrations[i].version) {
            return Some(i);
        }
    }
    None
}

} // verus!

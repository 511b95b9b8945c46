use vstd::prelude::*;
use crate::errors::{DbError, Error};
use crate::migration::{Action, Migration};
use crate::scope::{
    erase_sql, lemma_log_prefix_push, record_sql, stmt_query, version_query, Runnable,
    TransactionScope,
};
use crate::store::{contains_version, distinct_seq, VersionStore};

verus! {

/// `apply` runs its forward action exactly when the version is pending.
pub open spec fn apply_accepts(applied: Set<i64>, version: i64) -> bool {
    !applied.contains(version)
}

/// The applied set after a successful `apply`.
pub open spec fn apply_step(applied: Set<i64>, version: i64) -> Set<i64> {
    applied.insert(version)
}

/// `rollback` runs its reverse action exactly when the version is applied.
pub open spec fn rollback_accepts(applied: Set<i64>, version: i64) -> bool {
    applied.contains(version)
}

/// The applied set after a successful `rollback`.
pub open spec fn rollback_step(applied: Set<i64>, version: i64) -> Set<i64> {
    applied.remove(version)
}

/// Appending one element to a list adds exactly that element to the set
/// of its values.
proof fn lemma_push_to_set(s: Seq<i64>, v: i64)
    ensures
        s.push(v).to_set() == s.to_set().insert(v),
{
    assert forall|w: i64| s.push(v).to_set().contains(w) implies s.to_set().insert(v).contains(
        w,
    ) by {
        let i = choose|i: int| 0 <= i < s.push(v).len() && s.push(v)[i] == w;
        if i < s.len() {
            assert(s[i] == w);
            assert(s.contains(w));
        }
    }
    assert forall|w: i64| s.to_set().insert(v).contains(w) implies s.push(v).to_set().contains(
        w,
    ) by {
        if w == v {
            assert(s.push(v)[s.len() as int] == w);
        } else {
            let i = choose|i: int| 0 <= i < s.len() && s[i] == w;
            assert(s.push(v)[i] == w);
        }
        assert(s.push(v).contains(w));
    }
    assert(s.push(v).to_set() =~= s.to_set().insert(v));
}

/// Removes one occurrence of a version from a duplicate-free list: the
/// set of values loses exactly that version.
fn remove_version(list: &mut Vec<i64>, version: i64)
    requires
        distinct_seq(old(list)@),
        old(list)@.contains(version),
    ensures
        distinct_seq(final(list)@),
        final(list)@.to_set() == old(list)@.to_set().remove(version),
{
    let n = list.len();
    let mut i: usize = 0;
    while i < n
        invariant
            n == list@.len(),
            i <= n,
            list@ == old(list)@,
            distinct_seq(list@),
            forall|k: int| 0 <= k < i ==> list@[k] != version,
        decreases n - i,
    {
        if list[i] == version {
            let ghost pre = list@;
            let ghost gi = i as int;
            list.remove(i);
            proof {
                assert(pre[gi] == version);
                assert(distinct_seq(pre));
                assert(forall|k: int| 0 <= k < gi ==> list@[k] == pre[k]);
                assert(forall|k: int| gi <= k < list@.len() ==> list@[k] == pre[k + 1]);
                assert forall|p: int, q: int| 0 <= p < q < list@.len() implies list@[p]
                    != list@[q] by {
                    if q < gi {
                        assert(list@[p] == pre[p] && list@[q] == pre[q]);
                    } else if p < gi {
                        assert(list@[p] == pre[p] && list@[q] == pre[q + 1]);
                    } else {
                        assert(list@[p] == pre[p + 1] && list@[q] == pre[q + 1]);
                    }
                }
                assert(distinct_seq(list@));
                assert forall|w: i64| list@.to_set().contains(w) implies pre.to_set().remove(
                    version,
                ).contains(w) by {
                    let k = choose|k: int| 0 <= k < list@.len() && list@[k] == w;
                    if k < gi {
                        assert(pre[k] == w);
                        assert(pre[k] != version);
                    } else {
                        assert(pre[k + 1] == w);
                        if w == version {
                            assert(pre[k + 1] == pre[gi] && k + 1 != gi);
                            assert(false);
                        }
                    }
                    assert(pre.contains(w));
                    assert(w != version);
                }
                assert forall|w: i64| pre.to_set().remove(version).contains(w)
                    implies list@.to_set().contains(w) by {
                    let k = choose|k: int| 0 <= k < pre.len() && pre[k] == w;
                    if k < gi {
                        assert(list@[k] == w);
                    } else {
                        assert(k != gi);
                        assert(list@[k - 1] == w);
                    }
                    assert(list@.contains(w));
                }
                assert(list@.to_set() =~= pre.to_set().remove(version));
            }
            return ;
        }
        i += 1;
    }
    proof {
        let k = choose|k: int| 0 <= k < list@.len() && list@[k] == version;
        assert(false);
    }
}

/// Runs one action against the scope: a statement is executed verbatim,
/// a procedure is handed the scope itself.
fn run_action<T: TransactionScope, P: Runnable<T>>(tx: &mut T, action: &Action<P>) -> (r: Result<
    (),
    DbError,
>)
    requires
        old(tx).open(),
        !old(tx).committed(),
    ensures
        final(tx).open(),
        !final(tx).committed(),
        final(tx).table() == old(tx).table(),
        old(tx).log().is_prefix_of(final(tx).log()),
        (action matches Action::Statement(s) ==> (if r is Ok {
            final(tx).log() == old(tx).log().push(stmt_query(s@))
        } else {
            final(tx).log() == old(tx).log()
        })),
{
    match action {
        Action::Statement(s) => {
            let ghost before = tx.log();
            match tx.execute(s.as_str()) {
                Ok(_) => {
                    proof {
                        lemma_log_prefix_push(before, before, stmt_query(s@));
                    }
                    Ok(())
                },
                Err(e) => Err(e),
            }
        },
        Action::Procedure(p) => p.run(tx),
    }
}

/// Orchestrates apply and rollback of migrations against a single
/// transaction scope: it loads the applied versions once at construction,
/// keeps them in sync with the [`VersionStore`] as calls succeed, and
/// controls the final commit-or-discard decision for the whole unit of
/// work.
pub struct Manager<T> {
    tx: T,
    applied: Vec<i64>,
    commit: bool,
    finished: bool,
}

impl<T: TransactionScope> Manager<T> {
    /// The set of versions this manager knows to be applied.
    pub closed spec fn applied_set(&self) -> Set<i64> {
        self.applied@.to_set()
    }

    /// Whether `finish` will commit rather than discard.
    pub closed spec fn commit_flag(&self) -> bool {
        self.commit
    }

    /// Whether `finish` already ran; a finished manager is unusable.
    pub closed spec fn finished(&self) -> bool {
        self.finished
    }

    /// The statements executed so far through the bound scope.
    pub closed spec fn tx_log(&self) -> Seq<crate::scope::Query> {
        self.tx.log()
    }

    /// Whether the bound scope's work was made durable.
    pub closed spec fn tx_committed(&self) -> bool {
        self.tx.committed()
    }

    /// The versions the tracking table holds, as the bound scope sees it.
    pub closed spec fn tx_table(&self) -> Set<i64> {
        self.tx.table()
    }

    /// A live manager: its scope is still open, nothing is durable yet,
    /// it is not finished, its applied list holds no duplicates, and the
    /// in-memory applied set is exactly the rows of the tracking table as
    /// visible inside the transaction.
    pub closed spec fn wf(&self) -> bool {
        &&& self.tx.open()
        &&& !self.tx.committed()
        &&& !self.finished
        &&& distinct_seq(self.applied@)
        &&& self.applied@.to_set() == self.tx.table()
    }

    /// Binds a manager to a transaction scope: makes sure the tracking
    /// table exists, loads the applied versions once, and starts with the
    /// commit flag off, so that a manager finished without `set_commit`
    /// discards everything.
    pub fn new(tx: T) -> (r: Result<Manager<T>, Error>)
        requires
            tx.open(),
            !tx.committed(),
        ensures
            (r matches Ok(mgr) ==> {
                &&& mgr.wf()
                &&& !mgr.commit_flag()
                &&& !mgr.finished()
                &&& !mgr.tx_committed()
                &&& mgr.applied_set() == tx.table()
                &&& mgr.tx_table() == tx.table()
                &&& mgr.tx_log() == tx.log().push(stmt_query(crate::scope::ensure_schema_sql()))
            }),
            (r matches Err(e) ==> e is Db),
    {
        let mut tx = tx;
        match VersionStore::ensure_schema(&mut tx) {
            Err(e) => Err(Error::Db(e)),
            Ok(()) => match VersionStore::load_applied(&mut tx) {
                Err(e) => Err(Error::Db(e)),
                Ok(applied) => Ok(Manager { tx, applied, commit: false, finished: false }),
            },
        }
    }

    /// Pure query: is this version in the applied set?
    pub fn contains(&self, version: i64) -> (r: bool)
        ensures
            r == self.applied_set().contains(version),
    {
        contains_version(&self.applied, version)
    }

    /// Applies one pending migration: runs its forward action, then
    /// records the version. A version already applied is rejected before
    /// anything runs; after a failing action the version stays
    /// unrecorded, and whatever partial effect the action had is
    /// discarded with the rest of the unit of work unless it is
    /// committed. The store's defensive duplicate check cannot fire
    /// here: the manager's own check already proved the version absent.
    pub fn apply<P: Runnable<T>>(&mut self, m: &Migration<P>) -> (r: Result<(), Error>)
        requires
            old(self).wf(),
        ensures
            final(self).wf(),
            final(self).commit_flag() == old(self).commit_flag(),
            !final(self).tx_committed(),
            old(self).tx_log().is_prefix_of(final(self).tx_log()),
            (r matches Err(Error::AlreadyApplied(_))) <==> !apply_accepts(
                old(self).applied_set(),
                m.version,
            ),
            (r matches Err(Error::AlreadyApplied(v)) ==> v == m.version && *final(self)
                == *old(self)),
            final(self).applied_set() == final(self).tx_table(),
            (r is Ok ==> {
                &&& apply_accepts(old(self).applied_set(), m.version)
                &&& final(self).applied_set() == apply_step(old(self).applied_set(), m.version)
                &&& final(self).tx_log().len() > old(self).tx_log().len()
                &&& final(self).tx_log().last() == version_query(record_sql(), m.version as int)
                &&& old(self).tx_log().is_prefix_of(final(self).tx_log().drop_last())
            }),
            (r is Ok ==> (m.forward matches Action::Statement(s) ==> final(self).tx_log()
                == old(self).tx_log().push(stmt_query(s@)).push(
                version_query(record_sql(), m.version as int),
            ))),
            (r matches Err(e) ==> (e is AlreadyApplied || e is ActionExecution || e is Db)),
            (r is Err ==> final(self).applied_set() == old(self).applied_set()),
            (r matches Err(Error::ActionExecution(_)) ==> (m.forward is Statement
                ==> final(self).tx_log() == old(self).tx_log())),
            (r matches Err(Error::Db(_)) ==> (m.forward matches Action::Statement(s)
                ==> final(self).tx_log() == old(self).tx_log().push(stmt_query(s@)))),
    {
        if contains_version(&self.applied, m.version) {
            return Err(Error::AlreadyApplied(m.version));
        }
        match run_action(&mut self.tx, &m.forward) {
            Err(e) => Err(Error::ActionExecution(e)),
            Ok(()) => {
                let ghost mid = self.tx.log();
                match VersionStore::record(&mut self.tx, m.version) {
                    Err(e) => {
                        proof {
                            lemma_log_prefix_push(
                                old(self).tx.log(),
                                mid,
                                version_query(record_sql(), m.version as int),
                            );
                        }
                        Err(e)
                    },
                    Ok(()) => {
                        proof {
                            lemma_push_to_set(self.applied@, m.version);
                            lemma_log_prefix_push(
                                old(self).tx.log(),
                                mid,
                                version_query(record_sql(), m.version as int),
                            );
                        }
                        self.applied.push(m.version);
                        Ok(())
                    },
                }
            },
        }
    }

    /// Rolls one applied migration back: runs its reverse action, then
    /// erases the version. A version that is not applied is rejected
    /// before anything runs. The store's defensive missing-row check
    /// cannot fire here: the manager's own check already proved the
    /// version present.
    pub fn rollback<P: Runnable<T>>(&mut self, m: &Migration<P>) -> (r: Result<(), Error>)
        requires
            old(self).wf(),
        ensures
            final(self).wf(),
            final(self).commit_flag() == old(self).commit_flag(),
            !final(self).tx_committed(),
            old(self).tx_log().is_prefix_of(final(self).tx_log()),
            (r matches Err(Error::NotApplied(_))) <==> !rollback_accepts(
                old(self).applied_set(),
                m.version,
            ),
            (r matches Err(Error::NotApplied(v)) ==> v == m.version && *final(self) == *old(self)),
            final(self).applied_set() == final(self).tx_table(),
            (r is Ok ==> {
                &&& rollback_accepts(old(self).applied_set(), m.version)
                &&& final(self).applied_set() == rollback_step(old(self).applied_set(), m.version)
                &&& final(self).tx_log().len() > old(self).tx_log().len()
                &&& final(self).tx_log().last() == version_query(erase_sql(), m.version as int)
                &&& old(self).tx_log().is_prefix_of(final(self).tx_log().drop_last())
            }),
            (r is Ok ==> (m.reverse matches Action::Statement(s) ==> final(self).tx_log()
                == old(self).tx_log().push(stmt_query(s@)).push(
                version_query(erase_sql(), m.version as int),
            ))),
            (r matches Err(e) ==> (e is NotApplied || e is ActionExecution || e is Db)),
            (r is Err ==> final(self).applied_set() == old(self).applied_set()),
            (r matches Err(Error::ActionExecution(_)) ==> (m.reverse is Statement
                ==> final(self).tx_log() == old(self).tx_log())),
            (r matches Err(Error::Db(_)) ==> (m.reverse matches Action::Statement(s)
                ==> final(self).tx_log() == old(self).tx_log().push(stmt_query(s@)))),
    {
        if !contains_version(&self.applied, m.version) {
            return Err(Error::NotApplied(m.version));
        }
        match run_action(&mut self.tx, &m.reverse) {
            Err(e) => Err(Error::ActionExecution(e)),
            Ok(()) => {
                let ghost mid = self.tx.log();
                match VersionStore::erase(&mut self.tx, m.version) {
                    Err(e) => {
                        proof {
                            lemma_log_prefix_push(
                                old(self).tx.log(),
                                mid,
                                version_query(erase_sql(), m.version as int),
                            );
                        }
                        Err(e)
                    },
                    Ok(()) => {
                        proof {
                            lemma_log_prefix_push(
                                old(self).tx.log(),
                                mid,
                                version_query(erase_sql(), m.version as int),
                            );
                        }
                        remove_version(&mut self.applied, m.version);
                        Ok(())
                    },
                }
            },
        }
    }

    /// Arms the final commit: a manager finished after `set_commit` makes
    /// the whole unit of work durable. Idempotent; nothing else changes.
    pub fn set_commit(&mut self)
        requires
            old(self).wf(),
        ensures
            final(self).wf(),
            final(self).commit_flag(),
            final(self).applied_set() == old(self).applied_set(),
            final(self).tx_log() == old(self).tx_log(),
            final(self).finished() == old(self).finished(),
    {
        self.commit = true;
    }

    /// Ends the unit of work: commits everything when the commit flag is
    /// set, otherwise rolls everything back. Either way the manager is
    /// finished and unusable afterwards; the work is durable exactly when
    /// the flag was set and the commit itself succeeded.
    pub fn finish(&mut self) -> (r: Result<(), Error>)
        requires
            old(self).wf(),
        ensures
            final(self).finished(),
            final(self).applied_set() == old(self).applied_set(),
            final(self).commit_flag() == old(self).commit_flag(),
            final(self).tx_log() == old(self).tx_log(),
            (final(self).tx_committed() <==> (old(self).commit_flag() && r is Ok)),
            (r matches Err(e) ==> e is Transaction),
    {
        self.finished = true;
        if self.commit {
            match self.tx.commit() {
                Ok(()) => Ok(()),
                Err(e) => Err(Error::Transaction(e)),
            }
        } else {
            match self.tx.rollback() {
                Ok(()) => Ok(()),
                Err(e) => Err(Error::Transaction(e)),
            }
        }
    }
}

} // verus!

use std::cell::RefCell;
use std::rc::Rc;

use migrate::batch::{apply_all, rollback_one};
use migrate::errors::{DbError, Error};
use migrate::manager::Manager;
use migrate::migration::{Action, Migration, Script};
use migrate::scope::TransactionScope;

/// What a committed transaction leaves behind: the rows of the tracking
/// table and the non-tracking statements that became durable.
#[derive(Default)]
struct Durable {
    versions: Vec<i64>,
    effects: Vec<String>,
    commits: usize,
}

/// An in-memory transaction scope over a shared durable store: changes
/// stay pending until `commit` copies them over; `rollback` drops them.
struct MemScope {
    durable: Rc<RefCell<Durable>>,
    pending_versions: Vec<i64>,
    pending_effects: Vec<String>,
    fail_commit: bool,
    report_no_rows: bool,
}

impl MemScope {
    fn begin(durable: &Rc<RefCell<Durable>>) -> MemScope {
        MemScope {
            durable: Rc::clone(durable),
            pending_versions: durable.borrow().versions.clone(),
            pending_effects: Vec::new(),
            fail_commit: false,
            report_no_rows: false,
        }
    }
}

impl TransactionScope for MemScope {
    // The spec-level history of the scope is never evaluated at run time.
    fn log(&self) -> migrate::scope::Log {
        unreachable!()
    }

    fn table(&self) -> migrate::scope::Table {
        unreachable!()
    }

    fn open(&self) -> bool {
        unreachable!()
    }

    fn committed(&self) -> bool {
        unreachable!()
    }

    fn execute(&mut self, stmt: &str) -> Result<u64, DbError> {
        if stmt.starts_with("CREATE TABLE IF NOT EXISTS schema_migrations") {
            return Ok(0);
        }
        if stmt == "FAIL" {
            return Err(DbError {
                message: String::from("forced failure"),
            });
        }
        self.pending_effects.push(String::from(stmt));
        Ok(0)
    }

    fn execute_version(&mut self, stmt: &str, version: i64) -> Result<u64, DbError> {
        if self.report_no_rows {
            return Ok(0);
        }
        if stmt.starts_with("INSERT INTO schema_migrations") {
            if self.pending_versions.contains(&version) {
                Ok(0)
            } else {
                self.pending_versions.push(version);
                Ok(1)
            }
        } else if stmt.starts_with("DELETE FROM schema_migrations") {
            match self.pending_versions.iter().position(|&v| v == version) {
                Some(i) => {
                    self.pending_versions.remove(i);
                    Ok(1)
                }
                None => Ok(0),
            }
        } else {
            Ok(0)
        }
    }

    fn query_versions(&mut self, _stmt: &str) -> Result<Vec<i64>, DbError> {
        Ok(self.pending_versions.clone())
    }

    fn commit(&mut self) -> Result<(), DbError> {
        if self.fail_commit {
            return Err(DbError {
                message: String::from("commit refused"),
            });
        }
        let mut durable = self.durable.borrow_mut();
        durable.versions = self.pending_versions.clone();
        durable.effects.append(&mut self.pending_effects);
        durable.commits += 1;
        Ok(())
    }

    fn rollback(&mut self) -> Result<(), DbError> {
        Ok(())
    }
}

fn fresh_db() -> Rc<RefCell<Durable>> {
    Rc::new(RefCell::new(Durable::default()))
}

fn stmt_migration(version: i64, up: &str, down: &str) -> Migration<Script> {
    Migration::run(version, String::from(up), String::from(down))
}

#[test]
fn atomic_batch_apply_discards_all() {
    let db = fresh_db();
    let migs = vec![
        stmt_migration(1, "FWD 1", "REV 1"),
        stmt_migration(2, "FWD 2", "REV 2"),
        stmt_migration(3, "FAIL", "REV 3"),
    ];
    let mut mgr = Manager::new(MemScope::begin(&db)).unwrap();
    let r = apply_all(&mut mgr, &migs);
    assert!(matches!(r, Err(Error::ActionExecution(_))));
    let durable = db.borrow();
    assert!(durable.versions.is_empty());
    assert!(durable.effects.is_empty());
    assert_eq!(durable.commits, 0);
}

#[test]
fn successful_batch_apply_records_all() {
    let db = fresh_db();
    let migs = vec![
        stmt_migration(1, "FWD 1", "REV 1"),
        stmt_migration(2, "FWD 2", "REV 2"),
        stmt_migration(3, "FWD 3", "REV 3"),
    ];
    let mut mgr = Manager::new(MemScope::begin(&db)).unwrap();
    assert!(apply_all(&mut mgr, &migs).is_ok());
    {
        let durable = db.borrow();
        assert_eq!(durable.versions, vec![1, 2, 3]);
        assert_eq!(
            durable.effects,
            vec![
                String::from("FWD 1"),
                String::from("FWD 2"),
                String::from("FWD 3")
            ]
        );
        assert_eq!(durable.commits, 1);
    }
    let reloaded = Manager::new(MemScope::begin(&db)).unwrap();
    assert!(reloaded.contains(1) && reloaded.contains(2) && reloaded.contains(3));
}

#[test]
fn single_step_rollback_reverts_most_recent() {
    let db = fresh_db();
    db.borrow_mut().versions = vec![1, 2, 3];
    let migs = vec![
        stmt_migration(1, "FWD 1", "REV 1"),
        stmt_migration(2, "FWD 2", "REV 2"),
        stmt_migration(3, "FWD 3", "REV 3"),
    ];
    let mut mgr = Manager::new(MemScope::begin(&db)).unwrap();
    assert!(rollback_one(&mut mgr, &migs).is_ok());
    {
        let durable = db.borrow();
        assert_eq!(durable.versions, vec![1, 2]);
        assert_eq!(durable.effects, vec![String::from("REV 3")]);
    }
    let mut again = Manager::new(MemScope::begin(&db)).unwrap();
    assert!(rollback_one(&mut again, &migs).is_ok());
    let durable = db.borrow();
    assert_eq!(durable.versions, vec![1]);
    assert_eq!(
        durable.effects,
        vec![String::from("REV 3"), String::from("REV 2")]
    );
}

#[test]
fn reapply_of_same_version_rejected() {
    let db = fresh_db();
    let m = stmt_migration(5, "FWD 5", "REV 5");
    let mut mgr = Manager::new(MemScope::begin(&db)).unwrap();
    assert!(mgr.apply(&m).is_ok());
    let r = mgr.apply(&m);
    assert!(matches!(r, Err(Error::AlreadyApplied(5))));
    mgr.set_commit();
    assert!(mgr.finish().is_ok());
    let durable = db.borrow();
    assert_eq!(durable.effects, vec![String::from("FWD 5")]);
    assert_eq!(durable.versions, vec![5]);
}

#[test]
fn rollback_of_unapplied_version_rejected() {
    let db = fresh_db();
    let m = stmt_migration(5, "FWD 5", "REV 5");
    let mut mgr = Manager::new(MemScope::begin(&db)).unwrap();
    let r = mgr.rollback(&m);
    assert!(matches!(r, Err(Error::NotApplied(5))));
    mgr.set_commit();
    assert!(mgr.finish().is_ok());
    let durable = db.borrow();
    assert!(durable.effects.is_empty());
    assert!(durable.versions.is_empty());
}

#[test]
fn noop_rollback_on_empty_store_commits() {
    let db = fresh_db();
    let migs = vec![
        stmt_migration(1, "FWD 1", "REV 1"),
        stmt_migration(2, "FWD 2", "REV 2"),
    ];
    let mut mgr = Manager::new(MemScope::begin(&db)).unwrap();
    assert!(rollback_one(&mut mgr, &migs).is_ok());
    let durable = db.borrow();
    assert_eq!(durable.commits, 1);
    assert!(durable.versions.is_empty());
    assert!(durable.effects.is_empty());
}

#[test]
fn finish_without_set_commit_discards() {
    let db = fresh_db();
    let m1 = stmt_migration(1, "FWD 1", "REV 1");
    let m2 = stmt_migration(2, "FWD 2", "REV 2");
    let mut mgr = Manager::new(MemScope::begin(&db)).unwrap();
    assert!(mgr.apply(&m1).is_ok());
    assert!(mgr.apply(&m2).is_ok());
    assert!(mgr.finish().is_ok());
    let durable = db.borrow();
    assert!(durable.versions.is_empty());
    assert!(durable.effects.is_empty());
    assert_eq!(durable.commits, 0);
}

#[test]
fn apply_all_of_empty_list_commits_nothing() {
    let db = fresh_db();
    let migs: Vec<Migration<Script>> = Vec::new();
    let mut mgr = Manager::new(MemScope::begin(&db)).unwrap();
    assert!(apply_all(&mut mgr, &migs).is_ok());
    let durable = db.borrow();
    assert_eq!(durable.commits, 1);
    assert!(durable.versions.is_empty());
    assert!(durable.effects.is_empty());
}

#[test]
fn largest_version_round_trips() {
    let db = fresh_db();
    let m = stmt_migration(i64::MAX, "FWD MAX", "REV MAX");
    let mut mgr = Manager::new(MemScope::begin(&db)).unwrap();
    assert!(mgr.apply(&m).is_ok());
    assert!(mgr.contains(i64::MAX));
    assert!(mgr.rollback(&m).is_ok());
    assert!(!mgr.contains(i64::MAX));
    mgr.set_commit();
    assert!(mgr.finish().is_ok());
    let durable = db.borrow();
    assert!(durable.versions.is_empty());
    assert_eq!(
        durable.effects,
        vec![String::from("FWD MAX"), String::from("REV MAX")]
    );
}

#[test]
fn contains_reflects_loaded_store() {
    let db = fresh_db();
    db.borrow_mut().versions = vec![4];
    let mgr = Manager::new(MemScope::begin(&db)).unwrap();
    assert!(mgr.contains(4));
    assert!(!mgr.contains(9));
}

#[test]
fn procedure_action_runs_statements_in_order() {
    let db = fresh_db();
    let script = Script::new(vec![String::from("STEP 1"), String::from("STEP 2")]);
    let m = Migration::new(
        9,
        Action::Procedure(script),
        Action::Statement(String::from("REV 9")),
    );
    let mut mgr = Manager::new(MemScope::begin(&db)).unwrap();
    assert!(mgr.apply(&m).is_ok());
    mgr.set_commit();
    assert!(mgr.finish().is_ok());
    let durable = db.borrow();
    assert_eq!(
        durable.effects,
        vec![String::from("STEP 1"), String::from("STEP 2")]
    );
    assert_eq!(durable.versions, vec![9]);
}

#[test]
fn failing_procedure_surfaces_action_error() {
    let db = fresh_db();
    let script = Script::new(vec![String::from("STEP 1"), String::from("FAIL")]);
    let m = Migration::new(
        9,
        Action::Procedure(script),
        Action::Statement(String::from("REV 9")),
    );
    let mut mgr = Manager::new(MemScope::begin(&db)).unwrap();
    let r = mgr.apply(&m);
    assert!(matches!(r, Err(Error::ActionExecution(_))));
    assert!(!mgr.contains(9));
    assert!(mgr.finish().is_ok());
    let durable = db.borrow();
    assert!(durable.versions.is_empty());
    assert!(durable.effects.is_empty());
}

#[test]
fn commit_failure_reports_transaction_error() {
    let db = fresh_db();
    let m = stmt_migration(1, "FWD 1", "REV 1");
    let mut scope = MemScope::begin(&db);
    scope.fail_commit = true;
    let mut mgr = Manager::new(scope).unwrap();
    assert!(mgr.apply(&m).is_ok());
    mgr.set_commit();
    let r = mgr.finish();
    assert!(matches!(r, Err(Error::Transaction(_))));
    let durable = db.borrow();
    assert!(durable.versions.is_empty());
    assert_eq!(durable.commits, 0);
}

// The next two scenarios use a scope that breaks its own contract (it
// reports no affected row for a change the manager proved necessary) to
// exercise the store's defensive answers at run time.
#[test]
fn insert_changing_no_row_reports_duplicate_record() {
    let db = fresh_db();
    let m = stmt_migration(5, "FWD 5", "REV 5");
    let mut scope = MemScope::begin(&db);
    scope.report_no_rows = true;
    let mut mgr = Manager::new(scope).unwrap();
    let r = mgr.apply(&m);
    assert!(matches!(r, Err(Error::DuplicateRecord(5))));
    assert!(!mgr.contains(5));
}

#[test]
fn delete_changing_no_row_reports_not_recorded() {
    let db = fresh_db();
    db.borrow_mut().versions = vec![5];
    let m = stmt_migration(5, "FWD 5", "REV 5");
    let mut scope = MemScope::begin(&db);
    scope.report_no_rows = true;
    let mut mgr = Manager::new(scope).unwrap();
    let r = mgr.rollback(&m);
    assert!(matches!(r, Err(Error::NotRecorded(5))));
    assert!(mgr.contains(5));
}

#[test]
fn loaded_versions_are_deduplicated() {
    let db = fresh_db();
    db.borrow_mut().versions = vec![7, 7, 8];
    let mut mgr = Manager::new(MemScope::begin(&db)).unwrap();
    assert!(mgr.contains(7) && mgr.contains(8));
    let m = stmt_migration(7, "FWD 7", "REV 7");
    assert!(matches!(mgr.apply(&m), Err(Error::AlreadyApplied(7))));
}

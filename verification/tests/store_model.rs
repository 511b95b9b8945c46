use migrate::errors::Error;
use migrate::store::{dedup_versions, erase_outcome, record_outcome};

#[test]
fn dedup_keeps_each_version_once() {
    let rows = vec![3, 1, 3, 2, 1];
    let mut out = dedup_versions(&rows);
    out.sort();
    assert_eq!(out, vec![1, 2, 3]);
}

#[test]
fn dedup_of_empty_list_is_empty() {
    let rows: Vec<i64> = Vec::new();
    assert!(dedup_versions(&rows).is_empty());
}

#[test]
fn record_outcome_decides_by_row_count() {
    assert!(record_outcome(1, 7).is_ok());
    assert!(matches!(
        record_outcome(0, 7),
        Err(Error::DuplicateRecord(7))
    ));
}

#[test]
fn erase_outcome_decides_by_row_count() {
    assert!(erase_outcome(1, 7).is_ok());
    assert!(matches!(erase_outcome(0, 7), Err(Error::NotRecorded(7))));
}

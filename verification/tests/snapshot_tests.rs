use bin_until_trash::snapshot::{detect, FileRecord, Snapshot};

fn rec(path: &str, modified: u64) -> FileRecord {
    FileRecord { path: path.to_string(), modified }
}

#[test]
fn new_snapshot_knows_nothing() {
    let s = Snapshot::new();
    assert_eq!(s.len(), 0);
    assert_eq!(s.get("a"), None);
    assert!(s.differs(&rec("a", 0)));
}

#[test]
fn recorded_time_is_found_again() {
    let mut s = Snapshot::new();
    s.record("a".to_string(), 10);
    s.record("b".to_string(), 20);
    assert_eq!(s.len(), 2);
    assert_eq!(s.get("a"), Some(10));
    assert_eq!(s.get("b"), Some(20));
    assert_eq!(s.get("c"), None);
    s.record("a".to_string(), 11);
    assert_eq!(s.len(), 2);
    assert_eq!(s.get("a"), Some(11));
}

#[test]
fn file_differs_by_absence_or_by_time() {
    let mut s = Snapshot::new();
    s.record("a".to_string(), 10);
    assert!(!s.differs(&rec("a", 10)));
    assert!(s.differs(&rec("a", 11)));
    assert!(s.differs(&rec("a", 9)));
    assert!(s.differs(&rec("b", 10)));
}

#[test]
fn first_pass_reports_every_file() {
    let walk = vec![rec("src/a", 1), rec("src/b", 2), rec("src/c/d", 3)];
    let d = detect(None, &walk);
    assert_eq!(d.changed, vec!["src/a", "src/b", "src/c/d"]);
    assert_eq!(d.snapshot.len(), 3);
    assert_eq!(d.snapshot.get("src/a"), Some(1));
    assert_eq!(d.snapshot.get("src/b"), Some(2));
    assert_eq!(d.snapshot.get("src/c/d"), Some(3));
}

#[test]
fn first_pass_against_an_empty_snapshot_reports_every_file() {
    let walk = vec![rec("a", 1), rec("b", 2)];
    let empty = Snapshot::new();
    let d = detect(Some(&empty), &walk);
    assert_eq!(d.changed, vec!["a", "b"]);
}

#[test]
fn second_pass_without_changes_reports_nothing() {
    let walk = vec![rec("a", 1), rec("b", 2), rec("c", 3)];
    let first = detect(None, &walk);
    let second = detect(Some(&first.snapshot), &walk);
    assert!(second.changed.is_empty());
    assert_eq!(second.snapshot.len(), 3);
}

#[test]
fn modified_and_new_files_are_reported_in_walk_order() {
    let first = detect(None, &vec![rec("a", 1), rec("b", 2), rec("c", 3)]);
    let walk = vec![rec("n", 9), rec("a", 1), rec("b", 5), rec("c", 2)];
    let second = detect(Some(&first.snapshot), &walk);
    assert_eq!(second.changed, vec!["n", "b", "c"]);
    assert_eq!(second.snapshot.get("b"), Some(5));
    assert_eq!(second.snapshot.get("c"), Some(2));
    assert_eq!(second.snapshot.get("n"), Some(9));
}

#[test]
fn deleted_file_is_not_reported_and_leaves_the_snapshot() {
    let first = detect(None, &vec![rec("a", 1), rec("b", 2)]);
    let second = detect(Some(&first.snapshot), &vec![rec("a", 1)]);
    assert!(second.changed.is_empty());
    assert_eq!(second.snapshot.len(), 1);
    assert_eq!(second.snapshot.get("a"), Some(1));
    assert_eq!(second.snapshot.get("b"), None);
}

#[test]
fn empty_walk_gives_empty_results() {
    let first = detect(None, &vec![rec("a", 1)]);
    let d = detect(Some(&first.snapshot), &vec![]);
    assert!(d.changed.is_empty());
    assert_eq!(d.snapshot.len(), 0);
}

#[test]
fn repeated_path_keeps_its_last_time() {
    let d = detect(None, &vec![rec("a", 1), rec("a", 2)]);
    assert_eq!(d.changed, vec!["a", "a"]);
    assert_eq!(d.snapshot.len(), 1);
    assert_eq!(d.snapshot.get("a"), Some(2));
    let again = detect(Some(&d.snapshot), &vec![rec("a", 1), rec("a", 2)]);
    assert_eq!(again.changed, vec!["a"]);
}

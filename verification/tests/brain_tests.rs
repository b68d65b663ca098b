use mdb::brain::{Brain, BrainData};
use mdb::errors::NoteError;

fn count_of(entries: &[String], x: &str) -> usize {
    entries.iter().filter(|e| e.as_str() == x).count()
}

#[test]
fn test_add_then_list_includes_path_exactly_once() {
    let mut record = BrainData::new();
    record.add(&"/notes/a.md".to_string());
    record.add(&"/notes/a.md".to_string());
    record.add(&"/notes/a.md".to_string());
    let listed = record.list();
    assert_eq!(count_of(&listed, "/notes/a.md"), 1);
}

#[test]
fn test_add_keeps_distinct_paths() {
    let mut record = BrainData::new();
    record.add(&"/notes/a.md".to_string());
    record.add(&"/notes/b.md".to_string());
    let listed = record.list();
    assert_eq!(listed, vec!["/notes/a.md".to_string(), "/notes/b.md".to_string()]);
}

#[test]
fn test_from_entries_deduplicates_keeping_first() {
    let stored = vec!["a".to_string(), "b".to_string(), "a".to_string()];
    let record = BrainData::from_entries(&stored);
    assert_eq!(record.list(), vec!["a".to_string(), "b".to_string()]);
}

#[test]
fn test_retain_present_drops_exactly_unflagged_entries() {
    let mut record = BrainData::from_entries(&vec![
        "a".to_string(),
        "b".to_string(),
        "c".to_string(),
    ]);
    let removed = record.retain_present(&vec![true, false, true]);
    assert_eq!(removed, 1);
    assert_eq!(record.list(), vec!["a".to_string(), "c".to_string()]);
}

#[test]
fn test_retain_present_keeps_all_flagged() {
    let mut record = BrainData::from_entries(&vec!["a".to_string(), "b".to_string()]);
    let removed = record.retain_present(&vec![true, true]);
    assert_eq!(removed, 0);
    assert_eq!(record.list(), vec!["a".to_string(), "b".to_string()]);
}

#[test]
fn test_list_joins_one_per_line() {
    let record = BrainData::from_entries(&vec!["a".to_string(), "b".to_string()]);
    assert_eq!(Brain::list(&record), "a\nb");
    let empty = BrainData::new();
    assert_eq!(Brain::list(&empty), "");
}

#[test]
fn test_brain_add_missing_file_is_not_found() {
    let mut record = BrainData::new();
    let r = Brain::add(&mut record, &"/no/such/file/anywhere.md".to_string());
    assert!(matches!(r, Err(NoteError::NotFound(_))));
    assert!(record.list().is_empty());
}

#[test]
fn test_brain_add_existing_path_records_it() {
    let mut record = BrainData::new();
    let r = Brain::add(&mut record, &"/".to_string());
    assert_eq!(r.expect("the root directory exists"), "/");
    assert_eq!(record.list(), vec!["/".to_string()]);
}

#[test]
fn test_clean_on_missing_files_empties_record() {
    let mut record = BrainData::from_entries(&vec![
        "/no/such/file/one.md".to_string(),
        "/no/such/file/two.md".to_string(),
    ]);
    let removed = Brain::clean(&mut record);
    assert_eq!(removed, 2);
    assert!(record.list().is_empty());
}

#[test]
fn test_clean_never_removes_present_paths() {
    let mut record = BrainData::from_entries(&vec![
        "/".to_string(),
        "/no/such/file/one.md".to_string(),
    ]);
    let removed = Brain::clean(&mut record);
    assert_eq!(removed, 1);
    assert_eq!(record.list(), vec!["/".to_string()]);
}

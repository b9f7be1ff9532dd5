use std::collections::HashMap;
use minitools::sync::{index_files, plan_sync, FileIndex, FileMeta, FileRecord, Timestamp};

fn meta(len: u64, secs: u64) -> FileMeta {
    FileMeta { len, modified: Timestamp { before_epoch: false, secs, nanos: 0 } }
}

fn rec(path: &str, len: u64, secs: u64) -> FileRecord {
    FileRecord { path: path.to_string(), meta: meta(len, secs) }
}

fn sorted(mut v: Vec<String>) -> Vec<String> {
    v.sort();
    v
}

#[test]
fn paths_are_cleaned_when_indexed() {
    let idx = index_files(&vec![
        rec("a/./b//c", 1, 1),
        rec("d/e/../f", 2, 2),
        rec("", 3, 3),
        rec("../x", 4, 4),
    ]);
    assert_eq!(idx.len(), 4);
    assert_eq!(idx.get(&"a/b/c".to_string()), Some(meta(1, 1)));
    assert_eq!(idx.get(&"d/f".to_string()), Some(meta(2, 2)));
    assert_eq!(idx.get(&".".to_string()), Some(meta(3, 3)));
    assert_eq!(idx.get(&"../x".to_string()), Some(meta(4, 4)));
}

#[test]
fn index_keys_by_cleaned_path() {
    let idx = index_files(&vec![rec("./a.txt", 1, 10), rec("dir//b.txt", 2, 20)]);
    assert_eq!(idx.len(), 2);
    assert_eq!(idx.get(&"a.txt".to_string()), Some(meta(1, 10)));
    assert_eq!(idx.get(&"dir/b.txt".to_string()), Some(meta(2, 20)));
    assert_eq!(idx.get(&"./a.txt".to_string()), None);
}

#[test]
fn later_record_overrides() {
    let idx = index_files(&vec![rec("a", 1, 1), rec("./a", 2, 2)]);
    assert_eq!(idx.len(), 1);
    assert_eq!(idx.get(&"a".to_string()), Some(meta(2, 2)));
}

#[test]
fn index_insert_and_records() {
    let mut idx = FileIndex::new();
    idx.insert("x".to_string(), meta(1, 1));
    idx.insert("y".to_string(), meta(2, 2));
    idx.insert("x".to_string(), meta(3, 3));
    assert_eq!(idx.len(), 2);
    let mut paths: Vec<String> = idx.records().iter().map(|r| r.path.clone()).collect();
    paths.sort();
    assert_eq!(paths, vec!["x".to_string(), "y".to_string()]);
    assert_eq!(idx.get(&"x".to_string()), Some(meta(3, 3)));
}

#[test]
fn plan_copies_new_and_changed_and_deletes_extra() {
    let source = index_files(&vec![
        rec("same", 5, 100),
        rec("new", 1, 1),
        rec("bigger", 9, 100),
        rec("touched", 5, 200),
    ]);
    let replica = index_files(&vec![
        rec("same", 5, 100),
        rec("bigger", 8, 100),
        rec("touched", 5, 100),
        rec("stale", 3, 3),
    ]);
    let plan = plan_sync(&source, &replica);
    assert_eq!(
        sorted(plan.to_copy),
        vec!["bigger".to_string(), "new".to_string(), "touched".to_string()]
    );
    assert_eq!(plan.to_delete, vec!["stale".to_string()]);
}

#[test]
fn plan_is_empty_for_identical_trees() {
    let records = vec![rec("a", 1, 1), rec("d/b", 2, 2)];
    let plan = plan_sync(&index_files(&records), &index_files(&records));
    assert!(plan.to_copy.is_empty());
    assert!(plan.to_delete.is_empty());
}

#[test]
fn plan_against_empty_replica_copies_everything() {
    let source = index_files(&vec![rec("a", 1, 1), rec("b", 2, 2)]);
    let plan = plan_sync(&source, &FileIndex::new());
    assert_eq!(sorted(plan.to_copy), vec!["a".to_string(), "b".to_string()]);
    assert!(plan.to_delete.is_empty());
    let plan = plan_sync(&FileIndex::new(), &source);
    assert!(plan.to_copy.is_empty());
    assert_eq!(sorted(plan.to_delete), vec!["a".to_string(), "b".to_string()]);
}

#[test]
fn timestamps_before_epoch_differ() {
    let a = FileMeta { len: 1, modified: Timestamp { before_epoch: true, secs: 5, nanos: 0 } };
    let b = FileMeta { len: 1, modified: Timestamp { before_epoch: false, secs: 5, nanos: 0 } };
    let mut src = FileIndex::new();
    src.insert("f".to_string(), a);
    let mut rep = FileIndex::new();
    rep.insert("f".to_string(), b);
    assert_eq!(plan_sync(&src, &rep).to_copy, vec!["f".to_string()]);
}

#[test]
fn carrying_out_the_plan_reaches_the_source() {
    let source_records = vec![rec("a", 1, 1), rec("b", 2, 2), rec("c", 3, 3)];
    let replica_records = vec![rec("a", 1, 1), rec("b", 9, 2), rec("z", 4, 4)];
    let source = index_files(&source_records);
    let replica = index_files(&replica_records);
    let plan = plan_sync(&source, &replica);
    let mut after: HashMap<String, FileMeta> =
        replica.records().iter().map(|r| (r.path.clone(), r.meta)).collect();
    for p in &plan.to_copy {
        after.insert(p.clone(), source.get(p).unwrap());
    }
    for p in &plan.to_delete {
        after.remove(p);
    }
    let expected: HashMap<String, FileMeta> =
        source.records().iter().map(|r| (r.path.clone(), r.meta)).collect();
    assert_eq!(after, expected);
}

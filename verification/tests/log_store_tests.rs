use tee_guardian::log_store::{log_entry_filename, parse_log_index, restore_log, snapshot_id, LogId, RaftLog, StoredLogEntry};

fn id(term: u64, index: u64) -> LogId {
    LogId { term, node_id: 1, index }
}

#[test]
fn test_log_entry_filename() {
    assert_eq!(log_entry_filename(1), "00000001.bin");
    assert_eq!(log_entry_filename(255), "000000ff.bin");
    assert_eq!(log_entry_filename(0xDEADBEEF), "deadbeef.bin");
}

#[test]
fn test_parse_log_index() {
    assert_eq!(parse_log_index("00000001.bin"), Some(1));
    assert_eq!(parse_log_index("000000ff.bin"), Some(255));
    assert_eq!(parse_log_index("deadbeef.bin"), Some(0xDEADBEEF));
    assert_eq!(parse_log_index("invalid.bin"), None);
    assert_eq!(parse_log_index("00000001.txt"), None);
}

#[test]
fn filename_roundtrip_beyond_eight_digits() {
    let name = log_entry_filename(0x1_0000_0000);
    assert_eq!(name, "100000000.bin");
    assert_eq!(parse_log_index(&name), Some(0x1_0000_0000));
}

#[test]
fn test_new_store() {
    let log: RaftLog<u8> = RaftLog::new();
    assert!(log.is_empty());
    assert_eq!(log.last_log_id(), None);
    assert_eq!(log.read_committed(), None);
}

#[test]
fn test_committed_persistence() {
    let mut log: RaftLog<u8> = RaftLog::new();
    log.save_committed(Some(id(1, 42)));
    assert_eq!(log.read_committed(), Some(id(1, 42)));
}

#[test]
fn test_log_entry_persistence() {
    let files = vec![
        StoredLogEntry { file_index: 3, id: id(1, 3), entry: 'c' },
        StoredLogEntry { file_index: 1, id: id(1, 1), entry: 'a' },
        StoredLogEntry { file_index: 2, id: id(1, 2), entry: 'b' },
    ];
    let log = restore_log(files).unwrap();
    assert_eq!(log.indexes_in(1, 3), vec![1, 2, 3]);
    assert_eq!(log.get(1).map(|e| e.1), Some('a'));
    assert_eq!(log.get(3).map(|e| e.1), Some('c'));
    assert_eq!(log.last_log_id(), Some(id(1, 3)));
}

#[test]
fn restore_refuses_mismatched_file() {
    let files = vec![
        StoredLogEntry { file_index: 1, id: id(1, 1), entry: 0u8 },
        StoredLogEntry { file_index: 2, id: id(1, 5), entry: 0u8 },
    ];
    match restore_log(files) {
        Err(m) => assert_eq!(m, "Log entry index mismatch: filename says 2, content says 5"),
        Ok(_) => panic!("mismatch accepted"),
    }
}

#[test]
fn test_truncate() {
    let mut log: RaftLog<u8> = RaftLog::new();
    log.insert(id(1, 1), 1);
    log.insert(id(1, 2), 2);
    log.insert(id(1, 3), 3);
    let removed = log.truncate(2);
    assert_eq!(removed, vec![2, 3]);
    assert_eq!(log.indexes_in(1, 3), vec![1]);
    assert_eq!(log.len(), 1);
}

#[test]
fn test_purge() {
    let mut log: RaftLog<u8> = RaftLog::new();
    log.insert(id(1, 1), 1);
    log.insert(id(1, 2), 2);
    log.insert(id(1, 3), 3);
    let removed = log.purge(id(1, 2));
    assert_eq!(removed, vec![1, 2]);
    assert_eq!(log.indexes_in(1, 3), vec![3]);
    assert_eq!(log.last_purged_log_id(), Some(id(1, 2)));
    // Purging everything keeps the last purged position as the last one.
    log.purge(id(1, 3));
    assert!(log.is_empty());
    assert_eq!(log.last_log_id(), Some(id(1, 3)));
}

#[test]
fn insert_replaces_same_index() {
    let mut log: RaftLog<&str> = RaftLog::new();
    log.insert(id(1, 5), "old");
    log.insert(id(2, 5), "new");
    assert_eq!(log.len(), 1);
    assert_eq!(log.get(5), Some(&(id(2, 5), "new")));
}

#[test]
fn snapshot_ids() {
    assert_eq!(snapshot_id(Some(id(3, 10)), 2), "T3-N1-10-2");
    assert_eq!(snapshot_id(None, 1), "--1");
}

#[test]
fn written_entries_reload_in_any_listing_order() {
    // Write three entries, then rewrite index 2, into an empty directory.
    let written = [(id(1, 1), "a"), (id(1, 2), "b"), (id(1, 3), "c"), (id(2, 2), "b2")];
    let mut dir: std::collections::BTreeMap<String, (LogId, &str)> = std::collections::BTreeMap::new();
    for (pos, e) in written.iter() {
        dir.insert(log_entry_filename(pos.index), (*pos, *e));
    }
    // List the directory in reverse name order, as a file system may.
    let mut files = Vec::new();
    for (name, (pos, e)) in dir.iter().rev() {
        let index = parse_log_index(name).unwrap();
        files.push(StoredLogEntry { file_index: index, id: *pos, entry: *e });
    }
    let log = restore_log(files).unwrap();
    assert_eq!(log.len(), 3);
    assert_eq!(log.indexes_in(0, 10), vec![1, 2, 3]);
    assert_eq!(log.get(1).unwrap(), &(id(1, 1), "a"));
    assert_eq!(log.get(2).unwrap(), &(id(2, 2), "b2"));
    assert_eq!(log.get(3).unwrap(), &(id(1, 3), "c"));
}

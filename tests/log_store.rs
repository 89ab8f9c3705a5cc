use schedule_rs::log_store::{Entry, EntryPayload, LogError, LogStore, Membership};

fn blank(index: u64, term: u64) -> Entry {
    Entry { index, term, payload: EntryPayload::Blank }
}

fn config(index: u64, term: u64, members: Vec<u64>) -> Entry {
    Entry { index, term, payload: EntryPayload::ConfigChange(Membership { members }) }
}

fn indices(entries: &[Entry]) -> Vec<u64> {
    entries.iter().map(|e| e.index).collect()
}

fn filled(n: u64) -> LogStore {
    let mut log = LogStore::new();
    for i in 1..=n {
        log.append_entry(blank(i, 1)).unwrap();
    }
    log
}

#[test]
fn append_keeps_index_order() {
    let mut log = LogStore::new();
    log.append_entry(blank(3, 1)).unwrap();
    log.append_entry(blank(1, 1)).unwrap();
    log.append_entry(blank(2, 1)).unwrap();
    assert_eq!(indices(&log.read_range(0, 10)), vec![1, 2, 3]);
    assert_eq!(log.len(), 3);
}

#[test]
fn append_conflict_on_taken_index() {
    let mut log = filled(2);
    assert_eq!(log.append_entry(blank(2, 5)), Err(LogError::Conflict(2)));
    assert_eq!(log.len(), 2);
    assert_eq!(log.term_of(2), Some(1));
}

#[test]
fn append_batch_is_all_or_nothing() {
    let mut log = filled(2);
    let r = log.append_batch(vec![blank(3, 1), blank(2, 1), blank(4, 1)]);
    assert_eq!(r, Err(LogError::Conflict(2)));
    assert_eq!(indices(&log.read_range(0, 10)), vec![1, 2]);
    let r = log.append_batch(vec![blank(5, 1), blank(5, 2)]);
    assert_eq!(r, Err(LogError::Conflict(5)));
    assert_eq!(log.len(), 2);
    log.append_batch(vec![blank(4, 2), blank(3, 2)]).unwrap();
    assert_eq!(indices(&log.read_range(0, 10)), vec![1, 2, 3, 4]);
}

#[test]
fn read_range_is_half_open() {
    let log = filled(5);
    assert_eq!(indices(&log.read_range(2, 4)), vec![2, 3]);
    assert_eq!(indices(&log.read_range(3, 3)), Vec::<u64>::new());
}

#[test]
fn read_range_start_after_stop_is_empty() {
    let log = filled(5);
    assert!(log.read_range(4, 2).is_empty());
}

#[test]
fn truncate_start_after_stop_is_noop() {
    let mut log = filled(5);
    log.truncate_from(4, Some(2));
    assert_eq!(log.len(), 5);
}

#[test]
fn truncate_with_stop_removes_half_open_range() {
    let mut log = filled(5);
    log.truncate_from(2, Some(4));
    assert_eq!(indices(&log.read_range(0, 10)), vec![1, 4, 5]);
}

#[test]
fn truncate_without_stop_removes_everything_above_start() {
    let mut log = filled(5);
    log.truncate_from(2, None);
    assert_eq!(indices(&log.read_range(0, 10)), vec![1, 2]);
    log.truncate_from(u64::MAX, None);
    assert_eq!(log.len(), 2);
}

#[test]
fn purge_through_removes_prefix() {
    let mut log = filled(5);
    log.purge_through(3);
    assert_eq!(indices(&log.read_range(0, 10)), vec![4, 5]);
}

#[test]
fn membership_defaults_to_single_node() {
    let log = filled(3);
    assert_eq!(log.latest_membership(7).members, vec![7]);
}

#[test]
fn membership_is_latest_config_entry() {
    let mut log = LogStore::new();
    log.append_entry(config(1, 1, vec![1, 2])).unwrap();
    log.append_entry(config(2, 1, vec![1, 2, 3])).unwrap();
    log.append_entry(blank(3, 1)).unwrap();
    assert_eq!(log.latest_membership(9).members, vec![1, 2, 3]);
    let mut log2 = LogStore::new();
    log2.append_entry(Entry {
        index: 4,
        term: 2,
        payload: EntryPayload::SnapshotPointer(Membership { members: vec![5] }),
    })
    .unwrap();
    log2.append_entry(config(1, 1, vec![1])).unwrap();
    assert_eq!(log2.latest_membership(9).members, vec![5]);
}

#[test]
fn last_log_id_of_empty_and_filled() {
    assert_eq!(LogStore::new().last_log_id(), (0, 0));
    let mut log = filled(2);
    log.append_entry(blank(3, 4)).unwrap();
    assert_eq!(log.last_log_id(), (3, 4));
    assert!(log.contains_index(3));
    assert!(!log.contains_index(9));
}

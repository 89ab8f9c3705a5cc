use schedule_rs::dto::{CreateScheduleDto, RequestDto};
use schedule_rs::log_store::{Entry, EntryPayload, LogError, Membership};
use schedule_rs::schema::{RequestDocument, ScheduleDocument, ScheduleStatus};
use schedule_rs::state_machine::ScheduleData;
use schedule_rs::storage::{
    ids_in_order, ClusterSnapshot, HardState, SchedulerRaftStorage, SnapshotError, SnapshotMeta,
};

fn blank(index: u64, term: u64) -> Entry {
    Entry { index, term, payload: EntryPayload::Blank }
}

fn create(id: &str) -> ScheduleData {
    ScheduleData::Create(
        CreateScheduleDto {
            id: id.to_string(),
            tags: None,
            request: RequestDto {
                url: "http://example.com".to_string(),
                method: "GET".to_string(),
                headers: None,
                body: None,
                retry: None,
            },
            schedule: Some("0 * * * * *".to_string()),
            schedule_at: None,
            callback: None,
        },
        7,
    )
}

fn doc(id: &str) -> ScheduleDocument {
    ScheduleDocument {
        id: id.to_string(),
        tags: None,
        request: RequestDocument {
            method: "GET".to_string(),
            url: "http://example.com".to_string(),
            headers: None,
            body: None,
            retry: None,
        },
        schedule: Some("0 * * * * *".to_string()),
        schedule_at: None,
        callback: None,
        created_at: 1,
        updated_at: 1,
        last_run: None,
        status: ScheduleStatus::Scheduled,
    }
}

fn indices(entries: &[Entry]) -> Vec<u64> {
    entries.iter().map(|e| e.index).collect()
}

#[test]
fn initial_state_of_fresh_storage() {
    let mut st = SchedulerRaftStorage::new(3);
    let init = st.get_initial_state();
    assert_eq!(init.last_log_index, 0);
    assert_eq!(init.last_log_term, 0);
    assert_eq!(init.last_applied_log, 0);
    assert_eq!(init.hard_state, HardState { current_term: 0, voted_for: None });
    assert_eq!(init.membership.members, vec![3]);
}

#[test]
fn initial_state_combines_persisted_parts() {
    let mut st = SchedulerRaftStorage::new(3);
    st.save_hard_state(&HardState { current_term: 4, voted_for: Some(2) });
    st.append_entry_to_log(blank(1, 2)).unwrap();
    st.append_entry_to_log(blank(2, 4)).unwrap();
    let _ = st.apply_entry_to_state_machine(1, create("a"));
    let init = st.get_initial_state();
    assert_eq!((init.last_log_index, init.last_log_term), (2, 4));
    assert_eq!(init.last_applied_log, 1);
    assert_eq!(init.hard_state, HardState { current_term: 4, voted_for: Some(2) });
}

#[test]
fn log_operations_through_storage() {
    let mut st = SchedulerRaftStorage::new(1);
    st.replicate_to_log(vec![blank(1, 1), blank(2, 1), blank(3, 1)]).unwrap();
    assert_eq!(st.append_entry_to_log(blank(3, 2)), Err(LogError::Conflict(3)));
    assert_eq!(indices(&st.get_log_entries(1, 3)), vec![1, 2]);
    assert!(st.get_log_entries(3, 1).is_empty());
    st.delete_logs_from(3, Some(1));
    assert_eq!(st.get_log_entries(0, 10).len(), 3);
    st.delete_logs_from(1, None);
    assert_eq!(indices(&st.get_log_entries(0, 10)), vec![1]);
    assert_eq!(st.get_membership_config().members, vec![1]);
}

#[test]
fn compaction_stores_snapshot_then_truncates() {
    let mut st = SchedulerRaftStorage::new(1);
    assert!(st.get_current_snapshot().is_none());
    st.replicate_to_log(vec![blank(1, 1), blank(2, 2), blank(3, 2)]).unwrap();
    st.replicate_to_state_machine(vec![(1, create("a")), (2, create("b"))]).unwrap();
    let meta = st.do_log_compaction();
    assert_eq!(meta.last_included_index, 2);
    assert_eq!(meta.last_included_term, 2);
    assert_eq!(meta.membership.members, vec![1]);
    let current = st.get_current_snapshot().unwrap();
    assert_eq!(current.last_included_index, 2);
    let log = st.get_log_entries(0, 10);
    assert_eq!(indices(&log), vec![2, 3]);
    assert!(matches!(log[0].payload, EntryPayload::SnapshotPointer(_)));
    let snap = st.create_snapshot();
    assert_eq!(snap.docs.len(), 2);
    assert_eq!(snap.meta.last_included_term, 2);
}

#[test]
fn installing_a_snapshot_replaces_state() {
    let mut st = SchedulerRaftStorage::new(1);
    st.replicate_to_log(vec![blank(1, 1), blank(2, 1), blank(5, 1)]).unwrap();
    let _ = st.apply_entry_to_state_machine(1, create("old"));
    let snapshot = ClusterSnapshot {
        meta: SnapshotMeta { last_included_index: 4, last_included_term: 3, membership: Membership { members: vec![1, 2] } },
        docs: vec![doc("x"), doc("y")],
    };
    st.finalize_snapshot_installation(4, 3, Some(2), snapshot).unwrap();
    assert_eq!(indices(&st.get_log_entries(0, 10)), vec![4, 5]);
    assert_eq!(st.get_membership_config().members, vec![1, 2]);
    let init = st.get_initial_state();
    assert_eq!(init.last_applied_log, 4);
    let snap = st.create_snapshot();
    let ids: Vec<String> = snap.docs.into_iter().map(|d| d.id).collect();
    assert_eq!(ids, vec!["x".to_string(), "y".to_string()]);
}

#[test]
fn installing_without_delete_through_replaces_whole_log() {
    let mut st = SchedulerRaftStorage::new(1);
    st.replicate_to_log(vec![blank(1, 1), blank(9, 1)]).unwrap();
    let snapshot = ClusterSnapshot {
        meta: SnapshotMeta { last_included_index: 4, last_included_term: 3, membership: Membership { members: vec![1] } },
        docs: vec![],
    };
    st.finalize_snapshot_installation(4, 3, None, snapshot).unwrap();
    assert_eq!(indices(&st.get_log_entries(0, 10)), vec![4]);
}

#[test]
fn snapshot_out_of_id_order_is_refused() {
    let mut st = SchedulerRaftStorage::new(1);
    st.append_entry_to_log(blank(1, 1)).unwrap();
    let snapshot = ClusterSnapshot {
        meta: SnapshotMeta { last_included_index: 4, last_included_term: 3, membership: Membership { members: vec![1] } },
        docs: vec![doc("x"), doc("x")],
    };
    assert_eq!(st.finalize_snapshot_installation(4, 3, None, snapshot), Err(SnapshotError::Unordered));
    assert_eq!(indices(&st.get_log_entries(0, 10)), vec![1]);
    assert!(st.get_current_snapshot().is_none());
    assert!(ids_in_order(&vec![doc("a"), doc("ab"), doc("b")]));
    assert!(!ids_in_order(&vec![doc("a"), doc("b"), doc("a")]));
    assert!(!ids_in_order(&vec![doc("b"), doc("a")]));
    let unordered = ClusterSnapshot {
        meta: SnapshotMeta { last_included_index: 4, last_included_term: 3, membership: Membership { members: vec![1] } },
        docs: vec![doc("y"), doc("x")],
    };
    assert_eq!(st.finalize_snapshot_installation(4, 3, None, unordered), Err(SnapshotError::Unordered));
}

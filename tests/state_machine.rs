use schedule_rs::dto::{CreateScheduleDto, RequestDto, UpdateScheduleDto};
use schedule_rs::schema::ScheduleStatus;
use schedule_rs::state_machine::{ApplyError, ScheduleData, ScheduleEventResponse, StateMachine};

fn request(url: &str) -> RequestDto {
    RequestDto {
        url: url.to_string(),
        method: "POST".to_string(),
        headers: None,
        body: Some("{}".to_string()),
        retry: Some(vec![1, 5]),
    }
}

fn create(id: &str, at: i64) -> ScheduleData {
    ScheduleData::Create(
        CreateScheduleDto {
            id: id.to_string(),
            tags: Some(vec!["a".to_string()]),
            request: request("http://example.com/hook"),
            schedule: None,
            schedule_at: Some("2024-01-01T00:00:00Z".to_string()),
            callback: None,
        },
        at,
    )
}

fn update(id: &str, url: &str, at: i64) -> ScheduleData {
    ScheduleData::Update(
        UpdateScheduleDto {
            id: id.to_string(),
            tags: None,
            request: request(url),
            schedule: Some("0 * * * * *".to_string()),
            schedule_at: None,
            callback: None,
        },
        at,
    )
}

#[test]
fn create_then_get() {
    let mut sm = StateMachine::new();
    let r = sm.apply_entry(1, create("j1", 100));
    match r {
        Ok(ScheduleEventResponse::Created(dto)) => {
            assert_eq!(dto.id, "j1");
            assert_eq!(dto.created_at, 100);
            assert_eq!(dto.request.url, "http://example.com/hook");
            assert_eq!(dto.tags, Some(vec!["a".to_string()]));
            assert_eq!(dto.status, ScheduleStatus::Scheduled);
        }
        _ => panic!("expected a created response"),
    }
    let d = sm.get(&"j1".to_string()).unwrap();
    assert_eq!(d.created_at, 100);
    assert_eq!(d.updated_at, 100);
    assert_eq!(d.status, ScheduleStatus::Scheduled);
    assert_eq!(d.last_run, None);
    assert_eq!(d.request.url, "http://example.com/hook");
    assert_eq!(sm.cluster_state().last_applied_log, 1);
}

#[test]
fn last_applied_follows_each_entry() {
    let mut sm = StateMachine::new();
    let _ = sm.apply_entry(1, create("a", 1));
    assert_eq!(sm.cluster_state().last_applied_log, 1);
    let _ = sm.apply_entry(2, create("b", 2));
    assert_eq!(sm.cluster_state().last_applied_log, 2);
    let _ = sm.apply_entry(3, ScheduleData::Delete("a".to_string(), 3));
    assert_eq!(sm.cluster_state().last_applied_log, 3);
    assert_eq!(sm.len(), 1);
}

#[test]
fn rejected_commands_still_advance_last_applied() {
    let mut sm = StateMachine::new();
    let _ = sm.apply_entry(1, create("a", 1));
    assert_eq!(sm.apply_entry(2, create("a", 9)).unwrap_err(), ApplyError::AlreadyExists);
    assert_eq!(sm.cluster_state().last_applied_log, 2);
    assert_eq!(sm.get(&"a".to_string()).unwrap().created_at, 1);
    assert_eq!(sm.apply_entry(3, update("zz", "u", 3)).unwrap_err(), ApplyError::NotFound);
    assert_eq!(
        sm.apply_entry(4, ScheduleData::Delete("zz".to_string(), 4)).unwrap_err(),
        ApplyError::NotFound
    );
    assert_eq!(
        sm.apply_entry(5, ScheduleData::MarkFired("zz".to_string(), 4, ScheduleStatus::Completed))
            .unwrap_err(),
        ApplyError::NotFound
    );
    assert_eq!(sm.cluster_state().last_applied_log, 5);
    assert_eq!(sm.len(), 1);
}

#[test]
fn reapplying_an_entry_changes_nothing() {
    let mut once = StateMachine::new();
    let _ = once.apply_entry(1, create("a", 1));
    let _ = once.apply_entry(2, update("a", "http://new", 2));
    let mut twice = StateMachine::new();
    let _ = twice.apply_entry(1, create("a", 1));
    let _ = twice.apply_entry(1, create("a", 1));
    let _ = twice.apply_entry(2, update("a", "http://new", 2));
    let _ = twice.apply_entry(2, update("a", "http://new", 2));
    assert_eq!(once.len(), twice.len());
    let x = once.get(&"a".to_string()).unwrap();
    let y = twice.get(&"a".to_string()).unwrap();
    assert_eq!(x.request.url, y.request.url);
    assert_eq!(x.updated_at, y.updated_at);
    assert_eq!(x.schedule, y.schedule);
    assert_eq!(y.schedule_at, None);
    assert_eq!(y.created_at, 1);
}

#[test]
fn update_responds_with_updated_job() {
    let mut sm = StateMachine::new();
    let _ = sm.apply_entry(1, create("a", 1));
    match sm.apply_entry(2, update("a", "http://new", 9)) {
        Ok(ScheduleEventResponse::Updated(dto)) => {
            assert_eq!(dto.request.url, "http://new");
            assert_eq!(dto.created_at, 1);
            assert_eq!(dto.updated_at, 9);
            assert_eq!(dto.schedule, Some("0 * * * * *".to_string()));
        }
        _ => panic!("expected an updated response"),
    }
    assert!(matches!(sm.apply_entry(3, ScheduleData::Delete("a".to_string(), 3)), Ok(ScheduleEventResponse::Deleted(ref id)) if id == "a"));
}

#[test]
fn mark_fired_sets_last_run_and_status() {
    let mut sm = StateMachine::new();
    let _ = sm.apply_entry(1, create("j1", 1));
    let r = sm.apply_entry(2, ScheduleData::MarkFired("j1".to_string(), 1000, ScheduleStatus::Completed));
    assert!(matches!(r, Ok(ScheduleEventResponse::Fired(_))));
    let d = sm.get(&"j1".to_string()).unwrap();
    assert_eq!(d.last_run, Some(1000));
    assert_eq!(d.status, ScheduleStatus::Completed);
    let _ = sm.apply_entry(2, ScheduleData::MarkFired("j1".to_string(), 1000, ScheduleStatus::Completed));
    assert_eq!(sm.get(&"j1".to_string()).unwrap().last_run, Some(1000));
}

#[test]
fn batch_applies_in_order() {
    let mut sm = StateMachine::new();
    let r = sm.apply_batch(vec![(1, create("a", 1)), (2, create("b", 2)), (3, ScheduleData::Delete("a".to_string(), 3))]);
    assert_eq!(r, Ok(()));
    assert_eq!(sm.len(), 1);
    assert!(sm.get(&"b".to_string()).is_some());
    assert_eq!(sm.cluster_state().last_applied_log, 3);
}

#[test]
fn batch_out_of_order_is_refused_whole() {
    let mut sm = StateMachine::new();
    let r = sm.apply_batch(vec![(2, create("a", 1)), (2, create("b", 2))]);
    assert_eq!(r, Err(ApplyError::OutOfOrder));
    assert_eq!(sm.len(), 0);
    assert_eq!(sm.cluster_state().last_applied_log, 0);
    assert_eq!(sm.apply_batch(vec![]), Ok(()));
}

#[test]
fn list_pages_through_documents() {
    let mut sm = StateMachine::new();
    for (i, id) in ["a", "b", "c", "d"].iter().enumerate() {
        let _ = sm.apply_entry(i as u64 + 1, create(id, 1));
    }
    let ids: Vec<String> = sm.list(2, 1).into_iter().map(|d| d.id).collect();
    assert_eq!(ids, vec!["b".to_string(), "c".to_string()]);
    assert_eq!(sm.list(10, 3).len(), 1);
    assert_eq!(sm.list(10, 9).len(), 0);
    assert_eq!(sm.list(usize::MAX, 2).len(), 2);
}

#[test]
fn documents_are_listed_in_id_order() {
    let mut sm = StateMachine::new();
    let _ = sm.apply_entry(1, create("b", 1));
    let _ = sm.apply_entry(2, create("a", 2));
    let _ = sm.apply_entry(3, create("ab", 3));
    let _ = sm.apply_entry(4, create("B", 4));
    let ids: Vec<String> = sm.list(10, 0).into_iter().map(|d| d.id).collect();
    assert_eq!(ids, vec!["B".to_string(), "a".to_string(), "ab".to_string(), "b".to_string()]);
    let first_two: Vec<String> = sm.list(2, 0).into_iter().map(|d| d.id).collect();
    assert_eq!(first_two, vec!["B".to_string(), "a".to_string()]);
    let _ = sm.apply_entry(5, ScheduleData::Delete("a".to_string(), 5));
    let ids: Vec<String> = sm.list(10, 0).into_iter().map(|d| d.id).collect();
    assert_eq!(ids, vec!["B".to_string(), "ab".to_string(), "b".to_string()]);
}

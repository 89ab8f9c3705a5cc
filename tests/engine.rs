use schedule_rs::actor::{ScheduleActor, Tick};
use schedule_rs::dto::{CreateScheduleDto, RequestDto};
use schedule_rs::engine::{decide, delay_until, Action, Input, Phase, GRACE_PERIOD_MILLIS};
use schedule_rs::log_store::{Entry, EntryPayload};
use schedule_rs::schema::ScheduleStatus;
use schedule_rs::storage::SchedulerRaftStorage;
use schedule_rs::state_machine::{ScheduleData, StateMachine};

const JAN_1_2024: i64 = 1_704_067_200_000;
const MINUTE: i64 = 60_000;

fn create(id: &str, schedule: Option<&str>, schedule_at: Option<&str>) -> ScheduleData {
    ScheduleData::Create(
        CreateScheduleDto {
            id: id.to_string(),
            tags: None,
            request: RequestDto {
                url: "http://example.com".to_string(),
                method: "GET".to_string(),
                headers: None,
                body: None,
                retry: None,
            },
            schedule: schedule.map(|s| s.to_string()),
            schedule_at: schedule_at.map(|s| s.to_string()),
            callback: None,
        },
        JAN_1_2024,
    )
}

#[test]
fn delay_is_zero_for_past_instants() {
    assert_eq!(delay_until(10, 20), 0);
    assert_eq!(delay_until(20, 20), 0);
    assert_eq!(delay_until(25, 20), 5);
    assert_eq!(delay_until(i64::MAX, i64::MIN), u64::MAX);
}

#[test]
fn loading_not_found_waits_for_creation() {
    let (p, a) = decide(Phase::Loading, Input::NotFound, 0);
    assert_eq!(p, Phase::WaitingForCreation);
    assert_eq!(a, vec![Action::StartGraceTimer(GRACE_PERIOD_MILLIS)]);
    assert_eq!(GRACE_PERIOD_MILLIS, 30_000);
}

#[test]
fn grace_timeout_retires_without_proposal() {
    let mut actor = ScheduleActor::new("late".to_string());
    let a = actor.loaded(None, 0);
    assert_eq!(a, vec![Action::StartGraceTimer(30_000)]);
    assert_eq!(actor.phase(), Phase::WaitingForCreation);
    let a = actor.stop_if_no_schedule(30_000);
    assert!(a.is_empty());
    assert!(actor.is_retired());
}

#[test]
fn document_appearing_while_waiting_arms() {
    let (p, a) = decide(Phase::WaitingForCreation, Input::Scheduled(Some(100)), 40);
    assert_eq!(p, Phase::Armed(100));
    assert_eq!(a, vec![Action::CancelTimer, Action::ArmTimer(100, 60)]);
}

#[test]
fn stale_wakeup_is_ignored() {
    let (p, a) = decide(Phase::Armed(100), Input::Wakeup(50), 60);
    assert_eq!(p, Phase::Armed(100));
    assert!(a.is_empty());
}

#[test]
fn update_while_armed_rearms() {
    let (p, a) = decide(Phase::Armed(100), Input::Scheduled(Some(300)), 60);
    assert_eq!(p, Phase::Armed(300));
    assert_eq!(a, vec![Action::CancelTimer, Action::ArmTimer(300, 240)]);
    let (p, a) = decide(Phase::Armed(100), Input::Deleted, 60);
    assert_eq!(p, Phase::Retired);
    assert_eq!(a, vec![Action::CancelTimer]);
}

#[test]
fn retired_ignores_everything() {
    for i in [Input::Wakeup(1), Input::Executed(Some(3)), Input::Scheduled(Some(5)), Input::NotFound] {
        let (p, a) = decide(Phase::Retired, i, 0);
        assert_eq!(p, Phase::Retired);
        assert!(a.is_empty());
    }
}

#[test]
fn invalid_schedule_retires_on_load() {
    let mut sm = StateMachine::new();
    let _ = sm.apply_entry(1, create("bad", Some("nonsense"), None));
    let doc = sm.get(&"bad".to_string()).unwrap();
    let mut actor = ScheduleActor::new("bad".to_string());
    assert!(actor.loaded(Some(doc), JAN_1_2024).is_empty());
    assert!(actor.is_retired());
    let mut other = ScheduleActor::new("x".to_string());
    assert!(other.lookup_failed(0).is_empty());
    assert!(other.is_retired());
}

#[test]
fn past_one_shot_fires_once_and_completes() {
    let mut sm = StateMachine::new();
    let _ = sm.apply_entry(1, create("j1", None, Some("2024-01-01T00:00:00Z")));
    let now = JAN_1_2024 + 5 * MINUTE;
    let doc = sm.get(&"j1".to_string()).unwrap();
    let mut actor = ScheduleActor::new("j1".to_string());
    assert_eq!(actor.loaded(Some(doc), now), vec![Action::ArmTimer(JAN_1_2024, 0)]);
    assert_eq!(actor.tick(Tick(JAN_1_2024), now), vec![Action::Execute(JAN_1_2024)]);
    let a = actor.executed(now);
    assert_eq!(a, vec![Action::ProposeFired(JAN_1_2024, ScheduleStatus::Completed)]);
    assert!(actor.is_retired());
    assert_eq!(actor.last_tick(), Some(JAN_1_2024));
    let _ = sm.apply_entry(2, ScheduleData::MarkFired("j1".to_string(), JAN_1_2024, ScheduleStatus::Completed));
    let doc = sm.get(&"j1".to_string()).unwrap();
    assert_eq!(doc.status, ScheduleStatus::Completed);
    // a restarted node builds a fresh engine: nothing fires again
    let mut again = ScheduleActor::new("j1".to_string());
    assert!(again.loaded(Some(doc), now + MINUTE).is_empty());
    assert!(again.is_retired());
}

#[test]
fn cron_job_fires_every_minute() {
    let mut sm = StateMachine::new();
    let _ = sm.apply_entry(1, create("j2", Some("0 * * * * *"), None));
    let _ = sm.apply_entry(2, ScheduleData::MarkFired("j2".to_string(), JAN_1_2024, ScheduleStatus::Scheduled));
    let doc = sm.get(&"j2".to_string()).unwrap();
    let mut actor = ScheduleActor::new("j2".to_string());
    let now = JAN_1_2024 + 1_000;
    assert_eq!(actor.loaded(Some(doc), now), vec![Action::ArmTimer(JAN_1_2024 + MINUTE, 59_000)]);
    let mut index = 3;
    let mut last_run = JAN_1_2024;
    for k in 1..=3 {
        let at = JAN_1_2024 + k * MINUTE;
        assert_eq!(actor.tick(Tick(at), at), vec![Action::Execute(at)]);
        let a = actor.executed(at + 10);
        assert_eq!(
            a,
            vec![Action::ProposeFired(at, ScheduleStatus::Scheduled), Action::ArmTimer(at + MINUTE, (MINUTE - 10) as u64)]
        );
        let _ = sm.apply_entry(index, ScheduleData::MarkFired("j2".to_string(), at, ScheduleStatus::Scheduled));
        index += 1;
        let doc = sm.get(&"j2".to_string()).unwrap();
        assert!(doc.last_run.unwrap() > last_run);
        last_run = doc.last_run.unwrap();
        assert_eq!(doc.status, ScheduleStatus::Scheduled);
    }
    assert_eq!(actor.phase(), Phase::Armed(JAN_1_2024 + 4 * MINUTE));
}

#[test]
fn leadership_loss_cancels_and_rebuild_rearms() {
    let mut sm = StateMachine::new();
    let _ = sm.apply_entry(1, create("j3", Some("0 * * * * *"), None));
    let _ = sm.apply_entry(2, ScheduleData::MarkFired("j3".to_string(), JAN_1_2024, ScheduleStatus::Scheduled));
    let doc = sm.get(&"j3".to_string()).unwrap();
    let mut actor = ScheduleActor::new("j3".to_string());
    let _ = actor.loaded(Some(doc), JAN_1_2024);
    assert_eq!(actor.phase(), Phase::Armed(JAN_1_2024 + MINUTE));
    assert_eq!(actor.leadership_lost(JAN_1_2024 + 1), vec![Action::CancelTimer]);
    assert!(actor.is_retired());
    assert!(actor.tick(Tick(JAN_1_2024 + MINUTE), JAN_1_2024 + MINUTE).is_empty());
    assert!(actor.executed(JAN_1_2024 + MINUTE).is_empty());
    // leadership regained: a fresh engine from the current document
    let doc = sm.get(&"j3".to_string()).unwrap();
    let mut rebuilt = ScheduleActor::new("j3".to_string());
    let a = rebuilt.loaded(Some(doc), JAN_1_2024 + 2 * MINUTE + 1);
    assert_eq!(a, vec![Action::ArmTimer(JAN_1_2024 + MINUTE, 0)]);
    let (p, a) = decide(Phase::Firing(5), Input::LeadershipLost, 9);
    assert_eq!(p, Phase::Retired);
    assert!(a.is_empty());
}

#[test]
fn document_change_while_armed_recomputes() {
    let mut sm = StateMachine::new();
    let _ = sm.apply_entry(1, create("j4", None, Some("2024-01-01T00:10:00Z")));
    let doc = sm.get(&"j4".to_string()).unwrap();
    let mut actor = ScheduleActor::new("j4".to_string());
    let _ = actor.loaded(Some(doc), JAN_1_2024);
    assert_eq!(actor.phase(), Phase::Armed(JAN_1_2024 + 10 * MINUTE));
    let _ = sm.apply_entry(2, ScheduleData::Delete("j4".to_string(), JAN_1_2024));
    let _ = sm.apply_entry(3, create("j4", None, Some("2024-01-01T00:20:00Z")));
    let doc = sm.get(&"j4".to_string()).unwrap();
    let a = actor.document_changed(&doc, JAN_1_2024);
    assert_eq!(a, vec![Action::CancelTimer, Action::ArmTimer(JAN_1_2024 + 20 * MINUTE, 20 * MINUTE as u64)]);
    assert_eq!(actor.document_deleted(JAN_1_2024), vec![Action::CancelTimer]);
    assert!(actor.is_retired());
    assert_eq!(actor.id(), "j4");
}

#[test]
fn paused_job_is_not_armed() {
    let mut sm = StateMachine::new();
    let _ = sm.apply_entry(1, create("p", Some("0 * * * * *"), None));
    let _ = sm.apply_entry(2, ScheduleData::MarkFired("p".to_string(), JAN_1_2024, ScheduleStatus::Paused));
    let doc = sm.get(&"p".to_string()).unwrap();
    let mut actor = ScheduleActor::new("p".to_string());
    assert!(actor.loaded(Some(doc), JAN_1_2024).is_empty());
    assert!(actor.is_retired());
}

#[test]
fn one_shot_firing_goes_through_the_log() {
    let mut st = SchedulerRaftStorage::new(1);
    st.append_entry_to_log(Entry { index: 1, term: 1, payload: EntryPayload::Normal(b"create j1".to_vec()) }).unwrap();
    let _ = st.apply_entry_to_state_machine(1, create("j1", None, Some("2024-01-01T00:00:00Z")));
    let now = JAN_1_2024 + MINUTE;
    let mut actor = ScheduleActor::new("j1".to_string());
    let doc = st.get_document(&"j1".to_string()).unwrap();
    assert_eq!(actor.loaded(Some(doc), now), vec![Action::ArmTimer(JAN_1_2024, 0)]);
    assert_eq!(actor.tick(Tick(JAN_1_2024), now), vec![Action::Execute(JAN_1_2024)]);
    let proposals = actor.executed(now);
    assert_eq!(proposals, vec![Action::ProposeFired(JAN_1_2024, ScheduleStatus::Completed)]);
    let index = st.last_log_index() + 1;
    st.append_entry_to_log(Entry { index, term: 1, payload: EntryPayload::Normal(b"j1 fired".to_vec()) }).unwrap();
    let _ = st.apply_entry_to_state_machine(index, ScheduleData::MarkFired("j1".to_string(), JAN_1_2024, ScheduleStatus::Completed));
    assert_eq!(st.get_log_entries(0, 10).len(), 2);
    let doc = st.get_document(&"j1".to_string()).unwrap();
    assert_eq!(doc.status, ScheduleStatus::Completed);
    assert_eq!(doc.last_run, Some(JAN_1_2024));
    let mut after_restart = ScheduleActor::new("j1".to_string());
    assert!(after_restart.loaded(Some(doc), now + 10 * MINUTE).is_empty());
    assert!(after_restart.is_retired());
}

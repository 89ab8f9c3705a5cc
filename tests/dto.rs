use schedule_rs::dto::{CallbackDto, ListSchedulesQueryDto, RequestDto, ScheduleDto};
use schedule_rs::keys::{index_from_key, log_key};
use schedule_rs::schema::{CallbackDocument, Header, RequestDocument, ScheduleDocument, ScheduleStatus};
use schedule_rs::state_machine::{validate_command, ScheduleData};
use schedule_rs::dto::CreateScheduleDto;
use schedule_rs::ticker::InvalidSchedule;

#[test]
fn schedule_dto_from_document() {
    let d = ScheduleDocument {
        id: "j".to_string(),
        tags: Some(vec!["t".to_string()]),
        request: RequestDocument {
            method: "PUT".to_string(),
            url: "http://u".to_string(),
            headers: Some(vec![Header { name: "a".to_string(), value: "b".to_string() }]),
            body: None,
            retry: Some(vec![3]),
        },
        schedule: None,
        schedule_at: Some("2024-01-01T00:00:00Z".to_string()),
        callback: Some(CallbackDocument { url: "http://cb".to_string(), headers: None }),
        created_at: 5,
        updated_at: 6,
        last_run: Some(7),
        status: ScheduleStatus::Paused,
    };
    let dto = ScheduleDto::from(d.clone());
    assert_eq!(dto.id, "j");
    assert_eq!(dto.request.method, "PUT");
    assert_eq!(dto.request.retry, Some(vec![3]));
    assert_eq!(dto.request.headers.as_ref().unwrap()[0].value, "b");
    assert_eq!(dto.callback.as_ref().unwrap().url, "http://cb");
    assert_eq!((dto.created_at, dto.updated_at), (5, 6));
    assert_eq!(dto.status, ScheduleStatus::Paused);
    let r = RequestDto::from(d.request.clone());
    assert_eq!(r.url, "http://u");
    let c = CallbackDto::from(CallbackDocument { url: "x".to_string(), headers: None });
    assert_eq!(c.into_document().url, "x");
}

#[test]
fn list_query_defaults() {
    assert_eq!(ListSchedulesQueryDto { page: None, after: None }.window(), (50, 0));
    assert_eq!(ListSchedulesQueryDto { page: Some(5), after: Some(10) }.window(), (5, 10));
}

#[test]
fn status_defaults_to_scheduled() {
    assert_eq!(ScheduleStatus::default(), ScheduleStatus::Scheduled);
}

#[test]
fn log_keys_are_big_endian() {
    assert_eq!(log_key(1), vec![0, 0, 0, 0, 0, 0, 0, 1]);
    assert_eq!(log_key(0x0102_0304_0506_0708), vec![1, 2, 3, 4, 5, 6, 7, 8]);
    assert_eq!(index_from_key(&log_key(u64::MAX)), Some(u64::MAX));
    assert_eq!(index_from_key(&[1, 2, 3]), None);
    assert!(log_key(255) < log_key(256));
    assert!(log_key(1 << 40) > log_key(u32::MAX as u64));
}

#[test]
fn commands_are_validated_before_proposal() {
    let mk = |schedule: Option<&str>, at: Option<&str>| {
        ScheduleData::Create(
            CreateScheduleDto {
                id: "v".to_string(),
                tags: None,
                request: RequestDto { url: "u".to_string(), method: "GET".to_string(), headers: None, body: None, retry: None },
                schedule: schedule.map(|s| s.to_string()),
                schedule_at: at.map(|s| s.to_string()),
                callback: None,
            },
            0,
        )
    };
    assert_eq!(validate_command(&mk(Some("0 * * * * *"), None)), Ok(()));
    assert_eq!(validate_command(&mk(None, Some("2024-01-01T00:00:00Z"))), Ok(()));
    assert_eq!(validate_command(&mk(None, None)), Err(InvalidSchedule::Missing));
    assert_eq!(validate_command(&mk(Some("0 * * * * *"), Some("2024-01-01T00:00:00Z"))), Err(InvalidSchedule::Ambiguous));
    assert_eq!(validate_command(&mk(Some("x"), None)), Err(InvalidSchedule::MalformedCron));
    assert_eq!(validate_command(&mk(None, Some("2024-13-01"))), Err(InvalidSchedule::MalformedInstant));
    assert_eq!(validate_command(&ScheduleData::Delete("v".to_string(), 0)), Ok(()));
}

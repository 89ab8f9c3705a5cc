//! The shapes in which clients create, update, list and read jobs.

use vstd::prelude::*;
use crate::schema::{
    CallbackDocument, CallbackModel, DocModel, Header, RequestDocument, RequestModel,
    ScheduleDocument, ScheduleStatus, clone_headers, clone_opt_string, clone_retry, clone_strings,
    headers_view, opt_string_view, retry_view, strings_view,
};

verus! {

/// Where the outcome of a firing is posted.
#[derive(Debug)]
pub struct CallbackDto {
    pub url: String,
    pub headers: Option<Vec<Header>>,
}

impl View for CallbackDto {
    type V = CallbackModel;

    open spec fn view(&self) -> CallbackModel {
        CallbackModel { url: self.url@, headers: headers_view(self.headers) }
    }
}

impl From<CallbackDocument> for CallbackDto {
    fn from(document: CallbackDocument) -> (r: Self) {
        CallbackDto { url: document.url, headers: document.headers }
    }
}

impl vstd::std_specs::convert::FromSpecImpl<CallbackDocument> for CallbackDto {
    open spec fn obeys_from_spec() -> bool {
        true
    }

    open spec fn from_spec(document: CallbackDocument) -> Self {
        CallbackDto { url: document.url, headers: document.headers }
    }
}

impl CallbackDto {
    /// The callback as it is stored in a job document.
    pub fn into_document(self) -> (r: CallbackDocument)
        ensures
            r@ == self@,
    {
        CallbackDocument { url: self.url, headers: self.headers }
    }
}

/// The HTTP request that a job issues.
#[derive(Debug)]
pub struct RequestDto {
    pub url: String,
    pub method: String,
    pub headers: Option<Vec<Header>>,
    pub body: Option<String>,
    pub retry: Option<Vec<u32>>,
}

impl View for RequestDto {
    type V = RequestModel;

    open spec fn view(&self) -> RequestModel {
        RequestModel {
            method: self.method@,
            url: self.url@,
            headers: headers_view(self.headers),
            body: opt_string_view(self.body),
            retry: retry_view(self.retry),
        }
    }
}

impl From<RequestDocument> for RequestDto {
    fn from(document: RequestDocument) -> (r: Self) {
        RequestDto {
            url: document.url,
            method: document.method,
            headers: document.headers,
            body: document.body,
            retry: document.retry,
        }
    }
}

impl vstd::std_specs::convert::FromSpecImpl<RequestDocument> for RequestDto {
    open spec fn obeys_from_spec() -> bool {
        true
    }

    open spec fn from_spec(document: RequestDocument) -> Self {
        RequestDto {
            url: document.url,
            method: document.method,
            headers: document.headers,
            body: document.body,
            retry: document.retry,
        }
    }
}

impl RequestDto {
    /// The request as it is stored in a job document.
    pub fn into_document(self) -> (r: RequestDocument)
        ensures
            r@ == self@,
    {
        RequestDocument {
            method: self.method,
            url: self.url,
            headers: self.headers,
            body: self.body,
            retry: self.retry,
        }
    }
}

/// The callback of an optional callback transfer shape.
pub open spec fn callback_dto_view(v: Option<CallbackDto>) -> Option<CallbackModel> {
    match v {
        None => None,
        Some(c) => Some(c@),
    }
}

/// A job as clients read it.
#[derive(Debug)]
pub struct ScheduleDto {
    pub id: String,
    pub tags: Option<Vec<String>>,
    pub request: RequestDto,
    pub schedule: Option<String>,
    pub schedule_at: Option<String>,
    pub callback: Option<CallbackDto>,
    pub created_at: i64,
    pub updated_at: i64,
    pub status: ScheduleStatus,
}

/// The transfer shape of an optional callback.
pub open spec fn callback_dto_of(c: Option<CallbackDocument>) -> Option<CallbackDto> {
    match c {
        None => None,
        Some(c) => Some(CallbackDto { url: c.url, headers: c.headers }),
    }
}

impl From<ScheduleDocument> for ScheduleDto {
    fn from(document: ScheduleDocument) -> (r: Self) {
        let callback = match document.callback {
            None => None,
            Some(c) => Some(CallbackDto::from(c)),
        };
        ScheduleDto {
            id: document.id,
            tags: document.tags,
            request: RequestDto::from(document.request),
            schedule: document.schedule,
            schedule_at: document.schedule_at,
            callback,
            created_at: document.created_at,
            updated_at: document.updated_at,
            status: document.status,
        }
    }
}

impl vstd::std_specs::convert::FromSpecImpl<ScheduleDocument> for ScheduleDto {
    open spec fn obeys_from_spec() -> bool {
        true
    }

    open spec fn from_spec(document: ScheduleDocument) -> Self {
        ScheduleDto {
            id: document.id,
            tags: document.tags,
            request: RequestDto {
                url: document.request.url,
                method: document.request.method,
                headers: document.request.headers,
                body: document.request.body,
                retry: document.request.retry,
            },
            schedule: document.schedule,
            schedule_at: document.schedule_at,
            callback: callback_dto_of(document.callback),
            created_at: document.created_at,
            updated_at: document.updated_at,
            status: document.status,
        }
    }
}

/// A transfer shape holds what a job document holds, but its last run.
pub open spec fn dto_matches(d: ScheduleDto, m: DocModel) -> bool {
    &&& d.id@ == m.id
    &&& strings_view(d.tags) == m.tags
    &&& d.request@ == m.request
    &&& opt_string_view(d.schedule) == m.schedule
    &&& opt_string_view(d.schedule_at) == m.schedule_at
    &&& callback_dto_view(d.callback) == m.callback
    &&& d.created_at == m.created_at
    &&& d.updated_at == m.updated_at
    &&& d.status == m.status
}

impl ScheduleDto {
    /// The transfer shape of a job document, copied.
    pub fn of_document(d: &ScheduleDocument) -> (r: ScheduleDto)
        ensures
            dto_matches(r, d@),
    {
        let callback = match &d.callback {
            None => None,
            Some(c) => Some(CallbackDto { url: c.url.clone(), headers: clone_headers(&c.headers) }),
        };
        ScheduleDto {
            id: d.id.clone(),
            tags: clone_strings(&d.tags),
            request: RequestDto {
                url: d.request.url.clone(),
                method: d.request.method.clone(),
                headers: clone_headers(&d.request.headers),
                body: clone_opt_string(&d.request.body),
                retry: clone_retry(&d.request.retry),
            },
            schedule: clone_opt_string(&d.schedule),
            schedule_at: clone_opt_string(&d.schedule_at),
            callback,
            created_at: d.created_at,
            updated_at: d.updated_at,
            status: d.status,
        }
    }
}

/// A request to create a job.
pub struct CreateScheduleDto {
    pub id: String,
    pub tags: Option<Vec<String>>,
    pub request: RequestDto,
    /// Cron expression, for a recurring job.
    pub schedule: Option<String>,
    /// Absolute fire time (ISO 8601), for a job that fires once.
    pub schedule_at: Option<String>,
    pub callback: Option<CallbackDto>,
}

/// A request to replace what a job does and when.
pub struct UpdateScheduleDto {
    pub id: String,
    pub tags: Option<Vec<String>>,
    pub request: RequestDto,
    pub schedule: Option<String>,
    pub schedule_at: Option<String>,
    pub callback: Option<CallbackDto>,
}

/// One firing of a job, on a node.
pub struct TriggerDto {
    pub id: String,
    pub schedule_id: u64,
    /// Milliseconds since the epoch.
    pub at: i64,
    pub node_id: u64,
}

/// An HTTP request as the executor issues it.
pub struct Request {
    pub url: String,
    pub method: String,
    pub headers: Option<Vec<Header>>,
    pub body: Vec<u8>,
}

/// Paging of a job listing.
pub struct ListSchedulesQueryDto {
    pub page: Option<usize>,
    pub after: Option<usize>,
}

/// Default page size of a job listing.
pub const DEFAULT_PAGE: usize = 50;

impl ListSchedulesQueryDto {
    /// The page size and the number of jobs to skip: 50 and 0 where unset.
    pub fn window(&self) -> (r: (usize, usize))
        ensures
            r.0 == match self.page {
                Some(p) => p,
                None => DEFAULT_PAGE,
            },
            r.1 == match self.after {
                Some(a) => a,
                None => 0,
            },
    {
        let page = match self.page {
            Some(p) => p,
            None => DEFAULT_PAGE,
        };
        let after = match self.after {
            Some(a) => a,
            None => 0,
        };
        (page, after)
    }
}

/// The job that a read asks for.
pub struct GetScheduleQueryDto {
    pub id: String,
}

} // verus!

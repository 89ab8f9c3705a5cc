//! Job documents: what the state machine holds for each job.

use vstd::prelude::*;

verus! {

/// One request or callback header.
#[derive(Debug)]
pub struct Header {
    pub name: String,
    pub value: String,
}

/// A header as the pair (name, value).
pub type HeaderModel = (Seq<char>, Seq<char>);

impl View for Header {
    type V = HeaderModel;

    open spec fn view(&self) -> HeaderModel {
        (self.name@, self.value@)
    }
}

/// The headers of an optional header list.
pub open spec fn headers_view(v: Option<Vec<Header>>) -> Option<Seq<HeaderModel>> {
    match v {
        None => None,
        Some(hs) => Some(hs@.map_values(|h: Header| h@)),
    }
}

/// The strings of an optional string list.
pub open spec fn strings_view(v: Option<Vec<String>>) -> Option<Seq<Seq<char>>> {
    match v {
        None => None,
        Some(xs) => Some(xs@.map_values(|x: String| x@)),
    }
}

/// The characters of an optional string.
pub open spec fn opt_string_view(v: Option<String>) -> Option<Seq<char>> {
    match v {
        None => None,
        Some(x) => Some(x@),
    }
}

/// The values of an optional list of integers.
pub open spec fn retry_view(v: Option<Vec<u32>>) -> Option<Seq<u32>> {
    match v {
        None => None,
        Some(xs) => Some(xs@),
    }
}

impl Clone for Header {
    fn clone(&self) -> (r: Self)
        ensures
            r == *self,
    {
        Header { name: self.name.clone(), value: self.value.clone() }
    }
}

/// Copies a list of headers.
pub fn clone_headers(v: &Option<Vec<Header>>) -> (r: Option<Vec<Header>>)
    ensures
        headers_view(r) == headers_view(*v),
{
    match v {
        None => None,
        Some(hs) => {
            let mut out: Vec<Header> = Vec::new();
            let mut i: usize = 0;
            while i < hs.len()
                invariant
                    i <= hs.len(),
                    out@.len() == i,
                    forall|j: int| 0 <= j < i ==> #[trigger] out@[j]@ == hs@[j]@,
                decreases hs.len() - i,
            {
                out.push(hs[i].clone());
                i = i + 1;
            }
            proof {
                assert(out@.map_values(|h: Header| h@) =~= hs@.map_values(|h: Header| h@));
            }
            Some(out)
        },
    }
}

/// Copies a list of strings.
pub fn clone_strings(v: &Option<Vec<String>>) -> (r: Option<Vec<String>>)
    ensures
        strings_view(r) == strings_view(*v),
{
    match v {
        None => None,
        Some(xs) => {
            let mut out: Vec<String> = Vec::new();
            let mut i: usize = 0;
            while i < xs.len()
                invariant
                    i <= xs.len(),
                    out@.len() == i,
                    forall|j: int| 0 <= j < i ==> #[trigger] out@[j]@ == xs@[j]@,
                decreases xs.len() - i,
            {
                out.push(xs[i].clone());
                i = i + 1;
            }
            proof {
                assert(out@.map_values(|x: String| x@) =~= xs@.map_values(|x: String| x@));
            }
            Some(out)
        },
    }
}

/// Copies an optional list of retry delays.
pub fn clone_retry(v: &Option<Vec<u32>>) -> (r: Option<Vec<u32>>)
    ensures
        retry_view(r) == retry_view(*v),
{
    match v {
        None => None,
        Some(xs) => {
            let mut out: Vec<u32> = Vec::new();
            let mut i: usize = 0;
            while i < xs.len()
                invariant
                    i <= xs.len(),
                    out@ == xs@.take(i as int),
                decreases xs.len() - i,
            {
                out.push(xs[i]);
                proof {
                    assert(xs@.take(i as int + 1) =~= xs@.take(i as int).push(xs@[i as int]));
                }
                i = i + 1;
            }
            proof {
                assert(xs@.take(xs@.len() as int) =~= xs@);
            }
            Some(out)
        },
    }
}

/// Copies an optional string.
pub fn clone_opt_string(v: &Option<String>) -> (r: Option<String>)
    ensures
        r == *v,
{
    match v {
        None => None,
        Some(s) => Some(s.clone()),
    }
}

/// The HTTP request that a job issues when it fires.
pub struct RequestDocument {
    pub method: String,
    pub url: String,
    pub headers: Option<Vec<Header>>,
    pub body: Option<String>,
    /// Overrides the executor's default retry delays, where set.
    pub retry: Option<Vec<u32>>,
}

/// A request, as the values it holds.
pub struct RequestModel {
    pub method: Seq<char>,
    pub url: Seq<char>,
    pub headers: Option<Seq<HeaderModel>>,
    pub body: Option<Seq<char>>,
    pub retry: Option<Seq<u32>>,
}

impl View for RequestDocument {
    type V = RequestModel;

    open spec fn view(&self) -> RequestModel {
        RequestModel {
            method: self.method@,
            url: self.url@,
            headers: headers_view(self.headers),
            body: opt_string_view(self.body),
            retry: retry_view(self.retry),
        }
    }
}

impl Clone for RequestDocument {
    fn clone(&self) -> (r: Self)
        ensures
            r@ == self@,
    {
        RequestDocument {
            method: self.method.clone(),
            url: self.url.clone(),
            headers: clone_headers(&self.headers),
            body: clone_opt_string(&self.body),
            retry: clone_retry(&self.retry),
        }
    }
}

/// Where the outcome of a firing is posted.
pub struct CallbackDocument {
    pub url: String,
    pub headers: Option<Vec<Header>>,
}

/// A callback, as the values it holds.
pub struct CallbackModel {
    pub url: Seq<char>,
    pub headers: Option<Seq<HeaderModel>>,
}

impl View for CallbackDocument {
    type V = CallbackModel;

    open spec fn view(&self) -> CallbackModel {
        CallbackModel { url: self.url@, headers: headers_view(self.headers) }
    }
}

/// The callback of an optional callback.
pub open spec fn callback_view(v: Option<CallbackDocument>) -> Option<CallbackModel> {
    match v {
        None => None,
        Some(c) => Some(c@),
    }
}

impl Clone for CallbackDocument {
    fn clone(&self) -> (r: Self)
        ensures
            r@ == self@,
    {
        CallbackDocument { url: self.url.clone(), headers: clone_headers(&self.headers) }
    }
}

/// Copies an optional callback.
pub fn clone_callback(v: &Option<CallbackDocument>) -> (r: Option<CallbackDocument>)
    ensures
        callback_view(r) == callback_view(*v),
{
    match v {
        None => None,
        Some(c) => Some(c.clone()),
    }
}

/// Lifecycle status of a job.
#[derive(Clone, Copy, Debug, PartialEq, Eq, Structural)]
pub enum ScheduleStatus {
    Scheduled,
    Executing,
    Completed,
    Paused,
    Failed,
}

impl Default for ScheduleStatus {
    fn default() -> (r: Self)
        ensures
            r == ScheduleStatus::Scheduled,
    {
        ScheduleStatus::Scheduled
    }
}

/// A job: what to call, when, and how it went last time. Times are milliseconds
/// since the epoch.
pub struct ScheduleDocument {
    /// Unique, externally assigned identifier.
    pub id: String,
    pub tags: Option<Vec<String>>,
    pub request: RequestDocument,
    /// Cron expression, for a recurring job.
    pub schedule: Option<String>,
    /// Absolute fire time (ISO 8601), for a job that fires once.
    pub schedule_at: Option<String>,
    pub callback: Option<CallbackDocument>,
    pub created_at: i64,
    pub updated_at: i64,
    /// When the job last fired.
    pub last_run: Option<i64>,
    pub status: ScheduleStatus,
}

/// A job document, as the values it holds.
pub struct DocModel {
    pub id: Seq<char>,
    pub tags: Option<Seq<Seq<char>>>,
    pub request: RequestModel,
    pub schedule: Option<Seq<char>>,
    pub schedule_at: Option<Seq<char>>,
    pub callback: Option<CallbackModel>,
    pub created_at: i64,
    pub updated_at: i64,
    pub last_run: Option<i64>,
    pub status: ScheduleStatus,
}

impl View for ScheduleDocument {
    type V = DocModel;

    open spec fn view(&self) -> DocModel {
        DocModel {
            id: self.id@,
            tags: strings_view(self.tags),
            request: self.request@,
            schedule: opt_string_view(self.schedule),
            schedule_at: opt_string_view(self.schedule_at),
            callback: callback_view(self.callback),
            created_at: self.created_at,
            updated_at: self.updated_at,
            last_run: self.last_run,
            status: self.status,
        }
    }
}

impl Clone for ScheduleDocument {
    fn clone(&self) -> (r: Self)
        ensures
            r@ == self@,
    {
        ScheduleDocument {
            id: self.id.clone(),
            tags: clone_strings(&self.tags),
            request: self.request.clone(),
            schedule: clone_opt_string(&self.schedule),
            schedule_at: clone_opt_string(&self.schedule_at),
            callback: clone_callback(&self.callback),
            created_at: self.created_at,
            updated_at: self.updated_at,
            last_run: self.last_run,
            status: self.status,
        }
    }
}

} // verus!

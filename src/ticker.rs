//! The occurrence calculator: when a job fires next.

use vstd::prelude::*;
use crate::schema::{opt_string_view, ScheduleDocument};
use crate::time::{opt_int, parse_instant, parsed_instant, valid_instant};
use std::str::FromStr;

verus! {

/// `cron::Schedule`, a parsed cron expression, carried through as an opaque value.
#[verifier::external_type_specification]
#[verifier::external_body]
pub struct ExCronSchedule(cron::Schedule);

/// Whether the cron crate accepts the text as a cron expression.
pub uninterp spec fn cron_accepts(expr: Seq<char>) -> bool;

/// Relies on `<cron::Schedule as FromStr>::from_str`, which parses a cron
/// expression or fails.
#[verifier::external_body]
fn parse_cron(expr: &str) -> (r: Option<cron::Schedule>)
    ensures
        r is Some <==> cron_accepts(expr@),
{
    match cron::Schedule::from_str(expr) {
        Ok(s) => Some(s),
        Err(_) => None,
    }
}

/// Relies on `cron::Schedule::after`, whose first item is the soonest
/// occurrence strictly after the given instant (the search starts one second
/// later, at a whole second), or nothing once the schedule is exhausted; and on
/// `chrono::DateTime::from_timestamp_millis` / `timestamp_millis` to convert
/// instants. Within the accepted instants adding that second cannot overflow.
#[verifier::external_body]
fn cron_after(s: &cron::Schedule, t: i64) -> (r: Option<i64>)
    requires
        valid_instant(t as int),
    ensures
        r matches Some(n) ==> n > t,
{
    match chrono::DateTime::<chrono::Utc>::from_timestamp_millis(t) {
        Some(dt) => match s.after(&dt).next() {
            Some(n) => Some(n.timestamp_millis()),
            None => None,
        },
        None => None,
    }
}

/// Why a schedule specification cannot be used.
#[derive(Clone, Copy, Debug, PartialEq, Eq, Structural)]
pub enum InvalidSchedule {
    /// Neither an absolute time nor a cron expression.
    Missing,
    /// Both an absolute time and a cron expression.
    Ambiguous,
    /// The absolute time is not an ISO 8601 timestamp.
    MalformedInstant,
    /// The cron expression does not parse.
    MalformedCron,
}

/// When a job fires: once, at a fixed instant (milliseconds since the epoch),
/// or on a cron schedule.
pub enum Ticker {
    ScheduleAt(i64),
    Cron(cron::Schedule),
}

/// The next occurrence of a job that fires once at `at`, strictly after `t`.
pub open spec fn absolute_next_after(at: int, t: int) -> Option<int> {
    if at > t {
        Some(at)
    } else {
        None
    }
}

/// What a schedule specification (cron expression, absolute time) gives: the
/// absolute instant for a valid one-shot job, `None` for a valid cron job.
pub open spec fn schedule_outcome(
    schedule: Option<Seq<char>>,
    schedule_at: Option<Seq<char>>,
) -> Result<Option<int>, InvalidSchedule> {
    match (schedule, schedule_at) {
        (Some(_), Some(_)) => Err(InvalidSchedule::Ambiguous),
        (None, None) => Err(InvalidSchedule::Missing),
        (None, Some(a)) => match parsed_instant(a) {
            Some(v) => Ok(Some(v)),
            None => Err(InvalidSchedule::MalformedInstant),
        },
        (Some(c), None) => if cron_accepts(c) {
            Ok(None)
        } else {
            Err(InvalidSchedule::MalformedCron)
        },
    }
}

/// Whether a ticker is what a schedule outcome describes.
pub open spec fn ticker_matches(r: Result<Ticker, InvalidSchedule>, o: Result<Option<int>, InvalidSchedule>) -> bool {
    match o {
        Err(e) => r == Err::<Ticker, InvalidSchedule>(e),
        Ok(Some(v)) => r matches Ok(Ticker::ScheduleAt(a)) && a == v,
        Ok(None) => r matches Ok(Ticker::Cron(_)),
    }
}

impl Ticker {
    /// Builds the ticker of a schedule specification: exactly one of a cron
    /// expression and an absolute time, and that one well formed.
    pub fn from_spec(schedule: &Option<String>, schedule_at: &Option<String>) -> (r: Result<
        Ticker,
        InvalidSchedule,
    >)
        ensures
            ticker_matches(r, schedule_outcome(opt_string_view(*schedule), opt_string_view(*schedule_at))),
    {
        match (schedule, schedule_at) {
            (Some(_), Some(_)) => Err(InvalidSchedule::Ambiguous),
            (None, None) => Err(InvalidSchedule::Missing),
            (None, Some(a)) => match parse_instant(a.as_str()) {
                Some(v) => Ok(Ticker::ScheduleAt(v)),
                None => Err(InvalidSchedule::MalformedInstant),
            },
            (Some(c), None) => match parse_cron(c.as_str()) {
                Some(s) => Ok(Ticker::Cron(s)),
                None => Err(InvalidSchedule::MalformedCron),
            },
        }
    }

    /// Builds the ticker of a job document.
    pub fn try_from(doc: &ScheduleDocument) -> (r: Result<Ticker, InvalidSchedule>)
        ensures
            ticker_matches(r, schedule_outcome(doc@.schedule, doc@.schedule_at)),
    {
        Ticker::from_spec(&doc.schedule, &doc.schedule_at)
    }

    /// The next time the job should run, seen at `now`, or `None` if it should
    /// not run any more. For a one-shot job this is its fixed instant, always;
    /// for a cron job the soonest occurrence after `now`.
    pub fn next(&self, now: i64) -> (r: Option<i64>)
        requires
            valid_instant(now as int),
        ensures
            *self matches Ticker::ScheduleAt(at) ==> r == Some(at),
            *self is Cron ==> (r matches Some(n) ==> n > now),
    {
        match self {
            Ticker::ScheduleAt(at) => Some(*at),
            Ticker::Cron(s) => cron_after(s, now),
        }
    }

    /// The next time the job should run strictly after `t`, or `None` if it
    /// should not run any more. A one-shot job runs only if its instant is after
    /// `t`; a cron job's next occurrence is always strictly after `t`.
    pub fn next_after(&self, t: i64) -> (r: Option<i64>)
        requires
            valid_instant(t as int),
        ensures
            r matches Some(n) ==> n > t,
            *self matches Ticker::ScheduleAt(at) ==> opt_int(r) == absolute_next_after(at as int, t as int),
    {
        match self {
            Ticker::ScheduleAt(at) => if *at > t {
                Some(*at)
            } else {
                None
            },
            Ticker::Cron(s) => cron_after(s, t),
        }
    }
}

/// A one-shot job fires at most once: once an occurrence strictly after `t` has
/// been found, there is none strictly after it.
pub proof fn lemma_absolute_fires_once(at: int, t: int)
    ensures
        absolute_next_after(at, t) matches Some(n) ==> absolute_next_after(at, n) is None,
{
}

} // verus!

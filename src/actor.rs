//! The firing engine of one job: evaluates the job's document through its
//! ticker and steps the engine's transition function.

use vstd::prelude::*;
use crate::engine::{actions_of, decide, next_phase, Action, Input, Phase};
use crate::schema::{DocModel, ScheduleDocument, ScheduleStatus};
use crate::ticker::{absolute_next_after, schedule_outcome, Ticker};
use crate::time::{opt_int, valid_instant, MAX_INSTANT_MILLIS};
use crate::state_machine::{apply_docs, has_id, ids_sorted, index_of, ScheduleData};

verus! {

/// Whether a job with this status is meant to fire.
pub open spec fn active(s: ScheduleStatus) -> bool {
    s == ScheduleStatus::Scheduled || s == ScheduleStatus::Executing
}

/// What evaluating a document may give: no occurrence for a job that is not
/// active (paused, completed, failed); `Invalid` for an unusable schedule;
/// otherwise the next occurrence: strictly after the last run where the job ran
/// before, else (cron) strictly after `now`; for a one-shot job exactly its
/// instant (never run) or the instant only if it lies after the last run.
pub open spec fn evaluation_matches(doc: DocModel, now: i64, inp: Input) -> bool {
    if !active(doc.status) {
        inp == Input::Scheduled(None)
    } else {
        match schedule_outcome(doc.schedule, doc.schedule_at) {
            Err(_) => inp == Input::Invalid,
            Ok(o) => match doc.last_run {
                Some(t) => if !valid_instant(t as int) {
                    inp == Input::Invalid
                } else {
                    &&& inp matches Input::Scheduled(n)
                    &&& n matches Some(x) ==> x > t
                    &&& o matches Some(at) ==> opt_int(n) == absolute_next_after(at, t as int)
                },
                None => if !valid_instant(now as int) {
                    inp == Input::Invalid
                } else {
                    &&& inp matches Input::Scheduled(n)
                    &&& n matches Some(x) ==> (o is None ==> x > now)
                    &&& o matches Some(at) ==> opt_int(n) == Some(at)
                },
            },
        }
    }
}

/// Whether an instant lies in the range that the ticker accepts.
fn accepted_instant(t: i64) -> (r: bool)
    ensures
        r == valid_instant(t as int),
{
    -MAX_INSTANT_MILLIS <= t && t <= MAX_INSTANT_MILLIS
}

/// The input that a job document gives the engine, with the ticker built from
/// it. A job that is not active has no occurrence; one that never ran is due at
/// its first occurrence; one that ran is due at the first occurrence after its
/// last run.
pub fn evaluate(doc: &ScheduleDocument, now: i64) -> (r: (Input, Option<Ticker>))
    ensures
        evaluation_matches(doc@, now, r.0),
        r.0 matches Input::Scheduled(Some(_)) ==> r.1 is Some,
{
    if !(doc.status == ScheduleStatus::Scheduled || doc.status == ScheduleStatus::Executing) {
        return (Input::Scheduled(None), None);
    }
    match Ticker::try_from(doc) {
        Err(_) => (Input::Invalid, None),
        Ok(t) => {
            let n = match doc.last_run {
                Some(lr) => {
                    if !accepted_instant(lr) {
                        return (Input::Invalid, None);
                    }
                    t.next_after(lr)
                },
                None => {
                    if !accepted_instant(now) {
                        return (Input::Invalid, None);
                    }
                    t.next(now)
                },
            };
            (Input::Scheduled(n), Some(t))
        },
    }
}

/// A wakeup for the occurrence at the given instant.
#[derive(Clone, Copy, Debug, PartialEq, Eq, Structural)]
pub struct Tick(pub i64);

/// The grace period for a document's creation ran out.
#[derive(Clone, Copy, Debug, PartialEq, Eq, Structural)]
pub struct StopIfNoSchedule;

/// The firing engine of one job.
pub struct ScheduleActor {
    id: String,
    phase: Phase,
    state: Option<ScheduleDocument>,
    ticker: Option<Ticker>,
    last_tick: Option<i64>,
}

impl ScheduleActor {
    /// The job's id.
    pub closed spec fn job_id(&self) -> Seq<char> {
        self.id@
    }

    /// Where the engine stands.
    pub closed spec fn phase_of(&self) -> Phase {
        self.phase
    }

    /// The ticker of the job's current document, once one was found.
    pub closed spec fn ticker_of(&self) -> Option<Ticker> {
        self.ticker
    }

    /// The job's document as last seen, once one was found.
    pub closed spec fn document_of(&self) -> Option<DocModel> {
        match self.state {
            Some(d) => Some(d@),
            None => None,
        }
    }

    /// When the job last fired, as far as this engine knows.
    pub closed spec fn last_tick_of(&self) -> Option<i64> {
        self.last_tick
    }

    /// A new engine for job `id`, about to load its document.
    pub fn new(id: String) -> (r: ScheduleActor)
        ensures
            r.job_id() == id@,
            r.phase_of() == Phase::Loading,
            r.ticker_of() is None,
            r.document_of() is None,
            r.last_tick_of() is None,
    {
        ScheduleActor { id, phase: Phase::Loading, state: None, ticker: None, last_tick: None }
    }

    /// The job's id.
    pub fn id(&self) -> (r: &String)
        ensures
            r@ == self.job_id(),
    {
        &self.id
    }

    /// Where the engine stands.
    pub fn phase(&self) -> (r: Phase)
        ensures
            r == self.phase_of(),
    {
        self.phase
    }

    /// Whether the engine has nothing more to do.
    pub fn is_retired(&self) -> (r: bool)
        ensures
            r == (self.phase_of() == Phase::Retired),
    {
        self.phase == Phase::Retired
    }

    /// When the job last fired, as far as this engine knows.
    pub fn last_tick(&self) -> (r: Option<i64>)
        ensures
            r == self.last_tick_of(),
    {
        self.last_tick
    }

    fn step(&mut self, i: Input, now: i64) -> (r: Vec<Action>)
        ensures
            final(self).phase_of() == next_phase(old(self).phase_of(), i),
            r@ == actions_of(old(self).phase_of(), i, now),
            final(self).job_id() == old(self).job_id(),
            final(self).ticker_of() == old(self).ticker_of(),
            final(self).document_of() == old(self).document_of(),
            final(self).last_tick_of() == old(self).last_tick_of(),
    {
        let (q, actions) = decide(self.phase, i, now);
        self.phase = q;
        actions
    }

    fn take_document(&mut self, doc: &ScheduleDocument, now: i64) -> (r: Vec<Action>)
        ensures
            final(self).job_id() == old(self).job_id(),
            old(self).phase_of() != Phase::Retired ==> final(self).document_of() == Some(doc@)
                && final(self).last_tick_of() == doc@.last_run,
            exists|i: Input|
                evaluation_matches(doc@, now, i) && final(self).phase_of() == next_phase(old(self).phase_of(), i)
                    && r@ == actions_of(old(self).phase_of(), i, now),
    {
        let (i, ticker) = evaluate(doc, now);
        if self.phase != Phase::Retired {
            if ticker.is_some() {
                self.ticker = ticker;
            }
            self.state = Some(doc.clone());
            self.last_tick = doc.last_run;
        }
        self.step(i, now)
    }

    /// The document lookup that a new engine starts with has finished: arm for
    /// the next occurrence, retire where there is none or the schedule cannot
    /// be used, or wait for the document's creation where it was not found.
    pub fn loaded(&mut self, doc: Option<ScheduleDocument>, now: i64) -> (r: Vec<Action>)
        ensures
            final(self).job_id() == old(self).job_id(),
            old(self).phase_of() != Phase::Retired ==> match doc {
                Some(d) => final(self).document_of() == Some(d@) && final(self).last_tick_of() == d@.last_run,
                None => final(self).document_of() == old(self).document_of(),
            },
            exists|i: Input|
                (match doc {
                    None => i == Input::NotFound,
                    Some(d) => evaluation_matches(d@, now, i),
                }) && final(self).phase_of() == next_phase(old(self).phase_of(), i) && r@ == actions_of(
                    old(self).phase_of(),
                    i,
                    now,
                ),
    {
        match doc {
            None => self.step(Input::NotFound, now),
            Some(d) => self.take_document(&d, now),
        }
    }

    /// Reading the document failed: the engine retires.
    pub fn lookup_failed(&mut self, now: i64) -> (r: Vec<Action>)
        ensures
            final(self).phase_of() == next_phase(old(self).phase_of(), Input::LookupFailed),
            r@ == actions_of(old(self).phase_of(), Input::LookupFailed, now),
            final(self).job_id() == old(self).job_id(),
            final(self).ticker_of() == old(self).ticker_of(),
            final(self).document_of() == old(self).document_of(),
            final(self).last_tick_of() == old(self).last_tick_of(),
    {
        self.step(Input::LookupFailed, now)
    }

    /// The job's document was created or changed: any pending wakeup is
    /// cancelled and the next occurrence is computed from the new document.
    pub fn document_changed(&mut self, doc: &ScheduleDocument, now: i64) -> (r: Vec<Action>)
        ensures
            final(self).job_id() == old(self).job_id(),
            old(self).phase_of() != Phase::Retired ==> final(self).document_of() == Some(doc@)
                && final(self).last_tick_of() == doc@.last_run,
            exists|i: Input|
                evaluation_matches(doc@, now, i) && final(self).phase_of() == next_phase(old(self).phase_of(), i)
                    && r@ == actions_of(old(self).phase_of(), i, now),
    {
        self.take_document(doc, now)
    }

    /// The job's document was deleted.
    pub fn document_deleted(&mut self, now: i64) -> (r: Vec<Action>)
        ensures
            final(self).phase_of() == next_phase(old(self).phase_of(), Input::Deleted),
            r@ == actions_of(old(self).phase_of(), Input::Deleted, now),
            final(self).job_id() == old(self).job_id(),
            final(self).ticker_of() == old(self).ticker_of(),
            final(self).document_of() == old(self).document_of(),
            final(self).last_tick_of() == old(self).last_tick_of(),
    {
        self.step(Input::Deleted, now)
    }

    /// A wakeup for the occurrence at `msg.0` arrived: the job fires if that is
    /// the occurrence it is armed for.
    pub fn tick(&mut self, msg: Tick, now: i64) -> (r: Vec<Action>)
        ensures
            final(self).phase_of() == next_phase(old(self).phase_of(), Input::Wakeup(msg.0)),
            r@ == actions_of(old(self).phase_of(), Input::Wakeup(msg.0), now),
            final(self).job_id() == old(self).job_id(),
            final(self).ticker_of() == old(self).ticker_of(),
            final(self).document_of() == old(self).document_of(),
            final(self).last_tick_of() == old(self).last_tick_of(),
    {
        self.step(Input::Wakeup(msg.0), now)
    }

    /// A timer set by this engine ran out at `at`: the grace timer while the
    /// engine waits for the document, else the wakeup for that occurrence.
    pub fn wake(&mut self, at: i64, now: i64) -> (r: Vec<Action>)
        ensures
            old(self).phase_of() == Phase::WaitingForCreation ==> final(self).phase_of() == next_phase(
                old(self).phase_of(),
                Input::GraceElapsed,
            ) && r@ == actions_of(old(self).phase_of(), Input::GraceElapsed, now),
            old(self).phase_of() != Phase::WaitingForCreation ==> final(self).phase_of() == next_phase(
                old(self).phase_of(),
                Input::Wakeup(at),
            ) && r@ == actions_of(old(self).phase_of(), Input::Wakeup(at), now),
            final(self).job_id() == old(self).job_id(),
            final(self).ticker_of() == old(self).ticker_of(),
            final(self).document_of() == old(self).document_of(),
            final(self).last_tick_of() == old(self).last_tick_of(),
    {
        if self.phase == Phase::WaitingForCreation {
            self.step(Input::GraceElapsed, now)
        } else {
            self.step(Input::Wakeup(at), now)
        }
    }

    /// The grace period for the document's creation ran out.
    pub fn stop_if_no_schedule(&mut self, now: i64) -> (r: Vec<Action>)
        ensures
            final(self).phase_of() == next_phase(old(self).phase_of(), Input::GraceElapsed),
            r@ == actions_of(old(self).phase_of(), Input::GraceElapsed, now),
            final(self).job_id() == old(self).job_id(),
            final(self).ticker_of() == old(self).ticker_of(),
            final(self).document_of() == old(self).document_of(),
            final(self).last_tick_of() == old(self).last_tick_of(),
    {
        self.step(Input::GraceElapsed, now)
    }

    /// This node stopped being the leader.
    pub fn leadership_lost(&mut self, now: i64) -> (r: Vec<Action>)
        ensures
            final(self).phase_of() == Phase::Retired,
            r@ == actions_of(old(self).phase_of(), Input::LeadershipLost, now),
            final(self).job_id() == old(self).job_id(),
            final(self).ticker_of() == old(self).ticker_of(),
            final(self).document_of() == old(self).document_of(),
            final(self).last_tick_of() == old(self).last_tick_of(),
    {
        self.step(Input::LeadershipLost, now)
    }

    /// The request of the occurrence being fired finished: the firing is
    /// proposed to the log, and the engine arms for the next occurrence, which
    /// lies strictly after the one that fired, or retires. An occurrence outside
    /// the instants the ticker accepts has no successor.
    pub fn executed(&mut self, now: i64) -> (r: Vec<Action>)
        ensures
            final(self).job_id() == old(self).job_id(),
            final(self).ticker_of() == old(self).ticker_of(),
            final(self).document_of() == old(self).document_of(),
            old(self).ticker_of() is Some ==> (old(self).phase_of() matches Phase::Firing(t)
                ==> final(self).last_tick_of() == Some(t)),
            !(old(self).phase_of() is Firing && old(self).ticker_of() is Some)
                ==> final(self).last_tick_of() == old(self).last_tick_of(),
            exists|n: Option<i64>|
                final(self).phase_of() == next_phase(old(self).phase_of(), Input::Executed(n)) && r@
                    == actions_of(old(self).phase_of(), Input::Executed(n), now) && (old(self).phase_of() matches Phase::Firing(t) ==> (
                n matches Some(x) ==> x > t) && (valid_instant(t as int) ==> (old(self).ticker_of() matches Some(Ticker::ScheduleAt(at))
                ==> opt_int(n) == absolute_next_after(at as int, t as int)))),
    {
        let n = match (self.phase, &self.ticker) {
            (Phase::Firing(t), Some(tk)) => {
                self.last_tick = Some(t);
                if accepted_instant(t) {
                    tk.next_after(t)
                } else {
                    None
                }
            },
            _ => None,
        };
        let r = self.step(Input::Executed(n), now);
        proof {
            assert(self.phase_of() == next_phase(old(self).phase_of(), Input::Executed(n)));
        }
        r
    }
}

/// A one-shot job whose instant has passed when it loads, and that never ran,
/// is armed with no wait, fires at the first wakeup, proposes its firing with
/// status completed and retires; a later evaluation from that last run finds no
/// occurrence.
pub proof fn lemma_past_one_shot_fires_once(at: i64, now: i64)
    requires
        at <= now,
    ensures
        next_phase(Phase::Loading, Input::Scheduled(Some(at))) == Phase::Armed(at),
        actions_of(Phase::Loading, Input::Scheduled(Some(at)), now) == seq![Action::ArmTimer(at, 0)],
        next_phase(Phase::Armed(at), Input::Wakeup(at)) == Phase::Firing(at),
        actions_of(Phase::Armed(at), Input::Wakeup(at), now) == seq![Action::Execute(at)],
        absolute_next_after(at as int, at as int) is None,
        next_phase(Phase::Firing(at), Input::Executed(None)) == Phase::Retired,
        actions_of(Phase::Firing(at), Input::Executed(None), now) == seq![
            Action::ProposeFired(at, ScheduleStatus::Completed),
        ],
{
    assert(actions_of(Phase::Firing(at), Input::Executed(None), now) =~= seq![
        Action::ProposeFired(at, ScheduleStatus::Completed),
    ]);
}

/// A recurring job that fires at `t` with a next occurrence `n` after it
/// proposes its firing with status scheduled and arms for `n`; once that
/// proposal is applied the job is still scheduled and its last run is `t`.
pub proof fn lemma_recurring_firing_stays_scheduled(docs: Seq<DocModel>, id: String, t: i64, n: i64, now: i64)
    requires
        ids_sorted(docs),
        has_id(docs, id@),
        n > t,
    ensures
        next_phase(Phase::Firing(t), Input::Executed(Some(n))) == Phase::Armed(n),
        actions_of(Phase::Firing(t), Input::Executed(Some(n)), now)[0] == Action::ProposeFired(t, ScheduleStatus::Scheduled),
        apply_docs(docs, ScheduleData::MarkFired(id, t, ScheduleStatus::Scheduled))[index_of(docs, id@)].status
            == ScheduleStatus::Scheduled,
        apply_docs(docs, ScheduleData::MarkFired(id, t, ScheduleStatus::Scheduled))[index_of(docs, id@)].last_run
            == Some(t),
{
}

} // verus!

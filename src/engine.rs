//! The per-job firing engine, as a transition function: from the current phase
//! and what just happened to the next phase and the actions to perform. The
//! runtime performs the actions (timers, the HTTP call, log proposals) and
//! reports back what happened.

use vstd::prelude::*;
use crate::schema::ScheduleStatus;

verus! {

/// How long an engine waits for a job document that does not exist yet.
pub const GRACE_PERIOD_MILLIS: u64 = 30_000;

/// Where an engine stands. Instants are milliseconds since the epoch.
#[derive(Clone, Copy, Debug, PartialEq, Eq, Structural)]
pub enum Phase {
    /// Fetching the job document.
    Loading,
    /// The document does not exist yet; a grace timer runs.
    WaitingForCreation,
    /// A wakeup is pending for the given instant.
    Armed(i64),
    /// The occurrence at the given instant is being executed.
    Firing(i64),
    /// Terminal: no timers, nothing more to do.
    Retired,
}

/// What happened.
#[derive(Clone, Copy, Debug, PartialEq, Eq, Structural)]
pub enum Input {
    /// The document was found (or changed): its next occurrence, or none.
    Scheduled(Option<i64>),
    /// The document's schedule cannot be used.
    Invalid,
    /// The document does not exist.
    NotFound,
    /// Reading the document failed.
    LookupFailed,
    /// The grace timer ran out.
    GraceElapsed,
    /// A wakeup for the given instant arrived.
    Wakeup(i64),
    /// The request finished; the next occurrence after this firing, or none.
    Executed(Option<i64>),
    /// The document was deleted.
    Deleted,
    /// This node stopped being the leader.
    LeadershipLost,
}

/// What the runtime must do.
#[derive(Clone, Copy, Debug, PartialEq, Eq, Structural)]
pub enum Action {
    /// Wake the engine at the given instant, after the given delay in
    /// milliseconds (zero: at once).
    ArmTimer(i64, u64),
    /// Wake the engine when the grace period (milliseconds) has passed.
    StartGraceTimer(u64),
    /// Cancel the pending timer.
    CancelTimer,
    /// Execute the job's request for the occurrence at the given instant.
    Execute(i64),
    /// Propose to the log that the job fired at the given instant and now has
    /// the given status.
    ProposeFired(i64, ScheduleStatus),
}

/// Milliseconds from `now` until `at`; zero where `at` is not later.
pub open spec fn delay_of(at: i64, now: i64) -> int {
    if at <= now {
        0
    } else {
        at - now
    }
}

/// The delay to wait before `at`, from `now`.
pub fn delay_until(at: i64, now: i64) -> (r: u64)
    ensures
        r == delay_of(at, now),
{
    if at <= now {
        0
    } else {
        let d: i128 = at as i128 - now as i128;
        d as u64
    }
}

/// Arming for an occurrence, or retiring where there is none.
pub open spec fn arm_phase(next: Option<i64>) -> Phase {
    match next {
        Some(t) => Phase::Armed(t),
        None => Phase::Retired,
    }
}

/// The timer to set for an occurrence, if there is one.
pub open spec fn arm_actions(next: Option<i64>, now: i64) -> Seq<Action> {
    match next {
        Some(t) => seq![Action::ArmTimer(t, delay_of(t, now) as u64)],
        None => seq![],
    }
}

/// The status that a firing leaves: completed when no occurrence follows.
pub open spec fn status_after(next: Option<i64>) -> ScheduleStatus {
    match next {
        Some(_) => ScheduleStatus::Scheduled,
        None => ScheduleStatus::Completed,
    }
}

/// The phase after an input.
pub open spec fn next_phase(p: Phase, i: Input) -> Phase {
    match (p, i) {
        (Phase::Retired, _) => Phase::Retired,
        (_, Input::LeadershipLost) => Phase::Retired,
        (Phase::Loading, Input::Scheduled(n)) => arm_phase(n),
        (Phase::Loading, Input::NotFound) => Phase::WaitingForCreation,
        (Phase::Loading, Input::Invalid) => Phase::Retired,
        (Phase::Loading, Input::LookupFailed) => Phase::Retired,
        (Phase::WaitingForCreation, Input::Scheduled(n)) => arm_phase(n),
        (Phase::WaitingForCreation, Input::Invalid) => Phase::Retired,
        (Phase::WaitingForCreation, Input::GraceElapsed) => Phase::Retired,
        (Phase::Armed(t), Input::Wakeup(w)) => if w == t {
            Phase::Firing(t)
        } else {
            p
        },
        (Phase::Armed(_), Input::Scheduled(n)) => arm_phase(n),
        (Phase::Armed(_), Input::Invalid) => Phase::Retired,
        (Phase::Armed(_), Input::Deleted) => Phase::Retired,
        (Phase::Firing(_), Input::Executed(n)) => arm_phase(n),
        _ => p,
    }
}

/// The actions that an input calls for.
pub open spec fn actions_of(p: Phase, i: Input, now: i64) -> Seq<Action> {
    match (p, i) {
        (Phase::Retired, _) => seq![],
        (Phase::WaitingForCreation, Input::LeadershipLost) => seq![Action::CancelTimer],
        (Phase::Armed(_), Input::LeadershipLost) => seq![Action::CancelTimer],
        (_, Input::LeadershipLost) => seq![],
        (Phase::Loading, Input::Scheduled(n)) => arm_actions(n, now),
        (Phase::Loading, Input::NotFound) => seq![Action::StartGraceTimer(GRACE_PERIOD_MILLIS)],
        (Phase::WaitingForCreation, Input::Scheduled(n)) => seq![Action::CancelTimer] + arm_actions(n, now),
        (Phase::WaitingForCreation, Input::Invalid) => seq![Action::CancelTimer],
        (Phase::Armed(t), Input::Wakeup(w)) => if w == t {
            seq![Action::Execute(t)]
        } else {
            seq![]
        },
        (Phase::Armed(_), Input::Scheduled(n)) => seq![Action::CancelTimer] + arm_actions(n, now),
        (Phase::Armed(_), Input::Invalid) => seq![Action::CancelTimer],
        (Phase::Armed(_), Input::Deleted) => seq![Action::CancelTimer],
        (Phase::Firing(t), Input::Executed(n)) => seq![Action::ProposeFired(t, status_after(n))] + arm_actions(n, now),
        _ => seq![],
    }
}

fn arm(next: Option<i64>, now: i64, out: &mut Vec<Action>) -> (r: Phase)
    ensures
        r == arm_phase(next),
        final(out)@ == old(out)@ + arm_actions(next, now),
{
    match next {
        Some(t) => {
            out.push(Action::ArmTimer(t, delay_until(t, now)));
            Phase::Armed(t)
        },
        None => {
            proof {
                assert(old(out)@ + arm_actions(next, now) =~= old(out)@);
            }
            Phase::Retired
        },
    }
}

/// One step of the engine: the next phase, and the actions to perform in order.
pub fn decide(p: Phase, i: Input, now: i64) -> (r: (Phase, Vec<Action>))
    ensures
        r.0 == next_phase(p, i),
        r.1@ == actions_of(p, i, now),
{
    let mut out: Vec<Action> = Vec::new();
    let q = match (p, i) {
        (Phase::Retired, _) => Phase::Retired,
        (Phase::WaitingForCreation, Input::LeadershipLost) | (Phase::Armed(_), Input::LeadershipLost) => {
            out.push(Action::CancelTimer);
            Phase::Retired
        },
        (_, Input::LeadershipLost) => Phase::Retired,
        (Phase::Loading, Input::Scheduled(n)) => arm(n, now, &mut out),
        (Phase::Loading, Input::NotFound) => {
            out.push(Action::StartGraceTimer(GRACE_PERIOD_MILLIS));
            Phase::WaitingForCreation
        },
        (Phase::Loading, Input::Invalid) | (Phase::Loading, Input::LookupFailed) => Phase::Retired,
        (Phase::WaitingForCreation, Input::Scheduled(n)) | (Phase::Armed(_), Input::Scheduled(n)) => {
            out.push(Action::CancelTimer);
            arm(n, now, &mut out)
        },
        (Phase::WaitingForCreation, Input::Invalid) | (Phase::Armed(_), Input::Invalid) | (
            Phase::Armed(_),
            Input::Deleted,
        ) => {
            out.push(Action::CancelTimer);
            Phase::Retired
        },
        (Phase::WaitingForCreation, Input::GraceElapsed) => Phase::Retired,
        (Phase::Armed(t), Input::Wakeup(w)) => {
            if w == t {
                out.push(Action::Execute(t));
                Phase::Firing(t)
            } else {
                p
            }
        },
        (Phase::Firing(t), Input::Executed(n)) => {
            let status = match n {
                Some(_) => ScheduleStatus::Scheduled,
                None => ScheduleStatus::Completed,
            };
            out.push(Action::ProposeFired(t, status));
            arm(n, now, &mut out)
        },
        _ => p,
    };
    proof {
        assert(out@ =~= actions_of(p, i, now));
    }
    (q, out)
}

/// Whether an action writes to the log or has an outside effect.
pub open spec fn is_effect(a: Action) -> bool {
    a is ProposeFired || a is Execute
}

/// Whether a sequence of actions holds no proposal and no execution.
pub open spec fn silent(s: Seq<Action>) -> bool {
    forall|k: int| 0 <= k < s.len() ==> !is_effect(#[trigger] s[k])
}

/// The phase after a run of inputs, each with the instant it arrived at.
pub open spec fn run_phase(p: Phase, inputs: Seq<(Input, i64)>) -> Phase
    decreases inputs.len(),
{
    if inputs.len() == 0 {
        p
    } else {
        next_phase(run_phase(p, inputs.drop_last()), inputs.last().0)
    }
}

/// All actions of a run of inputs, in order.
pub open spec fn run_actions(p: Phase, inputs: Seq<(Input, i64)>) -> Seq<Action>
    decreases inputs.len(),
{
    if inputs.len() == 0 {
        seq![]
    } else {
        let q = run_phase(p, inputs.drop_last());
        run_actions(p, inputs.drop_last()) + actions_of(q, inputs.last().0, inputs.last().1)
    }
}

/// A retired engine stays retired and does nothing, whatever happens.
pub proof fn lemma_retired_is_final(inputs: Seq<(Input, i64)>)
    ensures
        run_phase(Phase::Retired, inputs) == Phase::Retired,
        run_actions(Phase::Retired, inputs) == Seq::<Action>::empty(),
    decreases inputs.len(),
{
    if inputs.len() > 0 {
        lemma_retired_is_final(inputs.drop_last());
        assert(run_actions(Phase::Retired, inputs) =~= Seq::<Action>::empty());
    }
}

/// On loss of leadership an engine, in whatever phase, cancels its timer if it
/// holds one and retires; it executes nothing and proposes nothing then or
/// after, until a new engine is built.
pub proof fn lemma_leadership_loss_is_silent(p: Phase, now: i64, later: Seq<(Input, i64)>)
    ensures
        next_phase(p, Input::LeadershipLost) == Phase::Retired,
        silent(actions_of(p, Input::LeadershipLost, now)),
        (p is Armed || p is WaitingForCreation) ==> actions_of(p, Input::LeadershipLost, now) == seq![Action::CancelTimer],
        run_phase(next_phase(p, Input::LeadershipLost), later) == Phase::Retired,
        run_actions(next_phase(p, Input::LeadershipLost), later) == Seq::<Action>::empty(),
{
    lemma_retired_is_final(later);
}

/// An engine waiting for a document that never comes retires when the grace
/// period runs out, and proposes nothing.
pub proof fn lemma_grace_timeout_retires(now: i64)
    ensures
        next_phase(Phase::WaitingForCreation, Input::GraceElapsed) == Phase::Retired,
        actions_of(Phase::WaitingForCreation, Input::GraceElapsed, now) == Seq::<Action>::empty(),
{
}

} // verus!

//! The sequence of a run: which phase follows which, when the caller's
//! callback is invoked, what the run's result is, and when the fleet is
//! handed over for termination.

use vstd::prelude::*;
use crate::request::Resolution;
use crate::setup::SetupError;

verus! {

/// The phases of a run, in their order.
#[derive(Clone, Copy, Debug, PartialEq, Eq)]
pub enum Phase {
    Init,
    Provisioning,
    RequestSubmission,
    ResolutionPolling,
    RequestCancellation,
    ReadinessPolling,
    ParallelSetup,
    CallbackInvocation,
    Done,
}

/// How the work of a phase ended.
#[derive(Clone, Copy, Debug, PartialEq, Eq)]
pub enum Event {
    /// The phase did its work.
    Succeeded,
    /// Resolution polling ended, and some request was rejected. In any other
    /// phase this counts as a failure.
    PartlyRejected,
    /// The phase failed.
    Failed,
}

/// Why a run failed: the phase that did.
#[derive(Clone, Copy, Debug, PartialEq, Eq)]
pub enum RunError {
    Provisioning,
    RequestSubmission,
    ResolutionPolling,
    ReadinessPolling,
    Setup,
    Callback,
}

/// The result of a run, once it has one.
#[derive(Clone, Copy, Debug, PartialEq, Eq)]
pub enum Outcome {
    Running,
    Success,
    Failure(RunError),
}

/// What the driver of a run does next.
#[derive(Clone, Copy, Debug, PartialEq, Eq)]
pub enum Action {
    /// Do the work of this phase, and report how it ended.
    Perform(Phase),
    /// The run is over: hand the fleet over for termination.
    Release,
    /// The run was over before: nothing is left to do.
    Idle,
}

/// Where a run stands.
#[derive(Clone, Copy, Debug, PartialEq, Eq)]
pub struct RunState {
    pub phase: Phase,
    /// Resolution polling ended with a rejected request.
    pub rejected: bool,
    /// The caller's callback was started.
    pub callback_invoked: bool,
    pub outcome: Outcome,
}

/// The place of a phase in the sequence.
pub open spec fn rank(phase: Phase) -> nat {
    match phase {
        Phase::Init => 0,
        Phase::Provisioning => 1,
        Phase::RequestSubmission => 2,
        Phase::ResolutionPolling => 3,
        Phase::RequestCancellation => 4,
        Phase::ReadinessPolling => 5,
        Phase::ParallelSetup => 6,
        Phase::CallbackInvocation => 7,
        Phase::Done => 8,
    }
}

/// A run before its first phase.
pub open spec fn initial() -> RunState {
    RunState { phase: Phase::Init, rejected: false, callback_invoked: false, outcome: Outcome::Running }
}

/// The state in which a run ends with `error`.
pub open spec fn failed(state: RunState, error: RunError) -> RunState {
    RunState { phase: Phase::Done, outcome: Outcome::Failure(error), ..state }
}

/// The state in which a run goes on with `phase`.
pub open spec fn moved(state: RunState, phase: Phase) -> RunState {
    RunState { phase, ..state }
}

/// The state that follows `state` once its phase ended with `event`.
///
/// A failed phase ends the run with that phase's error, but for the
/// cancellation of the requests, whose failure is passed over. A rejected
/// request lets the run cancel and wait for the instances that did resolve,
/// then ends it with a resolution error, before any machine is set up. The
/// callback is invoked only after a setup without failure, and its result is
/// then the run's.
pub open spec fn step(state: RunState, event: Event) -> RunState {
    let ok = event == Event::Succeeded;
    match state.phase {
        Phase::Init => moved(state, Phase::Provisioning),
        Phase::Provisioning => if ok {
            moved(state, Phase::RequestSubmission)
        } else {
            failed(state, RunError::Provisioning)
        },
        Phase::RequestSubmission => if ok {
            moved(state, Phase::ResolutionPolling)
        } else {
            failed(state, RunError::RequestSubmission)
        },
        Phase::ResolutionPolling => match event {
            Event::Succeeded => moved(state, Phase::RequestCancellation),
            Event::PartlyRejected => RunState { phase: Phase::RequestCancellation, rejected: true, ..state },
            Event::Failed => failed(state, RunError::ResolutionPolling),
        },
        Phase::RequestCancellation => moved(state, Phase::ReadinessPolling),
        Phase::ReadinessPolling => if !ok {
            failed(state, RunError::ReadinessPolling)
        } else if state.rejected {
            failed(state, RunError::ResolutionPolling)
        } else {
            moved(state, Phase::ParallelSetup)
        },
        Phase::ParallelSetup => if ok {
            RunState { phase: Phase::CallbackInvocation, callback_invoked: true, ..state }
        } else {
            failed(state, RunError::Setup)
        },
        Phase::CallbackInvocation => if ok {
            RunState { phase: Phase::Done, outcome: Outcome::Success, ..state }
        } else {
            failed(state, RunError::Callback)
        },
        Phase::Done => state,
    }
}

/// What the driver does after `state`'s phase ended with `event`: the work of
/// the phase that follows, or the release of the fleet when the run ends.
pub open spec fn action(state: RunState, event: Event) -> Action {
    if state.phase == Phase::Done {
        Action::Idle
    } else if step(state, event).phase == Phase::Done {
        Action::Release
    } else {
        Action::Perform(step(state, event).phase)
    }
}

/// The state of a run after a sequence of events.
pub open spec fn run_of(events: Seq<Event>) -> RunState
    decreases events.len(),
{
    if events.len() == 0 {
        initial()
    } else {
        step(run_of(events.drop_last()), events.last())
    }
}

/// How often a run was told to release its fleet in a sequence of events.
pub open spec fn releases_in(events: Seq<Event>) -> nat
    decreases events.len(),
{
    if events.len() == 0 {
        0
    } else {
        let before = releases_in(events.drop_last());
        if action(run_of(events.drop_last()), events.last()) == Action::Release {
            before + 1
        } else {
            before
        }
    }
}

/// What holds of a run at every moment.
pub open spec fn consistent(state: RunState) -> bool {
    &&& state.callback_invoked ==> !state.rejected
    &&& state.callback_invoked == (state.outcome == Outcome::Success || state.outcome == Outcome::Failure(
        RunError::Callback,
    ) || state.phase == Phase::CallbackInvocation)
    &&& (state.phase == Phase::Done) == (state.outcome != Outcome::Running)
    &&& state.rejected ==> rank(state.phase) >= rank(Phase::RequestCancellation)
    &&& state.rejected ==> rank(state.phase) <= rank(Phase::ReadinessPolling) || state.outcome
        == Outcome::Failure(RunError::ResolutionPolling) || state.outcome == Outcome::Failure(
        RunError::ReadinessPolling,
    )
}

/// A run before its first phase.
pub fn start() -> (state: RunState)
    ensures
        state == initial(),
{
    RunState { phase: Phase::Init, rejected: false, callback_invoked: false, outcome: Outcome::Running }
}

/// Moves a run on after its phase ended with `event`, and says what the
/// driver does next. A run never goes back to an earlier phase.
pub fn advance(state: RunState, event: Event) -> (next: (RunState, Action))
    ensures
        next.0 == step(state, event),
        next.1 == action(state, event),
        rank(next.0.phase) >= rank(state.phase),
{
    let ok = match event {
        Event::Succeeded => true,
        _ => false,
    };
    let done = |error: RunError| -> (out: (RunState, Action))
        ensures
            out.0 == failed(state, error),
            out.1 == Action::Release,
        { (RunState { phase: Phase::Done, outcome: Outcome::Failure(error), ..state }, Action::Release) };
    let go = |phase: Phase| -> (out: (RunState, Action))
        ensures
            out.0 == moved(state, phase),
            out.1 == Action::Perform(phase),
        { (RunState { phase, ..state }, Action::Perform(phase)) };
    match state.phase {
        Phase::Init => go(Phase::Provisioning),
        Phase::Provisioning => if ok {
            go(Phase::RequestSubmission)
        } else {
            done(RunError::Provisioning)
        },
        Phase::RequestSubmission => if ok {
            go(Phase::ResolutionPolling)
        } else {
            done(RunError::RequestSubmission)
        },
        Phase::ResolutionPolling => match event {
            Event::Succeeded => go(Phase::RequestCancellation),
            Event::PartlyRejected => (
                RunState { phase: Phase::RequestCancellation, rejected: true, ..state },
                Action::Perform(Phase::RequestCancellation),
            ),
            Event::Failed => done(RunError::ResolutionPolling),
        },
        Phase::RequestCancellation => go(Phase::ReadinessPolling),
        Phase::ReadinessPolling => if !ok {
            done(RunError::ReadinessPolling)
        } else if state.rejected {
            done(RunError::ResolutionPolling)
        } else {
            go(Phase::ParallelSetup)
        },
        Phase::ParallelSetup => if ok {
            (
                RunState { phase: Phase::CallbackInvocation, callback_invoked: true, ..state },
                Action::Perform(Phase::CallbackInvocation),
            )
        } else {
            done(RunError::Setup)
        },
        Phase::CallbackInvocation => if ok {
            (RunState { phase: Phase::Done, outcome: Outcome::Success, ..state }, Action::Release)
        } else {
            done(RunError::Callback)
        },
        Phase::Done => (state, Action::Idle),
    }
}

/// How resolution polling ended, once every request is resolved.
pub fn resolution_event(resolution: &Resolution) -> (event: Event)
    ensures
        event == if resolution.all_active {
            Event::Succeeded
        } else {
            Event::PartlyRejected
        },
{
    if resolution.all_active {
        Event::Succeeded
    } else {
        Event::PartlyRejected
    }
}

/// How the setup of the fleet ended: well only where no failure was collected.
pub fn setup_event(errors: &Vec<SetupError>) -> (event: Event)
    ensures
        event == if errors@.len() == 0 {
            Event::Succeeded
        } else {
            Event::Failed
        },
{
    if errors.len() == 0 {
        Event::Succeeded
    } else {
        Event::Failed
    }
}

/// Moves a run from its start through a sequence of events, and counts how
/// often the fleet was released on the way.
pub fn run_through(events: &Vec<Event>) -> (end: (RunState, u8))
    ensures
        end.0 == run_of(events@),
        end.1 == releases_in(events@),
{
    let mut state = start();
    let mut releases: u8 = 0;
    let mut i: usize = 0;
    while i < events.len()
        invariant
            i <= events@.len(),
            state == run_of(events@.take(i as int)),
            releases == releases_in(events@.take(i as int)),
        decreases events@.len() - i,
    {
        proof {
            assert(events@.take(i + 1).drop_last() =~= events@.take(i as int));
            assert(events@.take(i + 1).last() == events@[i as int]);
            lemma_run(events@.take(i as int));
            lemma_run(events@.take(i + 1));
        }
        let (next, todo) = advance(state, events[i]);
        match todo {
            Action::Release => {
                releases = releases + 1;
            },
            _ => {},
        }
        state = next;
        i += 1;
    }
    proof {
        assert(events@.take(i as int) =~= events@);
    }
    (state, releases)
}

/// A setup that failed ends the run with the setup's error, and the callback
/// is not invoked.
pub proof fn lemma_failed_setup_skips_callback(state: RunState, event: Event)
    requires
        consistent(state),
        state.phase == Phase::ParallelSetup,
        event != Event::Succeeded,
    ensures
        step(state, event).phase == Phase::Done,
        step(state, event).outcome == Outcome::Failure(RunError::Setup),
        !step(state, event).callback_invoked,
        action(state, event) == Action::Release,
{
}

/// One step keeps a run consistent.
pub proof fn lemma_step_consistent(state: RunState, event: Event)
    requires
        consistent(state),
    ensures
        consistent(step(state, event)),
{
}

/// Whatever the phases report, a run in which a request was rejected never
/// invokes the callback; a run succeeds only through the callback; and the
/// fleet is released once when the run ends, and not before.
pub proof fn lemma_run(events: Seq<Event>)
    ensures
        consistent(run_of(events)),
        run_of(events).rejected ==> !run_of(events).callback_invoked,
        run_of(events).outcome == Outcome::Success ==> run_of(events).callback_invoked,
        releases_in(events) == if run_of(events).phase == Phase::Done {
            1nat
        } else {
            0nat
        },
    decreases events.len(),
{
    if events.len() > 0 {
        lemma_run(events.drop_last());
        lemma_step_consistent(run_of(events.drop_last()), events.last());
    }
}

/// Every run that is told enough comes to its end: nine events lead any run
/// from its start to `Done`.
pub proof fn lemma_run_ends(events: Seq<Event>)
    requires
        events.len() >= 9,
    ensures
        run_of(events).phase == Phase::Done,
    decreases events.len(),
{
    lemma_progress(events);
}

/// After `n` events a run stands at least `n` phases from its start, or is
/// over.
pub proof fn lemma_progress(events: Seq<Event>)
    ensures
        run_of(events).phase == Phase::Done || rank(run_of(events).phase) >= events.len(),
    decreases events.len(),
{
    if events.len() > 0 {
        lemma_progress(events.drop_last());
    }
}

} // verus!

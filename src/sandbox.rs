use vstd::prelude::*;
use crate::cache::ExitState;
use crate::error::SandboxError;

verus! {

/// What the runner must do next for one sandbox run.
#[derive(Copy, Clone, Debug, PartialEq, Eq)]
pub enum Action {
    /// Provision the container.
    Create,
    /// Start its process with piped standard input and output.
    Start,
    /// Write the input to standard input and close it.
    Feed,
    /// Wait for the process to exit, up to the deadline.
    Wait,
    /// Kill the process that overran its deadline and reap it.
    Kill,
    /// Read what the process wrote to standard output.
    Collect,
    /// Destroy the container.
    Destroy,
    /// Report the verdict; nothing is left to release.
    Finish,
}

/// What the runner observed when it performed an action.
#[derive(Copy, Clone, Debug, PartialEq, Eq)]
pub enum Event {
    Done,
    Failed,
    Exited(ExitState),
    DeadlinePassed,
}

/// How a run ended.
#[derive(Copy, Clone, Debug, PartialEq, Eq)]
pub enum Verdict {
    /// The process ended, by itself or killed at its deadline.
    Completed { status: ExitState, timed_out: bool },
    /// The container could not be provisioned.
    SetupFailed,
    /// Starting, feeding, waiting on or reading the process failed.
    ExecutionFailed,
}

/// The stage of one sandbox run.
#[derive(Copy, Clone, Debug, PartialEq, Eq)]
pub enum Phase {
    Provision,
    Start,
    Feed,
    Wait,
    Kill,
    Collect { status: ExitState, timed_out: bool },
    Teardown { verdict: Verdict },
    Done { verdict: Verdict, created: bool },
}

pub open spec fn action_of(p: Phase) -> Action {
    match p {
        Phase::Provision => Action::Create,
        Phase::Start => Action::Start,
        Phase::Feed => Action::Feed,
        Phase::Wait => Action::Wait,
        Phase::Kill => Action::Kill,
        Phase::Collect { .. } => Action::Collect,
        Phase::Teardown { .. } => Action::Destroy,
        Phase::Done { .. } => Action::Finish,
    }
}

/// The stage after the action of `p` was performed and `e` observed. Every
/// stage in which a container exists leads, on any event, towards
/// `Teardown`, and only `Teardown` leads to `Done` once a container exists.
pub open spec fn step_spec(p: Phase, e: Event) -> Phase {
    match p {
        Phase::Provision => match e {
            Event::Done => Phase::Start,
            _ => Phase::Done { verdict: Verdict::SetupFailed, created: false },
        },
        Phase::Start => match e {
            Event::Done => Phase::Feed,
            _ => Phase::Teardown { verdict: Verdict::ExecutionFailed },
        },
        Phase::Feed => match e {
            Event::Done => Phase::Wait,
            _ => Phase::Teardown { verdict: Verdict::ExecutionFailed },
        },
        Phase::Wait => match e {
            Event::Exited(s) => Phase::Collect { status: s, timed_out: false },
            Event::DeadlinePassed => Phase::Kill,
            _ => Phase::Teardown { verdict: Verdict::ExecutionFailed },
        },
        Phase::Kill => match e {
            Event::Exited(s) => Phase::Collect { status: s, timed_out: true },
            _ => Phase::Teardown { verdict: Verdict::ExecutionFailed },
        },
        Phase::Collect { status, timed_out } => match e {
            Event::Done => Phase::Teardown {
                verdict: Verdict::Completed { status, timed_out },
            },
            _ => Phase::Teardown { verdict: Verdict::ExecutionFailed },
        },
        Phase::Teardown { verdict } => Phase::Done { verdict, created: true },
        Phase::Done { verdict, created } => Phase::Done { verdict, created },
    }
}

/// The stage reached from `p` through the events `evs`, and the actions
/// performed on the way.
pub open spec fn run_trace(p: Phase, evs: Seq<Event>) -> (Phase, Seq<Action>)
    decreases evs.len(),
{
    if evs.len() == 0 {
        (p, Seq::empty())
    } else {
        let (q, acts) = run_trace(step_spec(p, evs[0]), evs.drop_first());
        (q, seq![action_of(p)] + acts)
    }
}

/// How many times `acts` destroys a container.
pub open spec fn destroy_count(acts: Seq<Action>) -> nat
    decreases acts.len(),
{
    if acts.len() == 0 {
        0
    } else {
        (if acts[0] is Destroy { 1nat } else { 0nat }) + destroy_count(acts.drop_first())
    }
}

/// 1 once a created container has been destroyed, else 0.
pub open spec fn destroyed(p: Phase) -> nat {
    match p {
        Phase::Done { created: true, .. } => 1,
        _ => 0,
    }
}

/// What one sandbox run reported: how the process ended, the bytes it wrote
/// before it ended, and whether the deadline ended it.
pub struct RunResult {
    pub status: ExitState,
    pub output: Vec<u8>,
    pub timed_out: bool,
}

pub struct RunView {
    pub status: ExitState,
    pub output: Seq<u8>,
    pub timed_out: bool,
}

impl View for RunResult {
    type V = RunView;

    open spec fn view(&self) -> RunView {
        RunView { status: self.status, output: self.output@, timed_out: self.timed_out }
    }
}

/// The result a finished run hands to the caller: the process's status and
/// output for a completed run, the matching error otherwise.
pub fn run_result(verdict: Verdict, output: Vec<u8>) -> (r: Result<RunResult, SandboxError>)
    ensures
        match verdict {
            Verdict::Completed { status, timed_out } => r matches Ok(run) && run@ == (RunView {
                status,
                output: output@,
                timed_out,
            }),
            Verdict::SetupFailed => r matches Err(SandboxError::Setup),
            Verdict::ExecutionFailed => r matches Err(SandboxError::Execution),
        },
{
    match verdict {
        Verdict::Completed { status, timed_out } => Ok(RunResult { status, output, timed_out }),
        Verdict::SetupFailed => Err(SandboxError::Setup),
        Verdict::ExecutionFailed => Err(SandboxError::Execution),
    }
}

impl Phase {
    /// The stage a run begins in.
    pub fn initial() -> (r: Phase)
        ensures
            r == Phase::Provision,
    {
        Phase::Provision
    }

    /// The action to perform in this stage.
    pub fn action(&self) -> (r: Action)
        ensures
            r == action_of(*self),
    {
        match self {
            Phase::Provision => Action::Create,
            Phase::Start => Action::Start,
            Phase::Feed => Action::Feed,
            Phase::Wait => Action::Wait,
            Phase::Kill => Action::Kill,
            Phase::Collect { .. } => Action::Collect,
            Phase::Teardown { .. } => Action::Destroy,
            Phase::Done { .. } => Action::Finish,
        }
    }

    /// The stage after this one's action, given what was observed.
    pub fn step(&self, e: Event) -> (r: Phase)
        ensures
            r == step_spec(*self, e),
    {
        match *self {
            Phase::Provision => match e {
                Event::Done => Phase::Start,
                _ => Phase::Done { verdict: Verdict::SetupFailed, created: false },
            },
            Phase::Start => match e {
                Event::Done => Phase::Feed,
                _ => Phase::Teardown { verdict: Verdict::ExecutionFailed },
            },
            Phase::Feed => match e {
                Event::Done => Phase::Wait,
                _ => Phase::Teardown { verdict: Verdict::ExecutionFailed },
            },
            Phase::Wait => match e {
                Event::Exited(s) => Phase::Collect { status: s, timed_out: false },
                Event::DeadlinePassed => Phase::Kill,
                _ => Phase::Teardown { verdict: Verdict::ExecutionFailed },
            },
            Phase::Kill => match e {
                Event::Exited(s) => Phase::Collect { status: s, timed_out: true },
                _ => Phase::Teardown { verdict: Verdict::ExecutionFailed },
            },
            Phase::Collect { status, timed_out } => match e {
                Event::Done => Phase::Teardown {
                    verdict: Verdict::Completed { status, timed_out },
                },
                _ => Phase::Teardown { verdict: Verdict::ExecutionFailed },
            },
            Phase::Teardown { verdict } => Phase::Done { verdict, created: true },
            Phase::Done { verdict, created } => Phase::Done { verdict, created },
        }
    }
}

proof fn lemma_trace_counts(p: Phase, evs: Seq<Event>)
    requires
        destroyed(p) == 0 || p is Done,
    ensures
        destroy_count(run_trace(p, evs).1) + destroyed(p) == destroyed(run_trace(p, evs).0),
    decreases evs.len(),
{
    if evs.len() > 0 {
        let q = step_spec(p, evs[0]);
        lemma_trace_counts(q, evs.drop_first());
        let acts = seq![action_of(p)] + run_trace(q, evs.drop_first()).1;
        assert(acts.drop_first() =~= run_trace(q, evs.drop_first()).1);
    }
}

/// Whatever happens during a run, its container is destroyed at most once;
/// and when the run is done, it was destroyed exactly once if it was ever
/// created, so no container outlives the run.
pub proof fn lemma_destroyed_exactly_once(evs: Seq<Event>)
    ensures
        destroy_count(run_trace(Phase::Provision, evs).1) <= 1,
        run_trace(Phase::Provision, evs).0 matches Phase::Done { created, .. } ==> destroy_count(
            run_trace(Phase::Provision, evs).1,
        ) == if created { 1nat } else { 0nat },
{
    lemma_trace_counts(Phase::Provision, evs);
}

/// A run whose process overran its deadline, was killed, and whose output
/// was read ends as a completed run marked as timed out.
pub proof fn lemma_deadline_marks_timeout(status: ExitState)
    ensures
        run_trace(
            Phase::Wait,
            seq![Event::DeadlinePassed, Event::Exited(status), Event::Done, Event::Done],
        ).0 == (Phase::Done {
            verdict: Verdict::Completed { status, timed_out: true },
            created: true,
        }),
{
    let evs = seq![Event::DeadlinePassed, Event::Exited(status), Event::Done, Event::Done];
    assert(evs.drop_first() =~= seq![Event::Exited(status), Event::Done, Event::Done]);
    assert(evs.drop_first().drop_first() =~= seq![Event::Done, Event::Done]);
    assert(evs.drop_first().drop_first().drop_first() =~= seq![Event::Done]);
    assert(evs.drop_first().drop_first().drop_first().drop_first() =~= Seq::<Event>::empty());
    reveal_with_fuel(run_trace, 5);
}

} // verus!

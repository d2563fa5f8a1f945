//! The lifecycle state machine of one task.
//!
//! A task moves `Queued -> Running -> {Completed | Failed | TimedOut |
//! Cancelled}`. The engine waits on three signals at once — natural completion
//! of the unit of work, expiry of the deadline timer, and an incoming
//! cancellation request — and commits whichever resolves first as the terminal
//! status; the losing signals are absorbed without effect.

use vstd::prelude::*;

verus! {

/// A task's lifecycle state. The last four variants are terminal and
/// mutually exclusive; a task never leaves a terminal state.
#[derive(Clone, Copy, Debug, PartialEq, Eq, Structural)]
pub enum Status {
    Queued,
    Running,
    Completed,
    Failed,
    TimedOut,
    Cancelled,
}

impl Status {
    /// Whether this state is terminal: no further transitions happen from it.
    pub open spec fn spec_is_terminal(self) -> bool {
        match self {
            Status::Queued | Status::Running => false,
            _ => true,
        }
    }

    /// Executable check for a terminal state.
    pub fn is_terminal(&self) -> (r: bool)
        ensures
            r == self.spec_is_terminal(),
    {
        match self {
            Status::Queued | Status::Running => false,
            _ => true,
        }
    }
}

/// How a unit of work ended on its own: a zero process exit or a completed
/// fetch-and-extract is a success; a non-zero exit or a fetch/extract error
/// is a failure (never a transport-level error).
#[derive(Clone, Copy, Debug, PartialEq, Eq, Structural)]
pub enum UnitOutcome {
    Success,
    Failure,
}

/// One of the three signals the engine races: the unit of work finished on
/// its own, the deadline timer expired, or a cancellation request arrived.
#[derive(Clone, Copy, Debug, PartialEq, Eq, Structural)]
pub enum EngineSignal {
    WorkFinished(UnitOutcome),
    DeadlineExpired,
    CancelRequested,
}

/// The terminal status a signal commits when it is the first to resolve.
pub open spec fn terminal_of(sig: EngineSignal) -> Status {
    match sig {
        EngineSignal::WorkFinished(UnitOutcome::Success) => Status::Completed,
        EngineSignal::WorkFinished(UnitOutcome::Failure) => Status::Failed,
        EngineSignal::DeadlineExpired => Status::TimedOut,
        EngineSignal::CancelRequested => Status::Cancelled,
    }
}

/// One observed signal applied to a state: the first signal observed in a
/// non-terminal state commits its terminal status; a terminal state absorbs
/// every later signal unchanged.
pub open spec fn spec_step(s: Status, sig: EngineSignal) -> Status {
    if s.spec_is_terminal() {
        s
    } else {
        terminal_of(sig)
    }
}

/// Executable transition of the lifecycle state machine.
pub fn step(s: Status, sig: EngineSignal) -> (r: Status)
    ensures
        r == spec_step(s, sig),
{
    if s.is_terminal() {
        s
    } else {
        match sig {
            EngineSignal::WorkFinished(UnitOutcome::Success) => Status::Completed,
            EngineSignal::WorkFinished(UnitOutcome::Failure) => Status::Failed,
            EngineSignal::DeadlineExpired => Status::TimedOut,
            EngineSignal::CancelRequested => Status::Cancelled,
        }
    }
}

/// The move from `Queued` to `Running` when the unit of work starts; every
/// other state is left unchanged.
pub open spec fn spec_begin_running(s: Status) -> Status {
    if s == Status::Queued {
        Status::Running
    } else {
        s
    }
}

/// The outcome a process exit code maps to: zero is success, anything else
/// a failure.
pub open spec fn spec_exit_outcome(code: i64) -> UnitOutcome {
    if code == 0 {
        UnitOutcome::Success
    } else {
        UnitOutcome::Failure
    }
}

/// Maps a process exit code to the outcome of the unit of work.
pub fn exit_outcome(code: i64) -> (r: UnitOutcome)
    ensures
        r == spec_exit_outcome(code),
{
    if code == 0 {
        UnitOutcome::Success
    } else {
        UnitOutcome::Failure
    }
}

/// The status a task ends in after a whole run: the signals in the order the
/// engine observed them, folded over the state machine.
pub open spec fn run_outcome(s: Status, sigs: Seq<EngineSignal>) -> Status
    decreases sigs.len(),
{
    if sigs.len() == 0 {
        s
    } else {
        run_outcome(spec_step(s, sigs[0]), sigs.drop_first())
    }
}

/// Folds a whole observed signal sequence over the state machine.
pub fn drive(s: Status, sigs: &Vec<EngineSignal>) -> (r: Status)
    ensures
        r == run_outcome(s, sigs@),
{
    let mut cur: Status = s;
    let mut i: usize = 0;
    proof {
        assert(sigs@.skip(0) =~= sigs@);
    }
    while i < sigs.len()
        invariant
            0 <= i <= sigs@.len(),
            run_outcome(s, sigs@) == run_outcome(cur, sigs@.skip(i as int)),
        decreases sigs@.len() - i,
    {
        proof {
            assert(sigs@.skip(i as int).drop_first() =~= sigs@.skip(i as int + 1));
        }
        cur = step(cur, sigs[i]);
        i = i + 1;
    }
    proof {
        assert(sigs@.skip(sigs@.len() as int) =~= Seq::<EngineSignal>::empty());
    }
    cur
}

/// The capability object bridging store and engine: a non-blocking status
/// read and an asynchronous, idempotent, best-effort cancellation request.
/// The snapshot it holds is the latest status the engine has committed.
#[derive(Clone, Copy)]
pub struct Handle {
    /// The latest known lifecycle state.
    pub status: Status,
    /// Whether a cancellation request has been recorded for the engine to
    /// observe at its next suspension point.
    pub cancel_requested: bool,
}

impl Handle {
    /// A fresh handle for a task that has not begun running.
    pub fn new() -> (h: Handle)
        ensures
            h.status == Status::Queued,
            !h.cancel_requested,
    {
        Handle { status: Status::Queued, cancel_requested: false }
    }

    /// Non-blocking snapshot of the latest known status; never waits on
    /// completion.
    pub fn status(&self) -> (r: Status)
        ensures
            r == self.status,
    {
        self.status
    }

    /// Records a cancellation request: asynchronous, idempotent, and safe at
    /// any time — it never changes the status by itself; the engine observes
    /// the flag at its next suspension point.
    pub fn send_cancel_signal(&mut self)
        ensures
            final(self).cancel_requested,
            final(self).status == old(self).status,
    {
        self.cancel_requested = true;
    }

    /// Marks the unit of work as started: `Queued` becomes `Running`; any
    /// other state is kept.
    pub fn begin_running(&mut self)
        ensures
            final(self).status == spec_begin_running(old(self).status),
            final(self).cancel_requested == old(self).cancel_requested,
    {
        if matches!(self.status, Status::Queued) {
            self.status = Status::Running;
        }
    }

    /// Commits the first signal to resolve; a handle already terminal
    /// absorbs the signal unchanged.
    pub fn commit(&mut self, sig: EngineSignal)
        ensures
            final(self).status == spec_step(old(self).status, sig),
            final(self).cancel_requested == old(self).cancel_requested,
    {
        self.status = step(self.status, sig);
    }
}

/// A terminal status is stable: every later signal is absorbed unchanged,
/// so a terminal status is committed exactly once and transitions are
/// monotonic.
pub proof fn lemma_terminal_is_stable(s: Status, sig: EngineSignal)
    requires
        s.spec_is_terminal(),
    ensures
        spec_step(s, sig) == s,
{
}

/// A whole run after a terminal status changes nothing: once a task is
/// terminal, no sequence of further signals moves it.
pub proof fn lemma_run_outcome_stable(s: Status, sigs: Seq<EngineSignal>)
    requires
        s.spec_is_terminal(),
    ensures
        run_outcome(s, sigs) == s,
    decreases sigs.len(),
{
    if sigs.len() > 0 {
        lemma_run_outcome_stable(s, sigs.drop_first());
    }
}

/// In a non-terminal state, the first signal to resolve decides the terminal
/// status, and the state it commits is terminal.
pub proof fn lemma_first_signal_decides(s: Status, sig: EngineSignal)
    requires
        !s.spec_is_terminal(),
    ensures
        spec_step(s, sig) == terminal_of(sig),
        spec_step(s, sig).spec_is_terminal(),
{
}

/// Cancelling a task before it reaches `Running` always ends it `Cancelled`:
/// a cancellation observed in `Queued` commits `Cancelled`, and no later
/// signal moves it.
pub proof fn lemma_cancel_before_running(later: Seq<EngineSignal>)
    ensures
        spec_step(Status::Queued, EngineSignal::CancelRequested) == Status::Cancelled,
        run_outcome(
            spec_step(Status::Queued, EngineSignal::CancelRequested),
            later,
        ) == Status::Cancelled,
{
    lemma_run_outcome_stable(Status::Cancelled, later);
}

/// A task whose unit of work exceeds its deadline ends `TimedOut`: when the
/// timer is the first signal to resolve, the engine commits `TimedOut` and
/// every later signal is absorbed.
pub proof fn lemma_deadline_commits_timed_out(s: Status, later: Seq<EngineSignal>)
    requires
        !s.spec_is_terminal(),
    ensures
        spec_step(s, EngineSignal::DeadlineExpired) == Status::TimedOut,
        run_outcome(spec_step(s, EngineSignal::DeadlineExpired), later) == Status::TimedOut,
{
    lemma_run_outcome_stable(Status::TimedOut, later);
}

} // verus!

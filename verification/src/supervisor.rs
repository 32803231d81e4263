//! Task lifecycle supervisor: a halt/join state machine.
//!
//! A supervisor owns a cancellation signal (the tripwire) shared by
//! every task spawned through it, a registry of task handles, and a
//! two-phase halt/join shutdown protocol.  The decisions of the
//! protocol live here as a verified state machine over plain values;
//! the async runtime that actually spawns tasks, trips the tripwire
//! and awaits handles drives these transitions and supplies each
//! task's outcome as a [`TaskOutcome`].
//!
//! Lifecycle of one instance: `Running` until the first [`halt`]
//! (which fires the tripwire and wakes a pending join, exactly once),
//! then `Halting` while the join drains the registry and collects the
//! tasks, then `Halted`.

use vstd::prelude::*;

verus! {

/// Where a supervisor stands in its shutdown protocol.
#[derive(Clone, Copy, Debug, PartialEq, Eq, Structural)]
pub enum Phase {
    /// Tasks may be spawned; the tripwire has not fired.
    Running,
    /// `halt` has fired the tripwire; the join is being collected.
    Halting,
    /// The join has finished collecting tasks.
    Halted,
}

/// How one supervised task ended, as observed by the runtime when the
/// task's handle was awaited.
#[derive(Clone, Copy, Debug, PartialEq, Eq, Structural)]
pub enum TaskOutcome {
    /// The task ran to completion.
    Completed,
    /// The task ended in a fault that the runtime caught at its handle.
    Panicked,
    /// The task was cancelled by the runtime before completing.
    Cancelled,
}

/// First abnormal termination found when joining, in registry order.
#[derive(Clone, Copy, Debug, PartialEq, Eq, Structural)]
pub struct JoinFault {
    /// Index of the failed task in registry order.
    pub task: usize,
    /// Whether the task ended in a fault (as opposed to cancellation).
    pub panicked: bool,
}

/// Error returned by a join.
#[derive(Clone, Copy, Debug, PartialEq, Eq, Structural)]
pub enum HaltError {
    /// The tasks did not finish inside the timeout given to the join.
    Timeout,
    /// A task ended abnormally; the first such task in registry order.
    Join(JoinFault),
}

/// The abstract state of a supervisor.
pub ghost struct SupervisorState {
    /// Where the instance stands in its shutdown protocol.
    pub phase: Phase,
    /// Handles of spawned tasks, in registration order.
    pub tasks: Seq<u64>,
    /// How many times a pending join has been woken.
    pub wakes: nat,
    /// Whether the single permitted join has begun.
    pub join_taken: bool,
    /// Whether the interrupt-signal reaction has been registered.
    pub interrupt_hooked: bool,
}

/// Effect of a halt request: the first one trips the tripwire and
/// wakes a pending join; every later one is a no-op.
pub open spec fn spec_halt(s: SupervisorState) -> SupervisorState {
    if s.phase is Running {
        SupervisorState { phase: Phase::Halting, wakes: s.wakes + 1, ..s }
    } else {
        s
    }
}

/// The supervisor's bookkeeping: tripwire state, task registry, and
/// join progress.
pub struct Supervisor {
    phase: Phase,
    tasks: Vec<u64>,
    wakes: u64,
    join_taken: bool,
    interrupt_hooked: bool,
}

impl View for Supervisor {
    type V = SupervisorState;

    closed spec fn view(&self) -> SupervisorState {
        SupervisorState {
            phase: self.phase,
            tasks: self.tasks@,
            wakes: self.wakes as nat,
            join_taken: self.join_taken,
            interrupt_hooked: self.interrupt_hooked,
        }
    }
}

impl Supervisor {
    /// Well-formedness: the tripwire fires exactly on leaving
    /// `Running`, so a pending join is woken at most once.
    pub open spec fn wf(&self) -> bool {
        &&& self@.wakes <= 1
        &&& (self@.phase is Running <==> self@.wakes == 0)
    }

    /// A fresh supervisor: running, no tasks, tripwire untripped.
    pub fn new() -> (s: Supervisor)
        ensures
            s.wf(),
            s@.phase is Running,
            s@.tasks == Seq::<u64>::empty(),
            s@.wakes == 0,
            !s@.join_taken,
            !s@.interrupt_hooked,
    {
        let s = Supervisor {
            phase: Phase::Running,
            tasks: Vec::new(),
            wakes: 0,
            join_taken: false,
            interrupt_hooked: false,
        };
        assert(s@.tasks =~= Seq::<u64>::empty());
        s
    }

    /// Record a spawned task's handle in the join registry.
    ///
    /// Registration is accepted in every phase: a task that races with
    /// an in-flight halt must still be captured for the join, and the
    /// registry never loses a handle.
    pub fn register_task(&mut self, handle: u64)
        requires
            old(self).wf(),
        ensures
            final(self).wf(),
            final(self)@ == (SupervisorState { tasks: old(self)@.tasks.push(handle), ..old(self)@ }),
    {
        self.tasks.push(handle);
    }

    /// Request a halt: on the first call the tripwire trips and the
    /// pending join is woken; later calls change nothing.
    pub fn halt(&mut self)
        requires
            old(self).wf(),
        ensures
            final(self).wf(),
            final(self)@ == spec_halt(old(self)@),
    {
        if matches!(self.phase, Phase::Running) {
            self.phase = Phase::Halting;
            self.wakes = self.wakes + 1;
        }
    }

    /// Begin the single permitted join, once the halt has woken it:
    /// drains the registry and hands back every recorded handle, in
    /// registration order, for the runtime to await.
    ///
    /// Calling this twice on one instance is a usage error, excluded
    /// by precondition, as is calling it before the halt has fired.
    pub fn begin_join(&mut self) -> (handles: Vec<u64>)
        requires
            old(self).wf(),
            !old(self)@.join_taken,
            !(old(self)@.phase is Running),
        ensures
            final(self).wf(),
            handles@ == old(self)@.tasks,
            final(self)@ == (SupervisorState {
                tasks: Seq::<u64>::empty(),
                join_taken: true,
                ..old(self)@
            }),
    {
        self.join_taken = true;
        let mut handles: Vec<u64> = Vec::new();
        core::mem::swap(&mut handles, &mut self.tasks);
        assert(self@.tasks =~= Seq::<u64>::empty());
        handles
    }

    /// Mark the join as finished; the instance is then `Halted`.
    pub fn finish_join(&mut self)
        requires
            old(self).wf(),
            old(self)@.phase is Halting,
            old(self)@.join_taken,
        ensures
            final(self).wf(),
            final(self)@ == (SupervisorState { phase: Phase::Halted, ..old(self)@ }),
    {
        self.phase = Phase::Halted;
    }

    /// Claim the single interrupt-signal registration: returns true
    /// exactly on the first call, and the runtime installs its signal
    /// reaction only then.
    pub fn hook_interrupt(&mut self) -> (fresh: bool)
        requires
            old(self).wf(),
        ensures
            final(self).wf(),
            fresh == !old(self)@.interrupt_hooked,
            final(self)@ == (SupervisorState { interrupt_hooked: true, ..old(self)@ }),
    {
        let fresh = !self.interrupt_hooked;
        self.interrupt_hooked = true;
        fresh
    }

    /// Current phase, for the runtime and for observers.
    pub fn phase(&self) -> (p: Phase)
        ensures
            p == self@.phase,
    {
        self.phase
    }

    /// How many times a pending join has been woken so far.
    pub fn wake_count(&self) -> (n: u64)
        ensures
            n == self@.wakes,
    {
        self.wakes
    }

    /// Number of handles currently in the join registry.
    pub fn task_count(&self) -> (n: usize)
        ensures
            n == self@.tasks.len(),
    {
        self.tasks.len()
    }
}

/// Resolve a finished join: a timeout beats everything, otherwise the
/// first abnormal termination in registry order is the error, and the
/// join succeeds exactly when every task completed.
pub fn join_outcome(outcomes: &Vec<TaskOutcome>, timed_out: bool) -> (r: Result<(), HaltError>)
    ensures
        timed_out ==> r == Err::<(), HaltError>(HaltError::Timeout),
        !timed_out ==> match r {
            Ok(_) => forall|i: int| 0 <= i < outcomes@.len() ==> outcomes@[i] is Completed,
            Err(e) => {
                &&& e matches HaltError::Join(f)
                &&& f.task < outcomes@.len()
                &&& !(outcomes@[f.task as int] is Completed)
                &&& f.panicked == (outcomes@[f.task as int] is Panicked)
                &&& forall|j: int| 0 <= j < f.task ==> outcomes@[j] is Completed
            },
        },
{
    if timed_out {
        return Err(HaltError::Timeout);
    }
    let mut i: usize = 0;
    while i < outcomes.len()
        invariant
            !timed_out,
            0 <= i <= outcomes@.len(),
            forall|j: int| 0 <= j < i ==> outcomes@[j] is Completed,
        decreases outcomes@.len() - i,
    {
        match outcomes[i] {
            TaskOutcome::Completed => {},
            TaskOutcome::Panicked => {
                return Err(HaltError::Join(JoinFault { task: i, panicked: true }));
            },
            TaskOutcome::Cancelled => {
                return Err(HaltError::Join(JoinFault { task: i, panicked: false }));
            },
        }
        i += 1;
    }
    Ok(())
}

/// Halting is idempotent: any number of halt requests beyond the first
/// leaves the state exactly as one request does, and only the first
/// wakes the pending join.
pub proof fn lemma_halt_idempotent(s: SupervisorState)
    ensures
        spec_halt(spec_halt(s)) == spec_halt(s),
        s.phase is Running ==> spec_halt(s).wakes == s.wakes + 1,
        !(s.phase is Running) ==> spec_halt(s) == s,
{
}

/// A halt always leaves `Running`, so after it a join may begin; and
/// it never touches the registry, so every task registered before the
/// halt is in the subsequent join's wait set.
pub proof fn lemma_halt_enables_join(s: SupervisorState)
    ensures
        !(spec_halt(s).phase is Running),
        spec_halt(s).tasks == s.tasks,
        spec_halt(s).join_taken == s.join_taken,
{
}

/// The process-wide panic policy: report the fault, then terminate the
/// whole process, so a failing task never leaves the process partially
/// alive.  The policy is installed at most once; this value carries
/// the once-only decision, and the host process pairs the first
/// install with registering its report-then-terminate hook.
pub struct PanicPolicy {
    installed: bool,
}

impl PanicPolicy {
    /// Not yet installed.
    pub fn new() -> (p: PanicPolicy)
        ensures
            !p.is_installed(),
    {
        PanicPolicy { installed: false }
    }

    /// Whether the policy has been installed.
    pub closed spec fn is_installed(&self) -> bool {
        self.installed
    }

    /// Claim the single installation: true exactly on the first call.
    /// The caller registers the process-wide hook only when this
    /// returns true, so repeated setup requests install it once.
    pub fn install(&mut self) -> (first: bool)
        ensures
            final(self).is_installed(),
            first == !old(self).is_installed(),
    {
        let first = !self.installed;
        self.installed = true;
        first
    }
}

} // verus!

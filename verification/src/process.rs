//! The supervision state machine.
//!
//! A `Process` tracks one supervised child: its limits, the monotone
//! high-water marks of CPU time and memory it was seen to consume, a
//! counter of consecutive idle samples, and its state. The session starts
//! `Running` and moves exactly once to a terminal state.
//!
//! The caller owns the sampling loop: per iteration it reaps without
//! blocking, probes procfs while the child lives, and hands the outcome to
//! [`Process::step`] as a [`WaitEvent`]. `step` applies the sample,
//! enforces the limits in the fixed order time, memory, idle — a limit of
//! zero disables its check — and answers with the [`StepAction`] the caller
//! must take: sleep and sample again, reap the child it has just killed,
//! or stop. When the child was reaped, the authoritative kernel accounting
//! is reconciled into the high-water marks and the limits are re-checked
//! before the exit status is interpreted, so a child that exits already
//! over budget is still convicted.

use vstd::prelude::*;

use crate::checker::Checker;
use crate::verdict::ProblemVerdict;

verus! {

/// The state of a supervision session: `Running`, or one terminal state.
#[derive(Debug, Clone, Copy, PartialEq, Eq)]
pub enum ProcessState {
    Running,
    Exited(i32),
    TimeLimitExceeded,
    MemoryLimitExceeded,
    IdleLimitExceeded,
    RuntimeError(i32),
    Failed,
}

/// How a reaped child left: stopped by a signal, killed by a signal, or a
/// normal exit with a code.
#[derive(Debug, Clone, Copy, PartialEq, Eq)]
pub enum ReapKind {
    Stopped(i32),
    Signaled(i32),
    Exited(i32),
}

/// What one non-blocking reap attempt observed.
///
/// While the child runs, the procfs probes report cumulative CPU time
/// (milliseconds) and peak memory (megabytes); a probe that missed — the
/// file vanished in the race with exit — reports `None` and is skipped.
/// `elapsed_ms` is the wall-clock time since the session began. When the
/// child was reaped, the kernel's own accounting comes along.
#[derive(Debug, Clone, Copy, PartialEq, Eq)]
pub enum WaitEvent {
    StillRunning { cpu_ms: Option<u64>, mem_mb: Option<u64>, elapsed_ms: u64 },
    Reaped { kind: ReapKind, time_ms: u64, memory_mb: u64 },
    WaitError,
    Unknown,
}

/// What the caller must do after a step: sleep that many milliseconds and
/// sample again, reap the child that was just sent the kill signal, or
/// nothing — the session is over.
#[derive(Debug, Clone, Copy, PartialEq, Eq)]
pub enum StepAction {
    Sleep(u64),
    Reap,
    Finished,
}

/// One supervised child.
#[derive(Debug, Clone, Copy)]
pub struct Process {
    pub pid: i32,
    pub time_limit_ms: u64,
    pub memory_limit_mb: u64,
    pub consumed_time_ms: u64,
    pub consumed_memory_mb: u64,
    pub idle_count: u32,
    pub state: ProcessState,
}

/// The larger of two counters.
pub open spec fn max64(a: u64, b: u64) -> u64 {
    if a > b {
        a
    } else {
        b
    }
}

/// The idleness policy: the child is idle when more than 100 consecutive
/// samples saw no CPU progress, or when the wall clock has passed 5000 ms
/// and ten times the CPU budget.
pub open spec fn spec_is_idle(idle_count: u32, elapsed_ms: u64, time_limit_ms: u64) -> bool {
    idle_count > 100 || (elapsed_ms > 5000 && elapsed_ms > 10 * time_limit_ms)
}

/// The adaptive polling cadence: 100 ms times the iteration number, capped
/// at 1000 ms.
pub open spec fn spec_sleep_ms(iter: u64) -> u64 {
    if iter < 10 {
        (100 * iter) as u64
    } else {
        1000
    }
}

/// A live sample folded into the session: each high-water mark takes the
/// maximum with its probe (a missed probe changes nothing), and the idle
/// counter advances when the CPU time stood still.
pub open spec fn spec_sample(p: Process, cpu_ms: Option<u64>, mem_mb: Option<u64>) -> Process {
    Process {
        consumed_time_ms: match cpu_ms {
            Some(c) => max64(p.consumed_time_ms, c),
            None => p.consumed_time_ms,
        },
        consumed_memory_mb: match mem_mb {
            Some(m) => max64(p.consumed_memory_mb, m),
            None => p.consumed_memory_mb,
        },
        idle_count: match cpu_ms {
            Some(c) => if p.consumed_time_ms == c {
                (p.idle_count + 1) as u32
            } else {
                0u32
            },
            None => p.idle_count,
        },
        ..p
    }
}

/// What one supervision step does, given the event: the session afterwards
/// and the action the caller owes. On the kill paths the state given here
/// assumes the kill signal went through; `step` itself demotes the state to
/// `Failed` when it did not.
pub open spec fn spec_step(p: Process, e: WaitEvent, iter: u64) -> (Process, StepAction) {
    match e {
        WaitEvent::StillRunning { cpu_ms, mem_mb, elapsed_ms } => {
            let q = spec_sample(p, cpu_ms, mem_mb);
            if p.time_limit_ms > 0 && q.consumed_time_ms > p.time_limit_ms {
                (Process { state: ProcessState::TimeLimitExceeded, ..q }, StepAction::Reap)
            } else if p.memory_limit_mb > 0 && q.consumed_memory_mb > p.memory_limit_mb {
                (Process { state: ProcessState::MemoryLimitExceeded, ..q }, StepAction::Reap)
            } else if spec_is_idle(q.idle_count, elapsed_ms, p.time_limit_ms) {
                (Process { state: ProcessState::IdleLimitExceeded, ..q }, StepAction::Reap)
            } else {
                (q, StepAction::Sleep(spec_sleep_ms(iter)))
            }
        },
        WaitEvent::Reaped { kind, time_ms, memory_mb } => {
            let q = Process {
                consumed_time_ms: max64(p.consumed_time_ms, time_ms),
                consumed_memory_mb: max64(p.consumed_memory_mb, memory_mb),
                ..p
            };
            if p.time_limit_ms > 0 && q.consumed_time_ms > p.time_limit_ms {
                (Process { state: ProcessState::TimeLimitExceeded, ..q }, StepAction::Finished)
            } else if p.memory_limit_mb > 0 && q.consumed_memory_mb > p.memory_limit_mb {
                (Process { state: ProcessState::MemoryLimitExceeded, ..q }, StepAction::Finished)
            } else {
                (
                    Process {
                        state: match kind {
                            ReapKind::Stopped(sig) => ProcessState::RuntimeError(sig),
                            ReapKind::Signaled(sig) => ProcessState::RuntimeError(sig),
                            ReapKind::Exited(code) => ProcessState::Exited(code),
                        },
                        ..q
                    },
                    StepAction::Finished,
                )
            }
        },
        WaitEvent::WaitError => (Process { state: ProcessState::Failed, ..p }, StepAction::Finished),
        WaitEvent::Unknown => (Process { state: ProcessState::Failed, ..p }, StepAction::Finished),
    }
}

/// Relies on nix::sys::signal::kill: sends SIGKILL to the process with the
/// given pid and reports whether the call succeeded. Success depends on the
/// live system (the pid may already be gone), so nothing is promised of the
/// result.
#[verifier::external_body]
fn send_sigkill(pid: i32) -> bool {
    nix::sys::signal::kill(nix::unistd::Pid::from_raw(pid), nix::sys::signal::Signal::SIGKILL)
        .is_ok()
}

/// The terminal state after a limit violation: the verdict when the kill
/// signal went through, `Failed` when it did not.
pub fn state_after_kill(verdict: ProcessState, kill_ok: bool) -> (r: ProcessState)
    ensures
        r == if kill_ok {
            verdict
        } else {
            ProcessState::Failed
        },
{
    if kill_ok {
        verdict
    } else {
        ProcessState::Failed
    }
}

/// The exec mirror of the idleness policy.
pub fn is_idle_now(idle_count: u32, elapsed_ms: u64, time_limit_ms: u64) -> (r: bool)
    ensures
        r == spec_is_idle(idle_count, elapsed_ms, time_limit_ms),
{
    idle_count > 100 || (elapsed_ms > 5000 && (elapsed_ms as u128) > 10u128 * (
    time_limit_ms as u128))
}

/// The exec mirror of the polling cadence.
pub fn sleep_duration_ms(iter: u64) -> (r: u64)
    requires
        1 <= iter,
    ensures
        r == spec_sleep_ms(iter),
{
    if iter < 10 {
        100 * iter
    } else {
        1000
    }
}

impl Process {
    /// The session invariant: while the child runs, the idle counter has
    /// not yet passed the threshold (a step past it ends the session).
    pub open spec fn inv(self) -> bool {
        self.state is Running ==> self.idle_count <= 100
    }

    /// A fresh session for the child `pid` under the given limits: nothing
    /// consumed yet, no idle samples, state `Running`.
    pub fn new(pid: i32, time_limit_ms: u64, memory_limit_mb: u64) -> (r: Self)
        requires
            pid >= 1,
        ensures
            r == (Process {
                pid,
                time_limit_ms,
                memory_limit_mb,
                consumed_time_ms: 0,
                consumed_memory_mb: 0,
                idle_count: 0,
                state: ProcessState::Running,
            }),
            r.inv(),
    {
        Process {
            pid,
            time_limit_ms,
            memory_limit_mb,
            consumed_time_ms: 0,
            consumed_memory_mb: 0,
            idle_count: 0,
            state: ProcessState::Running,
        }
    }

    /// Whether the session is still running.
    pub fn is_running(&self) -> (r: bool)
        ensures
            r == (self.state is Running),
    {
        match self.state {
            ProcessState::Running => true,
            _ => false,
        }
    }

    /// One pass of the sampling/enforcement loop.
    ///
    /// The session must still be running; it changes exactly as
    /// [`spec_step`] says, except that on a kill path — a limit violated
    /// while the child was alive — a failed kill signal demotes the state
    /// to `Failed`. The high-water marks never decrease, and a limit of
    /// zero never produces its verdict.
    pub fn step(&mut self, event: &WaitEvent, iter: u64) -> (action: StepAction)
        requires
            old(self).state is Running,
            old(self).inv(),
            1 <= iter,
        ensures
            final(self).inv(),
            ({
                let (q, a) = spec_step(*old(self), *event, iter);
                &&& action == a
                &&& final(self).pid == q.pid
                &&& final(self).time_limit_ms == q.time_limit_ms
                &&& final(self).memory_limit_mb == q.memory_limit_mb
                &&& final(self).consumed_time_ms == q.consumed_time_ms
                &&& final(self).consumed_memory_mb == q.consumed_memory_mb
                &&& final(self).idle_count == q.idle_count
                &&& (final(self).state == q.state || (a is Reap && final(self).state
                    == ProcessState::Failed))
            }),
            final(self).consumed_time_ms >= old(self).consumed_time_ms,
            final(self).consumed_memory_mb >= old(self).consumed_memory_mb,
            old(self).time_limit_ms == 0 ==> !(final(self).state is TimeLimitExceeded),
            old(self).memory_limit_mb == 0 ==> !(final(self).state is MemoryLimitExceeded),
            action is Sleep <==> final(self).state is Running,
    {
        match event {
            WaitEvent::StillRunning { cpu_ms, mem_mb, elapsed_ms } => {
                if let Some(c) = cpu_ms {
                    if self.consumed_time_ms == *c {
                        self.idle_count = self.idle_count + 1;
                    } else {
                        self.idle_count = 0;
                    }
                    if *c > self.consumed_time_ms {
                        self.consumed_time_ms = *c;
                    }
                }
                if let Some(m) = mem_mb {
                    if *m > self.consumed_memory_mb {
                        self.consumed_memory_mb = *m;
                    }
                }
                if self.time_limit_ms > 0 && self.consumed_time_ms > self.time_limit_ms {
                    let ok = send_sigkill(self.pid);
                    self.state = state_after_kill(ProcessState::TimeLimitExceeded, ok);
                    StepAction::Reap
                } else if self.memory_limit_mb > 0 && self.consumed_memory_mb
                    > self.memory_limit_mb {
                    let ok = send_sigkill(self.pid);
                    self.state = state_after_kill(ProcessState::MemoryLimitExceeded, ok);
                    StepAction::Reap
                } else if is_idle_now(self.idle_count, *elapsed_ms, self.time_limit_ms) {
                    let ok = send_sigkill(self.pid);
                    self.state = state_after_kill(ProcessState::IdleLimitExceeded, ok);
                    StepAction::Reap
                } else {
                    StepAction::Sleep(sleep_duration_ms(iter))
                }
            },
            WaitEvent::Reaped { kind, time_ms, memory_mb } => {
                if *time_ms > self.consumed_time_ms {
                    self.consumed_time_ms = *time_ms;
                }
                if *memory_mb > self.consumed_memory_mb {
                    self.consumed_memory_mb = *memory_mb;
                }
                if self.time_limit_ms > 0 && self.consumed_time_ms > self.time_limit_ms {
                    self.state = ProcessState::TimeLimitExceeded;
                } else if self.memory_limit_mb > 0 && self.consumed_memory_mb
                    > self.memory_limit_mb {
                    self.state = ProcessState::MemoryLimitExceeded;
                } else {
                    self.state = match kind {
                        ReapKind::Stopped(sig) => ProcessState::RuntimeError(*sig),
                        ReapKind::Signaled(sig) => ProcessState::RuntimeError(*sig),
                        ReapKind::Exited(code) => ProcessState::Exited(*code),
                    };
                }
                StepAction::Finished
            },
            WaitEvent::WaitError => {
                self.state = ProcessState::Failed;
                StepAction::Finished
            },
            WaitEvent::Unknown => {
                self.state = ProcessState::Failed;
                StepAction::Finished
            },
        }
    }
}

/// Law: an enforcement verdict never leaves the child unattended. From a
/// running session, a step ends in `TimeLimitExceeded`,
/// `MemoryLimitExceeded` or `IdleLimitExceeded` only when either the child
/// was seen alive — the step has then just sent the kill signal and the
/// action obliges the caller to reap — or the child was already reaped and
/// the session simply ends. Either way no verdict is produced while the
/// child still runs unobserved.
pub proof fn lemma_enforcement_attends_the_child(p: Process, e: WaitEvent, iter: u64)
    requires
        p.state is Running,
    ensures
        ({
            let (q, a) = spec_step(p, e, iter);
            (q.state is TimeLimitExceeded || q.state is MemoryLimitExceeded
                || q.state is IdleLimitExceeded) ==> ((e is StillRunning && a is Reap) || (
            e is Reaped && a is Finished))
        }),
{
}

/// The final verdict of a supervision session, per the fixed mapping: exit
/// code zero defers to the checker (`Accepted` with the consumed totals, or
/// `WrongAnswer` with the checker's diagnostic); any other normal exit is
/// `RuntimeError(0)`; each enforcement state maps to its verdict; a stop or
/// kill signal carries its number. `Failed` yields no verdict — the caller
/// surfaces an error.
pub fn session_verdict<C: Checker>(p: &Process, output: &Vec<u8>, checker: &C) -> (r: Option<
    ProblemVerdict,
>)
    requires
        !(p.state is Running),
    ensures
        match p.state {
            ProcessState::Exited(code) => {
                if code == 0 {
                    match checker.spec_check(output@) {
                        Ok(u) => r == Some(ProblemVerdict::Accepted {
                            time: p.consumed_time_ms,
                            memory: p.consumed_memory_mb,
                        }),
                        Err(m) => r matches Some(v) && v matches ProblemVerdict::WrongAnswer {
                            msg,
                        } && msg@ == m,
                    }
                } else {
                    r == Some(ProblemVerdict::RuntimeError(0))
                }
            },
            ProcessState::TimeLimitExceeded => r == Some(ProblemVerdict::TimeLimitExceeded),
            ProcessState::MemoryLimitExceeded => r == Some(ProblemVerdict::MemoryLimitExceeded),
            ProcessState::IdleLimitExceeded => r == Some(ProblemVerdict::IdleLimitExceeded),
            ProcessState::RuntimeError(sig) => r == Some(ProblemVerdict::RuntimeError(sig)),
            ProcessState::Failed => r is None,
            ProcessState::Running => true,
        },
{
    match p.state {
        ProcessState::Exited(code) => {
            if code == 0 {
                match checker.check(output) {
                    Ok(u) => Some(ProblemVerdict::Accepted {
                        time: p.consumed_time_ms,
                        memory: p.consumed_memory_mb,
                    }),
                    Err(msg) => Some(ProblemVerdict::WrongAnswer { msg }),
                }
            } else {
                Some(ProblemVerdict::RuntimeError(0))
            }
        },
        ProcessState::TimeLimitExceeded => Some(ProblemVerdict::TimeLimitExceeded),
        ProcessState::MemoryLimitExceeded => Some(ProblemVerdict::MemoryLimitExceeded),
        ProcessState::IdleLimitExceeded => Some(ProblemVerdict::IdleLimitExceeded),
        ProcessState::RuntimeError(sig) => Some(ProblemVerdict::RuntimeError(sig)),
        ProcessState::Failed => None,
        ProcessState::Running => None,
    }
}

} // verus!

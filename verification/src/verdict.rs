//! The verdict model: the categorical outcome of judging one test case.

use vstd::prelude::*;

verus! {

/// The final outcome of judging one test case.
///
/// `Accepted` carries the high-water marks of CPU time (milliseconds) and
/// peak virtual memory (megabytes) that the run consumed. A non-zero normal
/// exit is reported as `RuntimeError(0)`: the payload is the terminating
/// signal where there was one, and zero otherwise.
#[derive(Debug, Clone, PartialEq)]
pub enum ProblemVerdict {
    Accepted { time: u64, memory: u64 },
    WrongAnswer { msg: String },
    TimeLimitExceeded,
    MemoryLimitExceeded,
    IdleLimitExceeded,
    RuntimeError(i32),
}

} // verus!

//! The wire types of the batch-server mode.
//!
//! A request names an executable, the limits, and a directory of test
//! cases; the responses stream per-case progress and end with a terminal
//! verdict or an error. The envelope always carries `ok`, and exactly one
//! of `error`, `verdict` and `test_case` is populated.

use vstd::prelude::*;

use crate::verdict::ProblemVerdict;

verus! {

/// A judgment request: run `cmd` (with `cmd_options` as its arguments)
/// against every test case in `test_dir`, under `time` milliseconds and
/// `memory` megabytes.
#[derive(Debug, Clone)]
pub struct JudeRequest {
    pub cmd: String,
    pub cmd_options: Option<Vec<String>>,
    pub time: u64,
    pub memory: u64,
    pub test_dir: String,
}

/// One message of the response stream.
#[derive(Debug, Clone)]
pub struct JudgeResponse {
    pub ok: bool,
    pub error: Option<String>,
    pub verdict: Option<ProblemVerdict>,
    pub test_case: Option<u32>,
}

impl JudgeResponse {
    /// The failure envelope: `ok` is false and only `error` is populated.
    pub fn error(err: &str) -> (r: Self)
        ensures
            !r.ok,
            r.error matches Some(e) && e@ == err@,
            r.verdict is None,
            r.test_case is None,
    {
        Self { ok: false, error: Some(err.to_owned()), verdict: None, test_case: None }
    }

    /// The progress envelope: `ok` is true and only `test_case` is populated.
    pub fn test_case(test_case: u32) -> (r: Self)
        ensures
            r.ok,
            r.error is None,
            r.verdict is None,
            r.test_case == Some(test_case),
    {
        Self { ok: true, error: None, verdict: None, test_case: Some(test_case) }
    }

    /// The terminal envelope: `ok` is true and only `verdict` is populated.
    pub fn ok(verdict: ProblemVerdict) -> (r: Self)
        ensures
            r.ok,
            r.error is None,
            r.verdict == Some(verdict),
            r.test_case is None,
    {
        Self { ok: true, error: None, verdict: Some(verdict), test_case: None }
    }
}

} // verus!

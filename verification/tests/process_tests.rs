use codechecker::checker::LinesChecker;
use codechecker::process::{
    is_idle_now, session_verdict, sleep_duration_ms, state_after_kill, Process, ProcessState,
    ReapKind, StepAction, WaitEvent,
};
use codechecker::verdict::ProblemVerdict;

// A pid far above the kernel's pid ceiling: no such process ever exists, so
// a kill signal sent to it fails and the session is demoted to Failed.
const NO_SUCH_PID: i32 = 2_000_000_000;

fn running(pid: i32, time_limit_ms: u64, memory_limit_mb: u64) -> Process {
    Process::new(pid, time_limit_ms, memory_limit_mb)
}

#[test]
fn new_session_starts_clean() {
    let p = running(1234, 1000, 128);
    assert_eq!(p.pid, 1234);
    assert_eq!(p.time_limit_ms, 1000);
    assert_eq!(p.memory_limit_mb, 128);
    assert_eq!(p.consumed_time_ms, 0);
    assert_eq!(p.consumed_memory_mb, 0);
    assert_eq!(p.idle_count, 0);
    assert_eq!(p.state, ProcessState::Running);
    assert!(p.is_running());
}

#[test]
fn samples_are_monotone_high_water_marks() {
    let mut p = running(1234, 0, 0);
    let a = p.step(
        &WaitEvent::StillRunning { cpu_ms: Some(50), mem_mb: Some(10), elapsed_ms: 100 },
        1,
    );
    assert_eq!(a, StepAction::Sleep(100));
    assert_eq!(p.consumed_time_ms, 50);
    assert_eq!(p.consumed_memory_mb, 10);
    assert_eq!(p.idle_count, 0);
    // A sample that reports less does not lower the marks.
    let a = p.step(
        &WaitEvent::StillRunning { cpu_ms: Some(20), mem_mb: Some(5), elapsed_ms: 200 },
        2,
    );
    assert_eq!(a, StepAction::Sleep(200));
    assert_eq!(p.consumed_time_ms, 50);
    assert_eq!(p.consumed_memory_mb, 10);
    // A missed probe changes nothing.
    let a = p.step(&WaitEvent::StillRunning { cpu_ms: None, mem_mb: None, elapsed_ms: 300 }, 3);
    assert_eq!(a, StepAction::Sleep(300));
    assert_eq!(p.consumed_time_ms, 50);
    assert_eq!(p.consumed_memory_mb, 10);
    assert!(p.is_running());
}

#[test]
fn idle_counter_counts_stalled_cpu_samples() {
    let mut p = running(1234, 0, 0);
    p.step(&WaitEvent::StillRunning { cpu_ms: Some(30), mem_mb: None, elapsed_ms: 10 }, 1);
    assert_eq!(p.idle_count, 0);
    p.step(&WaitEvent::StillRunning { cpu_ms: Some(30), mem_mb: None, elapsed_ms: 20 }, 2);
    assert_eq!(p.idle_count, 1);
    p.step(&WaitEvent::StillRunning { cpu_ms: Some(30), mem_mb: None, elapsed_ms: 30 }, 3);
    assert_eq!(p.idle_count, 2);
    p.step(&WaitEvent::StillRunning { cpu_ms: Some(31), mem_mb: None, elapsed_ms: 40 }, 4);
    assert_eq!(p.idle_count, 0);
}

#[test]
fn polling_cadence_ramps_to_one_second() {
    assert_eq!(sleep_duration_ms(1), 100);
    assert_eq!(sleep_duration_ms(2), 200);
    assert_eq!(sleep_duration_ms(9), 900);
    assert_eq!(sleep_duration_ms(10), 1000);
    assert_eq!(sleep_duration_ms(1000), 1000);
}

#[test]
fn idleness_policy() {
    assert!(is_idle_now(101, 0, 1000));
    assert!(!is_idle_now(100, 0, 1000));
    // Wall clock far beyond the CPU budget.
    assert!(is_idle_now(0, 10_001, 1000));
    assert!(!is_idle_now(0, 10_000, 1000));
    assert!(!is_idle_now(0, 4_000, 0));
    // With no time limit the wall threshold is 5000 ms alone.
    assert!(is_idle_now(0, 5_001, 0));
}

#[test]
fn time_limit_zero_disables_tle() {
    let mut p = running(1234, 0, 128);
    let a = p.step(
        &WaitEvent::StillRunning { cpu_ms: Some(99_999), mem_mb: Some(1), elapsed_ms: 500 },
        1,
    );
    assert_eq!(a, StepAction::Sleep(100));
    assert!(p.is_running());
    assert_eq!(p.consumed_time_ms, 99_999);
}

#[test]
fn memory_limit_zero_disables_mle() {
    let mut p = running(1234, 1000, 0);
    let a = p.step(
        &WaitEvent::StillRunning { cpu_ms: Some(1), mem_mb: Some(99_999), elapsed_ms: 500 },
        1,
    );
    assert_eq!(a, StepAction::Sleep(100));
    assert!(p.is_running());
    assert_eq!(p.consumed_memory_mb, 99_999);
}

#[test]
fn live_violation_with_unkillable_pid_fails_session() {
    // Time over budget while the child seems alive: the kill signal cannot
    // succeed (the pid does not exist), so the session is demoted.
    let mut p = running(NO_SUCH_PID, 1000, 128);
    let a = p.step(
        &WaitEvent::StillRunning { cpu_ms: Some(1500), mem_mb: Some(1), elapsed_ms: 600 },
        1,
    );
    assert_eq!(a, StepAction::Reap);
    assert_eq!(p.state, ProcessState::Failed);

    let mut p = running(NO_SUCH_PID, 1000, 128);
    let a = p.step(
        &WaitEvent::StillRunning { cpu_ms: Some(1), mem_mb: Some(256), elapsed_ms: 600 },
        1,
    );
    assert_eq!(a, StepAction::Reap);
    assert_eq!(p.state, ProcessState::Failed);

    // Idle: wall clock far past ten times the budget.
    let mut p = running(NO_SUCH_PID, 1000, 128);
    let a = p.step(
        &WaitEvent::StillRunning { cpu_ms: Some(1), mem_mb: Some(1), elapsed_ms: 20_000 },
        1,
    );
    assert_eq!(a, StepAction::Reap);
    assert_eq!(p.state, ProcessState::Failed);
}

#[test]
fn reap_reconciles_rusage_even_before_any_sample() {
    // The child exited before the first procfs sample: the final totals
    // come from the kernel's accounting.
    let mut p = running(1234, 1000, 128);
    let a = p.step(
        &WaitEvent::Reaped { kind: ReapKind::Exited(0), time_ms: 37, memory_mb: 12 },
        1,
    );
    assert_eq!(a, StepAction::Finished);
    assert_eq!(p.consumed_time_ms, 37);
    assert_eq!(p.consumed_memory_mb, 12);
    assert_eq!(p.state, ProcessState::Exited(0));
}

#[test]
fn reap_over_budget_is_still_convicted() {
    // Exited normally but already over the time budget: TLE, no kill needed.
    let mut p = running(1234, 1000, 128);
    let a = p.step(
        &WaitEvent::Reaped { kind: ReapKind::Exited(0), time_ms: 1500, memory_mb: 1 },
        1,
    );
    assert_eq!(a, StepAction::Finished);
    assert_eq!(p.state, ProcessState::TimeLimitExceeded);

    let mut p = running(1234, 1000, 128);
    let a = p.step(
        &WaitEvent::Reaped { kind: ReapKind::Exited(0), time_ms: 10, memory_mb: 256 },
        1,
    );
    assert_eq!(a, StepAction::Finished);
    assert_eq!(p.state, ProcessState::MemoryLimitExceeded);
}

#[test]
fn reap_interprets_status() {
    let mut p = running(1234, 1000, 128);
    p.step(&WaitEvent::Reaped { kind: ReapKind::Signaled(11), time_ms: 1, memory_mb: 1 }, 1);
    assert_eq!(p.state, ProcessState::RuntimeError(11));

    let mut p = running(1234, 1000, 128);
    p.step(&WaitEvent::Reaped { kind: ReapKind::Stopped(19), time_ms: 1, memory_mb: 1 }, 1);
    assert_eq!(p.state, ProcessState::RuntimeError(19));

    let mut p = running(1234, 1000, 128);
    p.step(&WaitEvent::Reaped { kind: ReapKind::Exited(3), time_ms: 1, memory_mb: 1 }, 1);
    assert_eq!(p.state, ProcessState::Exited(3));

    let mut p = running(1234, 1000, 128);
    p.step(&WaitEvent::WaitError, 1);
    assert_eq!(p.state, ProcessState::Failed);

    let mut p = running(1234, 1000, 128);
    p.step(&WaitEvent::Unknown, 1);
    assert_eq!(p.state, ProcessState::Failed);
}

fn finished(state: ProcessState, time: u64, memory: u64) -> Process {
    let mut p = running(1234, 1000, 128);
    p.consumed_time_ms = time;
    p.consumed_memory_mb = memory;
    p.state = state;
    p
}

#[test]
fn verdict_mapping() {
    let checker = LinesChecker::new(b"7\n".to_vec());

    let p = finished(ProcessState::Exited(0), 42, 9);
    let v = session_verdict(&p, &b"7\n".to_vec(), &checker);
    assert_eq!(v, Some(ProblemVerdict::Accepted { time: 42, memory: 9 }));

    let v = session_verdict(&p, &b"8\n".to_vec(), &checker);
    assert_eq!(
        v,
        Some(ProblemVerdict::WrongAnswer { msg: String::from("Wrong answer in line 1") })
    );

    // The compatibility quirk: a non-zero normal exit reports signal zero.
    let p = finished(ProcessState::Exited(3), 42, 9);
    let v = session_verdict(&p, &b"7\n".to_vec(), &checker);
    assert_eq!(v, Some(ProblemVerdict::RuntimeError(0)));

    let p = finished(ProcessState::TimeLimitExceeded, 0, 0);
    assert_eq!(
        session_verdict(&p, &b"".to_vec(), &checker),
        Some(ProblemVerdict::TimeLimitExceeded)
    );

    let p = finished(ProcessState::MemoryLimitExceeded, 0, 0);
    assert_eq!(
        session_verdict(&p, &b"".to_vec(), &checker),
        Some(ProblemVerdict::MemoryLimitExceeded)
    );

    let p = finished(ProcessState::IdleLimitExceeded, 0, 0);
    assert_eq!(
        session_verdict(&p, &b"".to_vec(), &checker),
        Some(ProblemVerdict::IdleLimitExceeded)
    );

    let p = finished(ProcessState::RuntimeError(11), 0, 0);
    assert_eq!(
        session_verdict(&p, &b"".to_vec(), &checker),
        Some(ProblemVerdict::RuntimeError(11))
    );

    let p = finished(ProcessState::Failed, 0, 0);
    assert_eq!(session_verdict(&p, &b"".to_vec(), &checker), None);
}

#[test]
fn accepted_verdict_respects_trailing_whitespace() {
    // Output differing from the reference only in per-line trailing
    // whitespace is accepted.
    let checker = LinesChecker::new(b"1 2\n3\n".to_vec());
    let p = finished(ProcessState::Exited(0), 5, 6);
    let v = session_verdict(&p, &b"1 2 \n3\t\n".to_vec(), &checker);
    assert_eq!(v, Some(ProblemVerdict::Accepted { time: 5, memory: 6 }));

    // The reference followed by an extra non-empty line is rejected.
    let v = session_verdict(&p, &b"1 2\n3\nzzz\n".to_vec(), &checker);
    assert_eq!(
        v,
        Some(ProblemVerdict::WrongAnswer { msg: String::from("Wrong answer in line 3") })
    );
}

#[test]
fn full_session_yields_exactly_one_verdict() {
    // A whole simulated session: two live samples, then a clean exit. The
    // loop asks for a step only while the session runs, and the terminal
    // state maps to exactly one verdict.
    let mut p = running(1234, 1000, 128);
    let events = [
        WaitEvent::StillRunning { cpu_ms: None, mem_mb: Some(3), elapsed_ms: 5 },
        WaitEvent::StillRunning { cpu_ms: Some(12), mem_mb: Some(4), elapsed_ms: 110 },
        WaitEvent::Reaped { kind: ReapKind::Exited(0), time_ms: 20, memory_mb: 4 },
    ];
    let mut iter: u64 = 1;
    let mut steps = 0;
    for e in events.iter() {
        assert!(p.is_running());
        p.step(e, iter);
        iter += 1;
        steps += 1;
    }
    assert!(!p.is_running());
    assert_eq!(steps, 3);
    assert_eq!(p.consumed_time_ms, 20);
    assert_eq!(p.consumed_memory_mb, 4);
    let checker = LinesChecker::new(b"ok\n".to_vec());
    let v = session_verdict(&p, &b"ok\n".to_vec(), &checker);
    assert_eq!(v, Some(ProblemVerdict::Accepted { time: 20, memory: 4 }));
}

#[test]
fn kill_outcome_decides_enforcement_state() {
    assert_eq!(
        state_after_kill(ProcessState::TimeLimitExceeded, true),
        ProcessState::TimeLimitExceeded
    );
    assert_eq!(
        state_after_kill(ProcessState::IdleLimitExceeded, true),
        ProcessState::IdleLimitExceeded
    );
    assert_eq!(
        state_after_kill(ProcessState::MemoryLimitExceeded, false),
        ProcessState::Failed
    );
}

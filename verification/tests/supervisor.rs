//! Tests of the task lifecycle supervisor's state machine.

use stratum_core::supervisor::{
    join_outcome, HaltError, JoinFault, PanicPolicy, Phase, Supervisor, TaskOutcome,
};

#[test]
fn fresh_supervisor_is_running() {
    let s = Supervisor::new();
    assert_eq!(s.phase(), Phase::Running);
    assert_eq!(s.wake_count(), 0);
    assert_eq!(s.task_count(), 0);
}

#[test]
fn halt_is_idempotent_and_wakes_once() {
    let mut s = Supervisor::new();
    s.halt();
    assert_eq!(s.phase(), Phase::Halting);
    assert_eq!(s.wake_count(), 1);
    // Further halts change nothing and wake nothing.
    s.halt();
    s.halt();
    assert_eq!(s.phase(), Phase::Halting);
    assert_eq!(s.wake_count(), 1);
}

#[test]
fn registry_keeps_handles_in_order_through_halt() {
    let mut s = Supervisor::new();
    s.register_task(10);
    s.register_task(20);
    s.halt();
    // Registration racing with the halt is still captured.
    s.register_task(30);
    assert_eq!(s.task_count(), 3);
    let handles = s.begin_join();
    assert_eq!(handles, vec![10, 20, 30]);
    assert_eq!(s.task_count(), 0);
    s.finish_join();
    assert_eq!(s.phase(), Phase::Halted);
}

#[test]
fn interrupt_hook_registers_once() {
    let mut s = Supervisor::new();
    assert!(s.hook_interrupt());
    assert!(!s.hook_interrupt());
    assert!(!s.hook_interrupt());
}

#[test]
fn join_timeout_beats_outcomes() {
    // A join that ran out of time reports Timeout even if every task
    // it did collect had completed.
    let outcomes = vec![TaskOutcome::Completed, TaskOutcome::Completed];
    assert_eq!(join_outcome(&outcomes, true), Err(HaltError::Timeout));
    assert_eq!(join_outcome(&Vec::new(), true), Err(HaltError::Timeout));
}

#[test]
fn join_succeeds_when_all_tasks_complete() {
    let outcomes = vec![
        TaskOutcome::Completed,
        TaskOutcome::Completed,
        TaskOutcome::Completed,
    ];
    assert_eq!(join_outcome(&outcomes, false), Ok(()));
    assert_eq!(join_outcome(&Vec::new(), false), Ok(()));
}

#[test]
fn join_reports_first_fault_in_registry_order() {
    let outcomes = vec![
        TaskOutcome::Completed,
        TaskOutcome::Cancelled,
        TaskOutcome::Panicked,
    ];
    assert_eq!(
        join_outcome(&outcomes, false),
        Err(HaltError::Join(JoinFault { task: 1, panicked: false }))
    );
    let outcomes = vec![TaskOutcome::Panicked, TaskOutcome::Cancelled];
    assert_eq!(
        join_outcome(&outcomes, false),
        Err(HaltError::Join(JoinFault { task: 0, panicked: true }))
    );
}

#[test]
fn panic_policy_installs_once() {
    let mut p = PanicPolicy::new();
    assert!(p.install());
    assert!(!p.install());
    assert!(!p.install());
}

use stepflow::analysis::FlowAnalysis;
use stepflow::dispatcher::{next_action, NextAction};
use stepflow::error::ExecutionError;
use stepflow::flow_result::{FlowError, FlowResult};
use stepflow::tracker::{RunStatus, RunTracker, StepRecord, StepStatus};
use stepflow::value::Value;

fn ids(names: &[&str]) -> Vec<String> {
    names.iter().map(|s| s.to_string()).collect()
}

/// a and b read from nothing, c reads from both, the output reads from c.
fn diamond() -> FlowAnalysis {
    FlowAnalysis::from_parts(ids(&["a", "b", "c"]), vec![vec![], vec![], vec![0, 1]], vec![2])
        .unwrap()
}

fn success(n: i128) -> FlowResult {
    FlowResult::Success {
        result: Value::Int(n),
    }
}

fn failure() -> FlowResult {
    FlowResult::Failed {
        error: FlowError::new(7, "broken"),
    }
}

fn statuses(t: &RunTracker) -> Vec<StepStatus> {
    (0..t.analysis().step_count())
        .map(|i| t.step_status(i).unwrap())
        .collect()
}

#[test]
fn a_new_run_has_blocked_steps_and_is_running() {
    let t = RunTracker::new(diamond());
    assert_eq!(t.status(), RunStatus::Running);
    assert!(!t.is_terminal());
    assert_eq!(
        statuses(&t),
        vec![StepStatus::Blocked, StepStatus::Blocked, StepStatus::Blocked]
    );
    assert_eq!(t.step_status(3), None);
    assert!(!t.output_resolvable());
    assert!(!t.any_running());
    assert!(t.any_runnable());
    assert!(!t.is_deadlocked());
}

#[test]
fn independent_steps_become_runnable_together() {
    let mut t = RunTracker::new(diamond());
    assert_eq!(t.compute_runnable(), vec![0, 1]);
    assert_eq!(
        statuses(&t),
        vec![StepStatus::Runnable, StepStatus::Runnable, StepStatus::Blocked]
    );
    assert_eq!(t.compute_runnable(), vec![0, 1]);
}

#[test]
fn a_step_is_handed_out_once() {
    let mut t = RunTracker::new(diamond());
    assert_eq!(t.start("a"), Ok(()));
    assert_eq!(t.step_status(0), Some(StepStatus::Running));
    assert!(t.any_running());
    assert_eq!(
        t.start("a"),
        Err(ExecutionError::StepNotRunnable {
            step: "a".to_string()
        })
    );
    assert_eq!(t.compute_runnable(), vec![1]);
    assert_eq!(t.record_outcome("a", success(1)), Ok(()));
    assert_eq!(
        t.start("a"),
        Err(ExecutionError::StepNotRunnable {
            step: "a".to_string()
        })
    );
}

#[test]
fn a_blocked_step_is_not_handed_out() {
    let mut t = RunTracker::new(diamond());
    assert_eq!(
        t.start("c"),
        Err(ExecutionError::StepNotRunnable {
            step: "c".to_string()
        })
    );
    assert_eq!(
        t.record_outcome("c", success(1)),
        Err(ExecutionError::StepNotRunnable {
            step: "c".to_string()
        })
    );
    assert_eq!(t.step_status(2), Some(StepStatus::Blocked));
    assert_eq!(
        t.start("nobody"),
        Err(ExecutionError::StepNotFound {
            step: "nobody".to_string()
        })
    );
    assert_eq!(
        t.record_outcome("nobody", success(1)),
        Err(ExecutionError::StepNotFound {
            step: "nobody".to_string()
        })
    );
}

#[test]
fn an_outcome_is_recorded_once() {
    let mut t = RunTracker::new(diamond());
    t.start("a").unwrap();
    assert_eq!(t.record_outcome("a", success(1)), Ok(()));
    assert_eq!(t.step_status(0), Some(StepStatus::Completed));
    assert_eq!(t.outcomes().get("a"), Some(&success(1)));
    // the same outcome again changes nothing
    assert_eq!(t.record_outcome("a", success(1)), Ok(()));
    assert_eq!(t.outcomes().get("a"), Some(&success(1)));
    // another outcome is refused
    assert_eq!(
        t.record_outcome("a", success(2)),
        Err(ExecutionError::Internal(
            "conflicting outcome for a step that has ended".to_string()
        ))
    );
    assert_eq!(
        t.record_outcome("a", FlowResult::Skipped),
        Err(ExecutionError::Internal(
            "conflicting outcome for a step that has ended".to_string()
        ))
    );
    assert_eq!(t.outcomes().get("a"), Some(&success(1)));
    assert_eq!(t.step_status(0), Some(StepStatus::Completed));
}

#[test]
fn the_status_follows_the_outcome() {
    let mut t = RunTracker::new(diamond());
    t.record_outcome("a", FlowResult::Skipped).unwrap();
    t.start("b").unwrap();
    t.record_outcome("b", failure()).unwrap();
    assert_eq!(
        statuses(&t),
        vec![StepStatus::Skipped, StepStatus::Failed, StepStatus::Blocked]
    );
    assert_eq!(t.compute_runnable(), vec![2]);
    t.record_outcome("c", success(3)).unwrap();
    assert!(t.output_resolvable());
    assert_eq!(t.compute_runnable(), Vec::<usize>::new());
}

#[test]
fn the_run_ends_with_its_result() {
    let mut t = RunTracker::new(diamond());
    t.finish(&success(1));
    assert_eq!(t.status(), RunStatus::Completed);
    assert!(t.is_terminal());
    t.finish(&failure());
    assert_eq!(t.status(), RunStatus::Completed);

    let mut t = RunTracker::new(diamond());
    t.finish(&failure());
    assert_eq!(t.status(), RunStatus::Failed);

    let mut t = RunTracker::new(diamond());
    t.finish(&FlowResult::Skipped);
    assert_eq!(t.status(), RunStatus::Completed);
}

#[test]
fn a_cancelled_run_hands_out_nothing_but_takes_late_outcomes() {
    let mut t = RunTracker::new(diamond());
    t.start("a").unwrap();
    t.cancel();
    assert_eq!(t.status(), RunStatus::Cancelled);
    assert_eq!(
        statuses(&t),
        vec![StepStatus::Running, StepStatus::Cancelled, StepStatus::Cancelled]
    );
    assert_eq!(t.compute_runnable(), Vec::<usize>::new());
    assert!(!t.any_runnable());
    assert_eq!(
        t.start("b"),
        Err(ExecutionError::StepNotRunnable {
            step: "b".to_string()
        })
    );
    // the step that was under way may still end
    assert_eq!(t.record_outcome("a", success(1)), Ok(()));
    assert_eq!(t.step_status(0), Some(StepStatus::Completed));
    assert_eq!(t.status(), RunStatus::Cancelled);
    // a cancelled step takes no outcome
    assert_eq!(
        t.record_outcome("b", success(2)),
        Err(ExecutionError::Internal(
            "conflicting outcome for a step that has ended".to_string()
        ))
    );
    t.finish(&success(1));
    assert_eq!(t.status(), RunStatus::Cancelled);
    assert!(matches!(next_action(&mut t), NextAction::Done));
}

#[test]
fn the_next_action_follows_the_state() {
    let mut t = RunTracker::new(diamond());
    match next_action(&mut t) {
        NextAction::Dispatch(steps) => assert_eq!(steps, vec![0, 1]),
        other => panic!("unexpected {:?}", other),
    }
    t.start("a").unwrap();
    t.start("b").unwrap();
    assert!(matches!(next_action(&mut t), NextAction::Wait));
    t.record_outcome("a", success(1)).unwrap();
    assert!(matches!(next_action(&mut t), NextAction::Wait));
    t.record_outcome("b", success(2)).unwrap();
    match next_action(&mut t) {
        NextAction::Dispatch(steps) => assert_eq!(steps, vec![2]),
        other => panic!("unexpected {:?}", other),
    }
    t.record_outcome("c", FlowResult::Skipped).unwrap();
    assert!(matches!(next_action(&mut t), NextAction::ResolveOutput));
    t.finish(&FlowResult::Skipped);
    assert!(matches!(next_action(&mut t), NextAction::Done));
}

#[test]
fn a_run_over_a_cycle_is_deadlocked() {
    let cyclic =
        FlowAnalysis::from_parts(ids(&["a", "b"]), vec![vec![1], vec![0]], vec![0]).unwrap();
    let mut t = RunTracker::new(cyclic);
    assert!(t.is_deadlocked());
    assert!(matches!(next_action(&mut t), NextAction::Deadlock));
    assert_eq!(
        ExecutionError::Deadlock.to_flow_error().code,
        500
    );
}

#[test]
fn a_run_is_restored_from_its_records() {
    let records = vec![
        StepRecord {
            status: StepStatus::Completed,
            result: Some(success(1)),
        },
        // written as running, but no task is behind it any more
        StepRecord {
            status: StepStatus::Running,
            result: None,
        },
        // written as failed, but the outcome says skipped
        StepRecord {
            status: StepStatus::Failed,
            result: Some(FlowResult::Skipped),
        },
    ];
    let analysis = FlowAnalysis::from_parts(
        ids(&["a", "b", "c", "d"]),
        vec![vec![], vec![0], vec![], vec![1, 2]],
        vec![3],
    )
    .unwrap();
    let (t, corrections) = RunTracker::restore(analysis, &records, RunStatus::Running);
    assert_eq!(
        statuses(&t),
        vec![
            StepStatus::Completed,
            StepStatus::Runnable,
            StepStatus::Skipped,
            StepStatus::Blocked
        ]
    );
    assert_eq!(corrections, 2);
    assert_eq!(t.status(), RunStatus::Running);
    assert_eq!(t.outcomes().get("a"), Some(&success(1)));
    assert_eq!(t.outcomes().get("b"), None);
    assert_eq!(t.outcomes().get("c"), Some(&FlowResult::Skipped));
}

#[test]
fn a_restored_run_without_records_waits_from_the_start() {
    let (mut t, corrections) = RunTracker::restore(diamond(), &vec![], RunStatus::Running);
    assert_eq!(
        statuses(&t),
        vec![StepStatus::Runnable, StepStatus::Runnable, StepStatus::Blocked]
    );
    assert_eq!(corrections, 2);
    assert_eq!(t.compute_runnable(), vec![0, 1]);
}

#[test]
fn a_restored_cancelled_run_has_cancelled_steps() {
    let records = vec![
        StepRecord {
            status: StepStatus::Failed,
            result: Some(failure()),
        },
        StepRecord {
            status: StepStatus::Cancelled,
            result: None,
        },
        StepRecord {
            status: StepStatus::Running,
            result: None,
        },
    ];
    let (t, corrections) = RunTracker::restore(diamond(), &records, RunStatus::Cancelled);
    assert_eq!(
        statuses(&t),
        vec![StepStatus::Failed, StepStatus::Cancelled, StepStatus::Cancelled]
    );
    assert_eq!(corrections, 1);
    assert_eq!(t.status(), RunStatus::Cancelled);
}

#[test]
fn statuses_say_whether_they_are_final() {
    for s in [
        StepStatus::Completed,
        StepStatus::Skipped,
        StepStatus::Failed,
        StepStatus::Cancelled,
    ] {
        assert!(s.is_terminal());
        assert!(!s.is_waiting());
    }
    assert!(!StepStatus::Running.is_terminal());
    assert!(!StepStatus::Running.is_waiting());
    for s in [StepStatus::Blocked, StepStatus::Runnable] {
        assert!(!s.is_terminal());
        assert!(s.is_waiting());
    }
}

use stepflow::component::Component;
use stepflow::error::ExecutionError;
use stepflow::executor::{
    open_session, settle, FlowPoll, PersistedRun, StepFlowExecutor,
};
use stepflow::expr::{Expr, SkipAction};
use stepflow::flow::{Flow, Step};
use stepflow::flow_result::{FlowError, FlowResult};
use stepflow::template::ValueTemplate;
use stepflow::tracker::{RunStatus, StepRecord, StepStatus};
use stepflow::value::Value;

fn success(n: i128) -> FlowResult {
    FlowResult::Success {
        result: Value::Int(n),
    }
}

fn ready(p: FlowPoll) -> FlowResult {
    match p {
        FlowPoll::Ready(r) => r,
        FlowPoll::Pending => panic!("still pending"),
    }
}

#[test]
fn plugins_are_found_by_protocol() {
    let mut e: StepFlowExecutor<u32> = StepFlowExecutor::new();
    assert!(e.list_plugins().is_empty());
    e.register_plugin("mock".to_string(), 1);
    e.register_plugin("python".to_string(), 2);
    let mock = Component::parse("mock://one_output").unwrap();
    let python = Component::parse("python://host/path").unwrap();
    assert_eq!(e.get_plugin(&mock), Ok(&1));
    assert_eq!(e.get_plugin(&python), Ok(&2));
    assert_eq!(
        e.get_plugin(&Component::parse("other://x").unwrap()),
        Err(ExecutionError::UnregisteredProtocol("other".to_string()))
    );
    assert_eq!(
        e.list_plugins(),
        vec![("mock".to_string(), &1), ("python".to_string(), &2)]
    );
}

#[test]
fn a_later_plugin_takes_the_place_of_an_earlier_one() {
    let mut e: StepFlowExecutor<&str> = StepFlowExecutor::new();
    e.register_plugin("mock".to_string(), "first");
    e.register_plugin("other".to_string(), "other");
    e.register_plugin("mock".to_string(), "second");
    assert_eq!(
        e.list_plugins(),
        vec![("mock".to_string(), &"second"), ("other".to_string(), &"other")]
    );
}

#[test]
fn a_submitted_flow_is_awaited_and_then_has_its_result() {
    let mut e: StepFlowExecutor<u32> = StepFlowExecutor::new();
    let run_id = e.submit_flow();
    assert!(matches!(e.flow_result(run_id), FlowPoll::Pending));
    assert!(matches!(e.flow_result(run_id), FlowPoll::Pending));
    e.complete_flow(run_id, Ok(success(5)));
    assert_eq!(ready(e.flow_result(run_id)), success(5));
}

#[test]
fn run_ids_are_random_ids() {
    let mut e: StepFlowExecutor<u32> = StepFlowExecutor::new();
    let a = e.submit_flow();
    let b = e.submit_flow();
    assert_ne!(a, b);
    for id in [a, b] {
        assert_eq!((id >> 76) & 0xf, 4);
        assert_eq!((id >> 62) & 0x3, 2);
        assert!(matches!(e.flow_result(id), FlowPoll::Pending));
    }
}

#[test]
fn an_unknown_run_is_not_found() {
    let e: StepFlowExecutor<u32> = StepFlowExecutor::new();
    let result = ready(e.flow_result(42));
    assert_eq!(
        result,
        FlowResult::Failed {
            error: FlowError::new(404, "No run found for ID: 00000000-0000-0000-0000-00000000002a"),
        }
    );
    let id = 0xa1a2a3a4b1b2c1c2d1d2d3d4d5d6d7d8u128;
    assert_eq!(
        ready(e.flow_result(id)).failed().unwrap().message,
        "No run found for ID: a1a2a3a4-b1b2-c1c2-d1d2-d3d4d5d6d7d8"
    );
}

#[test]
fn everyone_who_waits_sees_the_same_result() {
    let mut e: StepFlowExecutor<u32> = StepFlowExecutor::new();
    e.register_pending(7);
    assert!(matches!(e.flow_result(7), FlowPoll::Pending));
    e.complete_flow(7, Ok(success(1)));
    let first = ready(e.flow_result(7));
    let second = ready(e.flow_result(7));
    assert_eq!(first, second);
    assert_eq!(first, success(1));
    // a later report changes nothing
    e.complete_flow(7, Ok(success(2)));
    e.abandon_flow(7);
    assert_eq!(ready(e.flow_result(7)), success(1));
}

#[test]
fn an_execution_that_ends_without_result_is_cancelled() {
    let mut e: StepFlowExecutor<u32> = StepFlowExecutor::new();
    e.register_pending(7);
    e.abandon_flow(7);
    assert_eq!(
        ready(e.flow_result(7)),
        FlowResult::Failed {
            error: FlowError::new(410, "Nested flow execution was cancelled"),
        }
    );
    e.complete_flow(7, Ok(success(1)));
    assert_eq!(ready(e.flow_result(7)).failed().unwrap().code, 410);
    // reports for runs that are not known are dropped
    e.complete_flow(8, Ok(success(1)));
    e.abandon_flow(9);
    assert_eq!(ready(e.flow_result(8)).failed().unwrap().code, 404);
    assert_eq!(ready(e.flow_result(9)).failed().unwrap().code, 404);
}

#[test]
fn an_execution_that_ends_in_error_is_a_failed_flow() {
    let mut e: StepFlowExecutor<u32> = StepFlowExecutor::new();
    e.register_pending(7);
    e.complete_flow(7, Err(ExecutionError::Deadlock));
    assert_eq!(
        ready(e.flow_result(7)),
        FlowResult::Failed {
            error: FlowError::new(
                500,
                "Flow execution failed: workflow deadlock: no runnable steps and output cannot be resolved"
            ),
        }
    );
    assert_eq!(settle(Ok(FlowResult::Skipped)), FlowResult::Skipped);
    assert_eq!(
        settle(Err(ExecutionError::StepPanic)),
        FlowResult::Failed {
            error: FlowError::new(500, "Flow execution failed: step panic"),
        }
    );
}

fn flow() -> Flow {
    let read = |s: &str| ValueTemplate::Expr(Expr::step_path(s, "", SkipAction::Skip));
    Flow::new(
        vec![
            Step::new(
                "a",
                Component::new("mock", "one", ""),
                ValueTemplate::Literal(Value::Null),
            ),
            Step::new("b", Component::new("mock", "two", ""), read("a")),
        ],
        read("b"),
    )
}

fn kept() -> PersistedRun {
    PersistedRun {
        flow_hash: "abc123".to_string(),
        input: Value::Int(9),
        status: RunStatus::Running,
        steps: vec![
            StepRecord {
                status: StepStatus::Running,
                result: Some(success(1)),
            },
            StepRecord {
                status: StepStatus::Running,
                result: None,
            },
        ],
    }
}

#[test]
fn a_debug_session_is_rebuilt_from_what_was_kept() {
    let session = open_session(1, Some(kept()), Some(flow())).unwrap();
    assert_eq!(session.corrections, 2);
    assert_eq!(session.input, Value::Int(9));
    assert_eq!(session.tracker.step_status(0), Some(StepStatus::Completed));
    assert_eq!(session.tracker.step_status(1), Some(StepStatus::Runnable));
    assert_eq!(session.flow.steps.len(), 2);
}

#[test]
fn a_debug_session_needs_the_run_and_the_flow() {
    assert_eq!(
        open_session(0x2a, None, Some(flow())).err(),
        Some(ExecutionError::ExecutionNotFound(0x2a))
    );
    assert_eq!(
        ExecutionError::ExecutionNotFound(0x2a).message(),
        "execution '00000000-0000-0000-0000-00000000002a' not found"
    );
    assert_eq!(
        open_session(1, Some(kept()), None).err(),
        Some(ExecutionError::WorkflowNotFound("abc123".to_string()))
    );
    let cyclic = Flow::new(
        vec![Step::new(
            "a",
            Component::new("mock", "one", ""),
            ValueTemplate::Expr(Expr::step_path("a", "", SkipAction::Skip)),
        )],
        ValueTemplate::Literal(Value::Null),
    );
    assert_eq!(
        open_session(1, Some(kept()), Some(cyclic)).err(),
        Some(ExecutionError::AnalysisError)
    );
}

#[test]
fn an_open_debug_session_is_kept() {
    let mut e: StepFlowExecutor<u32> = StepFlowExecutor::new();
    assert!(e.cached_session(1).is_none());
    assert_eq!(e.debug_session(1, Some(kept()), Some(flow())), Ok(2));
    assert_eq!(e.cached_session(1).unwrap().corrections, 2);
    // asked again, the open session is left as it is
    assert_eq!(e.debug_session(1, None, None), Ok(0));
    assert_eq!(e.cached_session(1).unwrap().corrections, 2);
    assert_eq!(
        e.debug_session(2, None, None),
        Err(ExecutionError::ExecutionNotFound(2))
    );
    assert!(e.cached_session(2).is_none());
}

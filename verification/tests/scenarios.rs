use stepflow::analysis::analyze;
use stepflow::component::Component;
use stepflow::dispatcher::{
    dispatch_step, next_action, plan_step, resolve_output, Dispatch, NextAction, StepPlan,
};
use stepflow::executor::StepFlowExecutor;
use stepflow::expr::{Expr, SkipAction};
use stepflow::flow::{Flow, Step};
use stepflow::flow_result::{FlowError, FlowResult};
use stepflow::template::{TemplateField, ValueTemplate};
use stepflow::tracker::{RunStatus, RunTracker, StepStatus};
use stepflow::value::{Field, Value};

fn success(v: Value) -> FlowResult {
    FlowResult::Success { result: v }
}

fn read_step(step: &str, on_skip: SkipAction) -> ValueTemplate {
    ValueTemplate::Expr(Expr::step_path(step, "", on_skip))
}

fn step(id: &str, host: &str, input: ValueTemplate) -> Step {
    Step::new(id, Component::new("mock", host, ""), input)
}

/// What a run came to: its result, the state at its end, and the steps that
/// were handed to a component with the input that each got.
struct Ran {
    result: FlowResult,
    tracker: RunTracker,
    dispatched: Vec<(String, Value)>,
}

/// Runs `flow` to its end. The steps of one pass are all handed out before
/// any of them ends; `reverse` lets the last one end first.
fn run(
    flow: &Flow,
    input: &Value,
    component: &dyn Fn(&str, &Value) -> FlowResult,
    reverse: bool,
) -> Ran {
    let mut tracker = RunTracker::new(analyze(flow).unwrap());
    let mut dispatched = Vec::new();
    loop {
        match next_action(&mut tracker) {
            NextAction::Dispatch(steps) => {
                let mut under_way = Vec::new();
                for i in steps {
                    let step = &flow.steps[i];
                    match plan_step(step, input, tracker.outcomes()) {
                        StepPlan::Record(outcome) => {
                            tracker.record_outcome(&step.id, outcome).unwrap();
                        }
                        StepPlan::Execute { input: resolved } => {
                            tracker.start(&step.id).unwrap();
                            dispatched.push((step.id.clone(), resolved.clone()));
                            under_way.push((i, resolved));
                        }
                    }
                }
                if reverse {
                    under_way.reverse();
                }
                for (i, resolved) in under_way {
                    let step = &flow.steps[i];
                    let outcome = component(step.component.host().unwrap(), &resolved);
                    tracker.record_outcome(&step.id, outcome).unwrap();
                }
            }
            NextAction::ResolveOutput => {
                let result = resolve_output(flow, input, tracker.outcomes());
                tracker.finish(&result);
                return Ran {
                    result,
                    tracker,
                    dispatched,
                };
            }
            other => panic!("unexpected {:?}", other),
        }
    }
}

fn echo(_host: &str, input: &Value) -> FlowResult {
    success(input.clone())
}

#[test]
fn a_step_is_dispatched_with_its_resolved_input() {
    let flow = Flow::new(
        vec![step(
            "A",
            "echo",
            ValueTemplate::Expr(Expr::input_path("x", SkipAction::Skip)),
        )],
        read_step("A", SkipAction::Skip),
    );
    let input = Value::object(vec![Field::new("x".to_string(), Value::Int(5))]);
    let ran = run(&flow, &input, &echo, false);
    assert_eq!(ran.dispatched, vec![("A".to_string(), Value::Int(5))]);
    assert_eq!(ran.result, success(Value::Int(5)));
    assert_eq!(ran.tracker.status(), RunStatus::Completed);
    assert_eq!(ran.tracker.step_status(0), Some(StepStatus::Completed));
}

#[test]
fn a_skipped_step_is_answered_by_the_default() {
    let flow = Flow::new(
        vec![
            // A's input reads a step that is skipped itself, so A is skipped
            step("S", "skip", ValueTemplate::Literal(Value::Null)),
            step("A", "echo", read_step("S", SkipAction::Skip)),
            step(
                "B",
                "echo",
                ValueTemplate::Object(vec![TemplateField {
                    name: "field".to_string(),
                    template: read_step(
                        "A",
                        SkipAction::UseDefault {
                            default_value: Some(Value::Int(7)),
                        },
                    ),
                }]),
            ),
        ],
        read_step("B", SkipAction::Skip),
    );
    let component = |host: &str, input: &Value| {
        if host == "skip" {
            FlowResult::Skipped
        } else {
            success(input.clone())
        }
    };
    let ran = run(&flow, &Value::Null, &component, false);
    let b_input = Value::object(vec![Field::new("field".to_string(), Value::Int(7))]);
    assert_eq!(
        ran.dispatched,
        vec![
            ("S".to_string(), Value::Null),
            ("B".to_string(), b_input.clone())
        ]
    );
    assert_eq!(ran.tracker.step_status(1), Some(StepStatus::Skipped));
    assert_eq!(ran.result, success(b_input));
    assert_eq!(ran.tracker.status(), RunStatus::Completed);
}

#[test]
fn a_failed_step_fails_the_run_with_its_error() {
    let flow = Flow::new(
        vec![
            step("A", "fail", ValueTemplate::Literal(Value::Null)),
            step(
                "C",
                "echo",
                read_step(
                    "A",
                    SkipAction::UseDefault {
                        default_value: Some(Value::Int(7)),
                    },
                ),
            ),
        ],
        read_step("C", SkipAction::Skip),
    );
    let error = || FlowError::new(42, "A went wrong").with_data(Value::string("details"));
    let component = |host: &str, input: &Value| {
        if host == "fail" {
            FlowResult::Failed { error: error() }
        } else {
            success(input.clone())
        }
    };
    let ran = run(&flow, &Value::Null, &component, false);
    assert_eq!(ran.dispatched, vec![("A".to_string(), Value::Null)]);
    assert_eq!(ran.tracker.step_status(0), Some(StepStatus::Failed));
    assert_eq!(ran.tracker.step_status(1), Some(StepStatus::Failed));
    assert_eq!(ran.result, FlowResult::Failed { error: error() });
    assert_eq!(ran.tracker.status(), RunStatus::Failed);
}

#[test]
fn independent_steps_run_in_one_pass_in_any_order() {
    let flow = || {
        Flow::new(
            vec![
                step("one", "left", ValueTemplate::Literal(Value::Int(1))),
                step("two", "right", ValueTemplate::Literal(Value::Int(2))),
            ],
            ValueTemplate::Array(vec![
                read_step("one", SkipAction::Skip),
                read_step("two", SkipAction::Skip),
            ]),
        )
    };
    let mut tracker = RunTracker::new(analyze(&flow()).unwrap());
    match next_action(&mut tracker) {
        NextAction::Dispatch(steps) => assert_eq!(steps, vec![0, 1]),
        other => panic!("unexpected {:?}", other),
    }
    let in_order = run(&flow(), &Value::Null, &echo, false);
    let reversed = run(&flow(), &Value::Null, &echo, true);
    let expected = success(Value::array(vec![Value::Int(1), Value::Int(2)]));
    assert_eq!(in_order.result, expected);
    assert_eq!(reversed.result, expected);
    assert_eq!(in_order.tracker.status(), RunStatus::Completed);
    assert_eq!(reversed.tracker.status(), RunStatus::Completed);
    assert_eq!(in_order.dispatched, reversed.dispatched);
}

#[test]
fn an_input_that_is_in_error_fails_the_step() {
    let s = step(
        "A",
        "echo",
        ValueTemplate::Expr(Expr::input_path(
            "missing",
            SkipAction::UseDefault {
                default_value: None,
            },
        )),
    );
    let input = Value::object(vec![]);
    let outcomes = stepflow::resolve::StepOutcomes::new();
    match plan_step(&s, &input, &outcomes) {
        StepPlan::Record(FlowResult::Failed { error }) => {
            assert_eq!(error.code, 1);
            assert_eq!(error.message, "undefined field missing");
            assert_eq!(
                error.data,
                Some(Value::object(vec![
                    Field::new("field".to_string(), Value::string("missing")),
                    Field::new("value".to_string(), Value::object(vec![])),
                ]))
            );
        }
        other => panic!("unexpected {:?}", other),
    }
}

#[test]
fn a_step_without_runtime_fails() {
    let mut executor: StepFlowExecutor<&str> = StepFlowExecutor::new();
    executor.register_plugin("mock".to_string(), "the mock runtime");
    let outcomes = stepflow::resolve::StepOutcomes::new();
    let known = step("A", "echo", ValueTemplate::Literal(Value::Int(1)));
    match dispatch_step(&executor, &known, &Value::Null, &outcomes) {
        Dispatch::Execute { plugin, input } => {
            assert_eq!(*plugin, "the mock runtime");
            assert_eq!(input, Value::Int(1));
        }
        Dispatch::Record(r) => panic!("unexpected {:?}", r),
    }
    let unknown = Step::new(
        "B",
        Component::new("nowhere", "x", ""),
        ValueTemplate::Literal(Value::Int(1)),
    );
    match dispatch_step(&executor, &unknown, &Value::Null, &outcomes) {
        Dispatch::Record(FlowResult::Failed { error }) => {
            assert_eq!(error.code, 500);
            assert_eq!(
                error.message,
                "Flow execution failed: no plugin registered for protocol: nowhere"
            );
        }
        _ => panic!("unexpected"),
    }
    let skipped = step("C", "echo", read_step("S", SkipAction::Skip));
    let mut outcomes = stepflow::resolve::StepOutcomes::new();
    outcomes.record("S", FlowResult::Skipped);
    assert!(matches!(
        dispatch_step(&executor, &skipped, &Value::Null, &outcomes),
        Dispatch::Record(FlowResult::Skipped)
    ));
}

#[test]
fn a_flow_without_cycles_runs_to_its_end() {
    // three layers of four steps; each step reads from every step of the
    // layer before it
    let mut steps = Vec::new();
    for layer in 0..3 {
        for k in 0..4 {
            let input = if layer == 0 {
                ValueTemplate::Literal(Value::Int(k))
            } else {
                ValueTemplate::Array(
                    (0..4)
                        .map(|j| read_step(&format!("s{}_{}", layer - 1, j), SkipAction::Skip))
                        .collect(),
                )
            };
            steps.push(step(&format!("s{layer}_{k}"), "echo", input));
        }
    }
    // the steps are listed from the last layer to the first
    steps.reverse();
    let flow = Flow::new(steps, read_step("s2_3", SkipAction::Skip));
    assert_eq!(flow.clone(), flow);
    for reverse in [false, true] {
        let ran = run(&flow, &Value::Null, &echo, reverse);
        assert_eq!(ran.dispatched.len(), 12);
        assert_eq!(ran.tracker.status(), RunStatus::Completed);
        for i in 0..12 {
            assert_eq!(ran.tracker.step_status(i), Some(StepStatus::Completed));
        }
        let layer0 = Value::array((0..4).map(Value::Int).collect());
        let layer1 = Value::array((0..4).map(|_| layer0.clone()).collect());
        assert_eq!(ran.result, success(layer1));
        assert!(!ran.tracker.is_deadlocked());
    }
}

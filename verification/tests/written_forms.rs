use stepflow::component::Component;
use stepflow::error::ExecutionError;
use stepflow::flow::{Flow, Step};
use stepflow::flow_result::{FlowError, FlowResult};
use stepflow::listing::{comes_first, sort_components};
use stepflow::mcp::ComponentInfo;
use stepflow::template::ValueTemplate;
use stepflow::value::{Field, Value};

fn field(name: &str, v: Value) -> Field {
    Field::new(name.to_string(), v)
}

#[test]
fn an_error_is_described_in_one_line() {
    assert_eq!(FlowError::new(404, "not here").describe(), "error(404): not here");
    assert_eq!(FlowError::new(0, "").describe(), "error(0): ");
    assert_eq!(FlowError::new(-17, "x").describe(), "error(-17): x");
    assert_eq!(
        FlowError::new(i64::MAX, "max").describe(),
        "error(9223372036854775807): max"
    );
    assert_eq!(
        FlowError::new(i64::MIN, "min").describe(),
        "error(-9223372036854775808): min"
    );
    assert_eq!(FlowError::new(1000, "m").describe(), "error(1000): m");
}

#[test]
fn a_result_is_written_with_its_outcome() {
    assert_eq!(
        FlowResult::Success {
            result: Value::Int(5)
        }
        .to_value(),
        Value::object(vec![
            field("outcome", Value::string("success")),
            field("result", Value::Int(5)),
        ])
    );
    assert_eq!(
        FlowResult::Skipped.to_value(),
        Value::object(vec![field("outcome", Value::string("skipped"))])
    );
    assert_eq!(
        FlowResult::Failed {
            error: FlowError::new(7, "bad")
        }
        .to_value(),
        Value::object(vec![
            field("outcome", Value::string("failed")),
            field(
                "error",
                Value::object(vec![
                    field("code", Value::Int(7)),
                    field("message", Value::string("bad")),
                ])
            ),
        ])
    );
    assert_eq!(
        FlowError::new(7, "bad").with_data(Value::Bool(true)).to_value(),
        Value::object(vec![
            field("code", Value::Int(7)),
            field("message", Value::string("bad")),
            field("data", Value::Bool(true)),
        ])
    );
}

#[test]
fn a_written_result_reads_back() {
    let results = vec![
        FlowResult::Success {
            result: Value::Null,
        },
        FlowResult::Success {
            result: Value::array(vec![Value::Int(1)]),
        },
        FlowResult::Skipped,
        FlowResult::Failed {
            error: FlowError::new(-3, "m"),
        },
        FlowResult::Failed {
            error: FlowError::new(i64::MAX, "m").with_data(Value::string("d")),
        },
    ];
    for r in results {
        assert_eq!(FlowResult::from_value(&r.to_value()), Some(r));
    }
}

#[test]
fn what_writes_no_result_is_refused() {
    assert_eq!(FlowResult::from_value(&Value::Null), None);
    assert_eq!(
        FlowResult::from_value(&Value::object(vec![field("outcome", Value::string("done"))])),
        None
    );
    assert_eq!(
        FlowResult::from_value(&Value::object(vec![field("outcome", Value::string("success"))])),
        None
    );
    assert_eq!(
        FlowResult::from_value(&Value::object(vec![
            field("outcome", Value::string("failed")),
            field("error", Value::object(vec![field("code", Value::Int(1))])),
        ])),
        None
    );
    assert_eq!(
        FlowError::from_value(&Value::object(vec![
            field("code", Value::Int(1i128 << 63)),
            field("message", Value::string("m")),
        ])),
        None
    );
    assert_eq!(
        FlowError::from_value(&Value::object(vec![
            field("code", Value::Int(1)),
            field("message", Value::string("m")),
            field("data", Value::Null),
        ])),
        Some(FlowError::new(1, "m"))
    );
}

fn info(url: &str) -> ComponentInfo {
    ComponentInfo {
        component: Component::parse(url).unwrap(),
        description: None,
        input_schema: None,
        output_schema: None,
    }
}

fn described(url: &str, description: &str) -> ComponentInfo {
    ComponentInfo {
        component: Component::parse(url).unwrap(),
        description: Some(description.to_string()),
        input_schema: None,
        output_schema: None,
    }
}

#[test]
fn texts_are_ordered_by_their_characters() {
    assert!(comes_first("", ""));
    assert!(comes_first("", "a"));
    assert!(!comes_first("a", ""));
    assert!(comes_first("abc", "abc"));
    assert!(comes_first("abc", "abd"));
    assert!(!comes_first("abd", "abc"));
    assert!(comes_first("ab", "abc"));
    assert!(!comes_first("abc", "ab"));
    assert!(comes_first("Z", "a"));
    assert!(comes_first("z", "é"));
    for (a, b) in [("mock://a", "mock://b"), ("x", "x/y"), ("b", "a"), ("é", "z")] {
        assert_eq!(comes_first(a, b), a <= b);
    }
}

#[test]
fn components_are_sorted_by_address() {
    let sorted = sort_components(vec![
        info("python://udf"),
        described("builtins://eval", "first"),
        info("mock://one/b"),
        described("builtins://eval", "second"),
        info("mock://one"),
        info("builtins://blob"),
    ]);
    let urls: Vec<String> = sorted.iter().map(|c| c.component.url()).collect();
    assert_eq!(
        urls,
        vec![
            "builtins://blob",
            "builtins://eval",
            "builtins://eval",
            "mock://one",
            "mock://one/b",
            "python://udf"
        ]
    );
    // components with one address stay in the order in which they came
    assert_eq!(sorted[1].description, Some("first".to_string()));
    assert_eq!(sorted[2].description, Some("second".to_string()));
    assert!(sort_components(vec![]).is_empty());
}

fn step_value(id: &str, component: &str, input: Option<Value>) -> Value {
    let mut members = vec![
        field("id", Value::string(id)),
        field("component", Value::string(component)),
    ];
    if let Some(input) = input {
        members.push(field("input", input));
    }
    Value::object(members)
}

fn reference(step: &str) -> Value {
    Value::object(vec![field(
        "$from",
        Value::object(vec![field("step", Value::string(step))]),
    )])
}

#[test]
fn a_flow_is_read_from_a_value() {
    let v = Value::object(vec![
        field(
            "steps",
            Value::array(vec![
                step_value("a", "mock://one", None),
                step_value(
                    "b",
                    "mock://two/x",
                    Some(Value::object(vec![field("in", reference("a"))])),
                ),
            ]),
        ),
        field("output", reference("b")),
    ]);
    let flow: Flow = Flow::parse(&v).unwrap();
    assert_eq!(flow.steps.len(), 2);
    assert_eq!(flow.steps[0].id, "a");
    assert_eq!(flow.steps[0].component, Component::new("mock", "one", ""));
    assert!(matches!(
        flow.steps[0].input,
        ValueTemplate::Literal(Value::Null)
    ));
    assert_eq!(flow.steps[1].component.url(), "mock://two/x");
    assert!(matches!(flow.steps[1].input, ValueTemplate::Object(_)));
    assert!(matches!(flow.output, ValueTemplate::Expr(_)));
    let analysis = stepflow::analysis::analyze(&flow).unwrap();
    assert_eq!(analysis.reads(1), Some(&vec![0]));
    assert_eq!(analysis.output_deps(), &vec![1]);
}

#[test]
fn what_writes_no_flow_is_refused() {
    let output = || field("output", Value::Null);
    let not_a_flow = [
        Value::Null,
        Value::object(vec![output()]),
        Value::object(vec![field("steps", Value::array(vec![]))]),
        Value::object(vec![field("steps", Value::Int(1)), output()]),
        Value::object(vec![
            field("steps", Value::array(vec![Value::Int(1)])),
            output(),
        ]),
        Value::object(vec![
            field(
                "steps",
                Value::array(vec![step_value("a", "no address", None)]),
            ),
            output(),
        ]),
    ];
    for v in not_a_flow {
        assert_eq!(Flow::parse(&v).err(), Some(ExecutionError::FlowNotCompiled));
    }
    let bad_reference = Value::object(vec![field("$from", Value::Int(1))]);
    let v = Value::object(vec![
        field(
            "steps",
            Value::array(vec![step_value("a", "mock://one", Some(bad_reference))]),
        ),
        output(),
    ]);
    assert!(matches!(
        Flow::parse(&v),
        Err(ExecutionError::MalformedReference { .. })
    ));
    assert!(Step::parse(&step_value("a", "mock://one", None)).is_ok());
}

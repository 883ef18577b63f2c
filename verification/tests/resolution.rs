use stepflow::error::ExecutionError;
use stepflow::expr::{BaseRef, Expr, SkipAction};
use stepflow::flow_result::{FlowError, FlowResult};
use stepflow::resolve::{resolve, StepOutcomes};
use stepflow::template::{resolve_template, TemplateField, ValueTemplate};
use stepflow::value::{Field, Value};

fn input() -> Value {
    Value::object(vec![Field::new("x".to_string(), Value::Int(5))])
}

fn success(v: Value) -> FlowResult {
    FlowResult::Success { result: v }
}

fn outcomes() -> StepOutcomes {
    let mut o = StepOutcomes::new();
    o.record(
        "done",
        success(Value::object(vec![
            Field::new("out".to_string(), Value::string("b")),
            Field::new("list".to_string(), Value::array(vec![Value::Int(1), Value::Int(2)])),
        ])),
    );
    o.record("skipped", FlowResult::Skipped);
    o.record(
        "failed",
        FlowResult::Failed {
            error: FlowError::new(42, "boom").with_data(Value::Int(1)),
        },
    );
    o
}

fn use_default(d: Option<Value>) -> SkipAction {
    SkipAction::UseDefault { default_value: d }
}

#[test]
fn a_literal_is_its_value() {
    for v in [Value::Null, Value::Int(3), input()] {
        assert_eq!(
            resolve(&Expr::literal(v.clone()), &Value::Null, &StepOutcomes::new()),
            Ok(success(v.clone()))
        );
        assert_eq!(
            resolve(&Expr::literal(v.clone()), &input(), &outcomes()),
            Ok(success(v))
        );
    }
}

#[test]
fn a_reference_to_the_input_takes_its_part() {
    assert_eq!(
        resolve(&Expr::input_path("x", SkipAction::Skip), &input(), &outcomes()),
        Ok(success(Value::Int(5)))
    );
    assert_eq!(
        resolve(&Expr::input_path("", SkipAction::Skip), &input(), &outcomes()),
        Ok(success(input()))
    );
}

#[test]
fn a_reference_to_a_step_takes_its_part() {
    assert_eq!(
        resolve(&Expr::step_path("done", "out", SkipAction::Skip), &input(), &outcomes()),
        Ok(success(Value::string("b")))
    );
    assert_eq!(
        resolve(&Expr::step_path("done", "/out", SkipAction::Skip), &input(), &outcomes()),
        Ok(success(Value::string("b")))
    );
    let list = Expr::Ref {
        from: BaseRef::step_output("done"),
        path: Some("list".to_string()),
        on_skip: SkipAction::Skip,
    };
    assert_eq!(
        resolve(&list, &input(), &outcomes()),
        Ok(success(Value::array(vec![Value::Int(1), Value::Int(2)])))
    );
}

#[test]
fn a_skipped_step_skips_its_reader() {
    assert_eq!(
        resolve(&Expr::step_path("skipped", "", SkipAction::Skip), &input(), &outcomes()),
        Ok(FlowResult::Skipped)
    );
    assert_eq!(
        resolve(&Expr::step_path("skipped", "out", SkipAction::Skip), &input(), &outcomes()),
        Ok(FlowResult::Skipped)
    );
}

#[test]
fn a_skipped_step_yields_the_default() {
    assert_eq!(
        resolve(
            &Expr::step_path("skipped", "", use_default(Some(Value::Int(7)))),
            &input(),
            &outcomes()
        ),
        Ok(success(Value::Int(7)))
    );
    assert_eq!(
        resolve(
            &Expr::step_path("skipped", "out", use_default(Some(Value::Int(7)))),
            &input(),
            &outcomes()
        ),
        Ok(success(Value::Int(7)))
    );
    assert_eq!(
        resolve(&Expr::step_path("skipped", "", use_default(None)), &input(), &outcomes()),
        Ok(success(Value::Null))
    );
}

#[test]
fn a_failed_step_always_fails() {
    let failure = Ok(FlowResult::Failed {
        error: FlowError::new(42, "boom").with_data(Value::Int(1)),
    });
    for on_skip in [
        SkipAction::Skip,
        use_default(None),
        use_default(Some(Value::Int(7))),
    ] {
        assert_eq!(
            resolve(&Expr::step_path("failed", "", on_skip.clone()), &input(), &outcomes()),
            failure
        );
        assert_eq!(
            resolve(&Expr::step_path("failed", "out", on_skip), &input(), &outcomes()),
            failure
        );
    }
}

#[test]
fn a_missing_field_without_answer_is_undefined() {
    assert_eq!(
        resolve(&Expr::input_path("y", use_default(None)), &input(), &outcomes()),
        Err(ExecutionError::UndefinedField {
            field: "y".to_string(),
            value: input(),
        })
    );
    let done = outcomes().get("done").unwrap().success().unwrap();
    assert_eq!(
        resolve(&Expr::step_path("done", "nope", use_default(None)), &input(), &outcomes()),
        Err(ExecutionError::UndefinedField {
            field: "nope".to_string(),
            value: done,
        })
    );
    assert_eq!(
        resolve(&Expr::step_path("done", "list/5", use_default(None)), &input(), &outcomes())
            .is_err(),
        true
    );
}

#[test]
fn a_missing_field_goes_by_on_skip() {
    assert_eq!(
        resolve(&Expr::step_path("done", "nope", SkipAction::Skip), &input(), &outcomes()),
        Ok(FlowResult::Skipped)
    );
    assert_eq!(
        resolve(&Expr::input_path("y", SkipAction::Skip), &input(), &outcomes()),
        Ok(FlowResult::Skipped)
    );
    assert_eq!(
        resolve(
            &Expr::step_path("done", "nope", use_default(Some(Value::Int(7)))),
            &input(),
            &outcomes()
        ),
        Ok(success(Value::Int(7)))
    );
    assert_eq!(
        resolve(
            &Expr::input_path("y", use_default(Some(Value::Int(8)))),
            &input(),
            &outcomes()
        ),
        Ok(success(Value::Int(8)))
    );
}

#[test]
fn a_step_without_outcome_is_undefined() {
    assert_eq!(
        resolve(&Expr::step_path("later", "", SkipAction::Skip), &input(), &outcomes()),
        Err(ExecutionError::UndefinedValue(BaseRef::step_output("later")))
    );
}

#[test]
fn a_later_recording_replaces_an_earlier_one() {
    let mut o = StepOutcomes::new();
    assert_eq!(o.get("a"), None);
    o.record("a", FlowResult::Skipped);
    o.record("b", success(Value::Int(1)));
    o.record("a", success(Value::Int(2)));
    assert_eq!(o.get("a"), Some(&success(Value::Int(2))));
    assert_eq!(o.get("b"), Some(&success(Value::Int(1))));
    assert_eq!(o.get("c"), None);
}

fn expr(e: Expr) -> ValueTemplate {
    ValueTemplate::Expr(e)
}

fn member(name: &str, t: ValueTemplate) -> TemplateField {
    TemplateField {
        name: name.to_string(),
        template: t,
    }
}

#[test]
fn a_template_of_values_is_a_value() {
    let t = ValueTemplate::Object(vec![
        member("a", ValueTemplate::Literal(Value::Int(1))),
        member("b", expr(Expr::input_path("x", SkipAction::Skip))),
        member(
            "c",
            ValueTemplate::Array(vec![
                expr(Expr::step_path("done", "out", SkipAction::Skip)),
                expr(Expr::step_path("skipped", "", use_default(Some(Value::Int(7))))),
            ]),
        ),
    ]);
    assert_eq!(
        resolve_template(&t, &input(), &outcomes()),
        Ok(success(Value::object(vec![
            Field::new("a".to_string(), Value::Int(1)),
            Field::new("b".to_string(), Value::Int(5)),
            Field::new(
                "c".to_string(),
                Value::array(vec![Value::string("b"), Value::Int(7)])
            ),
        ])))
    );
    assert_eq!(
        resolve_template(&ValueTemplate::Array(vec![]), &input(), &outcomes()),
        Ok(success(Value::array(vec![])))
    );
}

#[test]
fn a_skipped_child_skips_the_template() {
    let skipped = || expr(Expr::step_path("skipped", "", SkipAction::Skip));
    assert_eq!(
        resolve_template(&skipped(), &input(), &outcomes()),
        Ok(FlowResult::Skipped)
    );
    let nested = ValueTemplate::Object(vec![
        member("a", ValueTemplate::Literal(Value::Int(1))),
        member(
            "b",
            ValueTemplate::Array(vec![ValueTemplate::Literal(Value::Null), skipped()]),
        ),
        member("c", ValueTemplate::Literal(Value::Int(2))),
    ]);
    assert_eq!(
        resolve_template(&nested, &input(), &outcomes()),
        Ok(FlowResult::Skipped)
    );
}

#[test]
fn the_first_child_that_is_no_value_decides() {
    let skipped = || expr(Expr::step_path("skipped", "", SkipAction::Skip));
    let failed = || expr(Expr::step_path("failed", "", SkipAction::Skip));
    let undefined = || expr(Expr::input_path("nope", use_default(None)));
    let failure = Ok(FlowResult::Failed {
        error: FlowError::new(42, "boom").with_data(Value::Int(1)),
    });
    assert_eq!(
        resolve_template(&ValueTemplate::Array(vec![skipped(), failed()]), &input(), &outcomes()),
        Ok(FlowResult::Skipped)
    );
    assert_eq!(
        resolve_template(&ValueTemplate::Array(vec![failed(), skipped()]), &input(), &outcomes()),
        failure
    );
    assert_eq!(
        resolve_template(
            &ValueTemplate::Array(vec![undefined(), failed(), skipped()]),
            &input(),
            &outcomes()
        ),
        Err(ExecutionError::UndefinedField {
            field: "nope".to_string(),
            value: input(),
        })
    );
    assert_eq!(
        resolve_template(
            &ValueTemplate::Object(vec![member("a", failed()), member("b", undefined())]),
            &input(),
            &outcomes()
        ),
        failure
    );
}

use stepflow::expr::{BaseRef, Expr, SkipAction, WorkflowRef};
use stepflow::value::{Field, Value};

fn from_yaml_value(y: &serde_yaml_ng::Value) -> Value {
    match y {
        serde_yaml_ng::Value::Null => Value::Null,
        serde_yaml_ng::Value::Bool(b) => Value::Bool(*b),
        serde_yaml_ng::Value::Number(n) => {
            if let Some(i) = n.as_i64() {
                Value::Int(i as i128)
            } else if let Some(u) = n.as_u64() {
                Value::Int(u as i128)
            } else {
                Value::Real(n.as_f64().unwrap().to_bits())
            }
        }
        serde_yaml_ng::Value::String(s) => Value::Str(s.clone()),
        serde_yaml_ng::Value::Sequence(items) => {
            Value::Array(items.iter().map(from_yaml_value).collect())
        }
        serde_yaml_ng::Value::Mapping(members) => Value::Object(
            members
                .iter()
                .map(|(k, v)| Field::new(k.as_str().unwrap().to_string(), from_yaml_value(v)))
                .collect(),
        ),
        serde_yaml_ng::Value::Tagged(tagged) => from_yaml_value(&tagged.value),
    }
}

fn read_yaml(text: &str) -> Value {
    from_yaml_value(&serde_yaml_ng::from_str::<serde_yaml_ng::Value>(text).unwrap())
}

fn expr_from_yaml(text: &str) -> Expr {
    Expr::from_value(&read_yaml(text))
}

fn skip_action_from_yaml(text: &str) -> SkipAction {
    SkipAction::from_value(&read_yaml(text)).unwrap()
}

#[test]
fn test_expr_to_yaml() {
    assert_eq!(Expr::literal(Value::string("foo")).to_value(), read_yaml(r#"foo"#));
    assert_eq!(Expr::literal(Value::Int(5)).to_value(), read_yaml(r#"5"#));

    // Input reference with and without path, with default skip action (skip).
    assert_eq!(
        Expr::input_path("", SkipAction::Skip).to_value(),
        read_yaml(
            r###"
        $from:
          workflow: input
        "###
        )
    );
    assert_eq!(
        Expr::input_path("out", SkipAction::Skip).to_value(),
        read_yaml(
            r###"
        $from:
          workflow: input
        path: out
        "###
        )
    );

    // Step reference with and without path, with default skip action (skip).
    assert_eq!(
        Expr::step_path("step1", "", SkipAction::Skip).to_value(),
        read_yaml(
            r###"
        $from:
          step: step1
        "###
        )
    );
    assert_eq!(
        Expr::step_path("step1", "out", SkipAction::Skip).to_value(),
        read_yaml(
            r###"
        $from:
          step: step1
        path: out
        "###
        )
    );

    // Step reference with and without path, with use_default skip action (use default).
    assert_eq!(
        Expr::step_path(
            "step1",
            "",
            SkipAction::UseDefault {
                default_value: None
            }
        )
        .to_value(),
        read_yaml(
            r###"
        $from:
          step: step1
        onSkip:
          action: useDefault
        "###
        )
    );
    assert_eq!(
        Expr::step_path(
            "step1",
            "out",
            SkipAction::UseDefault {
                default_value: None
            }
        )
        .to_value(),
        read_yaml(
            r###"
        $from:
          step: step1
        path: out
        onSkip:
          action: useDefault
        "###
        )
    );

    // Step reference with and without path, with use_default skip action (and default value).
    let value = Value::string("test_default");
    assert_eq!(
        Expr::step_path(
            "step1",
            "out",
            SkipAction::UseDefault {
                default_value: Some(value.clone())
            }
        )
        .to_value(),
        read_yaml(
            r###"
        $from:
          step: step1
        path: out
        onSkip:
          action: useDefault
          defaultValue: test_default
        "###
        )
    );
    assert_eq!(
        Expr::step_path(
            "step1",
            "",
            SkipAction::UseDefault {
                default_value: Some(value)
            }
        )
        .to_value(),
        read_yaml(
            r###"
        $from:
          step: step1
        onSkip:
          action: useDefault
          defaultValue: test_default
        "###
        )
    );
}

#[test]
fn test_expr_from_yaml() {
    let from_yaml = |s| expr_from_yaml(s);
    assert_eq!(from_yaml("foo"), Expr::literal(Value::string("foo")));
    assert_eq!(from_yaml("5"), Expr::literal(Value::Int(5)));

    assert_eq!(
        from_yaml("{ $from: { step: \"step1\" } }"),
        Expr::step_path("step1", "", SkipAction::Skip)
    );
    assert_eq!(
        from_yaml("{ $from: { step: \"step1\" }, path: \"out\" }"),
        Expr::step_path("step1", "out", SkipAction::Skip)
    );
}

#[test]
fn test_skip_action_deserialization() {
    let skip: SkipAction = skip_action_from_yaml("action: skip");
    assert_eq!(skip, SkipAction::Skip);

    let use_default_no_value: SkipAction = skip_action_from_yaml("action: useDefault");
    assert_eq!(
        use_default_no_value,
        SkipAction::UseDefault {
            default_value: None
        }
    );

    let use_default_with_value: SkipAction =
        skip_action_from_yaml("action: useDefault\ndefaultValue: test_default");
    assert_eq!(
        use_default_with_value,
        SkipAction::UseDefault {
            default_value: Some(Value::string("test_default"))
        }
    );
}

#[test]
fn test_expr_with_skip_action_from_yaml() {
    let expr_with_skip: Expr = expr_from_yaml(
        "$from: { step: step1 }\npath: out\nonSkip:\n  action: useDefault\n  defaultValue: fallback",
    );

    assert_eq!(
        expr_with_skip,
        Expr::step_path(
            "step1",
            "out",
            SkipAction::UseDefault {
                default_value: Some(Value::string("fallback"))
            }
        )
    );

    let expr_with_default_skip: Expr = expr_from_yaml("$from: { step: step1 }\npath: out");

    assert_eq!(
        expr_with_default_skip,
        Expr::step_path("step1", "out", SkipAction::Skip)
    );
}

#[test]
fn written_expressions_read_back() {
    let exprs = vec![
        Expr::literal(Value::Null),
        Expr::literal(Value::array(vec![Value::Int(1), Value::string("a")])),
        Expr::input_path("", SkipAction::Skip),
        Expr::input_path("x", SkipAction::Skip),
        Expr::step_path("a", "", SkipAction::Skip),
        Expr::step_path("a", "out", SkipAction::UseDefault { default_value: None }),
        Expr::step_path(
            "a",
            "out",
            SkipAction::UseDefault {
                default_value: Some(Value::Int(7)),
            },
        ),
    ];
    for e in exprs {
        assert_eq!(Expr::from_value(&e.to_value()), e);
    }
}

#[test]
fn default_on_skip_is_left_out_and_read_back() {
    let written = Expr::step_path("a", "out", SkipAction::Skip).to_value();
    assert_eq!(written.member("onSkip"), None);
    assert_eq!(
        Expr::from_value(&written).on_skip(),
        Some(&SkipAction::Skip)
    );
    let explicit = Expr::step_path("a", "", SkipAction::UseDefault { default_value: None });
    assert!(explicit.to_value().member("onSkip").is_some());
}

#[test]
fn a_literal_that_reads_as_a_reference_does_not_read_back() {
    let looks_like_ref = Expr::step_path("a", "", SkipAction::Skip).to_value();
    let literal = Expr::literal(looks_like_ref);
    assert_eq!(
        Expr::from_value(&literal.to_value()),
        Expr::step_path("a", "", SkipAction::Skip)
    );
}

#[test]
fn a_null_default_reads_back_as_no_default() {
    let e = Expr::step_path(
        "a",
        "",
        SkipAction::UseDefault {
            default_value: Some(Value::Null),
        },
    );
    assert_eq!(
        Expr::from_value(&e.to_value()),
        Expr::step_path("a", "", SkipAction::UseDefault { default_value: None })
    );
}

#[test]
fn what_is_no_reference_reads_as_a_literal() {
    for text in [
        "{ $from: 3 }",
        "{ $from: { step: 3 } }",
        "{ $from: { workflow: output } }",
        "{ $from: { step: a }, path: 3 }",
        "{ $from: { step: a }, onSkip: { action: retry } }",
        "{ $from: { step: a }, onSkip: 1 }",
        "{ from: { step: a } }",
    ] {
        let v = read_yaml(text);
        assert_eq!(Expr::ref_from_value(&v), None);
        assert_eq!(Expr::from_value(&v), Expr::literal(v.clone()));
    }
}

#[test]
fn base_refs_are_written_and_read() {
    assert_eq!(BaseRef::workflow_input(), BaseRef::Workflow(WorkflowRef::Input));
    assert_eq!(
        BaseRef::step_output("s"),
        BaseRef::Step {
            step: "s".to_string()
        }
    );
    assert_eq!(
        BaseRef::from_value(&BaseRef::workflow_input().to_value()),
        Some(BaseRef::workflow_input())
    );
    assert_eq!(
        BaseRef::from_value(&BaseRef::step_output("s").to_value()),
        Some(BaseRef::step_output("s"))
    );
    assert_eq!(BaseRef::from_value(&Value::Null), None);
}

#[test]
fn getters_take_a_reference_apart() {
    let e = Expr::step_path("s", "p", SkipAction::UseDefault { default_value: None });
    assert_eq!(e.base_ref(), Some(&BaseRef::step_output("s")));
    assert_eq!(e.path(), Some("p"));
    assert_eq!(
        e.on_skip(),
        Some(&SkipAction::UseDefault {
            default_value: None
        })
    );
    let whole = Expr::input_path("", SkipAction::Skip);
    assert_eq!(whole.base_ref(), Some(&BaseRef::workflow_input()));
    assert_eq!(whole.path(), None);
    let literal = Expr::literal(Value::Int(1));
    assert_eq!(literal.base_ref(), None);
    assert_eq!(literal.path(), None);
    assert_eq!(literal.on_skip(), None);
    assert_eq!(
        Expr::new_ref(BaseRef::step_output("s"), String::new(), SkipAction::Skip),
        Expr::step_path("s", "", SkipAction::Skip)
    );
}

#[test]
fn skip_actions_say_what_they_are() {
    assert!(SkipAction::Skip.is_default());
    assert!(!SkipAction::Skip.is_optional());
    let use_default = SkipAction::UseDefault {
        default_value: None,
    };
    assert!(!use_default.is_default());
    assert!(use_default.is_optional());
    assert_eq!(SkipAction::default(), SkipAction::Skip);
}

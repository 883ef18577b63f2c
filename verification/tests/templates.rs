use stepflow::error::ExecutionError;
use stepflow::expr::{Expr, SkipAction};
use stepflow::template::{collect_refs, TemplateField, ValueTemplate};
use stepflow::value::{Field, Value};

fn field(name: &str, v: Value) -> Field {
    Field::new(name.to_string(), v)
}

fn reference(step: &str) -> Value {
    Expr::step_path(step, "", SkipAction::Skip).to_value()
}

#[test]
fn scalars_parse_as_literals() {
    assert!(matches!(
        ValueTemplate::parse(&Value::Int(3)),
        Ok(ValueTemplate::Literal(Value::Int(3)))
    ));
    assert!(matches!(
        ValueTemplate::parse(&Value::Null),
        Ok(ValueTemplate::Literal(Value::Null))
    ));
}

#[test]
fn an_object_with_a_source_parses_as_a_reference() {
    let parsed = ValueTemplate::parse(&reference("a")).unwrap();
    match parsed {
        ValueTemplate::Expr(e) => assert_eq!(e, Expr::step_path("a", "", SkipAction::Skip)),
        other => panic!("unexpected {:?}", other),
    }
}

#[test]
fn a_reference_that_cannot_be_read_is_malformed() {
    let bad = Value::object(vec![field("$from", Value::Int(3))]);
    assert!(matches!(
        ValueTemplate::parse(&bad),
        Err(ExecutionError::MalformedReference { .. })
    ));
    let bad_path = Value::object(vec![
        field("$from", Value::object(vec![field("step", Value::string("a"))])),
        field("path", Value::Int(1)),
    ]);
    assert!(matches!(
        ValueTemplate::parse(&bad_path),
        Err(ExecutionError::MalformedReference { .. })
    ));
    let nested = Value::array(vec![Value::Int(1), Value::object(vec![field("k", bad)])]);
    assert!(matches!(
        ValueTemplate::parse(&nested),
        Err(ExecutionError::MalformedReference { .. })
    ));
}

#[test]
fn a_literal_member_is_taken_as_it_is() {
    let v = Value::object(vec![field("$literal", reference("a"))]);
    match ValueTemplate::parse(&v).unwrap() {
        ValueTemplate::Literal(inner) => assert_eq!(inner, reference("a")),
        other => panic!("unexpected {:?}", other),
    }
}

#[test]
fn objects_and_arrays_parse_member_by_member() {
    let v = Value::object(vec![
        field("a", Value::Int(1)),
        field("b", Value::array(vec![reference("s1"), Value::Null])),
        field("c", reference("s2")),
    ]);
    let parsed = ValueTemplate::parse(&v).unwrap();
    let mut refs = Vec::new();
    collect_refs(&parsed, &mut refs);
    assert_eq!(refs, vec!["s1".to_string(), "s2".to_string()]);
    match parsed {
        ValueTemplate::Object(members) => {
            assert_eq!(members.len(), 3);
            assert_eq!(members[0].name, "a");
            assert!(matches!(members[1].template, ValueTemplate::Array(_)));
            assert!(matches!(members[2].template, ValueTemplate::Expr(_)));
        }
        other => panic!("unexpected {:?}", other),
    }
}

#[test]
fn references_are_collected_in_order_and_with_repeats() {
    let t = ValueTemplate::Array(vec![
        ValueTemplate::Expr(Expr::step_path("b", "", SkipAction::Skip)),
        ValueTemplate::Expr(Expr::input_path("x", SkipAction::Skip)),
        ValueTemplate::Object(vec![TemplateField {
            name: "k".to_string(),
            template: ValueTemplate::Expr(Expr::step_path("a", "p", SkipAction::Skip)),
        }]),
        ValueTemplate::Literal(Value::Int(1)),
        ValueTemplate::Expr(Expr::step_path("b", "q", SkipAction::Skip)),
    ]);
    let mut refs = vec!["first".to_string()];
    collect_refs(&t, &mut refs);
    assert_eq!(
        refs,
        vec![
            "first".to_string(),
            "b".to_string(),
            "a".to_string(),
            "b".to_string()
        ]
    );
}

#[test]
fn templates_are_copied_and_compared_by_content() {
    let t = ValueTemplate::Object(vec![
        TemplateField {
            name: "a".to_string(),
            template: ValueTemplate::Array(vec![
                ValueTemplate::Literal(Value::Int(1)),
                ValueTemplate::Expr(Expr::step_path("s", "p", SkipAction::Skip)),
            ]),
        },
        TemplateField {
            name: "b".to_string(),
            template: ValueTemplate::Literal(Value::Null),
        },
    ]);
    assert_eq!(t.clone(), t);
    assert_ne!(t, ValueTemplate::Object(vec![]));
    assert_ne!(
        ValueTemplate::Literal(Value::Int(1)),
        ValueTemplate::Expr(Expr::literal(Value::Int(1)))
    );
    assert_ne!(
        ValueTemplate::Array(vec![ValueTemplate::Literal(Value::Int(1))]),
        ValueTemplate::Array(vec![ValueTemplate::Literal(Value::Int(2))])
    );
}

use stepflow::value::{Field, Value};

fn sample() -> Value {
    Value::object(vec![
        Field::new("x".to_string(), Value::Int(5)),
        Field::new(
            "list".to_string(),
            Value::array(vec![Value::Int(10), Value::string("b"), Value::Null]),
        ),
        Field::new("x".to_string(), Value::Int(6)),
    ])
}

#[test]
fn member_is_the_first_with_the_name() {
    let v = sample();
    assert_eq!(v.member("x"), Some(&Value::Int(5)));
    assert_eq!(v.member("y"), None);
    assert_eq!(Value::Int(1).member("x"), None);
}

#[test]
fn element_is_by_position() {
    let v = Value::array(vec![Value::Int(10), Value::Int(11)]);
    assert_eq!(v.element(0), Some(&Value::Int(10)));
    assert_eq!(v.element(1), Some(&Value::Int(11)));
    assert_eq!(v.element(2), None);
    assert_eq!(sample().element(0), None);
}

#[test]
fn lookup_takes_a_name_in_an_object() {
    let v = sample();
    assert_eq!(v.lookup("x"), Some(&Value::Int(5)));
    assert_eq!(v.lookup("/x"), Some(&Value::Int(5)));
    assert_eq!(v.lookup("missing"), None);
    assert_eq!(v.lookup("0"), None);
}

#[test]
fn lookup_takes_a_position_in_an_array() {
    let v = Value::array(vec![
        Value::Int(0),
        Value::Int(1),
        Value::Int(2),
        Value::Int(3),
        Value::Int(4),
        Value::Int(5),
        Value::Int(6),
        Value::Int(7),
        Value::Int(8),
        Value::Int(9),
        Value::Int(10),
        Value::Int(11),
    ]);
    assert_eq!(v.lookup("0"), Some(&Value::Int(0)));
    assert_eq!(v.lookup("/7"), Some(&Value::Int(7)));
    assert_eq!(v.lookup("11"), Some(&Value::Int(11)));
    assert_eq!(v.lookup("12"), None);
    assert_eq!(v.lookup("01"), None);
    assert_eq!(v.lookup("1x"), None);
    assert_eq!(v.lookup("-1"), None);
    assert_eq!(v.lookup("x"), None);
    assert_eq!(v.lookup("99999999999999999999999999999999999999999"), None);
}

#[test]
fn lookup_finds_nothing_in_a_scalar() {
    assert_eq!(Value::Int(3).lookup("x"), None);
    assert_eq!(Value::string("abc").lookup("0"), None);
    assert_eq!(Value::Null.lookup("x"), None);
}

#[test]
fn equality_is_by_content() {
    assert_eq!(sample(), sample());
    assert_eq!(sample().clone(), sample());
    assert_ne!(Value::Int(1), Value::Int(2));
    assert_ne!(Value::Int(1), Value::Real(1));
    assert_ne!(Value::string("a"), Value::string("b"));
    assert_ne!(
        Value::array(vec![Value::Int(1)]),
        Value::array(vec![Value::Int(1), Value::Int(1)])
    );
    assert_ne!(
        Value::object(vec![Field::new("a".to_string(), Value::Null)]),
        Value::object(vec![Field::new("b".to_string(), Value::Null)])
    );
    assert_ne!(Value::Null, Value::Bool(false));
}

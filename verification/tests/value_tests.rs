use pwsh_core::{Number, Value};

fn num(x: f64) -> Number {
    Number::from_bits(x.to_bits())
}


#[test]
fn test_value_to_string() {
    assert_eq!(Value::Null.to_string(), "");
    assert_eq!(Value::Boolean(true).to_string(), "true");
    assert_eq!(Value::Number(num(42.0)).to_string(), "42");
    assert_eq!(Value::Number(num(3.15)).to_string(), "3.15");
    assert_eq!(Value::String("hello".to_string()).to_string(), "hello");
}

#[test]
fn test_value_to_bool() {
    assert!(!Value::Null.to_bool());
    assert!(Value::Boolean(true).to_bool());
    assert!(!Value::Boolean(false).to_bool());
    assert!(!Value::Number(num(0.0)).to_bool());
    assert!(Value::Number(num(42.0)).to_bool());
    assert!(!Value::String("".to_string()).to_bool());
    assert!(Value::String("hello".to_string()).to_bool());
}

#[test]
fn test_value_to_number() {
    assert_eq!(Value::Number(num(42.0)).to_number(), Some(num(42.0)));
    assert_eq!(Value::String("3.15".to_string()).to_number(), Some(num(3.15)));
    assert_eq!(Value::Boolean(true).to_number(), Some(num(1.0)));
    assert_eq!(Value::Boolean(false).to_number(), Some(num(0.0)));
    assert_eq!(Value::Null.to_number(), None);
}

#[test]
fn test_object_properties() {
    let mut obj = Value::Object(Vec::new());
    assert!(obj
        .set_property("name", Value::String("test".to_string()))
        .is_ok());
    assert_eq!(
        obj.get_property("name"),
        Some(Value::String("test".to_string()))
    );
    assert_eq!(obj.get_property("missing"), None);
}

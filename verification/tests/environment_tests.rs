use numerus::environment::{Environment, Value};

#[test]
fn test_declare_and_get_number() {
    let mut env = Environment::new();
    env.declare("X".to_string(), Value::Number(42)).unwrap();
    assert_eq!(env.get("X").unwrap(), Value::Number(42));
}

#[test]
fn test_declare_and_get_string() {
    let mut env = Environment::new();
    env.declare("msg".to_string(), Value::String("Hello".to_string())).unwrap();
    assert_eq!(env.get("msg").unwrap(), Value::String("Hello".to_string()));
}

#[test]
fn test_declare_twice_fails() {
    let mut env = Environment::new();
    env.declare("X".to_string(), Value::Number(42)).unwrap();
    let result = env.declare("X".to_string(), Value::Number(100));
    assert!(result.is_err());
}

#[test]
fn test_assign_existing() {
    let mut env = Environment::new();
    env.declare("X".to_string(), Value::Number(42)).unwrap();
    env.assign("X", Value::Number(100)).unwrap();
    assert_eq!(env.get("X").unwrap(), Value::Number(100));
}

#[test]
fn test_assign_undefined_fails() {
    let mut env = Environment::new();
    let result = env.assign("X", Value::Number(100));
    assert!(result.is_err());
}

#[test]
fn test_get_undefined_fails() {
    let env = Environment::new();
    let result = env.get("X");
    assert!(result.is_err());
}

#[test]
fn test_value_to_output_string() {
    assert_eq!(
        Value::String("Hello".to_string()).to_output_string().unwrap(),
        "Hello"
    );
    assert_eq!(Value::Number(42).to_output_string().unwrap(), "XLII");
}

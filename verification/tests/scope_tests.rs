use pwsh_core::{Number, Scope, ScopeStack, Value};

fn num(x: f64) -> Number {
    Number::from_bits(x.to_bits())
}


#[test]
fn test_scope_basic_operations() {
    let mut scope = Scope::new();

    // Initially empty
    assert!(scope.get("x").is_none());

    // Set and get
    scope.set("x", Value::Number(num(42.0)));
    assert_eq!(scope.get("x"), Some(&Value::Number(num(42.0))));

    // Update
    scope.set("x", Value::Number(num(100.0)));
    assert_eq!(scope.get("x"), Some(&Value::Number(num(100.0))));
}

#[test]
fn test_scope_stack_single_scope() {
    let mut stack = ScopeStack::new();

    // Set variable
    stack.set_variable("x", Value::Number(num(5.0)));
    assert_eq!(stack.get_variable("x"), Some(Value::Number(num(5.0))));

    // Update variable
    stack.set_variable("x", Value::Number(num(10.0)));
    assert_eq!(stack.get_variable("x"), Some(Value::Number(num(10.0))));
}

#[test]
fn test_scope_stack_nested_scopes() {
    let mut stack = ScopeStack::new();

    // Set in global scope
    stack.set_variable("x", Value::Number(num(1.0)));

    // Push new scope
    stack.push_scope();

    // Can still see outer variable
    assert_eq!(stack.get_variable("x"), Some(Value::Number(num(1.0))));

    // Set new variable in inner scope
    stack.set_variable("y", Value::Number(num(2.0)));
    assert_eq!(stack.get_variable("y"), Some(Value::Number(num(2.0))));

    // Update outer variable from inner scope
    stack.set_variable("x", Value::Number(num(10.0)));
    assert_eq!(stack.get_variable("x"), Some(Value::Number(num(10.0))));

    // Pop scope
    stack.pop_scope();

    // Outer variable still updated
    assert_eq!(stack.get_variable("x"), Some(Value::Number(num(10.0))));

    // Inner variable no longer accessible
    assert_eq!(stack.get_variable("y"), None);
}

#[test]
fn test_scope_stack_shadowing() {
    let mut stack = ScopeStack::new();

    // Set in global scope
    stack.set_variable("x", Value::Number(num(1.0)));

    // Push new scope
    stack.push_scope();

    // Define same variable in inner scope (shadowing)
    stack.define_variable("x", Value::Number(num(2.0)));
    assert_eq!(stack.get_variable("x"), Some(Value::Number(num(2.0))));

    // Pop scope
    stack.pop_scope();

    // Back to outer variable
    assert_eq!(stack.get_variable("x"), Some(Value::Number(num(1.0))));
}

#[test]
fn test_scope_stack_cannot_pop_global() {
    let mut stack = ScopeStack::new();
    assert_eq!(stack.depth(), 1);

    // Cannot pop global scope
    assert!(stack.pop_scope().is_none());
    assert_eq!(stack.depth(), 1);

    // Can pop non-global scopes
    stack.push_scope();
    assert_eq!(stack.depth(), 2);
    assert!(stack.pop_scope().is_some());
    assert_eq!(stack.depth(), 1);
}

#[test]
fn test_global_scope_qualifier() {
    let mut stack = ScopeStack::new();

    // Set in global scope
    stack.set_variable_qualified("global:x", Value::Number(num(5.0)));
    assert_eq!(stack.get_variable_qualified("global:x"), Some(Value::Number(num(5.0))));

    // Push new scope
    stack.push_scope();

    // Global variable accessible from inner scope
    assert_eq!(stack.get_variable_qualified("global:x"), Some(Value::Number(num(5.0))));

    // Update global variable from inner scope
    stack.set_variable_qualified("global:x", Value::Number(num(10.0)));

    // Pop scope
    stack.pop_scope();

    // Global variable was updated
    assert_eq!(stack.get_variable_qualified("global:x"), Some(Value::Number(num(10.0))));
}

#[test]
fn test_local_scope_qualifier() {
    let mut stack = ScopeStack::new();

    // Set in global scope
    stack.set_variable("x", Value::Number(num(1.0)));

    // Push new scope
    stack.push_scope();

    // Set local variable (in current scope)
    stack.set_variable_qualified("local:x", Value::Number(num(2.0)));

    // Local access returns the local value
    assert_eq!(stack.get_variable_qualified("local:x"), Some(Value::Number(num(2.0))));

    // Global access returns the global value
    assert_eq!(stack.get_variable_qualified("global:x"), Some(Value::Number(num(1.0))));

    // Regular access returns the local (shadowing) value
    assert_eq!(stack.get_variable("x"), Some(Value::Number(num(2.0))));

    // Pop scope
    stack.pop_scope();

    // Back to global value
    assert_eq!(stack.get_variable("x"), Some(Value::Number(num(1.0))));
}

#[test]
fn test_script_scope_qualifier() {
    let mut stack = ScopeStack::new();

    // Script scope currently behaves like global scope
    stack.set_variable_qualified("script:z", Value::Number(num(100.0)));
    assert_eq!(stack.get_variable_qualified("script:z"), Some(Value::Number(num(100.0))));
    assert_eq!(stack.get_variable_qualified("global:z"), Some(Value::Number(num(100.0))));
}

#[test]
fn test_scope_qualifier_parsing() {
    let mut stack = ScopeStack::new();

    // Test that scope qualifiers are case-insensitive
    stack.set_variable_qualified("GLOBAL:upper", Value::Number(num(1.0)));
    assert_eq!(stack.get_variable_qualified("global:upper"), Some(Value::Number(num(1.0))));

    stack.set_variable_qualified("Global:mixed", Value::Number(num(2.0)));
    assert_eq!(stack.get_variable_qualified("global:mixed"), Some(Value::Number(num(2.0))));
}

#[test]
fn test_invalid_scope_qualifier() {
    let mut stack = ScopeStack::new();

    // Invalid qualifier should be treated as part of the variable name
    stack.set_variable_qualified("invalid:name", Value::Number(num(42.0)));

    // Should be stored as "invalid:name" (whole string)
    assert_eq!(stack.get_variable("invalid:name"), Some(Value::Number(num(42.0))));
}

#[test]
fn test_scope_qualifier_with_nested_scopes() {
    let mut stack = ScopeStack::new();

    // Set global variable
    stack.set_variable_qualified("global:counter", Value::Number(num(0.0)));

    // Push scope and increment
    stack.push_scope();
    stack.set_variable_qualified("global:counter", Value::Number(num(1.0)));

    // Push another scope and increment
    stack.push_scope();
    stack.set_variable_qualified("global:counter", Value::Number(num(2.0)));

    // Pop both scopes
    stack.pop_scope();
    stack.pop_scope();

    // Global variable has final value
    assert_eq!(stack.get_variable_qualified("global:counter"), Some(Value::Number(num(2.0))));
}

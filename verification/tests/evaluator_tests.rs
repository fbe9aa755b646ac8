use pwsh_core::{Evaluator, Lexer, Number, Parser, RuntimeError, Value};

fn num(x: f64) -> Number {
    Number::from_bits(x.to_bits())
}


fn eval_str(input: &str) -> Result<Value, RuntimeError> {
    let mut lexer = Lexer::new(input);
    let tokens = lexer.tokenize().unwrap();
    let mut parser = Parser::new(tokens);
    let program = parser.parse().unwrap();
    let mut evaluator = Evaluator::new();
    evaluator.eval(program)
}

#[test]
fn test_eval_number() {
    let result = eval_str("42").unwrap();
    assert_eq!(result, Value::Number(num(42.0)));
}

#[test]
fn test_eval_string() {
    let result = eval_str("\"hello\"").unwrap();
    assert_eq!(result, Value::String("hello".to_string()));
}

#[test]
fn test_eval_boolean() {
    let result = eval_str("true").unwrap();
    assert_eq!(result, Value::Boolean(true));
}

#[test]
fn test_eval_addition() {
    let result = eval_str("5 + 3").unwrap();
    assert_eq!(result, Value::Number(num(8.0)));
}

#[test]
fn test_eval_subtraction() {
    let result = eval_str("10 - 3").unwrap();
    assert_eq!(result, Value::Number(num(7.0)));
}

#[test]
fn test_eval_multiplication() {
    let result = eval_str("6 * 7").unwrap();
    assert_eq!(result, Value::Number(num(42.0)));
}

#[test]
fn test_eval_division() {
    let result = eval_str("20 / 4").unwrap();
    assert_eq!(result, Value::Number(num(5.0)));
}

#[test]
fn test_eval_modulo() {
    let result = eval_str("10 % 3").unwrap();
    assert_eq!(result, Value::Number(num(1.0)));
}

#[test]
fn test_eval_division_by_zero() {
    let result = eval_str("10 / 0");
    assert!(matches!(result, Err(RuntimeError::DivisionByZero)));
}

#[test]
fn test_eval_operator_precedence() {
    let result = eval_str("10 + 20 * 2").unwrap();
    assert_eq!(result, Value::Number(num(50.0))); // 10 + (20 * 2)
}

#[test]
fn test_eval_parentheses() {
    let result = eval_str("(10 + 20) * 2").unwrap();
    assert_eq!(result, Value::Number(num(60.0)));
}

#[test]
fn test_eval_unary_minus() {
    let result = eval_str("-5").unwrap();
    assert_eq!(result, Value::Number(num(-5.0)));
}

#[test]
fn test_eval_comparison_equal() {
    let result = eval_str("5 -eq 5").unwrap();
    assert_eq!(result, Value::Boolean(true));

    let result = eval_str("5 -eq 3").unwrap();
    assert_eq!(result, Value::Boolean(false));
}

#[test]
fn test_eval_comparison_not_equal() {
    let result = eval_str("5 -ne 3").unwrap();
    assert_eq!(result, Value::Boolean(true));
}

#[test]
fn test_eval_comparison_greater() {
    let result = eval_str("10 -gt 5").unwrap();
    assert_eq!(result, Value::Boolean(true));

    let result = eval_str("3 -gt 5").unwrap();
    assert_eq!(result, Value::Boolean(false));
}

#[test]
fn test_eval_comparison_less() {
    let result = eval_str("3 -lt 5").unwrap();
    assert_eq!(result, Value::Boolean(true));
}

#[test]
fn test_eval_assignment() {
    let result = eval_str("$x = 5").unwrap();
    assert_eq!(result, Value::Null);
}

#[test]
fn test_eval_variable_reference() {
    let mut lexer = Lexer::new("$x = 5\n$x");
    let tokens = lexer.tokenize().unwrap();
    let mut parser = Parser::new(tokens);
    let program = parser.parse().unwrap();
    let mut evaluator = Evaluator::new();
    let result = evaluator.eval(program).unwrap();
    assert_eq!(result, Value::Number(num(5.0)));
}

#[test]
fn test_eval_variable_in_expression() {
    let result = eval_str("$x = 5\n$y = 10\n$x + $y").unwrap();
    assert_eq!(result, Value::Number(num(15.0)));
}

#[test]
fn test_eval_undefined_variable() {
    let result = eval_str("$undefined").unwrap();
    assert_eq!(result, Value::Null);
}

#[test]
fn test_eval_undefined_variable_in_expression() {
    // a variable without a value reads as Null, and Null is no number
    let result = eval_str("$x = 6\n$r = $x + $y");
    assert!(matches!(result, Err(RuntimeError::TypeMismatch { .. })));
    let result_r = eval_str("$x = 6\n$r = $x\n$r + 0").unwrap();
    assert_eq!(result_r, Value::Number(num(6.0)));
}

#[test]
fn test_eval_string_interpolation() {
    let result = eval_str("$name = \"World\"\n\"Hello $name\"").unwrap();
    assert_eq!(result, Value::String("Hello World".to_string()));
}

#[test]
fn test_eval_if_statement_true() {
    let result = eval_str("if (true) { 42 }").unwrap();
    assert_eq!(result, Value::Number(num(42.0)));
}

#[test]
fn test_eval_if_statement_false() {
    let result = eval_str("if (false) { 42 }").unwrap();
    assert_eq!(result, Value::Null);
}

#[test]
fn test_eval_if_else_statement() {
    let result = eval_str("if (false) { 1 } else { 2 }").unwrap();
    assert_eq!(result, Value::Number(num(2.0)));
}

#[test]
fn test_eval_if_with_condition() {
    let result = eval_str("$x = 5\nif ($x -eq 5) { 100 }").unwrap();
    assert_eq!(result, Value::Number(num(100.0)));
}

#[test]
fn test_eval_complex_expression() {
    let result = eval_str("$x = 5\n$y = 10\n$z = ($x + $y) * 2\n$z").unwrap();
    assert_eq!(result, Value::Number(num(30.0)));
}

#[test]
fn test_eval_string_concatenation() {
    let result = eval_str("\"Hello \" + \"World\"").unwrap();
    assert_eq!(result, Value::String("Hello World".to_string()));
}

#[test]
fn test_eval_nested_scopes() {
    let result = eval_str("$x = 1\nif (true) { $y = 2\n$x + $y }").unwrap();
    assert_eq!(result, Value::Number(num(3.0)));
}

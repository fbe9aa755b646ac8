use pwsh_core::{
    register_all, CmdletRegistry, Evaluator, Expression, LexError, Lexer, Literal, Number, ParseError, Parser,
    Pipeline, Position, Property, RuntimeError, ScopeStack, Statement, Token, Value,
};

fn num(x: f64) -> Number {
    Number::from_bits(x.to_bits())
}

fn number(x: f64) -> Value {
    Value::Number(num(x))
}

fn text(s: &str) -> Value {
    Value::String(s.to_string())
}

fn evaluator() -> Evaluator {
    let mut registry = CmdletRegistry::new();
    register_all(&mut registry);
    Evaluator::with_registry(registry)
}

fn run(source: &str) -> Result<Value, RuntimeError> {
    run_in(&mut evaluator(), source)
}

fn run_in(evaluator: &mut Evaluator, source: &str) -> Result<Value, RuntimeError> {
    let tokens = Lexer::new(source).tokenize().unwrap();
    let program = Parser::new(tokens).parse().unwrap();
    evaluator.eval(program)
}

// ---- division ----

#[test]
fn division_gives_the_double_quotient() {
    let pairs = [(20.0, 4.0), (7.0, 2.0), (1.0, 3.0), (0.0, 5.0), (2.5, 0.5), (1e300, 1e-10), (9.0, 7.0)];
    for (a, b) in pairs {
        let source = format!("{} / {}", Value::Number(num(a)).to_string(), Value::Number(num(b)).to_string());
        assert_eq!(run(&source), Ok(number(a / b)), "{}", source);
    }
}

#[test]
fn division_by_zero_is_an_error() {
    assert_eq!(run("10 / 0"), Err(RuntimeError::DivisionByZero));
    assert_eq!(run("0 / 0"), Err(RuntimeError::DivisionByZero));
    assert_eq!(run("10 / 0.0"), Err(RuntimeError::DivisionByZero));
    assert_eq!(run("10 / -0"), Err(RuntimeError::DivisionByZero));
    assert_eq!(run("$z = 5 - 5\n3 / $z"), Err(RuntimeError::DivisionByZero));
    assert_eq!(run("\"8\" / \"0\""), Err(RuntimeError::DivisionByZero));
}

#[test]
fn division_checks_the_operands_before_the_divisor() {
    let result = run("$a = @(1)\n$a / 0");
    assert_eq!(
        result,
        Err(RuntimeError::TypeMismatch {
            expected: "number".to_string(),
            got: "array".to_string(),
            operation: "division".to_string(),
        })
    );
}

// ---- case ----

#[test]
fn string_equality_ignores_case() {
    assert_eq!(run("\"Hello\" -eq \"HELLO\""), Ok(Value::Boolean(true)));
    assert_eq!(run("'abc' -eq 'ABC'"), Ok(Value::Boolean(true)));
    assert_eq!(run("'abc' -ne 'ABC'"), Ok(Value::Boolean(false)));
    assert_eq!(run("'abc' -eq 'abd'"), Ok(Value::Boolean(false)));
    assert_eq!(run("'straße' -eq 'STRASSE'"), Ok(Value::Boolean(false)));
    assert_eq!(run("'ÄÖ' -eq 'äö'"), Ok(Value::Boolean(true)));
}

#[test]
fn equality_across_kinds_is_false() {
    assert_eq!(run("1 -eq '1'"), Ok(Value::Boolean(false)));
    assert_eq!(run("true -eq 1"), Ok(Value::Boolean(false)));
    assert_eq!(run("$nothing -eq $nothing"), Ok(Value::Boolean(true)));
    assert_eq!(run("@(1) -eq @(1)"), Ok(Value::Boolean(false)));
    assert_eq!(run("1 -ne '1'"), Ok(Value::Boolean(true)));
}

#[test]
fn variable_names_ignore_case() {
    assert_eq!(run("$Count = 7\n$count"), Ok(number(7.0)));
    assert_eq!(run("$Count = 7\n$COUNT = 8\n$count"), Ok(number(8.0)));
    let mut stack = ScopeStack::new();
    stack.set_variable("MyVar", number(1.0));
    for name in ["MyVar", "myvar", "MYVAR", "mYvAR"] {
        assert_eq!(stack.get_variable(name), Some(number(1.0)));
    }
}

#[test]
fn keywords_and_operators_ignore_case() {
    let tokens = Lexer::new("IF Else FUNCTION Return TRUE False -EQ -Le").tokenize().unwrap();
    let kinds: Vec<Token> = tokens.into_iter().map(|t| t.token).collect();
    assert_eq!(
        kinds,
        vec![
            Token::If,
            Token::Else,
            Token::Function,
            Token::Return,
            Token::Boolean(true),
            Token::Boolean(false),
            Token::Equal,
            Token::LessOrEqual,
            Token::Eof
        ]
    );
}

// ---- scopes ----

#[test]
fn a_defined_variable_leaves_with_its_scope() {
    let mut stack = ScopeStack::new();
    stack.set_variable("outer", number(1.0));
    stack.push_scope();
    stack.define_variable("inner", number(2.0));
    stack.define_variable("outer", number(3.0));
    assert_eq!(stack.get_variable("inner"), Some(number(2.0)));
    assert_eq!(stack.get_variable("outer"), Some(number(3.0)));
    stack.pop_scope();
    assert_eq!(stack.get_variable("inner"), None);
    assert_eq!(stack.get_variable("outer"), Some(number(1.0)));
}

#[test]
fn an_assignment_reaches_the_outer_binding() {
    let mut stack = ScopeStack::new();
    stack.set_variable("x", number(1.0));
    stack.push_scope();
    stack.set_variable("X", number(10.0));
    stack.pop_scope();
    assert_eq!(stack.get_variable("x"), Some(number(10.0)));
    assert_eq!(run("$x = 1\nif (true) { $x = 2\n$y = 3 }\n$x"), Ok(number(2.0)));
    assert_eq!(run("$x = 1\nif (true) { $x = 2\n$y = 3 }\n$y"), Ok(Value::Null));
}

#[test]
fn parameters_shadow_outer_variables() {
    let source = "$a = 1\nfunction Set($a) { $a = 5\n$b = 6\n$a }\n$r = Set 2\n$a + $r";
    assert_eq!(run(source), Ok(number(6.0)));
    assert_eq!(run("function F() { $g = 4 }\nF\n$g"), Ok(Value::Null));
    assert_eq!(run("$g = 1\nfunction F() { $g = 4 }\nF\n$g"), Ok(number(4.0)));
}

#[test]
fn the_global_scope_stays() {
    let mut stack = ScopeStack::new();
    assert!(stack.pop_scope().is_none());
    assert!(stack.pop_scope().is_none());
    assert_eq!(stack.depth(), 1);
    stack.set_variable("x", number(1.0));
    assert_eq!(stack.get_variable("x"), Some(number(1.0)));
}

#[test]
fn qualifiers_pick_the_scope() {
    let mut stack = ScopeStack::new();
    stack.set_variable("x", number(1.0));
    stack.push_scope();
    stack.set_variable_qualified("LOCAL:x", number(2.0));
    stack.set_variable_qualified("Script:y", number(3.0));
    assert_eq!(stack.get_variable_qualified("local:X"), Some(number(2.0)));
    assert_eq!(stack.get_variable_qualified("Global:x"), Some(number(1.0)));
    assert_eq!(stack.get_variable_qualified("x"), Some(number(2.0)));
    assert_eq!(stack.get_variable_qualified("local:y"), None);
    stack.pop_scope();
    assert_eq!(stack.get_variable("y"), Some(number(3.0)));
    stack.set_variable_qualified("env:path", text("p"));
    assert_eq!(stack.get_variable("env:path"), Some(text("p")));
    assert_eq!(stack.get_variable_qualified("env:PATH"), Some(text("p")));
}

#[test]
fn the_first_spelling_of_a_name_is_kept() {
    let mut object = Value::Object(Vec::new());
    object.set_property("Name", text("a")).unwrap();
    object.set_property("NAME", text("b")).unwrap();
    object.set_property("other", text("c")).unwrap();
    assert_eq!(
        object,
        Value::Object(vec![
            Property { name: "Name".to_string(), value: text("b") },
            Property { name: "other".to_string(), value: text("c") },
        ])
    );
    assert_eq!(object.get_property("name"), Some(text("b")));
    assert_eq!(number(1.0).set_property("x", Value::Null), Err("Cannot set property on non-object value".to_string()));
}

// ---- pipelines ----

#[test]
fn a_script_block_gives_one_result_for_each_item() {
    assert_eq!(
        run("@(1, 2, 3) | { $_ * 2 }"),
        Ok(Value::Array(vec![number(2.0), number(4.0), number(6.0)]))
    );
    assert_eq!(run("@(5) | { $_ + 1 }"), Ok(number(6.0)));
    assert_eq!(
        run("@('a', 'b', 'c', 'd') | { $_ + '!' }"),
        Ok(Value::Array(vec![text("a!"), text("b!"), text("c!"), text("d!")]))
    );
    let mut evaluator = evaluator();
    let result = run_in(&mut evaluator, "$n = 0\n@(10, 20, 30) | { $n = $n + 1\n$_ + $n }");
    assert_eq!(result, Ok(Value::Array(vec![number(11.0), number(22.0), number(33.0)])));
    assert_eq!(evaluator.get_variable("n"), Some(number(3.0)));
}

#[test]
fn a_script_block_without_input_is_a_value() {
    let result = run("{ 1 } | Write-Output").unwrap();
    assert!(matches!(result, Value::ScriptBlock(_)));
    let result = run("@() | { $_ }").unwrap();
    assert!(matches!(result, Value::ScriptBlock(_)));
}

#[test]
fn pipeline_results_are_folded() {
    assert_eq!(run("@() | Write-Output"), Ok(Value::Null));
    assert_eq!(run("@(7) | Write-Output"), Ok(number(7.0)));
    assert_eq!(run("@(7, 8) | Write-Output"), Ok(Value::Array(vec![number(7.0), number(8.0)])));
    assert_eq!(run("7 | Write-Output"), Ok(number(7.0)));
}

#[test]
fn an_expression_stage_is_evaluated_for_each_item() {
    assert_eq!(run("@(1, 2) | $_ + 10"), Ok(Value::Array(vec![number(11.0), number(12.0)])));
    let mut evaluator = evaluator();
    run_in(&mut evaluator, "@(1, 2) | $_ + 10").unwrap();
    assert_eq!(evaluator.get_variable("_"), Some(number(2.0)));
}

#[test]
fn sort_descending_scenario() {
    assert_eq!(
        run("@(1,2,3) | Sort-Object -Descending true"),
        Ok(Value::Array(vec![number(3.0), number(2.0), number(1.0)]))
    );
    assert_eq!(
        run("@(3,1,2) | Sort-Object"),
        Ok(Value::Array(vec![number(1.0), number(2.0), number(3.0)]))
    );
    assert_eq!(
        run("@(1,2) | Sort-Object -Descending maybe"),
        Err(RuntimeError::InvalidOperation("Invalid boolean value: maybe".to_string()))
    );
    assert_eq!(
        run("@(2,1) | Sort-Object -Descending ' YES '"),
        Ok(Value::Array(vec![number(2.0), number(1.0)]))
    );
}

#[test]
fn commands_invoke_script_blocks() {
    assert_eq!(
        run("@(1, 2, 3, 4) | Where-Object { $_ -gt 2 }"),
        Ok(Value::Array(vec![number(3.0), number(4.0)]))
    );
    assert_eq!(
        run("@(1, 2, 3) | ForEach-Object { $_ * $_ }"),
        Ok(Value::Array(vec![number(1.0), number(4.0), number(9.0)]))
    );
    assert_eq!(
        run("@(1, 2, 3, 4) | Where-Object { $_ -gt 1 } | ForEach-Object { $_ * 10 } | Select-Object -First 2"),
        Ok(Value::Array(vec![number(20.0), number(30.0)]))
    );
    assert_eq!(
        run("function Big($n) { return $n -gt 2 }\n@(1, 5) | Where-Object { Big $_ }"),
        Ok(number(5.0))
    );
    assert_eq!(run("@(1, 2) | ForEach-Object { 1 / 0 }"), Err(RuntimeError::DivisionByZero));
}

#[test]
fn commands_are_found_without_regard_to_case() {
    assert_eq!(run("write-output 3"), Ok(number(3.0)));
    assert_eq!(run("WRITE-OUTPUT 3"), Ok(number(3.0)));
    assert_eq!(run("No-Such-Command 3"), Err(RuntimeError::UndefinedFunction("No-Such-Command".to_string())));
    assert_eq!(run("1 | No-Such-Command"), Err(RuntimeError::UndefinedFunction("No-Such-Command".to_string())));
}

// ---- scenarios ----

#[test]
fn literal_scenarios() {
    assert_eq!(run("5 + 3"), Ok(number(8.0)));
    assert_eq!(run("$x = 5\n$x"), Ok(number(5.0)));
    assert_eq!(run("function Add($a,$b) { return $a + $b }\nAdd 5 10"), Ok(number(15.0)));
    assert_eq!(run("10 / 0"), Err(RuntimeError::DivisionByZero));
    assert_eq!(
        Lexer::new("\"hello").tokenize(),
        Err(LexError::UnterminatedString { position: Position { line: 1, column: 1 } })
    );
}

// ---- functions ----

#[test]
fn functions_return_early_and_fall_through() {
    let source = "function Sign($n) { if ($n -lt 0) { return 'minus' }\nif ($n -gt 0) { return 'plus' }\n'zero' }\n";
    assert_eq!(run(&format!("{}Sign (0 - 3)", source)), Ok(text("minus")));
    assert_eq!(run(&format!("{}Sign 3", source)), Ok(text("plus")));
    assert_eq!(run(&format!("{}Sign 0", source)), Ok(text("zero")));
    assert_eq!(run("function Nothing() { }\nNothing"), Ok(Value::Null));
    assert_eq!(run("function Bare() { return\n}\nBare"), Ok(Value::Null));
    assert!(parse("function Bare() { return }").is_err());
}

#[test]
fn parameters_take_arguments_defaults_or_null() {
    let source = "function F($a, $b = $a + 1, $c) { @($a, $b, $c) }\n";
    assert_eq!(run(&format!("{}F 1 2 3", source)), Ok(Value::Array(vec![number(1.0), number(2.0), number(3.0)])));
    assert_eq!(run(&format!("{}F 1", source)), Ok(Value::Array(vec![number(1.0), number(2.0), Value::Null])));
    assert_eq!(run(&format!("{}F 1 2 3 4", source)), Ok(Value::Array(vec![number(1.0), number(2.0), number(3.0)])));
    assert_eq!(run(&format!("{}F 1 -b 9", source)), Ok(Value::Array(vec![number(1.0), number(2.0), Value::Null])));
}

#[test]
fn functions_are_called_without_regard_to_case() {
    assert_eq!(run("function Twice($n) { $n * 2 }\ntwice 4"), Ok(number(8.0)));
    assert_eq!(run("function Write-Output($n) { 'mine' }\nWrite-Output 4"), Ok(text("mine")));
}

#[test]
fn recursion_works_up_to_the_limit() {
    let source = "function Sum($n) { if ($n -le 0) { return 0 }\nreturn $n + (Sum ($n - 1)) }\n";
    assert_eq!(run(&format!("{}Sum 10", source)), Ok(number(55.0)));
    let mut shallow = evaluator();
    shallow.set_call_depth(5);
    assert_eq!(run_in(&mut shallow, &format!("{}Sum 4", source)), Ok(number(10.0)));
    assert_eq!(
        run_in(&mut shallow, &format!("{}Sum 5", source)),
        Err(RuntimeError::InvalidOperation("Call depth limit exceeded".to_string()))
    );
    assert_eq!(
        run("function Loop() { Loop }\nLoop"),
        Err(RuntimeError::InvalidOperation("Call depth limit exceeded".to_string()))
    );
}

#[test]
fn scopes_unwind_on_errors() {
    let mut evaluator = evaluator();
    let result = run_in(&mut evaluator, "function F() { if (true) { 1 / 0 } }\nF");
    assert_eq!(result, Err(RuntimeError::DivisionByZero));
    run_in(&mut evaluator, "$after = 1").unwrap();
    let result = run_in(&mut evaluator, "function G() { $after = 2 }\nG\n$after");
    assert_eq!(result, Ok(number(2.0)));
    let result = run_in(&mut evaluator, "if (true) { $late = 1 }\n$late");
    assert_eq!(result, Ok(Value::Null));
}

#[test]
fn a_return_outside_a_function_is_an_error() {
    assert_eq!(run("return 5"), Err(RuntimeError::ReturnOutsideFunction));
    assert_eq!(run("if (true) { return; }"), Err(RuntimeError::ReturnOutsideFunction));
    assert_eq!(run("@(1) | { return 2 }"), Err(RuntimeError::ReturnOutsideFunction));
    assert_eq!(run("function F() { @(1, 2) | { return $_ }\n'not reached' }\nF"), Ok(number(1.0)));
}

// ---- values ----

#[test]
fn truth_of_values() {
    for (source, expected) in [
        ("if ($nothing) { 1 } else { 0 }", 0.0),
        ("if ('') { 1 } else { 0 }", 0.0),
        ("if ('false') { 1 } else { 0 }", 1.0),
        ("if (0) { 1 } else { 0 }", 0.0),
        ("if (0.5) { 1 } else { 0 }", 1.0),
        ("if (@()) { 1 } else { 0 }", 0.0),
        ("if (@(0)) { 1 } else { 0 }", 1.0),
        ("if (@{}) { 1 } else { 0 }", 1.0),
        ("if ({ }) { 1 } else { 0 }", 1.0),
        ("if (false) { 1 } else { 0 }", 0.0),
    ] {
        assert_eq!(run(source), Ok(number(expected)), "{}", source);
    }
}

#[test]
fn texts_of_values() {
    assert_eq!(number(42.0).to_string(), "42");
    assert_eq!(number(-0.5).to_string(), "-0.5");
    assert_eq!(Value::Boolean(false).to_string(), "false");
    assert_eq!(Value::Null.to_string(), "");
    assert_eq!(Value::Array(vec![number(1.0), text("a"), Value::Null]).to_string(), "@(1, a, )");
    assert_eq!(Value::Array(vec![]).to_string(), "@()");
    let object = Value::Object(vec![
        Property { name: "b".to_string(), value: number(2.0) },
        Property { name: "a".to_string(), value: text("x") },
        Property { name: "C".to_string(), value: Value::Boolean(true) },
    ]);
    assert_eq!(object.to_string(), "@{C=true; a=x; b=2}");
    assert_eq!(Value::Object(vec![]).to_string(), "@{}");
}

#[test]
fn numbers_of_values() {
    assert_eq!(text("12").to_number(), Some(num(12.0)));
    assert_eq!(text("-1.5e2").to_number(), Some(num(-150.0)));
    assert_eq!(text("twelve").to_number(), None);
    assert_eq!(text("").to_number(), None);
    assert_eq!(text(" 1").to_number(), None);
    assert_eq!(Value::Array(vec![]).to_number(), None);
    assert_eq!(Value::Object(vec![]).to_number(), None);
    assert_eq!(run("'6' * '7'"), Ok(number(42.0)));
    assert_eq!(run("true + true"), Err(RuntimeError::TypeMismatch {
        expected: "number or string".to_string(),
        got: "boolean and boolean".to_string(),
        operation: "addition".to_string(),
    }));
    assert_eq!(run("true * 3"), Ok(number(3.0)));
}

#[test]
fn whole_number_texts_read_back() {
    for x in [0.0, 1.0, -1.0, 42.0, 1e15, -123456789.0, 9007199254740991.0, 4503599627370496.0] {
        let shown = number(x).to_string();
        assert!(!shown.contains('.'), "{}", shown);
        assert_eq!(text(&shown).to_number(), Some(num(x)));
        assert_eq!(run(&format!("'{}' + 0 - 0 * 1", shown)).is_ok(), true);
    }
    assert_eq!(run("0 + '9007199254740991' * 1"), Ok(number(9007199254740991.0)));
}

#[test]
fn addition_joins_texts() {
    assert_eq!(run("'a' + 1"), Ok(text("a1")));
    assert_eq!(run("1 + 'a'"), Ok(text("1a")));
    assert_eq!(run("'a' + true"), Ok(text("atrue")));
    assert_eq!(run("'a' + $nothing"), Ok(text("a")));
    assert_eq!(run("'1' + '2'"), Ok(text("12")));
    assert_eq!(run("1.5 + 2.25"), Ok(number(3.75)));
}

#[test]
fn comparisons_take_numbers() {
    assert_eq!(run("2 -lt 10"), Ok(Value::Boolean(true)));
    assert_eq!(run("'2' -lt '10'"), Ok(Value::Boolean(true)));
    assert_eq!(run("2 -ge 2"), Ok(Value::Boolean(true)));
    assert_eq!(run("2 -le 1"), Ok(Value::Boolean(false)));
    assert_eq!(run("2 -gt 'x'"), Err(RuntimeError::TypeMismatch {
        expected: "number".to_string(),
        got: "string".to_string(),
        operation: "greater than".to_string(),
    }));
    assert_eq!(run("$nothing - 1"), Err(RuntimeError::TypeMismatch {
        expected: "number".to_string(),
        got: "null".to_string(),
        operation: "subtraction".to_string(),
    }));
    assert_eq!(run("-'x'"), Err(RuntimeError::TypeMismatch {
        expected: "number".to_string(),
        got: "string".to_string(),
        operation: "negation".to_string(),
    }));
    assert_eq!(run("-'3'"), Ok(number(-3.0)));
    assert_eq!(run("7 % 4"), Ok(number(3.0)));
    assert_eq!(run("-7 % 4"), Ok(number(-3.0)));
}

#[test]
fn member_access_reads_properties() {
    assert_eq!(run("$o = @{Name='x'; Size=3}\n$o.size"), Ok(number(3.0)));
    assert_eq!(run("$o = @{In=@{Deep=1}}\n$o.In.Deep + 1"), Ok(number(2.0)));
    assert_eq!(
        run("$o = @{Name='x'}\n$o.Age"),
        Err(RuntimeError::InvalidPropertyAccess("Property 'Age' not found".to_string()))
    );
    assert_eq!(
        run("$n = 5\n$n.Length"),
        Err(RuntimeError::InvalidPropertyAccess("Property 'Length' not found".to_string()))
    );
    assert_eq!(run("$o = @{a=1; A=2}\n$o.a"), Ok(number(2.0)));
}

#[test]
fn interpolation_uses_texts() {
    assert_eq!(run("$n = 3\n$s = 'x'\n\"$n $s $missing.\""), Ok(text("3 x .")));
    assert_eq!(run("$a = @(1, 2)\n\"items: $a\""), Ok(text("items: @(1, 2)")));
    assert_eq!(run("$Name = 'w'\n\"Hello $NAME\""), Ok(text("Hello w")));
    assert_eq!(run("\"a\\tb\\$c \\q\""), Ok(text("a\tb$c \\q")));
}

#[test]
fn a_variable_without_a_value_is_null() {
    assert_eq!(run("$missing"), Ok(Value::Null));
    assert_eq!(run("$x = $missing\n$x -eq $missing"), Ok(Value::Boolean(true)));
}

// ---- errors ----

#[test]
fn lex_errors() {
    assert_eq!(
        Lexer::new("1 ~ 2").tokenize(),
        Err(LexError::UnexpectedCharacter { ch: '~', position: Position { line: 1, column: 3 } })
    );
    assert_eq!(
        Lexer::new("$x = 'abc\n").tokenize(),
        Err(LexError::UnterminatedString { position: Position { line: 1, column: 6 } })
    );
    assert_eq!(
        Lexer::new("\n  1.2.3").tokenize(),
        Err(LexError::InvalidNumber { text: "1.2.3".to_string(), position: Position { line: 2, column: 3 } })
    );
    assert_eq!(
        Lexer::new("$ x").tokenize(),
        Err(LexError::InvalidToken { text: "$".to_string(), position: Position { line: 1, column: 1 } })
    );
    assert_eq!(
        LexError::UnexpectedCharacter { ch: '~', position: Position { line: 1, column: 3 } }.to_string(),
        "Unexpected character '~' at line 1, column 3"
    );
    assert_eq!(
        LexError::UnterminatedString { position: Position { line: 12, column: 40 } }.to_string(),
        "Unterminated string at line 12, column 40"
    );
    assert_eq!(
        LexError::InvalidNumber { text: "1.2.3".to_string(), position: Position { line: 2, column: 3 } }.to_string(),
        "Invalid number '1.2.3' at line 2, column 3"
    );
    assert_eq!(
        LexError::InvalidToken { text: "$".to_string(), position: Position { line: 1, column: 1 } }.to_string(),
        "Invalid token '$' at line 1, column 1"
    );
}

fn parse(source: &str) -> Result<pwsh_core::Program, ParseError> {
    Parser::new(Lexer::new(source).tokenize().unwrap()).parse()
}

#[test]
fn parse_errors() {
    assert_eq!(
        parse("if (1 { 2 }"),
        Err(ParseError::UnexpectedToken {
            expected: ")".to_string(),
            found: Token::LeftBrace,
            position: Position { line: 1, column: 7 },
        })
    );
    assert_eq!(
        parse("1 + )"),
        Err(ParseError::InvalidExpression {
            message: "Unexpected token: RightParen".to_string(),
            position: Position { line: 1, column: 5 },
        })
    );
    assert_eq!(
        parse("function 5 { }"),
        Err(ParseError::UnexpectedToken {
            expected: "function name".to_string(),
            found: Token::Number(num(5.0)),
            position: Position { line: 1, column: 10 },
        })
    );
    assert_eq!(
        parse("{ 1"),
        Err(ParseError::UnexpectedToken {
            expected: "}".to_string(),
            found: Token::Eof,
            position: Position { line: 1, column: 4 },
        })
    );
    let mut tokens = Lexer::new("1 +").tokenize().unwrap();
    tokens.pop();
    assert_eq!(Parser::new(tokens).parse(), Err(ParseError::UnexpectedEof { expected: "expression".to_string() }));
    assert_eq!(
        parse("$x.5"),
        Err(ParseError::UnexpectedToken {
            expected: "property name".to_string(),
            found: Token::Number(num(5.0)),
            position: Position { line: 1, column: 4 },
        })
    );
}

#[test]
fn parse_error_texts() {
    assert_eq!(
        ParseError::UnexpectedToken {
            expected: ")".to_string(),
            found: Token::Identifier("x".to_string()),
            position: Position { line: 3, column: 9 },
        }
        .to_string(),
        "Unexpected token at line 3, column 9: expected ), found Identifier(x)"
    );
    assert_eq!(
        ParseError::UnexpectedEof { expected: "expression".to_string() }.to_string(),
        "Unexpected end of input: expected expression"
    );
    assert_eq!(
        ParseError::InvalidExpression { message: "m".to_string(), position: Position { line: 1, column: 2 } }
            .to_string(),
        "Invalid expression at line 1, column 2: m"
    );
    assert_eq!(
        ParseError::InvalidStatement { message: "m".to_string(), position: Position { line: 1, column: 2 } }
            .to_string(),
        "Invalid statement at line 1, column 2: m"
    );
    assert_eq!(
        ParseError::InvalidOperator { operator: Token::Plus, position: Position { line: 1, column: 2 } }.to_string(),
        "Invalid operator Plus at line 1, column 2"
    );
}

#[test]
fn token_texts() {
    assert_eq!(Token::String("a".to_string()).to_string(), "String(\"a\")");
    assert_eq!(Token::Number(num(2.5)).to_string(), "Number(2.5)");
    assert_eq!(Token::Boolean(true).to_string(), "Boolean(true)");
    assert_eq!(Token::Variable("v".to_string()).to_string(), "Variable($v)");
    assert_eq!(Token::GreaterOrEqual.to_string(), "GreaterOrEqual(-ge)");
    let tokens = Lexer::new("\"a $b c\"").tokenize().unwrap();
    assert_eq!(tokens[0].token.to_string(), "InterpolatedString(\"a \" + $b + \" c\")");
}

#[test]
fn runtime_error_texts() {
    assert_eq!(RuntimeError::UndefinedVariable("x".to_string()).to_string(), "Variable '$x' is not defined");
    assert_eq!(
        RuntimeError::UndefinedFunction("Go".to_string()).to_string(),
        "The term 'Go' is not recognized as a function or command"
    );
    assert_eq!(
        RuntimeError::TypeMismatch {
            expected: "number".to_string(),
            got: "string".to_string(),
            operation: "division".to_string(),
        }
        .to_string(),
        "Type mismatch in division: expected number, got string"
    );
    assert_eq!(RuntimeError::DivisionByZero.to_string(), "Division by zero");
    assert_eq!(RuntimeError::InvalidOperation("x".to_string()).to_string(), "Invalid operation: x");
    assert_eq!(RuntimeError::ReturnOutsideFunction.to_string(), "Return statement outside of function");
    assert_eq!(RuntimeError::InvalidPropertyAccess("x".to_string()).to_string(), "Invalid property access: x");
}

// ---- syntax ----

#[test]
fn positions_count_lines_and_columns() {
    let tokens = Lexer::new("$a = 1 # note\n  'x\ny' + 2").tokenize().unwrap();
    let places: Vec<(usize, usize)> = tokens.iter().map(|t| (t.position.line, t.position.column)).collect();
    assert_eq!(places, vec![(1, 1), (1, 4), (1, 6), (1, 14), (2, 3), (3, 4), (3, 6), (3, 7)]);
}

#[test]
fn a_hyphen_before_a_word_starts_a_named_argument() {
    let tokens = Lexer::new("Get-Item -Path x - 1 -eq 2").tokenize().unwrap();
    let kinds: Vec<Token> = tokens.into_iter().map(|t| t.token).collect();
    assert_eq!(
        kinds,
        vec![
            Token::Identifier("Get-Item".to_string()),
            Token::Minus,
            Token::Identifier("Path".to_string()),
            Token::Identifier("x".to_string()),
            Token::Minus,
            Token::Number(num(1.0)),
            Token::Equal,
            Token::Number(num(2.0)),
            Token::Eof,
        ]
    );
}

#[test]
fn precedence_and_grouping() {
    assert_eq!(run("1 + 2 * 3 -eq 7"), Ok(Value::Boolean(true)));
    assert_eq!(run("(1 + 2) * 3"), Ok(number(9.0)));
    assert_eq!(run("10 - 4 - 3"), Ok(number(3.0)));
    assert_eq!(run("2 * 3 % 4"), Ok(number(2.0)));
    assert_eq!(run("-2 * 3"), Ok(number(-6.0)));
    assert_eq!(run("$o = @{n=2}\n$o.n * 3 + 1"), Ok(number(7.0)));
}

#[test]
fn literals_of_arrays_and_hashtables() {
    assert_eq!(run("@()"), Ok(Value::Array(vec![])));
    assert_eq!(run("@(1\n2; 3,)"), Ok(Value::Array(vec![number(1.0), number(2.0), number(3.0)])));
    assert_eq!(
        run("@{a = 1 + 1\n'b c' = 'x'}"),
        Ok(Value::Object(vec![
            Property { name: "a".to_string(), value: number(2.0) },
            Property { name: "b c".to_string(), value: text("x") },
        ]))
    );
    assert!(parse("@(1, 2").is_err());
    assert!(parse("@{a 1}").is_err());
    assert!(parse("@ 1").is_err());
}

#[test]
fn statements_and_their_values() {
    assert_eq!(run(""), Ok(Value::Null));
    assert_eq!(run("\n\n;;\n"), Ok(Value::Null));
    assert_eq!(run("1; 2; 3"), Ok(number(3.0)));
    assert_eq!(run("$x = 5"), Ok(Value::Null));
    assert_eq!(run("function F() { 1 }"), Ok(Value::Null));
    assert_eq!(run("if (0) { 1 }"), Ok(Value::Null));
    assert_eq!(run("if (1) { }"), Ok(Value::Null));
    let program = parse("return\n1").unwrap();
    assert_eq!(program.statements.len(), 2);
    assert_eq!(program.statements[0], Statement::Return(None));
    assert_eq!(program.statements[1], Statement::Expression(Expression::Literal(Literal::Number(num(1.0)))));
}

#[test]
fn the_evaluator_keeps_its_state_between_programs() {
    let mut evaluator = evaluator();
    run_in(&mut evaluator, "$total = 1\nfunction Inc() { $total = $total + 1 }").unwrap();
    run_in(&mut evaluator, "Inc\nInc").unwrap();
    assert_eq!(evaluator.get_variable("TOTAL"), Some(number(3.0)));
    evaluator.set_variable("total", number(10.0));
    assert_eq!(run_in(&mut evaluator, "$total"), Ok(number(10.0)));
    let pipeline = Pipeline { stages: vec![Expression::Variable("total".to_string())] };
    assert_eq!(evaluator.execute_pipeline(&pipeline), Ok(vec![number(10.0)]));
}

// ---- more of the language ----

#[test]
fn scope_qualifiers_in_programs() {
    let source = "$x = 1\nfunction F($x) { $global:x = $x + 10\n$local:y = 5\n$x }\n$r = F 2\n@($x, $r, $y)";
    assert_eq!(run(source), Ok(Value::Array(vec![number(12.0), number(2.0), Value::Null])));
    assert_eq!(run("$SCRIPT:total = 3\n$global:TOTAL + $total"), Ok(number(6.0)));
    let tokens = Lexer::new("$global:x $a: $b:c:d").tokenize();
    assert_eq!(
        tokens,
        Err(LexError::UnexpectedCharacter { ch: ':', position: Position { line: 1, column: 13 } })
    );
    let tokens = Lexer::new("$env:Path").tokenize().unwrap();
    assert_eq!(tokens[0].token, Token::Variable("env:Path".to_string()));
}

#[test]
fn statements_expressions_and_blocks_one_at_a_time() {
    let mut evaluator = Evaluator::new();
    let program = parse("$n = 4\n$n * 2\n{ $_ + $n }").unwrap();
    let mut statements = program.statements.into_iter();
    assert_eq!(evaluator.eval_statement(statements.next().unwrap()), Ok(Value::Null));
    assert_eq!(evaluator.eval_statement(statements.next().unwrap()), Ok(number(8.0)));
    let block = match statements.next().unwrap() {
        Statement::Expression(Expression::ScriptBlock(block)) => block,
        other => panic!("{:?}", other),
    };
    assert_eq!(evaluator.execute_script_block(&block, number(1.0)), Ok(number(5.0)));
    assert_eq!(evaluator.get_variable("_"), None);
    assert_eq!(evaluator.eval_statement(Statement::Return(None)), Err(RuntimeError::ReturnOutsideFunction));
    register_all(evaluator.registry_mut());
    assert_eq!(run_in(&mut evaluator, "Write-Output $n"), Ok(number(4.0)));
}

#[test]
fn commands_read_their_parameters() {
    let people = "$p = @(@{Name='Ann'; Age=30; Active=true}, @{Name='bob'; Age=25; Active=false}, @{Name='Cy'; Age=30})\n";
    assert_eq!(
        run(&format!("{}$p | Where-Object -Property Active | ForEach-Object -MemberName Name", people)),
        Ok(text("Ann"))
    );
    assert_eq!(
        run(&format!("{}$p | ForEach-Object -membername Active", people)),
        Ok(Value::Array(vec![Value::Boolean(true), Value::Boolean(false), Value::Null]))
    );
    assert_eq!(
        run(&format!("{}$p | Sort-Object Age, Name | ForEach-Object {{ $_.Name }}", people)),
        Ok(Value::Array(vec![text("bob"), text("Ann"), text("Cy")]))
    );
    assert_eq!(
        run(&format!("{}$p | Sort-Object -Property Name -Descending 1 | ForEach-Object {{ $_.Name }}", people)),
        Ok(Value::Array(vec![text("Cy"), text("bob"), text("Ann")]))
    );
    assert_eq!(
        run(&format!("{}$p | Group-Object Age -NoElement yes | ForEach-Object {{ $_.Name + ':' + $_.Count }}", people)),
        Ok(Value::Array(vec![text("25:1"), text("30:2")]))
    );
    assert_eq!(
        run(&format!("{}$p | Select-Object name -First 1", people)),
        Ok(Value::Object(vec![Property { name: "name".to_string(), value: text("Ann") }]))
    );
    assert_eq!(run("Sort-Object 3 @(1, 2) 0"), Ok(number(3.0)));
}

#[test]
fn processes_are_listed() {
    let all = run("Get-Process | ForEach-Object { $_.Name }");
    assert_eq!(all, Ok(Value::Array(vec![text("System"), text("explorer"), text("chrome"), text("code"), text("pwsh")])));
    assert_eq!(run("Get-Process -Name CO | ForEach-Object { $_.Id }"), Ok(number(9012.0)));
    assert_eq!(run("Get-Process -Name o | ForEach-Object { $_.CPU }"), Ok(Value::Array(vec![
        number(15.5),
        number(45.2),
        number(23.1),
    ])));
    assert_eq!(run("Get-Process -Name zzz"), Ok(Value::Null));
}

#[test]
fn bare_words_are_texts_for_commands() {
    assert_eq!(run("Write-Output hello"), Ok(text("hello")));
    assert_eq!(run("Write-Output hello, world"), Ok(text("world")));
    assert_eq!(run("function hello() { 'called' }\nWrite-Output hello"), Ok(text("called")));
    assert_eq!(run("Write-Output (Write-Output 5)"), Ok(number(5.0)));
    assert_eq!(run("hello"), Err(RuntimeError::UndefinedFunction("hello".to_string())));
    assert_eq!(run("function F($a) { $a }\nF hello"), Err(RuntimeError::UndefinedFunction("hello".to_string())));
}

#[test]
fn numbers_are_classified() {
    assert!(num(f64::INFINITY).is_infinite());
    assert!(!num(1.0).is_infinite());
    assert!(num(1.0).is_finite());
    assert!(!num(f64::NAN).is_finite());
    assert!(num(-1.0).is_negative());
    assert!(num(-0.0).is_negative());
    assert_eq!(num(2.9).truncated(), 2);
    assert_eq!(num(-2.9).truncated(), 0);
    assert_eq!(num(1e19).truncated(), 10000000000000000000);
    assert_eq!(num(1e20).truncated(), u64::MAX);
    assert_eq!(num(f64::NAN).truncated(), 0);
    assert_eq!(num(0.99).truncated(), 0);
    assert_eq!(num(4503599627370497.0).truncated(), 4503599627370497);
    assert_eq!(Number::from_count(0), num(0.0));
    assert_eq!(Number::from_count(12345), num(12345.0));
    assert_eq!(Number::from_count(usize::MAX), num(9007199254740992.0));
}

#[test]
fn quotes_in_single_quoted_strings() {
    assert_eq!(run("'it''s'"), Ok(text("it's")));
    assert_eq!(run("''''"), Ok(text("'")));
    assert_eq!(run("''"), Ok(text("")));
    assert_eq!(run("'a\\'b'"), Ok(text("a'b")));
    assert_eq!(run("'a\\nb'"), Ok(text("a\nb")));
    assert_eq!(
        Lexer::new("'''").tokenize(),
        Err(LexError::UnterminatedString { position: Position { line: 1, column: 1 } })
    );
    assert_eq!(run("\"say \\\"hi\\\"\""), Ok(text("say \"hi\"")));
}

// ---- commands and their arguments ----

#[test]
fn an_error_among_the_arguments_ends_the_command_call() {
    assert_eq!(run("Write-Output (1 / 0)"), Err(RuntimeError::DivisionByZero));
    assert_eq!(run("Write-Output 1 (2 / 0) 3"), Err(RuntimeError::DivisionByZero));
    assert_eq!(run("@(1, 2) | Select-Object -First (1 / 0)"), Err(RuntimeError::DivisionByZero));
    assert_eq!(
        run("Write-Output (Missing-Thing 1)"),
        Err(RuntimeError::UndefinedFunction("Missing-Thing".to_string()))
    );
}

#[test]
fn a_command_counts_as_a_call() {
    let mut flat = evaluator();
    flat.set_call_depth(0);
    assert_eq!(
        run_in(&mut flat, "Write-Output 1"),
        Err(RuntimeError::InvalidOperation("Call depth limit exceeded".to_string()))
    );
    assert_eq!(
        run_in(&mut flat, "@(1, 2) | Write-Output"),
        Err(RuntimeError::InvalidOperation("Call depth limit exceeded".to_string()))
    );
    assert_eq!(run_in(&mut flat, "Write-Output (1 / 0)"), Err(RuntimeError::DivisionByZero));
    assert_eq!(run_in(&mut flat, "1 + 2"), Ok(number(3.0)));
    flat.set_call_depth(1);
    assert_eq!(run_in(&mut flat, "Write-Output 1"), Ok(number(1.0)));
}

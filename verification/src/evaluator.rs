//! The evaluator: walks the syntax tree, owns the stack of scopes and the command
//! registry, and runs statements, expressions, pipelines, function calls and
//! commands.
//!
//! Every function here is proved to end as `semantics` says, wherever that
//! outcome is not `Unknown`.

use vstd::prelude::*;
use crate::ast::{
    clone_block,
    clone_parameters,
    lemma_block_view,
    lemma_statement_views,
    lemma_views,
    Argument,
    BinaryOperator,
    Block,
    Expression,
    HashEntry,
    Literal,
    Parameter,
    Pipeline,
    Program,
    Statement,
    UnaryOperator,
};
use crate::cmdlet::{has_command, Cmdlet, CmdletContext, CmdletRegistry, CmdletStep};
use crate::error::{RuntimeError, RuntimeErrorView};
use crate::number::Number;
use crate::scope::{stack_pop, ScopeStack, StackView};
use crate::semantics::{
    argument_outcome,
    at_top,
    command_outcome,
    handed_outcome,
    is_bare_word,
    Handed,
    binary_value,
    block_outcome,
    bound_outcome,
    entries_outcome,
    expression_outcome,
    folded,
    function_outcome,
    interpolated,
    invocation_outcome,
    invoked_outcome,
    items_outcome,
    last_or_null,
    literal_value,
    mapped_outcome,
    not_a_number,
    numeric_value,
    operation_name,
    pipeline_outcome,
    positional_outcome,
    program_outcome,
    property_missing,
    stage_outcome,
    statement_outcome,
    statements_outcome,
    too_deep,
    too_many_requests,
    unary_value,
    unrolled,
    values_equal,
    Outcome,
};
use crate::text::{lemma_deep_view_push, push_chars, push_text, same_text, string_from, to_lowercase};
use crate::token::StringPart;
use crate::value::{
    clone_value,
    display_chars,
    kind_name,
    lemma_value_views,
    set_in,
    Property,
    PropertyView,
    Value,
    ValueView,
};

verus! {

/// The number of calls that an evaluator lets nest, unless it is made with another.
pub const DEFAULT_CALL_DEPTH: usize = 100;

/// What ends an evaluation before its time: an error, or a `return` on its way to
/// the function call that catches it.
#[derive(Debug)]
pub enum Interrupt {
    Error(RuntimeError),
    Return(Value),
}

/// Whether the executable result `r`, with the scopes left as `stack`, is what the
/// outcome says. An outcome that a command decides says nothing.
pub open spec fn agrees<T: DeepView>(outcome: Outcome<T::V>, stack: StackView, r: Result<T, Interrupt>) -> bool {
    match outcome {
        Outcome::Done { stack: s, value } => stack == s && (r matches Ok(v) && v.deep_view() == value),
        Outcome::Returned { stack: s, value } => stack == s && (r matches Err(Interrupt::Return(v)) && v.deep_view()
            == value),
        Outcome::Failed { stack: s, error } => stack == s && (r matches Err(Interrupt::Error(e)) && e.deep_view()
            == error),
        Outcome::Unknown => true,
    }
}

/// The same, for the results that the caller of the evaluator gets.
pub open spec fn agrees_at_top(outcome: Outcome<ValueView>, stack: StackView, r: Result<Value, RuntimeError>) -> bool {
    match outcome {
        Outcome::Done { stack: s, value } => stack == s && (r matches Ok(v) && v.deep_view() == value),
        Outcome::Failed { stack: s, error } => stack == s && (r matches Err(e) && e.deep_view() == error),
        Outcome::Returned { stack: s, value } => stack == s && r is Err,
        Outcome::Unknown => true,
    }
}

/// The view of a result of an operator.
pub open spec fn result_view(r: Result<Value, RuntimeError>) -> Result<ValueView, RuntimeErrorView> {
    match r {
        Ok(v) => Ok(v.deep_view()),
        Err(e) => Err(e.deep_view()),
    }
}

/// Whether the number of scopes is as before, for a stack that has its global scope.
pub open spec fn kept_depth(before: StackView, after: StackView) -> bool {
    before.len() >= 1 ==> after.len() == before.len()
}

// ---------------------------------------------------------------------------
// Operators
// ---------------------------------------------------------------------------

fn kind_of(v: &Value) -> (r: String)
    ensures
        r@ == kind_name(v.deep_view()),
{
    match v {
        Value::Null => "null".to_owned(),
        Value::Boolean(_) => "boolean".to_owned(),
        Value::Number(_) => "number".to_owned(),
        Value::String(_) => "string".to_owned(),
        Value::Object(_) => "object".to_owned(),
        Value::Array(_) => "array".to_owned(),
        Value::Function { .. } => "function".to_owned(),
        Value::ScriptBlock(_) => "script block".to_owned(),
    }
}

fn name_of_operation(operator: BinaryOperator) -> (r: String)
    ensures
        r@ == operation_name(operator),
{
    match operator {
        BinaryOperator::Add => "addition".to_owned(),
        BinaryOperator::Subtract => "subtraction".to_owned(),
        BinaryOperator::Multiply => "multiplication".to_owned(),
        BinaryOperator::Divide => "division".to_owned(),
        BinaryOperator::Modulo => "modulo".to_owned(),
        BinaryOperator::Equal => "equality".to_owned(),
        BinaryOperator::NotEqual => "inequality".to_owned(),
        BinaryOperator::Greater => "greater than".to_owned(),
        BinaryOperator::Less => "less than".to_owned(),
        BinaryOperator::GreaterOrEqual => "greater or equal".to_owned(),
        BinaryOperator::LessOrEqual => "less or equal".to_owned(),
    }
}

fn number_mismatch(v: &Value, operation: String) -> (r: RuntimeError)
    ensures
        r.deep_view() == not_a_number(v.deep_view(), operation@),
{
    RuntimeError::TypeMismatch { expected: "number".to_owned(), got: kind_of(v), operation }
}

/// Whether two values are equal as the equality operator has it: strings without
/// regard to case, numbers as numbers, and values of different kinds never.
pub fn equal_values(left: &Value, right: &Value) -> (r: bool)
    ensures
        r == values_equal(left.deep_view(), right.deep_view()),
{
    match (left, right) {
        (Value::Null, Value::Null) => true,
        (Value::Boolean(a), Value::Boolean(b)) => *a == *b,
        (Value::Number(a), Value::Number(b)) => a.equals(*b),
        (Value::String(a), Value::String(b)) => {
            let x = to_lowercase(a.as_str());
            let y = to_lowercase(b.as_str());
            same_text(x.as_str(), y.as_str())
        },
        _ => false,
    }
}

/// The result of a numeric operator on two numbers.
fn eval_numeric(a: Number, operator: BinaryOperator, b: Number) -> (r: Result<Value, RuntimeError>)
    requires
        !(operator is Add || operator is Equal || operator is NotEqual),
    ensures
        result_view(r) == numeric_value(a@, operator, b@),
{
    match operator {
        BinaryOperator::Subtract => Ok(Value::Number(a.subtract(b))),
        BinaryOperator::Multiply => Ok(Value::Number(a.multiply(b))),
        BinaryOperator::Divide => {
            if b.is_zero() {
                Err(RuntimeError::DivisionByZero)
            } else {
                Ok(Value::Number(a.divide(b)))
            }
        },
        BinaryOperator::Modulo => Ok(Value::Number(a.remainder(b))),
        BinaryOperator::Greater => Ok(Value::Boolean(b.less_than(a))),
        BinaryOperator::Less => Ok(Value::Boolean(a.less_than(b))),
        BinaryOperator::GreaterOrEqual => Ok(Value::Boolean(b.less_than(a) || a.equals(b))),
        _ => Ok(Value::Boolean(a.less_than(b) || a.equals(b))),
    }
}

/// The result of an operator on two values.
pub fn eval_binary_op(left: &Value, operator: BinaryOperator, right: &Value) -> (r: Result<Value, RuntimeError>)
    ensures
        result_view(r) == binary_value(left.deep_view(), operator, right.deep_view()),
{
    match operator {
        BinaryOperator::Add => {
            match (left, right) {
                (Value::Number(a), Value::Number(b)) => Ok(Value::Number(a.add(*b))),
                _ => {
                    let left_is_string = matches!(left, Value::String(_));
                    let right_is_string = matches!(right, Value::String(_));
                    if left_is_string || right_is_string {
                        let mut text = display_chars(left);
                        let other = display_chars(right);
                        push_chars(&mut text, &other);
                        Ok(Value::String(string_from(&text)))
                    } else {
                        let mut got: Vec<char> = Vec::new();
                        push_text(&mut got, kind_of(left).as_str());
                        push_text(&mut got, " and ");
                        push_text(&mut got, kind_of(right).as_str());
                        Err(
                            RuntimeError::TypeMismatch {
                                expected: "number or string".to_owned(),
                                got: string_from(&got),
                                operation: "addition".to_owned(),
                            },
                        )
                    }
                },
            }
        },
        BinaryOperator::Equal => Ok(Value::Boolean(equal_values(left, right))),
        BinaryOperator::NotEqual => Ok(Value::Boolean(!equal_values(left, right))),
        _ => {
            match left.to_number() {
                None => Err(number_mismatch(left, name_of_operation(operator))),
                Some(a) => match right.to_number() {
                    None => Err(number_mismatch(right, name_of_operation(operator))),
                    Some(b) => eval_numeric(a, operator, b),
                },
            }
        },
    }
}

/// The result of an operator on one value.
pub fn eval_unary_op(operator: UnaryOperator, operand: &Value) -> (r: Result<Value, RuntimeError>)
    ensures
        result_view(r) == unary_value(operator, operand.deep_view()),
{
    match operator {
        UnaryOperator::Negate => match operand.to_number() {
            None => Err(number_mismatch(operand, "negation".to_owned())),
            Some(a) => Ok(Value::Number(a.negate())),
        },
        UnaryOperator::Not => Ok(Value::Boolean(!operand.to_bool())),
    }
}

/// The value of a pipeline's results.
pub fn fold_results(results: Vec<Value>) -> (r: Value)
    ensures
        r.deep_view() == folded(results.deep_view()),
{
    if results.len() == 0 {
        Value::Null
    } else if results.len() == 1 {
        clone_value(&results[0])
    } else {
        let r = Value::Array(results);
        proof {
            lemma_value_views(r);
        }
        r
    }
}

/// What a value brings into a pipeline.
pub fn unroll(value: Value) -> (r: Vec<Value>)
    ensures
        r.deep_view() == unrolled(value.deep_view()),
{
    proof {
        lemma_value_views(value);
    }
    match value {
        Value::Array(items) => items,
        other => {
            let mut out: Vec<Value> = Vec::new();
            out.push(other);
            assert(out.deep_view() =~= seq![other.deep_view()]);
            out
        },
    }
}

fn last_value(results: &Vec<Value>) -> (r: Value)
    ensures
        r.deep_view() == last_or_null(results.deep_view()),
{
    if results.len() == 0 {
        Value::Null
    } else {
        clone_value(&results[results.len() - 1])
    }
}

/// The value of a literal in the scopes as they are.
pub fn eval_literal(scope: &ScopeStack, literal: &Literal) -> (r: Value)
    ensures
        r.deep_view() == literal_value(scope.deep_view(), literal.deep_view()),
{
    match literal {
        Literal::Number(n) => Value::Number(*n),
        Literal::String(s) => Value::String(s.clone()),
        Literal::Boolean(b) => Value::Boolean(*b),
        Literal::Null => Value::Null,
        Literal::InterpolatedString(parts) => {
            let mut out: Vec<char> = Vec::new();
            let mut i: usize = 0;
            assert(out@ =~= interpolated(scope.deep_view(), parts.deep_view(), 0));
            while i < parts.len()
                invariant
                    i <= parts.len(),
                    out@ == interpolated(scope.deep_view(), parts.deep_view(), i as int),
                decreases parts.len() - i,
            {
                match &parts[i] {
                    StringPart::Literal(text) => {
                        push_text(&mut out, text.as_str());
                    },
                    StringPart::Variable(name) => {
                        match scope.get_variable(name.as_str()) {
                            Some(value) => {
                                let text = display_chars(&value);
                                push_chars(&mut out, &text);
                            },
                            None => {
                                assert(out@ =~= out@ + Seq::<char>::empty());
                            },
                        }
                    },
                }
                i += 1;
            }
            Value::String(string_from(&out))
        },
    }
}

fn missing_property(member: &str) -> (r: RuntimeError)
    ensures
        r.deep_view() == property_missing(member@),
{
    let mut text: Vec<char> = Vec::new();
    push_text(&mut text, "Property '");
    push_text(&mut text, member);
    push_text(&mut text, "' not found");
    let message = string_from(&text);
    assert(message@ =~= "Property '"@ + member@ + "' not found"@);
    RuntimeError::InvalidPropertyAccess(message)
}

fn depth_error() -> (r: RuntimeError)
    ensures
        r.deep_view() == too_deep(),
{
    RuntimeError::InvalidOperation("Call depth limit exceeded".to_owned())
}

fn requests_error() -> (r: RuntimeError)
    ensures
        r.deep_view() == too_many_requests(),
{
    RuntimeError::InvalidOperation("Command asked for too many script block invocations".to_owned())
}

// ---------------------------------------------------------------------------
// Expressions
// ---------------------------------------------------------------------------

/// Evaluates an expression in `scope`, with the commands of `registry`. `fuel` is
/// the number of calls that may still be nested.
pub fn eval_expression_in(scope: &mut ScopeStack, registry: &CmdletRegistry, e: &Expression, fuel: usize) -> (r: Result<
    Value,
    Interrupt,
>)
    ensures
        agrees(
            expression_outcome(old(scope).deep_view(), e.deep_view(), registry.keys(), fuel as nat),
            final(scope).deep_view(),
            r,
        ),
        kept_depth(old(scope).deep_view(), final(scope).deep_view()),
    decreases fuel, 1int, e, 0int,
{
    match e {
        Expression::Literal(literal) => Ok(eval_literal(scope, literal)),
        Expression::Variable(name) => match scope.get_variable_qualified(name.as_str()) {
            Some(value) => Ok(value),
            None => Ok(Value::Null),
        },
        Expression::BinaryOp { left, operator, right } => {
            let l = match eval_expression_in(scope, registry, left, fuel) {
                Ok(value) => value,
                Err(interrupt) => {
                    return Err(interrupt);
                },
            };
            let r = match eval_expression_in(scope, registry, right, fuel) {
                Ok(value) => value,
                Err(interrupt) => {
                    return Err(interrupt);
                },
            };
            match eval_binary_op(&l, *operator, &r) {
                Ok(value) => Ok(value),
                Err(error) => Err(Interrupt::Error(error)),
            }
        },
        Expression::UnaryOp { operator, operand } => {
            let v = match eval_expression_in(scope, registry, operand, fuel) {
                Ok(value) => value,
                Err(interrupt) => {
                    return Err(interrupt);
                },
            };
            match eval_unary_op(*operator, &v) {
                Ok(value) => Ok(value),
                Err(error) => Err(Interrupt::Error(error)),
            }
        },
        Expression::MemberAccess { object, member } => {
            let v = match eval_expression_in(scope, registry, object, fuel) {
                Ok(value) => value,
                Err(interrupt) => {
                    return Err(interrupt);
                },
            };
            match v.get_property(member.as_str()) {
                Some(value) => Ok(value),
                None => Err(Interrupt::Error(missing_property(member.as_str()))),
            }
        },
        Expression::ScriptBlock(body) => Ok(Value::ScriptBlock(clone_block(body))),
        Expression::Array(items) => {
            proof {
                lemma_views(*e);
            }
            match eval_items(scope, registry, items, fuel) {
                Ok(values) => {
                    let value = Value::Array(values);
                    proof {
                        lemma_value_views(value);
                    }
                    Ok(value)
                },
                Err(interrupt) => Err(interrupt),
            }
        },
        Expression::Hashtable(entries) => {
            proof {
                lemma_views(*e);
            }
            match eval_entries(scope, registry, entries, fuel) {
                Ok(properties) => {
                    let value = Value::Object(properties);
                    proof {
                        lemma_value_views(value);
                    }
                    Ok(value)
                },
                Err(interrupt) => Err(interrupt),
            }
        },
        Expression::Call { name, arguments } => {
            proof {
                lemma_views(*e);
            }
            match scope.get_variable(name.as_str()) {
                Some(Value::Function { name: _, parameters, body }) => {
                    if fuel == 0 {
                        return Err(Interrupt::Error(depth_error()));
                    }
                    let values = match eval_positional(scope, registry, arguments, fuel) {
                        Ok(values) => values,
                        Err(interrupt) => {
                            return Err(interrupt);
                        },
                    };
                    proof {
                        lemma_block_view(body);
                    }
                    call_function(scope, registry, &parameters, &body.statements, &values, fuel - 1)
                },
                _ => {
                    if !registry.contains(name.as_str()) {
                        return Err(Interrupt::Error(RuntimeError::UndefinedFunction(name.clone())));
                    }
                    proof {
                        let stack = scope.deep_view();
                        let commands = registry.keys();
                        let results = command_outcome::<Seq<ValueView>>(
                            stack,
                            arguments.deep_view(),
                            commands,
                            fuel as nat,
                        );
                        let value = command_outcome::<ValueView>(stack, arguments.deep_view(), commands, fuel as nat);
                        assert(value == crate::semantics::carried::<Seq<ValueView>, ValueView>(results));
                    }
                    match run_command(scope, registry, name.as_str(), arguments, Vec::new(), fuel) {
                        Ok(results) => Ok(last_value(&results)),
                        Err(interrupt) => Err(interrupt),
                    }
                },
            }
        },
    }
}

/// Evaluates the items of an array literal in turn.
#[verifier::loop_isolation(false)]
pub fn eval_items(scope: &mut ScopeStack, registry: &CmdletRegistry, items: &Vec<Expression>, fuel: usize) -> (r: Result<
    Vec<Value>,
    Interrupt,
>)
    ensures
        agrees(
            items_outcome(old(scope).deep_view(), items.deep_view(), 0, Seq::empty(), registry.keys(), fuel as nat),
            final(scope).deep_view(),
            r,
        ),
        kept_depth(old(scope).deep_view(), final(scope).deep_view()),
    decreases fuel, 1int, items, 0int,
{
    let ghost total = items_outcome(
        old(scope).deep_view(),
        items.deep_view(),
        0,
        Seq::empty(),
        registry.keys(),
        fuel as nat,
    );
    let mut values: Vec<Value> = Vec::new();
    let mut i: usize = 0;
    assert(values.deep_view() =~= Seq::<ValueView>::empty());
    while i < items.len()
        invariant
            i <= items.len(),
            kept_depth(old(scope).deep_view(), scope.deep_view()),
            total is Unknown || items_outcome(
                scope.deep_view(),
                items.deep_view(),
                i as int,
                values.deep_view(),
                registry.keys(),
                fuel as nat,
            ) == total,
        decreases items.len() - i,
    {
        let ghost before = values;
        match eval_expression_in(scope, registry, &items[i], fuel) {
            Ok(value) => {
                values.push(value);
                proof {
                    lemma_deep_view_push(before, values, value);
                }
            },
            Err(interrupt) => {
                return Err(interrupt);
            },
        }
        i += 1;
    }
    Ok(values)
}

/// Evaluates the entries of a hashtable literal in turn.
#[verifier::loop_isolation(false)]
pub fn eval_entries(scope: &mut ScopeStack, registry: &CmdletRegistry, entries: &Vec<HashEntry>, fuel: usize) -> (r: Result<
    Vec<Property>,
    Interrupt,
>)
    ensures
        agrees(
            entries_outcome(old(scope).deep_view(), entries.deep_view(), 0, Seq::empty(), registry.keys(), fuel as nat),
            final(scope).deep_view(),
            r,
        ),
        kept_depth(old(scope).deep_view(), final(scope).deep_view()),
    decreases fuel, 1int, entries, 0int,
{
    let ghost total = entries_outcome(
        old(scope).deep_view(),
        entries.deep_view(),
        0,
        Seq::empty(),
        registry.keys(),
        fuel as nat,
    );
    let mut properties: Vec<Property> = Vec::new();
    let mut i: usize = 0;
    assert(properties.deep_view() =~= Seq::<PropertyView>::empty());
    while i < entries.len()
        invariant
            i <= entries.len(),
            kept_depth(old(scope).deep_view(), scope.deep_view()),
            total is Unknown || entries_outcome(
                scope.deep_view(),
                entries.deep_view(),
                i as int,
                properties.deep_view(),
                registry.keys(),
                fuel as nat,
            ) == total,
        decreases entries.len() - i,
    {
        match eval_expression_in(scope, registry, &entries[i].value, fuel) {
            Ok(value) => {
                set_in(&mut properties, entries[i].key.as_str(), value);
            },
            Err(interrupt) => {
                return Err(interrupt);
            },
        }
        i += 1;
    }
    Ok(properties)
}

/// Evaluates the positional arguments of a function call in turn.
#[verifier::loop_isolation(false)]
pub fn eval_positional(scope: &mut ScopeStack, registry: &CmdletRegistry, arguments: &Vec<Argument>, fuel: usize) -> (r: Result<
    Vec<Value>,
    Interrupt,
>)
    ensures
        agrees(
            positional_outcome(
                old(scope).deep_view(),
                arguments.deep_view(),
                0,
                Seq::empty(),
                registry.keys(),
                fuel as nat,
            ),
            final(scope).deep_view(),
            r,
        ),
        kept_depth(old(scope).deep_view(), final(scope).deep_view()),
    decreases fuel, 1int, arguments, 0int,
{
    let ghost total = positional_outcome(
        old(scope).deep_view(),
        arguments.deep_view(),
        0,
        Seq::empty(),
        registry.keys(),
        fuel as nat,
    );
    let mut values: Vec<Value> = Vec::new();
    let mut i: usize = 0;
    assert(values.deep_view() =~= Seq::<ValueView>::empty());
    while i < arguments.len()
        invariant
            i <= arguments.len(),
            kept_depth(old(scope).deep_view(), scope.deep_view()),
            total is Unknown || positional_outcome(
                scope.deep_view(),
                arguments.deep_view(),
                i as int,
                values.deep_view(),
                registry.keys(),
                fuel as nat,
            ) == total,
        decreases arguments.len() - i,
    {
        let ghost before = values;
        match &arguments[i] {
            Argument::Positional(e) => {
                match eval_expression_in(scope, registry, e, fuel) {
                    Ok(value) => {
                        values.push(value);
                        proof {
                            lemma_deep_view_push(before, values, value);
                        }
                    },
                    Err(interrupt) => {
                        return Err(interrupt);
                    },
                }
            },
            Argument::Named { .. } => {},
        }
        i += 1;
    }
    Ok(values)
}

/// Takes the current scope off and passes a result on.
fn leave<T>(scope: &mut ScopeStack, r: Result<T, Interrupt>) -> (out: Result<T, Interrupt>)
    ensures
        final(scope).deep_view() == stack_pop(old(scope).deep_view()),
        out == r,
{
    let _ = scope.pop_scope();
    r
}

/// Calls a function on the values of its arguments.
pub fn call_function(
    scope: &mut ScopeStack,
    registry: &CmdletRegistry,
    parameters: &Vec<Parameter>,
    statements: &Vec<Statement>,
    arguments: &Vec<Value>,
    fuel: usize,
) -> (r: Result<Value, Interrupt>)
    ensures
        agrees(
            function_outcome(
                old(scope).deep_view(),
                (parameters.deep_view(), statements.deep_view()),
                arguments.deep_view(),
                registry.keys(),
                fuel as nat,
            ),
            final(scope).deep_view(),
            r,
        ),
        kept_depth(old(scope).deep_view(), final(scope).deep_view()),
    decreases fuel, 2int, parameters, 0int,
{
    scope.push_scope();
    match bind_parameters(scope, registry, parameters, arguments, fuel) {
        Ok(()) => {},
        Err(interrupt) => {
            return leave(scope, Err(interrupt));
        },
    }
    match eval_statements(scope, registry, statements, fuel) {
        Ok(value) => leave(scope, Ok(value)),
        Err(Interrupt::Return(value)) => leave(scope, Ok(value)),
        Err(interrupt) => leave(scope, Err(interrupt)),
    }
}

/// Binds the parameters of a function in the current scope.
#[verifier::loop_isolation(false)]
pub fn bind_parameters(
    scope: &mut ScopeStack,
    registry: &CmdletRegistry,
    parameters: &Vec<Parameter>,
    arguments: &Vec<Value>,
    fuel: usize,
) -> (r: Result<(), Interrupt>)
    ensures
        agrees(
            bound_outcome(
                old(scope).deep_view(),
                parameters.deep_view(),
                0,
                arguments.deep_view(),
                registry.keys(),
                fuel as nat,
            ),
            final(scope).deep_view(),
            r,
        ),
        kept_depth(old(scope).deep_view(), final(scope).deep_view()),
    decreases fuel, 1int, parameters, 0int,
{
    let ghost total = bound_outcome(
        old(scope).deep_view(),
        parameters.deep_view(),
        0,
        arguments.deep_view(),
        registry.keys(),
        fuel as nat,
    );
    let mut i: usize = 0;
    while i < parameters.len()
        invariant
            i <= parameters.len(),
            kept_depth(old(scope).deep_view(), scope.deep_view()),
            total is Unknown || bound_outcome(
                scope.deep_view(),
                parameters.deep_view(),
                i as int,
                arguments.deep_view(),
                registry.keys(),
                fuel as nat,
            ) == total,
        decreases parameters.len() - i,
    {
        let value = if i < arguments.len() {
            clone_value(&arguments[i])
        } else {
            match &parameters[i].default_value {
                None => Value::Null,
                Some(e) => match eval_expression_in(scope, registry, e, fuel) {
                    Ok(value) => value,
                    Err(interrupt) => {
                        return Err(interrupt);
                    },
                },
            }
        };
        scope.define_variable(parameters[i].name.as_str(), value);
        i += 1;
    }
    Ok(())
}

// ---------------------------------------------------------------------------
// Statements
// ---------------------------------------------------------------------------

/// Evaluates a statement.
pub fn eval_statement_in(scope: &mut ScopeStack, registry: &CmdletRegistry, s: &Statement, fuel: usize) -> (r: Result<
    Value,
    Interrupt,
>)
    ensures
        agrees(
            statement_outcome(old(scope).deep_view(), s.deep_view(), registry.keys(), fuel as nat),
            final(scope).deep_view(),
            r,
        ),
        kept_depth(old(scope).deep_view(), final(scope).deep_view()),
    decreases fuel, 1int, s, 0int,
{
    proof {
        lemma_statement_views(*s);
    }
    match s {
        Statement::Expression(e) => eval_expression_in(scope, registry, e, fuel),
        Statement::Assignment { variable, value } => {
            match eval_expression_in(scope, registry, value, fuel) {
                Ok(v) => {
                    scope.set_variable_qualified(variable.as_str(), v);
                    Ok(Value::Null)
                },
                Err(interrupt) => Err(interrupt),
            }
        },
        Statement::FunctionDef { name, parameters, body } => {
            let function = Value::Function {
                name: name.clone(),
                parameters: clone_parameters(parameters),
                body: clone_block(body),
            };
            proof {
                lemma_block_view(*body);
            }
            scope.define_variable(name.as_str(), function);
            Ok(Value::Null)
        },
        Statement::If { condition, then_branch, else_branch } => {
            let c = match eval_expression_in(scope, registry, condition, fuel) {
                Ok(value) => value,
                Err(interrupt) => {
                    return Err(interrupt);
                },
            };
            if c.to_bool() {
                eval_block_in(scope, registry, &then_branch.statements, fuel)
            } else {
                match else_branch {
                    Some(block) => {
                        proof {
                            lemma_block_view(*block);
                        }
                        eval_block_in(scope, registry, &block.statements, fuel)
                    },
                    None => Ok(Value::Null),
                }
            }
        },
        Statement::Return(value) => match value {
            None => Err(Interrupt::Return(Value::Null)),
            Some(e) => match eval_expression_in(scope, registry, e, fuel) {
                Ok(v) => Err(Interrupt::Return(v)),
                Err(interrupt) => Err(interrupt),
            },
        },
        Statement::Pipeline(pipeline) => {
            match run_pipeline(scope, registry, &pipeline.stages, fuel) {
                Ok(results) => Ok(fold_results(results)),
                Err(interrupt) => Err(interrupt),
            }
        },
    }
}

/// Evaluates statements in turn; the value is that of the last one.
#[verifier::loop_isolation(false)]
pub fn eval_statements(scope: &mut ScopeStack, registry: &CmdletRegistry, statements: &Vec<Statement>, fuel: usize) -> (r: Result<
    Value,
    Interrupt,
>)
    ensures
        agrees(
            statements_outcome(
                old(scope).deep_view(),
                statements.deep_view(),
                0,
                ValueView::Null,
                registry.keys(),
                fuel as nat,
            ),
            final(scope).deep_view(),
            r,
        ),
        kept_depth(old(scope).deep_view(), final(scope).deep_view()),
    decreases fuel, 1int, statements, 0int,
{
    let ghost total = statements_outcome(
        old(scope).deep_view(),
        statements.deep_view(),
        0,
        ValueView::Null,
        registry.keys(),
        fuel as nat,
    );
    let mut last = Value::Null;
    let mut i: usize = 0;
    while i < statements.len()
        invariant
            i <= statements.len(),
            kept_depth(old(scope).deep_view(), scope.deep_view()),
            total is Unknown || statements_outcome(
                scope.deep_view(),
                statements.deep_view(),
                i as int,
                last.deep_view(),
                registry.keys(),
                fuel as nat,
            ) == total,
        decreases statements.len() - i,
    {
        match eval_statement_in(scope, registry, &statements[i], fuel) {
            Ok(value) => {
                last = value;
            },
            Err(interrupt) => {
                return Err(interrupt);
            },
        }
        i += 1;
    }
    Ok(last)
}

/// Evaluates the statements of a block in a scope of their own.
pub fn eval_block_in(scope: &mut ScopeStack, registry: &CmdletRegistry, statements: &Vec<Statement>, fuel: usize) -> (r: Result<
    Value,
    Interrupt,
>)
    ensures
        agrees(
            block_outcome(old(scope).deep_view(), statements.deep_view(), registry.keys(), fuel as nat),
            final(scope).deep_view(),
            r,
        ),
        kept_depth(old(scope).deep_view(), final(scope).deep_view()),
    decreases fuel, 1int, statements, 1int,
{
    scope.push_scope();
    let r = eval_statements(scope, registry, statements, fuel);
    leave(scope, r)
}

// ---------------------------------------------------------------------------
// Pipelines
// ---------------------------------------------------------------------------

/// Runs the stages of a pipeline in turn: each gets what the one before it gave.
#[verifier::loop_isolation(false)]
pub fn run_pipeline(scope: &mut ScopeStack, registry: &CmdletRegistry, stages: &Vec<Expression>, fuel: usize) -> (r: Result<
    Vec<Value>,
    Interrupt,
>)
    ensures
        agrees(
            pipeline_outcome(old(scope).deep_view(), stages.deep_view(), 0, Seq::empty(), registry.keys(), fuel as nat),
            final(scope).deep_view(),
            r,
        ),
        kept_depth(old(scope).deep_view(), final(scope).deep_view()),
    decreases fuel, 1int, stages, 0int,
{
    let ghost total = pipeline_outcome(
        old(scope).deep_view(),
        stages.deep_view(),
        0,
        Seq::empty(),
        registry.keys(),
        fuel as nat,
    );
    let mut current: Vec<Value> = Vec::new();
    let mut i: usize = 0;
    assert(current.deep_view() =~= Seq::<ValueView>::empty());
    while i < stages.len()
        invariant
            i <= stages.len(),
            kept_depth(old(scope).deep_view(), scope.deep_view()),
            total is Unknown || pipeline_outcome(
                scope.deep_view(),
                stages.deep_view(),
                i as int,
                current.deep_view(),
                registry.keys(),
                fuel as nat,
            ) == total,
        decreases stages.len() - i,
    {
        match run_stage(scope, registry, &stages[i], current, fuel) {
            Ok(output) => {
                current = output;
            },
            Err(interrupt) => {
                return Err(interrupt);
            },
        }
        i += 1;
    }
    Ok(current)
}

/// Runs one stage of a pipeline on its input.
pub fn run_stage(scope: &mut ScopeStack, registry: &CmdletRegistry, stage: &Expression, input: Vec<Value>, fuel: usize) -> (r: Result<
    Vec<Value>,
    Interrupt,
>)
    ensures
        agrees(
            stage_outcome(old(scope).deep_view(), stage.deep_view(), input.deep_view(), registry.keys(), fuel as nat),
            final(scope).deep_view(),
            r,
        ),
        kept_depth(old(scope).deep_view(), final(scope).deep_view()),
    decreases fuel, 1int, stage, 2int,
{
    proof {
        lemma_views(*stage);
    }
    match stage {
        Expression::Call { name, arguments } => {
            if !registry.contains(name.as_str()) {
                return Err(Interrupt::Error(RuntimeError::UndefinedFunction(name.clone())));
            }
            run_command(scope, registry, name.as_str(), arguments, input, fuel)
        },
        Expression::ScriptBlock(body) => {
            if input.len() > 0 {
                invoke_each(scope, registry, &body.statements, &input, fuel)
            } else {
                let mut out: Vec<Value> = Vec::new();
                let value = Value::ScriptBlock(clone_block(body));
                out.push(value);
                assert(out.deep_view() =~= seq![value.deep_view()]);
                proof {
                    lemma_block_view(*body);
                }
                Ok(out)
            }
        },
        _ => {
            if input.len() > 0 {
                map_items(scope, registry, stage, &input, fuel)
            } else {
                match eval_expression_in(scope, registry, stage, fuel) {
                    Ok(value) => Ok(unroll(value)),
                    Err(interrupt) => Err(interrupt),
                }
            }
        },
    }
}

/// Invokes the statements of a script block with `$_` bound to `item`, in a scope
/// of their own.
pub fn invoke_block(scope: &mut ScopeStack, registry: &CmdletRegistry, statements: &Vec<Statement>, item: Value, fuel: usize) -> (r: Result<
    Value,
    Interrupt,
>)
    ensures
        agrees(
            invocation_outcome(
                old(scope).deep_view(),
                statements.deep_view(),
                item.deep_view(),
                registry.keys(),
                fuel as nat,
            ),
            final(scope).deep_view(),
            r,
        ),
        kept_depth(old(scope).deep_view(), final(scope).deep_view()),
    decreases fuel, 1int, statements, 1int,
{
    scope.push_scope();
    scope.define_variable("_", item);
    let r = eval_statements(scope, registry, statements, fuel);
    leave(scope, r)
}

/// Invokes the statements of a script block once for each item, in the order of the
/// items; there is one result for each item.
#[verifier::loop_isolation(false)]
pub fn invoke_each(scope: &mut ScopeStack, registry: &CmdletRegistry, statements: &Vec<Statement>, input: &Vec<Value>, fuel: usize) -> (r: Result<
    Vec<Value>,
    Interrupt,
>)
    ensures
        agrees(
            invoked_outcome(
                old(scope).deep_view(),
                statements.deep_view(),
                input.deep_view(),
                0,
                Seq::empty(),
                registry.keys(),
                fuel as nat,
            ),
            final(scope).deep_view(),
            r,
        ),
        kept_depth(old(scope).deep_view(), final(scope).deep_view()),
        r matches Ok(results) ==> results.len() == input.len(),
    decreases fuel, 1int, statements, 2int,
{
    let ghost total = invoked_outcome(
        old(scope).deep_view(),
        statements.deep_view(),
        input.deep_view(),
        0,
        Seq::empty(),
        registry.keys(),
        fuel as nat,
    );
    let mut results: Vec<Value> = Vec::new();
    let mut k: usize = 0;
    assert(results.deep_view() =~= Seq::<ValueView>::empty());
    while k < input.len()
        invariant
            k <= input.len(),
            results.len() == k,
            kept_depth(old(scope).deep_view(), scope.deep_view()),
            total is Unknown || invoked_outcome(
                scope.deep_view(),
                statements.deep_view(),
                input.deep_view(),
                k as int,
                results.deep_view(),
                registry.keys(),
                fuel as nat,
            ) == total,
        decreases input.len() - k,
    {
        let ghost before = results;
        match invoke_block(scope, registry, statements, clone_value(&input[k]), fuel) {
            Ok(value) => {
                results.push(value);
                proof {
                    lemma_deep_view_push(before, results, value);
                }
            },
            Err(interrupt) => {
                return Err(interrupt);
            },
        }
        k += 1;
    }
    Ok(results)
}

/// Evaluates an expression once for each item, with `$_` assigned the item.
#[verifier::loop_isolation(false)]
pub fn map_items(scope: &mut ScopeStack, registry: &CmdletRegistry, stage: &Expression, input: &Vec<Value>, fuel: usize) -> (r: Result<
    Vec<Value>,
    Interrupt,
>)
    ensures
        agrees(
            mapped_outcome(
                old(scope).deep_view(),
                stage.deep_view(),
                input.deep_view(),
                0,
                Seq::empty(),
                registry.keys(),
                fuel as nat,
            ),
            final(scope).deep_view(),
            r,
        ),
        kept_depth(old(scope).deep_view(), final(scope).deep_view()),
        r matches Ok(results) ==> results.len() == input.len(),
    decreases fuel, 1int, stage, 1int,
{
    let ghost total = mapped_outcome(
        old(scope).deep_view(),
        stage.deep_view(),
        input.deep_view(),
        0,
        Seq::empty(),
        registry.keys(),
        fuel as nat,
    );
    let mut results: Vec<Value> = Vec::new();
    let mut k: usize = 0;
    assert(results.deep_view() =~= Seq::<ValueView>::empty());
    while k < input.len()
        invariant
            k <= input.len(),
            results.len() == k,
            kept_depth(old(scope).deep_view(), scope.deep_view()),
            total is Unknown || mapped_outcome(
                scope.deep_view(),
                stage.deep_view(),
                input.deep_view(),
                k as int,
                results.deep_view(),
                registry.keys(),
                fuel as nat,
            ) == total,
        decreases input.len() - k,
    {
        let ghost before = results;
        scope.set_variable("_", clone_value(&input[k]));
        match eval_expression_in(scope, registry, stage, fuel) {
            Ok(value) => {
                results.push(value);
                proof {
                    lemma_deep_view_push(before, results, value);
                }
            },
            Err(interrupt) => {
                return Err(interrupt);
            },
        }
        k += 1;
    }
    Ok(results)
}

// ---------------------------------------------------------------------------
// Commands
// ---------------------------------------------------------------------------

/// Whether the executable result of evaluating the arguments of a command call is
/// what the outcome says.
pub open spec fn agrees_with_context(
    outcome: Outcome<Handed>,
    stack: StackView,
    r: Result<CmdletContext, Interrupt>,
    input: Vec<Value>,
) -> bool {
    match outcome {
        Outcome::Done { stack: s, value } => stack == s && (r matches Ok(context) && context.pipeline_input == input
            && context.parameters.deep_view() == value.parameters && context.arguments.deep_view()
            == value.arguments),
        Outcome::Failed { stack: s, error } => stack == s && (r matches Err(Interrupt::Error(e)) && e.deep_view()
            == error),
        Outcome::Returned { stack: s, value } => stack == s && (r matches Err(Interrupt::Return(v)) && v.deep_view()
            == value),
        Outcome::Unknown => true,
    }
}

/// Evaluates an argument of a command. A bare word, that is a call without
/// arguments of a name that is neither a function nor a command, stands for its own
/// text.
pub fn eval_argument(scope: &mut ScopeStack, registry: &CmdletRegistry, e: &Expression, fuel: usize) -> (r: Result<
    Value,
    Interrupt,
>)
    ensures
        kept_depth(old(scope).deep_view(), final(scope).deep_view()),
        agrees(
            argument_outcome(old(scope).deep_view(), e.deep_view(), registry.keys(), fuel as nat),
            final(scope).deep_view(),
            r,
        ),
    decreases fuel, 1int, e, 1int,
{
    proof {
        lemma_views(*e);
    }
    match e {
        Expression::Call { name, arguments } => {
            if arguments.len() == 0 && !registry.contains(name.as_str()) {
                match scope.get_variable(name.as_str()) {
                    Some(Value::Function { .. }) => {},
                    _ => {
                        return Ok(Value::String(name.clone()));
                    },
                }
            }
        },
        _ => {},
    }
    eval_expression_in(scope, registry, e, fuel)
}

/// Evaluates the arguments of a command call into the context that the command is
/// handed, with the given pipeline input.
#[verifier::loop_isolation(false)]
pub fn build_context(scope: &mut ScopeStack, registry: &CmdletRegistry, arguments: &Vec<Argument>, input: Vec<Value>, fuel: usize) -> (r: Result<
    CmdletContext,
    Interrupt,
>)
    ensures
        kept_depth(old(scope).deep_view(), final(scope).deep_view()),
        agrees_with_context(
            handed_outcome(
                old(scope).deep_view(),
                arguments.deep_view(),
                0,
                Handed { parameters: Seq::empty(), arguments: Seq::empty() },
                registry.keys(),
                fuel as nat,
            ),
            final(scope).deep_view(),
            r,
            input,
        ),
    decreases fuel, 1int, arguments, 2int,
{
    let ghost total = handed_outcome(
        old(scope).deep_view(),
        arguments.deep_view(),
        0,
        Handed { parameters: Seq::empty(), arguments: Seq::empty() },
        registry.keys(),
        fuel as nat,
    );
    let mut context = CmdletContext::with_input(input);
    let mut positional: Vec<Value> = Vec::new();
    let mut i: usize = 0;
    assert(positional.deep_view() =~= Seq::<ValueView>::empty());
    while i < arguments.len()
        invariant
            i <= arguments.len(),
            context.pipeline_input == input,
            kept_depth(old(scope).deep_view(), scope.deep_view()),
            total is Unknown || handed_outcome(
                scope.deep_view(),
                arguments.deep_view(),
                i as int,
                Handed { parameters: context.parameters.deep_view(), arguments: positional.deep_view() },
                registry.keys(),
                fuel as nat,
            ) == total,
        decreases arguments.len() - i,
    {
        let ghost before = positional;
        match &arguments[i] {
            Argument::Positional(e) => {
                match eval_argument(scope, registry, e, fuel) {
                    Ok(value) => {
                        positional.push(value);
                        proof {
                            lemma_deep_view_push(before, positional, value);
                        }
                    },
                    Err(interrupt) => {
                        return Err(interrupt);
                    },
                }
            },
            Argument::Named { name, value } => {
                match eval_argument(scope, registry, value, fuel) {
                    Ok(v) => {
                        context = context.with_parameter(name.clone(), v);
                    },
                    Err(interrupt) => {
                        return Err(interrupt);
                    },
                }
            },
        }
        i += 1;
    }
    Ok(context.with_arguments(positional))
}

/// What the evaluator does with the answer of a command.
pub enum Progress {
    /// The command is done, with these results.
    Finished(Vec<Value>),
    /// The command goes on, with one more reply.
    Replied,
}

/// What following an answer of a command comes to: an error of the command is the
/// error of the call; results are the results of the call; a request is met by
/// invoking the block with `$_` bound to the item, and the value of the invocation
/// is the next reply.
pub open spec fn followed(
    stack: StackView,
    answer: Result<CmdletStep, RuntimeError>,
    commands: Seq<Seq<char>>,
    fuel: nat,
) -> Outcome<Option<Seq<ValueView>>> {
    match answer {
        Err(e) => Outcome::Failed { stack, error: e.deep_view() },
        Ok(CmdletStep::Done(results)) => Outcome::Done { stack, value: Some(results.deep_view()) },
        Ok(CmdletStep::Invoke { block, item }) => match invocation_outcome(
            stack,
            block.deep_view(),
            item.deep_view(),
            commands,
            fuel,
        ) {
            Outcome::Done { stack: s, value } => Outcome::Done { stack: s, value: None },
            other => crate::semantics::carried(other),
        },
    }
}

/// The value that meeting the request of a command gives.
pub open spec fn reply_value(
    stack: StackView,
    answer: Result<CmdletStep, RuntimeError>,
    commands: Seq<Seq<char>>,
    fuel: nat,
) -> ValueView {
    match answer {
        Ok(CmdletStep::Invoke { block, item }) => match invocation_outcome(
            stack,
            block.deep_view(),
            item.deep_view(),
            commands,
            fuel,
        ) {
            Outcome::Done { stack: s, value } => value,
            _ => ValueView::Null,
        },
        _ => ValueView::Null,
    }
}

/// Whether the executable result of following an answer is what the outcome says.
pub open spec fn agrees_with_step(
    outcome: Outcome<Option<Seq<ValueView>>>,
    reply: ValueView,
    stack: StackView,
    r: Result<Progress, Interrupt>,
    before: Seq<ValueView>,
    after: Seq<ValueView>,
) -> bool {
    match outcome {
        Outcome::Done { stack: s, value } => stack == s && match value {
            Some(results) => (r matches Ok(Progress::Finished(values)) && values.deep_view() == results) && after
                == before,
            None => (r matches Ok(Progress::Replied)) && after == before.push(reply),
        },
        Outcome::Failed { stack: s, error } => stack == s && (r matches Err(Interrupt::Error(e)) && e.deep_view()
            == error),
        Outcome::Returned { stack: s, value } => stack == s && (r matches Err(Interrupt::Return(v)) && v.deep_view()
            == value),
        Outcome::Unknown => true,
    }
}

/// Follows the answer of a command: see `followed`. A reply is added to `replies`.
pub fn follow_step(
    scope: &mut ScopeStack,
    registry: &CmdletRegistry,
    answer: Result<CmdletStep, RuntimeError>,
    replies: &mut Vec<Value>,
    fuel: usize,
) -> (r: Result<Progress, Interrupt>)
    ensures
        kept_depth(old(scope).deep_view(), final(scope).deep_view()),
        agrees_with_step(
            followed(old(scope).deep_view(), answer, registry.keys(), fuel as nat),
            reply_value(old(scope).deep_view(), answer, registry.keys(), fuel as nat),
            final(scope).deep_view(),
            r,
            old(replies).deep_view(),
            final(replies).deep_view(),
        ),
        r matches Ok(Progress::Replied) ==> final(replies).len() == old(replies).len() + 1,
    decreases fuel, 2int, answer, 0int,
{
    match answer {
        Err(error) => Err(Interrupt::Error(error)),
        Ok(CmdletStep::Done(results)) => Ok(Progress::Finished(results)),
        Ok(CmdletStep::Invoke { block, item }) => {
            proof {
                lemma_block_view(block);
            }
            match invoke_block(scope, registry, &block.statements, item, fuel) {
                Ok(value) => {
                    let ghost before = *replies;
                    replies.push(value);
                    proof {
                        lemma_deep_view_push(before, *replies, value);
                    }
                    Ok(Progress::Replied)
                },
                Err(interrupt) => Err(interrupt),
            }
        },
    }
}

/// Runs a command on a context: calls it and follows its answer, again and again,
/// until it is done or fails. The replies that it is called with are the values of
/// the invocations that it has asked for, in the order of its requests. A command
/// counts as one call among the calls that may nest.
pub fn drive_command(scope: &mut ScopeStack, registry: &CmdletRegistry, cmdlet: &Box<dyn Cmdlet>, context: &CmdletContext, fuel: usize) -> (r: Result<
    Vec<Value>,
    Interrupt,
>)
    ensures
        kept_depth(old(scope).deep_view(), final(scope).deep_view()),
        fuel == 0 ==> (r matches Err(Interrupt::Error(e)) && e.deep_view() == too_deep()) && final(scope).deep_view()
            == old(scope).deep_view(),
    decreases fuel, 0int, context, 0int,
{
    if fuel == 0 {
        return Err(Interrupt::Error(depth_error()));
    }
    let mut replies: Vec<Value> = Vec::new();
    let mut budget: usize = usize::MAX;
    while budget > 0
        invariant
            fuel > 0,
            kept_depth(old(scope).deep_view(), scope.deep_view()),
        decreases budget,
    {
        budget = budget - 1;
        let answer = cmdlet.execute(context, &replies);
        match follow_step(scope, registry, answer, &mut replies, fuel - 1) {
            Ok(Progress::Finished(results)) => {
                return Ok(results);
            },
            Ok(Progress::Replied) => {},
            Err(interrupt) => {
                return Err(interrupt);
            },
        }
    }
    Err(Interrupt::Error(requests_error()))
}

/// Calls the registered command `name` with the values of `arguments` and with
/// `input` as its pipeline input.
pub fn run_command(
    scope: &mut ScopeStack,
    registry: &CmdletRegistry,
    name: &str,
    arguments: &Vec<Argument>,
    input: Vec<Value>,
    fuel: usize,
) -> (r: Result<Vec<Value>, Interrupt>)
    ensures
        kept_depth(old(scope).deep_view(), final(scope).deep_view()),
        !has_command(registry.keys(), name@) ==> (r matches Err(Interrupt::Error(e)) && e.deep_view()
            == RuntimeErrorView::UndefinedFunction(name@)) && final(scope).deep_view() == old(scope).deep_view(),
        has_command(registry.keys(), name@) ==> agrees(
            command_outcome::<Seq<ValueView>>(old(scope).deep_view(), arguments.deep_view(), registry.keys(), fuel as nat),
            final(scope).deep_view(),
            r,
        ),
    decreases fuel, 1int, arguments, 3int,
{
    match registry.get(name) {
        None => {
            let mut text: Vec<char> = Vec::new();
            push_text(&mut text, name);
            Err(Interrupt::Error(RuntimeError::UndefinedFunction(string_from(&text))))
        },
        Some(cmdlet) => {
            match build_context(scope, registry, arguments, input, fuel) {
                Err(interrupt) => Err(interrupt),
                Ok(context) => drive_command(scope, registry, cmdlet, &context, fuel),
            }
        },
    }
}

// ---------------------------------------------------------------------------
// The evaluator
// ---------------------------------------------------------------------------

/// The evaluator: the scopes of a program run, the commands, and the number of
/// calls that may nest.
pub struct Evaluator {
    scope: ScopeStack,
    cmdlet_registry: CmdletRegistry,
    max_depth: usize,
}

fn at_top_level(r: Result<Value, Interrupt>) -> (out: Result<Value, RuntimeError>)
    ensures
        match r {
            Ok(v) => out == Ok::<Value, RuntimeError>(v),
            Err(Interrupt::Error(e)) => out == Err::<Value, RuntimeError>(e),
            Err(Interrupt::Return(_)) => out == Err::<Value, RuntimeError>(RuntimeError::ReturnOutsideFunction),
        },
{
    match r {
        Ok(value) => Ok(value),
        Err(Interrupt::Error(error)) => Err(error),
        Err(Interrupt::Return(_)) => Err(RuntimeError::ReturnOutsideFunction),
    }
}

fn results_at_top_level(r: Result<Vec<Value>, Interrupt>) -> (out: Result<Vec<Value>, RuntimeError>)
    ensures
        match r {
            Ok(v) => out == Ok::<Vec<Value>, RuntimeError>(v),
            Err(Interrupt::Error(e)) => out == Err::<Vec<Value>, RuntimeError>(e),
            Err(Interrupt::Return(_)) => out == Err::<Vec<Value>, RuntimeError>(RuntimeError::ReturnOutsideFunction),
        },
{
    match r {
        Ok(value) => Ok(value),
        Err(Interrupt::Error(error)) => Err(error),
        Err(Interrupt::Return(_)) => Err(RuntimeError::ReturnOutsideFunction),
    }
}

impl Evaluator {
    /// The scopes, the global one first.
    pub closed spec fn scopes(&self) -> StackView {
        self.scope.deep_view()
    }

    /// The keys of the registered commands.
    pub closed spec fn commands(&self) -> Seq<Seq<char>> {
        self.cmdlet_registry.keys()
    }

    /// The registered commands by name.
    pub closed spec fn command_table(&self) -> crate::cmdlet::NameTable<Box<dyn Cmdlet>> {
        self.cmdlet_registry.table()
    }

    /// The number of calls that may nest.
    pub closed spec fn call_depth(&self) -> nat {
        self.max_depth as nat
    }

    /// An evaluator with the global scope alone and without commands.
    pub fn new() -> (r: Evaluator)
        ensures
            r.scopes() == seq![Seq::<PropertyView>::empty()],
            r.commands() == Seq::<Seq<char>>::empty(),
            r.call_depth() == DEFAULT_CALL_DEPTH,
    {
        Evaluator { scope: ScopeStack::new(), cmdlet_registry: CmdletRegistry::new(), max_depth: DEFAULT_CALL_DEPTH }
    }

    /// An evaluator with the global scope alone and with the commands of `registry`.
    pub fn with_registry(registry: CmdletRegistry) -> (r: Evaluator)
        ensures
            r.scopes() == seq![Seq::<PropertyView>::empty()],
            r.commands() == registry.keys(),
            r.command_table() == registry.table(),
            r.call_depth() == DEFAULT_CALL_DEPTH,
    {
        Evaluator { scope: ScopeStack::new(), cmdlet_registry: registry, max_depth: DEFAULT_CALL_DEPTH }
    }

    /// Sets the number of calls that may nest.
    pub fn set_call_depth(&mut self, depth: usize)
        ensures
            final(self).scopes() == old(self).scopes(),
            final(self).commands() == old(self).commands(),
            final(self).command_table() == old(self).command_table(),
            final(self).call_depth() == depth,
    {
        self.max_depth = depth;
    }

    /// The registry, to register commands in.
    pub fn registry_mut(&mut self) -> (r: &mut CmdletRegistry)
        ensures
            r.keys() == old(self).commands(),
            r.table() == old(self).command_table(),
            final(self).commands() == final(r).keys(),
            final(self).command_table() == final(r).table(),
            final(self).scopes() == old(self).scopes(),
            final(self).call_depth() == old(self).call_depth(),
    {
        &mut self.cmdlet_registry
    }

    /// Evaluates a program: its statements in turn. The value is that of the last
    /// statement.
    pub fn eval(&mut self, program: Program) -> (r: Result<Value, RuntimeError>)
        ensures
            agrees_at_top(
                program_outcome(old(self).scopes(), program.deep_view(), old(self).commands(), old(self).call_depth()),
                final(self).scopes(),
                r,
            ),
            kept_depth(old(self).scopes(), final(self).scopes()),
            final(self).commands() == old(self).commands(),
            final(self).command_table() == old(self).command_table(),
            final(self).call_depth() == old(self).call_depth(),
    {
        let r = eval_statements(&mut self.scope, &self.cmdlet_registry, &program.statements, self.max_depth);
        at_top_level(r)
    }

    /// Assigns to a variable, as an assignment without a qualifier does.
    pub fn set_variable(&mut self, name: &str, value: Value)
        ensures
            final(self).scopes() == crate::scope::stack_assign(old(self).scopes(), name@, value.deep_view()),
            final(self).commands() == old(self).commands(),
            final(self).command_table() == old(self).command_table(),
            final(self).call_depth() == old(self).call_depth(),
    {
        self.scope.set_variable(name, value);
    }

    /// A copy of the value of a variable.
    pub fn get_variable(&self, name: &str) -> (r: Option<Value>)
        ensures
            r.deep_view() == crate::scope::stack_get(self.scopes(), name@),
    {
        self.scope.get_variable(name)
    }

    /// Evaluates a statement.
    pub fn eval_statement(&mut self, statement: Statement) -> (r: Result<Value, RuntimeError>)
        ensures
            agrees_at_top(
                at_top(
                    statement_outcome(
                        old(self).scopes(),
                        statement.deep_view(),
                        old(self).commands(),
                        old(self).call_depth(),
                    ),
                ),
                final(self).scopes(),
                r,
            ),
            kept_depth(old(self).scopes(), final(self).scopes()),
            final(self).commands() == old(self).commands(),
            final(self).command_table() == old(self).command_table(),
            final(self).call_depth() == old(self).call_depth(),
    {
        let r = eval_statement_in(&mut self.scope, &self.cmdlet_registry, &statement, self.max_depth);
        at_top_level(r)
    }

    /// Evaluates an expression.
    pub fn eval_expression(&mut self, expr: Expression) -> (r: Result<Value, RuntimeError>)
        ensures
            agrees_at_top(
                at_top(
                    expression_outcome(
                        old(self).scopes(),
                        expr.deep_view(),
                        old(self).commands(),
                        old(self).call_depth(),
                    ),
                ),
                final(self).scopes(),
                r,
            ),
            kept_depth(old(self).scopes(), final(self).scopes()),
            final(self).commands() == old(self).commands(),
            final(self).command_table() == old(self).command_table(),
            final(self).call_depth() == old(self).call_depth(),
    {
        let r = eval_expression_in(&mut self.scope, &self.cmdlet_registry, &expr, self.max_depth);
        at_top_level(r)
    }

    /// Invokes a script block with `$_` bound to `item`.
    pub fn execute_script_block(&mut self, block: &Block, item: Value) -> (r: Result<Value, RuntimeError>)
        ensures
            agrees_at_top(
                at_top(
                    invocation_outcome(
                        old(self).scopes(),
                        block.deep_view(),
                        item.deep_view(),
                        old(self).commands(),
                        old(self).call_depth(),
                    ),
                ),
                final(self).scopes(),
                r,
            ),
            kept_depth(old(self).scopes(), final(self).scopes()),
            final(self).commands() == old(self).commands(),
            final(self).command_table() == old(self).command_table(),
            final(self).call_depth() == old(self).call_depth(),
    {
        proof {
            lemma_block_view(*block);
        }
        let r = invoke_block(&mut self.scope, &self.cmdlet_registry, &block.statements, item, self.max_depth);
        at_top_level(r)
    }

    /// Runs a pipeline and returns what its last stage gave.
    pub fn execute_pipeline(&mut self, pipeline: &Pipeline) -> (r: Result<Vec<Value>, RuntimeError>)
        ensures
            kept_depth(old(self).scopes(), final(self).scopes()),
            final(self).commands() == old(self).commands(),
            final(self).command_table() == old(self).command_table(),
            final(self).call_depth() == old(self).call_depth(),
            match pipeline_outcome(
                old(self).scopes(),
                pipeline.deep_view(),
                0,
                Seq::empty(),
                old(self).commands(),
                old(self).call_depth(),
            ) {
                Outcome::Done { stack, value } => final(self).scopes() == stack && (r matches Ok(results)
                    && results.deep_view() == value),
                Outcome::Failed { stack, error } => final(self).scopes() == stack && (r matches Err(e) && e.deep_view()
                    == error),
                Outcome::Returned { stack, value } => final(self).scopes() == stack && r == Err::<
                    Vec<Value>,
                    RuntimeError,
                >(RuntimeError::ReturnOutsideFunction),
                Outcome::Unknown => true,
            },
    {
        let r = run_pipeline(&mut self.scope, &self.cmdlet_registry, &pipeline.stages, self.max_depth);
        results_at_top_level(r)
    }

    /// Runs a command that need not be registered on a context.
    pub fn run_cmdlet(&mut self, cmdlet: &Box<dyn Cmdlet>, context: &CmdletContext) -> (r: Result<
        Vec<Value>,
        RuntimeError,
    >)
        ensures
            kept_depth(old(self).scopes(), final(self).scopes()),
            final(self).commands() == old(self).commands(),
            final(self).command_table() == old(self).command_table(),
            final(self).call_depth() == old(self).call_depth(),
            old(self).call_depth() == 0 ==> (r matches Err(e) && e.deep_view() == too_deep()) && final(self).scopes()
                == old(self).scopes(),
    {
        let r = drive_command(&mut self.scope, &self.cmdlet_registry, cmdlet, context, self.max_depth);
        results_at_top_level(r)
    }
}

/// Runs pipelines with the commands of a registry of its own choice.
pub struct PipelineExecutor<'a> {
    registry: &'a CmdletRegistry,
}

impl<'a> PipelineExecutor<'a> {
    /// The keys of the commands that the pipelines are run with.
    pub closed spec fn commands(&self) -> Seq<Seq<char>> {
        self.registry.keys()
    }

    /// An executor of pipelines with the commands of `registry`.
    pub fn new(registry: &'a CmdletRegistry) -> (r: PipelineExecutor<'a>)
        ensures
            r.commands() == registry.keys(),
    {
        PipelineExecutor { registry }
    }

    /// Runs a pipeline in the scopes of `evaluator` and returns what its last stage
    /// gave.
    pub fn execute(&self, pipeline: &Pipeline, evaluator: &mut Evaluator) -> (r: Result<Vec<Value>, RuntimeError>)
        ensures
            kept_depth(old(evaluator).scopes(), final(evaluator).scopes()),
            final(evaluator).commands() == old(evaluator).commands(),
            final(evaluator).command_table() == old(evaluator).command_table(),
            final(evaluator).call_depth() == old(evaluator).call_depth(),
            match pipeline_outcome(
                old(evaluator).scopes(),
                pipeline.deep_view(),
                0,
                Seq::empty(),
                self.commands(),
                old(evaluator).call_depth(),
            ) {
                Outcome::Done { stack, value } => final(evaluator).scopes() == stack && (r matches Ok(results)
                    && results.deep_view() == value),
                Outcome::Failed { stack, error } => final(evaluator).scopes() == stack && (r matches Err(e)
                    && e.deep_view() == error),
                Outcome::Returned { stack, value } => final(evaluator).scopes() == stack && r == Err::<
                    Vec<Value>,
                    RuntimeError,
                >(RuntimeError::ReturnOutsideFunction),
                Outcome::Unknown => true,
            },
    {
        let r = run_pipeline(&mut evaluator.scope, self.registry, &pipeline.stages, evaluator.max_depth);
        results_at_top_level(r)
    }
}

} // verus!

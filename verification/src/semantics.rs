//! What programs mean: the outcome of evaluating an expression, a statement or a
//! pipeline in a stack of scopes.
//!
//! The outcome is defined for everything that the language decides itself. Where a
//! registered command is called, its arguments are evaluated as the language says;
//! from there on the outcome is `Unknown`: what a command does is the command's
//! affair.

use vstd::prelude::*;
use crate::ast::{
    ArgumentView,
    BinaryOperator,
    ExpressionView,
    HashEntryView,
    LiteralView,
    ParameterView,
    StatementView,
    UnaryOperator,
};
use crate::cmdlet::{has_command, with_named};
use crate::error::RuntimeErrorView;
use crate::number::{
    double_difference,
    double_product,
    double_quotient,
    double_remainder,
    double_sum,
    equal_bits,
    is_zero_bits,
    less_bits,
    negated_bits,
};
use crate::scope::{
    stack_assign,
    stack_define,
    stack_get,
    stack_get_qualified,
    stack_pop,
    stack_push,
    stack_set_qualified,
    StackView,
};
use crate::token::StringPartView;
use crate::value::{display_text, kind_name, number_of, property_of, same_name, truthy, updated, PropertyView, ValueView};

verus! {

/// How an evaluation ends.
#[allow(inconsistent_fields)]
pub enum Outcome<T> {
    /// With a value, and with the scopes in this state.
    Done { stack: StackView, value: T },
    /// With a `return` that is on its way to the function call that catches it.
    Returned { stack: StackView, value: ValueView },
    /// With an error.
    Failed { stack: StackView, error: RuntimeErrorView },
    /// As a registered command decides.
    Unknown,
}

/// An outcome that is no value, in place of an outcome of another type.
pub open spec fn carried<A, B>(o: Outcome<A>) -> Outcome<B> {
    match o {
        Outcome::Returned { stack, value } => Outcome::Returned { stack, value },
        Outcome::Failed { stack, error } => Outcome::Failed { stack, error },
        _ => Outcome::Unknown,
    }
}

/// The outcome with the current scope taken off: a scope that was pushed for a block
/// leaves on every way out of the block.
pub open spec fn popped<T>(o: Outcome<T>) -> Outcome<T> {
    match o {
        Outcome::Done { stack, value } => Outcome::Done { stack: stack_pop(stack), value },
        Outcome::Returned { stack, value } => Outcome::Returned { stack: stack_pop(stack), value },
        Outcome::Failed { stack, error } => Outcome::Failed { stack: stack_pop(stack), error },
        Outcome::Unknown => Outcome::Unknown,
    }
}

// ---------------------------------------------------------------------------
// Operators
// ---------------------------------------------------------------------------

/// The name of an operation in messages.
pub open spec fn operation_name(operator: BinaryOperator) -> Seq<char> {
    match operator {
        BinaryOperator::Add => "addition"@,
        BinaryOperator::Subtract => "subtraction"@,
        BinaryOperator::Multiply => "multiplication"@,
        BinaryOperator::Divide => "division"@,
        BinaryOperator::Modulo => "modulo"@,
        BinaryOperator::Equal => "equality"@,
        BinaryOperator::NotEqual => "inequality"@,
        BinaryOperator::Greater => "greater than"@,
        BinaryOperator::Less => "less than"@,
        BinaryOperator::GreaterOrEqual => "greater or equal"@,
        BinaryOperator::LessOrEqual => "less or equal"@,
    }
}

/// The error of an operand that is no number.
pub open spec fn not_a_number(v: ValueView, operation: Seq<char>) -> RuntimeErrorView {
    RuntimeErrorView::TypeMismatch { expected: "number"@, got: kind_name(v), operation }
}

/// Both operands as numbers; the left one is looked at first.
pub open spec fn number_pair(left: ValueView, right: ValueView, operation: Seq<char>) -> Result<
    (u64, u64),
    RuntimeErrorView,
> {
    match number_of(left) {
        None => Err(not_a_number(left, operation)),
        Some(a) => match number_of(right) {
            None => Err(not_a_number(right, operation)),
            Some(b) => Ok((a, b)),
        },
    }
}

/// Equality of values: `Null` equals `Null`, booleans and numbers equal their like,
/// strings are equal without regard to case, and nothing else is equal.
pub open spec fn values_equal(left: ValueView, right: ValueView) -> bool {
    match (left, right) {
        (ValueView::Null, ValueView::Null) => true,
        (ValueView::Boolean(a), ValueView::Boolean(b)) => a == b,
        (ValueView::Number(a), ValueView::Number(b)) => equal_bits(a, b),
        (ValueView::String(a), ValueView::String(b)) => same_name(a, b),
        _ => false,
    }
}

/// The result of a numeric operator on two numbers. Division by zero is an error.
pub open spec fn numeric_value(a: u64, operator: BinaryOperator, b: u64) -> Result<ValueView, RuntimeErrorView> {
    match operator {
        BinaryOperator::Subtract => Ok(ValueView::Number(double_difference(a, b))),
        BinaryOperator::Multiply => Ok(ValueView::Number(double_product(a, b))),
        BinaryOperator::Divide => if is_zero_bits(b) {
            Err(RuntimeErrorView::DivisionByZero)
        } else {
            Ok(ValueView::Number(double_quotient(a, b)))
        },
        BinaryOperator::Modulo => Ok(ValueView::Number(double_remainder(a, b))),
        BinaryOperator::Greater => Ok(ValueView::Boolean(less_bits(b, a))),
        BinaryOperator::Less => Ok(ValueView::Boolean(less_bits(a, b))),
        BinaryOperator::GreaterOrEqual => Ok(ValueView::Boolean(less_bits(b, a) || equal_bits(a, b))),
        _ => Ok(ValueView::Boolean(less_bits(a, b) || equal_bits(a, b))),
    }
}

/// The result of an operator on two values.
///
/// Addition adds two numbers and joins the texts of two values of which one is a
/// string. Equality and inequality compare as `values_equal` says. Every other
/// operator takes both operands as numbers.
pub open spec fn binary_value(left: ValueView, operator: BinaryOperator, right: ValueView) -> Result<
    ValueView,
    RuntimeErrorView,
> {
    match operator {
        BinaryOperator::Add => match (left, right) {
            (ValueView::Number(a), ValueView::Number(b)) => Ok(ValueView::Number(double_sum(a, b))),
            _ => if left is String || right is String {
                Ok(ValueView::String(display_text(left) + display_text(right)))
            } else {
                Err(
                    RuntimeErrorView::TypeMismatch {
                        expected: "number or string"@,
                        got: kind_name(left) + " and "@ + kind_name(right),
                        operation: "addition"@,
                    },
                )
            },
        },
        BinaryOperator::Equal => Ok(ValueView::Boolean(values_equal(left, right))),
        BinaryOperator::NotEqual => Ok(ValueView::Boolean(!values_equal(left, right))),
        _ => match number_pair(left, right, operation_name(operator)) {
            Err(e) => Err(e),
            Ok((a, b)) => numeric_value(a, operator, b),
        },
    }
}

/// The result of an operator on one value: the negated number, or whether the
/// value does not count as true.
pub open spec fn unary_value(operator: UnaryOperator, operand: ValueView) -> Result<ValueView, RuntimeErrorView> {
    match operator {
        UnaryOperator::Negate => match number_of(operand) {
            None => Err(not_a_number(operand, "negation"@)),
            Some(a) => Ok(ValueView::Number(negated_bits(a))),
        },
        UnaryOperator::Not => Ok(ValueView::Boolean(!truthy(operand))),
    }
}

// ---------------------------------------------------------------------------
// Literals and results
// ---------------------------------------------------------------------------

/// The text of the first `n` parts of a double-quoted string: literal text as it
/// is, and for a variable the text of its value, or nothing where it has none.
pub open spec fn interpolated(stack: StackView, parts: Seq<StringPartView>, n: int) -> Seq<char>
    decreases n,
{
    if n <= 0 || n > parts.len() {
        Seq::empty()
    } else {
        interpolated(stack, parts, n - 1) + match parts[n - 1] {
            StringPartView::Literal(text) => text,
            StringPartView::Variable(name) => match stack_get(stack, name) {
                Some(value) => display_text(value),
                None => Seq::empty(),
            },
        }
    }
}

/// The value of a literal.
pub open spec fn literal_value(stack: StackView, literal: LiteralView) -> ValueView {
    match literal {
        LiteralView::String(s) => ValueView::String(s),
        LiteralView::InterpolatedString(parts) => ValueView::String(interpolated(stack, parts, parts.len() as int)),
        LiteralView::Number(bits) => ValueView::Number(bits),
        LiteralView::Boolean(b) => ValueView::Boolean(b),
        LiteralView::Null => ValueView::Null,
    }
}

/// The value of a variable reference: a variable that has no value reads as `Null`.
pub open spec fn variable_value(stack: StackView, name: Seq<char>) -> ValueView {
    match stack_get_qualified(stack, name) {
        Some(value) => value,
        None => ValueView::Null,
    }
}

/// The value of a pipeline's results: `Null` for none, the result itself for one,
/// an array for more.
pub open spec fn folded(results: Seq<ValueView>) -> ValueView {
    if results.len() == 0 {
        ValueView::Null
    } else if results.len() == 1 {
        results[0]
    } else {
        ValueView::Array(results)
    }
}

/// What a value brings into a pipeline: an array brings its items, any other value
/// itself.
pub open spec fn unrolled(value: ValueView) -> Seq<ValueView> {
    match value {
        ValueView::Array(items) => items,
        _ => seq![value],
    }
}

/// The last of the results of a command that is called as an expression, or `Null`.
pub open spec fn last_or_null(results: Seq<ValueView>) -> ValueView {
    if results.len() == 0 {
        ValueView::Null
    } else {
        results.last()
    }
}

/// The error of reading a property that is not there.
pub open spec fn property_missing(member: Seq<char>) -> RuntimeErrorView {
    RuntimeErrorView::InvalidPropertyAccess("Property '"@ + member + "' not found"@)
}

/// The error of calls that are nested deeper than the evaluator allows.
pub open spec fn too_deep() -> RuntimeErrorView {
    RuntimeErrorView::InvalidOperation("Call depth limit exceeded"@)
}

/// The error of a command that asks for more script block invocations than the
/// evaluator allows in one run.
pub open spec fn too_many_requests() -> RuntimeErrorView {
    RuntimeErrorView::InvalidOperation("Command asked for too many script block invocations"@)
}

/// The name of the variable that holds the current item of a pipeline.
pub open spec fn item_name() -> Seq<char> {
    "_"@
}

// ---------------------------------------------------------------------------
// Expressions, statements, pipelines
// ---------------------------------------------------------------------------

/// The outcome of an expression. `fuel` is the number of calls that may still be
/// nested; `commands` holds the keys of the registered commands.
pub open spec fn expression_outcome(stack: StackView, e: ExpressionView, commands: Seq<Seq<char>>, fuel: nat) -> Outcome<
    ValueView,
>
    decreases fuel, e, 0nat, 0nat,
{
    match e {
        ExpressionView::Literal(literal) => Outcome::Done { stack, value: literal_value(stack, literal) },
        ExpressionView::Variable(name) => Outcome::Done { stack, value: variable_value(stack, name) },
        ExpressionView::BinaryOp { left, operator, right } => match expression_outcome(stack, *left, commands, fuel) {
            Outcome::Done { stack: s1, value: l } => match expression_outcome(s1, *right, commands, fuel) {
                Outcome::Done { stack: s2, value: r } => match binary_value(l, operator, r) {
                    Ok(value) => Outcome::Done { stack: s2, value },
                    Err(error) => Outcome::Failed { stack: s2, error },
                },
                other => other,
            },
            other => other,
        },
        ExpressionView::UnaryOp { operator, operand } => match expression_outcome(stack, *operand, commands, fuel) {
            Outcome::Done { stack: s1, value: v } => match unary_value(operator, v) {
                Ok(value) => Outcome::Done { stack: s1, value },
                Err(error) => Outcome::Failed { stack: s1, error },
            },
            other => other,
        },
        ExpressionView::MemberAccess { object, member } => match expression_outcome(stack, *object, commands, fuel) {
            Outcome::Done { stack: s1, value: v } => match property_of(v, member) {
                Some(value) => Outcome::Done { stack: s1, value },
                None => Outcome::Failed { stack: s1, error: property_missing(member) },
            },
            other => other,
        },
        ExpressionView::ScriptBlock(body) => Outcome::Done { stack, value: ValueView::ScriptBlock(body) },
        ExpressionView::Array(items) => match items_outcome(stack, items, 0, Seq::empty(), commands, fuel) {
            Outcome::Done { stack: s1, value: values } => Outcome::Done { stack: s1, value: ValueView::Array(values) },
            other => carried(other),
        },
        ExpressionView::Hashtable(entries) => match entries_outcome(
            stack,
            entries,
            0,
            Seq::empty(),
            commands,
            fuel,
        ) {
            Outcome::Done { stack: s1, value: properties } => Outcome::Done {
                stack: s1,
                value: ValueView::Object(properties),
            },
            other => carried(other),
        },
        ExpressionView::Call { name, arguments } => match stack_get(stack, name) {
            Some(ValueView::Function { name: _, parameters, body }) => {
                if fuel == 0 {
                    Outcome::Failed { stack, error: too_deep() }
                } else {
                    match positional_outcome(stack, arguments, 0, Seq::empty(), commands, fuel) {
                        Outcome::Done { stack: s1, value: values } => function_outcome(
                            s1,
                            (parameters, body),
                            values,
                            commands,
                            (fuel - 1) as nat,
                        ),
                        other => carried(other),
                    }
                }
            },
            _ => if has_command(commands, name) {
                command_outcome(stack, arguments, commands, fuel)
            } else {
                Outcome::Failed { stack, error: RuntimeErrorView::UndefinedFunction(name) }
            },
        },
    }
}

/// The outcome of the items of an array literal from index `i` on, behind the
/// values of `acc`: each is evaluated in turn.
pub open spec fn items_outcome(
    stack: StackView,
    items: Seq<ExpressionView>,
    i: int,
    acc: Seq<ValueView>,
    commands: Seq<Seq<char>>,
    fuel: nat,
) -> Outcome<Seq<ValueView>>
    decreases fuel, items, 0nat, items.len() - i,
{
    if !(0 <= i < items.len()) {
        Outcome::Done { stack, value: acc }
    } else {
        match expression_outcome(stack, items[i], commands, fuel) {
            Outcome::Done { stack: s1, value } => items_outcome(s1, items, i + 1, acc.push(value), commands, fuel),
            other => carried(other),
        }
    }
}

/// The outcome of the entries of a hashtable literal from index `i` on: each value
/// is evaluated in turn and set as a property.
pub open spec fn entries_outcome(
    stack: StackView,
    entries: Seq<HashEntryView>,
    i: int,
    acc: Seq<PropertyView>,
    commands: Seq<Seq<char>>,
    fuel: nat,
) -> Outcome<Seq<PropertyView>>
    decreases fuel, entries, 0nat, entries.len() - i,
{
    if !(0 <= i < entries.len()) {
        Outcome::Done { stack, value: acc }
    } else {
        match expression_outcome(stack, entries[i].value, commands, fuel) {
            Outcome::Done { stack: s1, value } => entries_outcome(
                s1,
                entries,
                i + 1,
                updated(acc, entries[i].key, value),
                commands,
                fuel,
            ),
            other => carried(other),
        }
    }
}

/// The outcome of the positional arguments of a function call from index `i` on:
/// each is evaluated in turn; named arguments are passed over.
pub open spec fn positional_outcome(
    stack: StackView,
    arguments: Seq<ArgumentView>,
    i: int,
    acc: Seq<ValueView>,
    commands: Seq<Seq<char>>,
    fuel: nat,
) -> Outcome<Seq<ValueView>>
    decreases fuel, arguments, 0nat, arguments.len() - i,
{
    if !(0 <= i < arguments.len()) {
        Outcome::Done { stack, value: acc }
    } else {
        match arguments[i] {
            ArgumentView::Positional(e) => match expression_outcome(stack, e, commands, fuel) {
                Outcome::Done { stack: s1, value } => positional_outcome(
                    s1,
                    arguments,
                    i + 1,
                    acc.push(value),
                    commands,
                    fuel,
                ),
                other => carried(other),
            },
            ArgumentView::Named { .. } => positional_outcome(stack, arguments, i + 1, acc, commands, fuel),
        }
    }
}

/// Whether an expression is a bare word: a call without arguments of a name that is
/// neither a function in the scopes nor a registered command.
pub open spec fn is_bare_word(stack: StackView, e: ExpressionView, commands: Seq<Seq<char>>) -> bool {
    match e {
        ExpressionView::Call { name, arguments } => arguments.len() == 0 && !has_command(commands, name)
            && !(stack_get(stack, name) matches Some(v) && v is Function),
        _ => false,
    }
}

/// The outcome of an argument of a command: a bare word is its own text; any other
/// expression has its outcome.
pub open spec fn argument_outcome(stack: StackView, e: ExpressionView, commands: Seq<Seq<char>>, fuel: nat) -> Outcome<
    ValueView,
>
    decreases fuel, e, 1nat, 0nat,
{
    if is_bare_word(stack, e, commands) {
        Outcome::Done { stack, value: ValueView::String(e->Call_name) }
    } else {
        expression_outcome(stack, e, commands, fuel)
    }
}

/// The named parameters and the positional arguments of a command call.
pub struct Handed {
    pub parameters: Seq<PropertyView>,
    pub arguments: Seq<ValueView>,
}

/// The outcome of the arguments of a command call from index `i` on: each is
/// evaluated in turn; a named one sets the parameter of its name, a positional one
/// is added to the positional arguments.
pub open spec fn handed_outcome(
    stack: StackView,
    arguments: Seq<ArgumentView>,
    i: int,
    acc: Handed,
    commands: Seq<Seq<char>>,
    fuel: nat,
) -> Outcome<Handed>
    decreases fuel, arguments, 0nat, arguments.len() - i,
{
    if !(0 <= i < arguments.len()) {
        Outcome::Done { stack, value: acc }
    } else {
        match arguments[i] {
            ArgumentView::Positional(e) => match argument_outcome(stack, e, commands, fuel) {
                Outcome::Done { stack: s1, value } => handed_outcome(
                    s1,
                    arguments,
                    i + 1,
                    Handed { parameters: acc.parameters, arguments: acc.arguments.push(value) },
                    commands,
                    fuel,
                ),
                other => carried(other),
            },
            ArgumentView::Named { name, value: e } => match argument_outcome(stack, e, commands, fuel) {
                Outcome::Done { stack: s1, value } => handed_outcome(
                    s1,
                    arguments,
                    i + 1,
                    Handed {
                        parameters: with_named(acc.parameters, name, value),
                        arguments: acc.arguments,
                    },
                    commands,
                    fuel,
                ),
                other => carried(other),
            },
        }
    }
}

/// The outcome of a call of a registered command, as far as the evaluator decides
/// it. The arguments are evaluated in turn, and what ends their evaluation ends the
/// call. With no call left to nest, the call fails. What the command then makes of
/// its context is its own.
pub open spec fn command_outcome<T>(
    stack: StackView,
    arguments: Seq<ArgumentView>,
    commands: Seq<Seq<char>>,
    fuel: nat,
) -> Outcome<T>
    decreases fuel, arguments, 1nat, 0nat,
{
    match handed_outcome(
        stack,
        arguments,
        0,
        Handed { parameters: Seq::empty(), arguments: Seq::empty() },
        commands,
        fuel,
    ) {
        Outcome::Done { stack: s1, value: _ } => if fuel == 0 {
            Outcome::Failed { stack: s1, error: too_deep() }
        } else {
            Outcome::Unknown
        },
        other => carried(other),
    }
}

/// The outcome of a call of a function with the values `arguments`: a scope is
/// pushed, the parameters are bound in it, the body is evaluated, and the scope is
/// popped. The value is that of a `return`, or of the last statement.
pub open spec fn function_outcome(
    stack: StackView,
    function: (Seq<ParameterView>, Seq<StatementView>),
    arguments: Seq<ValueView>,
    commands: Seq<Seq<char>>,
    fuel: nat,
) -> Outcome<ValueView>
    decreases fuel, function, 0nat, 0nat,
{
    match bound_outcome(stack_push(stack), function.0, 0, arguments, commands, fuel) {
        Outcome::Done { stack: s1, value: _ } => match statements_outcome(
            s1,
            function.1,
            0,
            ValueView::Null,
            commands,
            fuel,
        ) {
            Outcome::Returned { stack: s2, value } => Outcome::Done { stack: stack_pop(s2), value },
            other => popped(other),
        },
        other => popped(carried(other)),
    }
}

/// The outcome of binding the parameters from index `i` on, in the current scope:
/// a parameter gets the argument at its index; without one, the value of its
/// default expression, which is evaluated in the new scope; without that, `Null`.
pub open spec fn bound_outcome(
    stack: StackView,
    parameters: Seq<ParameterView>,
    i: int,
    arguments: Seq<ValueView>,
    commands: Seq<Seq<char>>,
    fuel: nat,
) -> Outcome<()>
    decreases fuel, parameters, 0nat, parameters.len() - i,
{
    if !(0 <= i < parameters.len()) {
        Outcome::Done { stack, value: () }
    } else if i < arguments.len() {
        bound_outcome(
            stack_define(stack, parameters[i].name, arguments[i]),
            parameters,
            i + 1,
            arguments,
            commands,
            fuel,
        )
    } else {
        match parameters[i].default_value {
            None => bound_outcome(
                stack_define(stack, parameters[i].name, ValueView::Null),
                parameters,
                i + 1,
                arguments,
                commands,
                fuel,
            ),
            Some(e) => match expression_outcome(stack, e, commands, fuel) {
                Outcome::Done { stack: s1, value } => bound_outcome(
                    stack_define(s1, parameters[i].name, value),
                    parameters,
                    i + 1,
                    arguments,
                    commands,
                    fuel,
                ),
                other => carried(other),
            },
        }
    }
}

/// The outcome of a statement.
pub open spec fn statement_outcome(stack: StackView, s: StatementView, commands: Seq<Seq<char>>, fuel: nat) -> Outcome<
    ValueView,
>
    decreases fuel, s, 0nat, 0nat,
{
    match s {
        StatementView::Expression(e) => expression_outcome(stack, e, commands, fuel),
        StatementView::Assignment { variable, value } => match expression_outcome(stack, value, commands, fuel) {
            Outcome::Done { stack: s1, value: v } => Outcome::Done {
                stack: stack_set_qualified(s1, variable, v),
                value: ValueView::Null,
            },
            other => other,
        },
        StatementView::FunctionDef { name, parameters, body } => Outcome::Done {
            stack: stack_define(stack, name, ValueView::Function { name, parameters, body }),
            value: ValueView::Null,
        },
        StatementView::If { condition, then_branch, else_branch } => match expression_outcome(
            stack,
            condition,
            commands,
            fuel,
        ) {
            Outcome::Done { stack: s1, value: c } => if truthy(c) {
                block_outcome(s1, then_branch, commands, fuel)
            } else {
                match else_branch {
                    Some(block) => block_outcome(s1, block, commands, fuel),
                    None => Outcome::Done { stack: s1, value: ValueView::Null },
                }
            },
            other => other,
        },
        StatementView::Return(value) => match value {
            None => Outcome::Returned { stack, value: ValueView::Null },
            Some(e) => match expression_outcome(stack, e, commands, fuel) {
                Outcome::Done { stack: s1, value: v } => Outcome::Returned { stack: s1, value: v },
                other => other,
            },
        },
        StatementView::Pipeline(stages) => match pipeline_outcome(stack, stages, 0, Seq::empty(), commands, fuel) {
            Outcome::Done { stack: s1, value: results } => Outcome::Done { stack: s1, value: folded(results) },
            other => carried(other),
        },
    }
}

/// The outcome of the statements from index `i` on, where `last` is the value of the
/// statement before them: the value of the last statement, unless one returns or
/// fails before.
pub open spec fn statements_outcome(
    stack: StackView,
    statements: Seq<StatementView>,
    i: int,
    last: ValueView,
    commands: Seq<Seq<char>>,
    fuel: nat,
) -> Outcome<ValueView>
    decreases fuel, statements, 0nat, statements.len() - i,
{
    if !(0 <= i < statements.len()) {
        Outcome::Done { stack, value: last }
    } else {
        match statement_outcome(stack, statements[i], commands, fuel) {
            Outcome::Done { stack: s1, value } => statements_outcome(s1, statements, i + 1, value, commands, fuel),
            other => other,
        }
    }
}

/// The outcome of a block: its statements in a scope of their own.
pub open spec fn block_outcome(stack: StackView, statements: Seq<StatementView>, commands: Seq<Seq<char>>, fuel: nat) -> Outcome<
    ValueView,
>
    decreases fuel, statements, 1nat, 0nat,
{
    popped(statements_outcome(stack_push(stack), statements, 0, ValueView::Null, commands, fuel))
}

/// The outcome of the stages of a pipeline from index `i` on, where `input` is what
/// the stage before them gave: each stage turns the items it gets into the items
/// for the next one.
pub open spec fn pipeline_outcome(
    stack: StackView,
    stages: Seq<ExpressionView>,
    i: int,
    input: Seq<ValueView>,
    commands: Seq<Seq<char>>,
    fuel: nat,
) -> Outcome<Seq<ValueView>>
    decreases fuel, stages, 0nat, stages.len() - i,
{
    if !(0 <= i < stages.len()) {
        Outcome::Done { stack, value: input }
    } else {
        match stage_outcome(stack, stages[i], input, commands, fuel) {
            Outcome::Done { stack: s1, value: output } => pipeline_outcome(s1, stages, i + 1, output, commands, fuel),
            other => other,
        }
    }
}

/// The outcome of one stage on its input.
///
/// A call goes to the registered command of that name. A script block that gets
/// items is invoked once for each; without items it is a value. Any other
/// expression is evaluated once for each item, with `$_` set to the item; without
/// items it is evaluated once, and an array brings its items.
pub open spec fn stage_outcome(
    stack: StackView,
    stage: ExpressionView,
    input: Seq<ValueView>,
    commands: Seq<Seq<char>>,
    fuel: nat,
) -> Outcome<Seq<ValueView>>
    decreases fuel, stage, 2nat, 0nat,
{
    match stage {
        ExpressionView::Call { name, arguments } => if has_command(commands, name) {
            command_outcome(stack, arguments, commands, fuel)
        } else {
            Outcome::Failed { stack, error: RuntimeErrorView::UndefinedFunction(name) }
        },
        ExpressionView::ScriptBlock(body) => if input.len() > 0 {
            invoked_outcome(stack, body, input, 0, Seq::empty(), commands, fuel)
        } else {
            Outcome::Done { stack, value: seq![ValueView::ScriptBlock(body)] }
        },
        _ => if input.len() > 0 {
            mapped_outcome(stack, stage, input, 0, Seq::empty(), commands, fuel)
        } else {
            match expression_outcome(stack, stage, commands, fuel) {
                Outcome::Done { stack: s1, value } => Outcome::Done { stack: s1, value: unrolled(value) },
                other => carried(other),
            }
        },
    }
}

/// The outcome of one invocation of a script block on an item: the statements in a
/// scope of their own, in which `$_` is the item.
pub open spec fn invocation_outcome(
    stack: StackView,
    body: Seq<StatementView>,
    item: ValueView,
    commands: Seq<Seq<char>>,
    fuel: nat,
) -> Outcome<ValueView>
    decreases fuel, body, 1nat, 0nat,
{
    popped(
        statements_outcome(
            stack_define(stack_push(stack), item_name(), item),
            body,
            0,
            ValueView::Null,
            commands,
            fuel,
        ),
    )
}

/// The outcome of invoking a script block on the items from index `k` on, behind
/// the results of `acc`: one result for each item, in the order of the items.
pub open spec fn invoked_outcome(
    stack: StackView,
    body: Seq<StatementView>,
    input: Seq<ValueView>,
    k: int,
    acc: Seq<ValueView>,
    commands: Seq<Seq<char>>,
    fuel: nat,
) -> Outcome<Seq<ValueView>>
    decreases fuel, body, 2nat, input.len() - k,
{
    if !(0 <= k < input.len()) {
        Outcome::Done { stack, value: acc }
    } else {
        match invocation_outcome(stack, body, input[k], commands, fuel) {
            Outcome::Done { stack: s1, value } => invoked_outcome(s1, body, input, k + 1, acc.push(value), commands, fuel),
            other => carried(other),
        }
    }
}

/// The outcome of evaluating an expression for the items from index `k` on, with
/// `$_` assigned each item in turn.
pub open spec fn mapped_outcome(
    stack: StackView,
    stage: ExpressionView,
    input: Seq<ValueView>,
    k: int,
    acc: Seq<ValueView>,
    commands: Seq<Seq<char>>,
    fuel: nat,
) -> Outcome<Seq<ValueView>>
    decreases fuel, stage, 1nat, input.len() - k,
{
    if !(0 <= k < input.len()) {
        Outcome::Done { stack, value: acc }
    } else {
        match expression_outcome(stack_assign(stack, item_name(), input[k]), stage, commands, fuel) {
            Outcome::Done { stack: s1, value } => mapped_outcome(s1, stage, input, k + 1, acc.push(value), commands, fuel),
            other => carried(other),
        }
    }
}

/// The outcome of a program: its statements in turn, in the scopes as they are. A
/// `return` that no function call catches is an error.
pub open spec fn program_outcome(stack: StackView, statements: Seq<StatementView>, commands: Seq<Seq<char>>, fuel: nat) -> Outcome<
    ValueView,
> {
    at_top(statements_outcome(stack, statements, 0, ValueView::Null, commands, fuel))
}

/// The outcome as the caller of the evaluator sees it: a `return` that got this far
/// is an error.
pub open spec fn at_top(o: Outcome<ValueView>) -> Outcome<ValueView> {
    match o {
        Outcome::Returned { stack, value } => Outcome::Failed { stack, error: RuntimeErrorView::ReturnOutsideFunction },
        other => other,
    }
}

// ---------------------------------------------------------------------------
// Laws
// ---------------------------------------------------------------------------

/// The expression `a / b` on two number literals.
pub open spec fn division_of(a: u64, b: u64) -> ExpressionView {
    ExpressionView::BinaryOp {
        left: Box::new(ExpressionView::Literal(LiteralView::Number(a))),
        operator: BinaryOperator::Divide,
        right: Box::new(ExpressionView::Literal(LiteralView::Number(b))),
    }
}

/// Division of numbers: where the divisor is zero, of either sign, the outcome is
/// the division-by-zero error; with every other divisor it is the quotient of the
/// two doubles, rounded to nearest. The scopes stay as they are.
pub proof fn lemma_division(stack: StackView, a: u64, b: u64, commands: Seq<Seq<char>>, fuel: nat)
    ensures
        is_zero_bits(b) ==> expression_outcome(stack, division_of(a, b), commands, fuel) == (Outcome::<
            ValueView,
        >::Failed { stack, error: RuntimeErrorView::DivisionByZero }),
        !is_zero_bits(b) ==> expression_outcome(stack, division_of(a, b), commands, fuel) == (Outcome::Done {
            stack,
            value: ValueView::Number(double_quotient(a, b)),
        }),
{
    let l = ExpressionView::Literal(LiteralView::Number(a));
    let r = ExpressionView::Literal(LiteralView::Number(b));
    assert(expression_outcome(stack, l, commands, fuel) == Outcome::Done { stack, value: ValueView::Number(a) });
    assert(expression_outcome(stack, r, commands, fuel) == Outcome::Done { stack, value: ValueView::Number(b) });
    assert(number_of(ValueView::Number(a)) == Some(a));
    assert(number_of(ValueView::Number(b)) == Some(b));
}

/// Equality of strings does not look at case: two strings are equal exactly if
/// their lower-case forms are the same, so that strings which differ from `a` and
/// from `b` in case only compare as `a` and `b` do.
pub proof fn lemma_string_equality_ignores_case(a: Seq<char>, b: Seq<char>, a2: Seq<char>, b2: Seq<char>)
    requires
        same_name(a, a2),
        same_name(b, b2),
    ensures
        binary_value(ValueView::String(a), BinaryOperator::Equal, ValueView::String(b)) == Ok::<
            ValueView,
            RuntimeErrorView,
        >(ValueView::Boolean(same_name(a, b))),
        values_equal(ValueView::String(a), ValueView::String(b)) == values_equal(
            ValueView::String(a2),
            ValueView::String(b2),
        ),
        values_equal(ValueView::String(a), ValueView::String(a2)),
{
}

/// A variable reference without a qualifier does not look at case: names that
/// differ in case only read the same value.
pub proof fn lemma_variable_ignores_case(stack: StackView, a: Seq<char>, b: Seq<char>)
    requires
        same_name(a, b),
    ensures
        stack_get(stack, a) == stack_get(stack, b),
{
    crate::scope::lemma_resolution_ignores_case(stack, a, b, stack.len() as int);
}

/// Evaluating the items of an array literal gives one value for each item.
pub proof fn lemma_items_count(
    stack: StackView,
    items: Seq<ExpressionView>,
    i: int,
    acc: Seq<ValueView>,
    commands: Seq<Seq<char>>,
    fuel: nat,
)
    requires
        0 <= i <= items.len(),
    ensures
        items_outcome(stack, items, i, acc, commands, fuel) matches Outcome::Done { stack: s, value } ==> value.len()
            == acc.len() + items.len() - i,
    decreases items.len() - i,
{
    if i < items.len() {
        match expression_outcome(stack, items[i], commands, fuel) {
            Outcome::Done { stack: s1, value } => {
                lemma_items_count(s1, items, i + 1, acc.push(value), commands, fuel);
            },
            _ => {},
        }
    }
}

/// The scopes in which a script block is invoked on the item at index `k`: those
/// that the invocations on the items before it have left.
pub open spec fn stack_before(
    stack: StackView,
    body: Seq<StatementView>,
    input: Seq<ValueView>,
    k: int,
    commands: Seq<Seq<char>>,
    fuel: nat,
) -> StackView
    decreases k,
{
    if k <= 0 || k > input.len() {
        stack
    } else {
        match invocation_outcome(
            stack_before(stack, body, input, k - 1, commands, fuel),
            body,
            input[k - 1],
            commands,
            fuel,
        ) {
            Outcome::Done { stack: s, value } => s,
            _ => stack,
        }
    }
}

/// Invoking a script block on the items of a pipeline gives exactly one result for
/// each item, in the order of the items: the result at index `j` is the value of the
/// invocation with `$_` bound to the item at index `j`.
pub proof fn lemma_invoked_results(
    stack: StackView,
    body: Seq<StatementView>,
    input: Seq<ValueView>,
    k: int,
    acc: Seq<ValueView>,
    commands: Seq<Seq<char>>,
    fuel: nat,
    start: StackView,
)
    requires
        0 <= k <= input.len(),
        acc.len() == k,
        stack == stack_before(start, body, input, k, commands, fuel),
        forall|j: int|
            0 <= j < k ==> (#[trigger] invocation_outcome(
                stack_before(start, body, input, j, commands, fuel),
                body,
                input[j],
                commands,
                fuel,
            ) matches Outcome::Done { stack: s, value } && value == acc[j]),
    ensures
        invoked_outcome(stack, body, input, k, acc, commands, fuel) matches Outcome::Done { stack: s, value: results }
            ==> results.len() == input.len() && forall|j: int|
            0 <= j < input.len() ==> (#[trigger] invocation_outcome(
                stack_before(start, body, input, j, commands, fuel),
                body,
                input[j],
                commands,
                fuel,
            ) matches Outcome::Done { stack: s, value } && value == results[j]),
    decreases input.len() - k,
{
    if k < input.len() {
        match invocation_outcome(stack, body, input[k], commands, fuel) {
            Outcome::Done { stack: s1, value } => {
                let next = acc.push(value);
                assert(stack_before(start, body, input, k + 1, commands, fuel) == s1);
                assert forall|j: int| 0 <= j < k + 1 implies (#[trigger] invocation_outcome(
                    stack_before(start, body, input, j, commands, fuel),
                    body,
                    input[j],
                    commands,
                    fuel,
                ) matches Outcome::Done { stack: s, value } && value == next[j]) by {
                    if j < k {
                        assert(next[j] == acc[j]);
                    }
                }
                lemma_invoked_results(s1, body, input, k + 1, next, commands, fuel, start);
            },
            _ => {},
        }
    }
}

/// The pipeline that sends an array literal into a script block.
pub open spec fn array_into_block(items: Seq<ExpressionView>, body: Seq<StatementView>) -> Seq<ExpressionView> {
    seq![ExpressionView::Array(items), ExpressionView::ScriptBlock(body)]
}

/// Pipeline cardinality: an array literal of one or more items that is piped into a
/// script block gives exactly one result for each item, in the order of the items,
/// and each result is the value of the block invoked with `$_` bound to the value
/// of that item.
pub proof fn lemma_pipeline_cardinality(
    stack: StackView,
    items: Seq<ExpressionView>,
    body: Seq<StatementView>,
    commands: Seq<Seq<char>>,
    fuel: nat,
)
    requires
        items.len() >= 1,
    ensures
        pipeline_outcome(stack, array_into_block(items, body), 0, Seq::empty(), commands, fuel) matches Outcome::Done {
            stack: s,
            value: results,
        } ==> results.len() == items.len() && (items_outcome(stack, items, 0, Seq::empty(), commands, fuel) matches Outcome::Done {
            stack: s0,
            value: values,
        } && values.len() == items.len() && forall|j: int|
            0 <= j < items.len() ==> (#[trigger] invocation_outcome(
                stack_before(s0, body, values, j, commands, fuel),
                body,
                values[j],
                commands,
                fuel,
            ) matches Outcome::Done { stack: sj, value } && value == results[j])),
{
    let stages = array_into_block(items, body);
    lemma_items_count(stack, items, 0, Seq::empty(), commands, fuel);
    match items_outcome(stack, items, 0, Seq::empty(), commands, fuel) {
        Outcome::Done { stack: s0, value: values } => {
            assert(expression_outcome(stack, stages[0], commands, fuel) == Outcome::Done {
                stack: s0,
                value: ValueView::Array(values),
            });
            assert(stage_outcome(stack, stages[0], Seq::empty(), commands, fuel) == Outcome::Done {
                stack: s0,
                value: values,
            });
            lemma_invoked_results(s0, body, values, 0, Seq::empty(), commands, fuel, s0);
            assert(stage_outcome(s0, stages[1], values, commands, fuel) == invoked_outcome(
                s0,
                body,
                values,
                0,
                Seq::empty(),
                commands,
                fuel,
            ));
            match invoked_outcome(s0, body, values, 0, Seq::empty(), commands, fuel) {
                Outcome::Done { stack: s1, value: results } => {
                    assert(pipeline_outcome(s1, stages, 2, results, commands, fuel) == Outcome::Done {
                        stack: s1,
                        value: results,
                    });
                    assert(pipeline_outcome(s0, stages, 1, values, commands, fuel) == Outcome::Done {
                        stack: s1,
                        value: results,
                    });
                },
                _ => {},
            }
        },
        other => {
            assert(expression_outcome(stack, stages[0], commands, fuel) == carried::<Seq<ValueView>, ValueView>(other));
        },
    }
}

/// The text of a whole number reads back as the number: for every double that is a
/// whole number below 2^53 in magnitude, the string of its text stands for the
/// same double.
pub proof fn lemma_whole_number_text_round_trip(bits: u64)
    requires
        crate::number::whole_of(bits) is Some,
    ensures
        number_of(ValueView::String(display_text(ValueView::Number(bits)))) == Some(bits),
{
    crate::number::lemma_whole_text_reads_back(bits);
}

} // verus!

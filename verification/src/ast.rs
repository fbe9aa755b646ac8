//! The syntax tree: programs, statements and expressions.
//!
//! Every type has a view made of sequences and plain values; contracts speak of
//! the views.

use vstd::prelude::*;
use crate::number::Number;
use crate::token::{clone_parts, StringPartView};
pub use crate::token::StringPart;

verus! {

/// Operators between two operands.
#[derive(Clone, Copy, Debug, PartialEq, Eq, Structural)]
pub enum BinaryOperator {
    Add,
    Subtract,
    Multiply,
    Divide,
    Modulo,
    Equal,
    NotEqual,
    Greater,
    Less,
    GreaterOrEqual,
    LessOrEqual,
}

/// Operators before one operand.
#[derive(Clone, Copy, Debug, PartialEq, Eq, Structural)]
pub enum UnaryOperator {
    Negate,
    Not,
}

/// A literal value.
#[derive(Debug, PartialEq)]
pub enum Literal {
    String(String),
    InterpolatedString(Vec<StringPart>),
    Number(Number),
    Boolean(bool),
    Null,
}

/// The view of a literal.
pub enum LiteralView {
    String(Seq<char>),
    InterpolatedString(Seq<StringPartView>),
    Number(u64),
    Boolean(bool),
    Null,
}

impl DeepView for Literal {
    type V = LiteralView;

    open spec fn deep_view(&self) -> LiteralView {
        match self {
            Literal::String(s) => LiteralView::String(s@),
            Literal::InterpolatedString(parts) => LiteralView::InterpolatedString(parts.deep_view()),
            Literal::Number(n) => LiteralView::Number(n@),
            Literal::Boolean(b) => LiteralView::Boolean(*b),
            Literal::Null => LiteralView::Null,
        }
    }
}

impl Clone for Literal {
    fn clone(&self) -> (r: Literal)
        ensures
            r.deep_view() == self.deep_view(),
    {
        match self {
            Literal::String(s) => Literal::String(s.clone()),
            Literal::InterpolatedString(parts) => Literal::InterpolatedString(clone_parts(parts)),
            Literal::Number(n) => Literal::Number(*n),
            Literal::Boolean(b) => Literal::Boolean(*b),
            Literal::Null => Literal::Null,
        }
    }
}

/// An expression.
#[derive(Debug, PartialEq)]
#[allow(inconsistent_fields)]
pub enum Expression {
    Literal(Literal),
    /// A variable reference; the name may carry a scope qualifier.
    Variable(String),
    BinaryOp { left: Box<Expression>, operator: BinaryOperator, right: Box<Expression> },
    UnaryOp { operator: UnaryOperator, operand: Box<Expression> },
    /// A call of a function or a command.
    Call { name: String, arguments: Vec<Argument> },
    MemberAccess { object: Box<Expression>, member: String },
    /// A block as a value.
    ScriptBlock(Block),
    /// A hashtable literal: keys with their value expressions, in order.
    Hashtable(Vec<HashEntry>),
    /// An array literal.
    Array(Vec<Expression>),
}

/// One entry of a hashtable literal.
#[derive(Debug, PartialEq)]
pub struct HashEntry {
    pub key: String,
    pub value: Expression,
}

/// An argument of a call.
#[derive(Debug, PartialEq)]
pub enum Argument {
    Positional(Expression),
    Named { name: String, value: Expression },
}

/// A parameter of a function, with the expression of its default value.
#[derive(Debug, PartialEq)]
pub struct Parameter {
    pub name: String,
    pub default_value: Option<Expression>,
}

/// Statements between braces.
#[derive(Debug, PartialEq)]
pub struct Block {
    pub statements: Vec<Statement>,
}

/// Stages that a pipe joins.
#[derive(Debug, PartialEq)]
pub struct Pipeline {
    pub stages: Vec<Expression>,
}

/// A statement.
#[derive(Debug, PartialEq)]
pub enum Statement {
    Expression(Expression),
    Assignment { variable: String, value: Expression },
    FunctionDef { name: String, parameters: Vec<Parameter>, body: Block },
    If { condition: Expression, then_branch: Block, else_branch: Option<Block> },
    Return(Option<Expression>),
    Pipeline(Pipeline),
}

/// A program.
#[derive(Debug, PartialEq)]
pub struct Program {
    pub statements: Vec<Statement>,
}

/// The view of an expression.
#[allow(inconsistent_fields)]
pub enum ExpressionView {
    Literal(LiteralView),
    Variable(Seq<char>),
    BinaryOp { left: Box<ExpressionView>, operator: BinaryOperator, right: Box<ExpressionView> },
    UnaryOp { operator: UnaryOperator, operand: Box<ExpressionView> },
    Call { name: Seq<char>, arguments: Seq<ArgumentView> },
    MemberAccess { object: Box<ExpressionView>, member: Seq<char> },
    ScriptBlock(Seq<StatementView>),
    Hashtable(Seq<HashEntryView>),
    Array(Seq<ExpressionView>),
}

/// The view of an entry of a hashtable literal.
pub struct HashEntryView {
    pub key: Seq<char>,
    pub value: ExpressionView,
}

/// The view of an argument.
pub enum ArgumentView {
    Positional(ExpressionView),
    Named { name: Seq<char>, value: ExpressionView },
}

/// The view of a parameter.
pub struct ParameterView {
    pub name: Seq<char>,
    pub default_value: Option<ExpressionView>,
}

/// The view of a statement.
pub enum StatementView {
    Expression(ExpressionView),
    Assignment { variable: Seq<char>, value: ExpressionView },
    FunctionDef { name: Seq<char>, parameters: Seq<ParameterView>, body: Seq<StatementView> },
    If { condition: ExpressionView, then_branch: Seq<StatementView>, else_branch: Option<Seq<StatementView>> },
    Return(Option<ExpressionView>),
    Pipeline(Seq<ExpressionView>),
}

// ---------------------------------------------------------------------------
// Views
// ---------------------------------------------------------------------------

/// The view of an expression.
pub open spec fn expression_view(e: Expression) -> ExpressionView
    decreases e,
{
    match e {
        Expression::Literal(literal) => ExpressionView::Literal(literal.deep_view()),
        Expression::Variable(name) => ExpressionView::Variable(name@),
        Expression::BinaryOp { left, operator, right } => ExpressionView::BinaryOp {
            left: Box::new(expression_view(*left)),
            operator,
            right: Box::new(expression_view(*right)),
        },
        Expression::UnaryOp { operator, operand } => ExpressionView::UnaryOp {
            operator,
            operand: Box::new(expression_view(*operand)),
        },
        Expression::Call { name, arguments } => ExpressionView::Call {
            name: name@,
            arguments: Seq::new(
                arguments.len() as nat,
                |i: int|
                    if 0 <= i < arguments.len() {
                        argument_view(arguments[i])
                    } else {
                        arbitrary()
                    },
            ),
        },
        Expression::MemberAccess { object, member } => ExpressionView::MemberAccess {
            object: Box::new(expression_view(*object)),
            member: member@,
        },
        Expression::ScriptBlock(block) => ExpressionView::ScriptBlock(block_view(block)),
        Expression::Hashtable(entries) => ExpressionView::Hashtable(
            Seq::new(
                entries.len() as nat,
                |i: int|
                    if 0 <= i < entries.len() {
                        HashEntryView { key: entries[i].key@, value: expression_view(entries[i].value) }
                    } else {
                        arbitrary()
                    },
            ),
        ),
        Expression::Array(items) => ExpressionView::Array(
            Seq::new(
                items.len() as nat,
                |i: int|
                    if 0 <= i < items.len() {
                        expression_view(items[i])
                    } else {
                        arbitrary()
                    },
            ),
        ),
    }
}

/// The view of an argument.
pub open spec fn argument_view(a: Argument) -> ArgumentView
    decreases a,
{
    match a {
        Argument::Positional(e) => ArgumentView::Positional(expression_view(e)),
        Argument::Named { name, value } => ArgumentView::Named { name: name@, value: expression_view(value) },
    }
}

/// The view of a block: the views of its statements.
pub open spec fn block_view(b: Block) -> Seq<StatementView>
    decreases b,
{
    Seq::new(
        b.statements.len() as nat,
        |i: int|
            if 0 <= i < b.statements.len() {
                statement_view(b.statements[i])
            } else {
                arbitrary()
            },
    )
}

/// The view of a parameter.
pub open spec fn parameter_view(p: Parameter) -> ParameterView
    decreases p,
{
    ParameterView {
        name: p.name@,
        default_value: match p.default_value {
            Some(e) => Some(expression_view(e)),
            None => None,
        },
    }
}

/// The view of a statement.
pub open spec fn statement_view(s: Statement) -> StatementView
    decreases s,
{
    match s {
        Statement::Expression(e) => StatementView::Expression(expression_view(e)),
        Statement::Assignment { variable, value } => StatementView::Assignment {
            variable: variable@,
            value: expression_view(value),
        },
        Statement::FunctionDef { name, parameters, body } => StatementView::FunctionDef {
            name: name@,
            parameters: Seq::new(
                parameters.len() as nat,
                |i: int|
                    if 0 <= i < parameters.len() {
                        parameter_view(parameters[i])
                    } else {
                        arbitrary()
                    },
            ),
            body: block_view(body),
        },
        Statement::If { condition, then_branch, else_branch } => StatementView::If {
            condition: expression_view(condition),
            then_branch: block_view(then_branch),
            else_branch: match else_branch {
                Some(b) => Some(block_view(b)),
                None => None,
            },
        },
        Statement::Return(value) => StatementView::Return(
            match value {
                Some(e) => Some(expression_view(e)),
                None => None,
            },
        ),
        Statement::Pipeline(pipeline) => StatementView::Pipeline(
            Seq::new(
                pipeline.stages.len() as nat,
                |i: int|
                    if 0 <= i < pipeline.stages.len() {
                        expression_view(pipeline.stages[i])
                    } else {
                        arbitrary()
                    },
            ),
        ),
    }
}

impl DeepView for Expression {
    type V = ExpressionView;

    open spec fn deep_view(&self) -> ExpressionView {
        expression_view(*self)
    }
}

impl DeepView for HashEntry {
    type V = HashEntryView;

    open spec fn deep_view(&self) -> HashEntryView {
        HashEntryView { key: self.key@, value: expression_view(self.value) }
    }
}

impl DeepView for Argument {
    type V = ArgumentView;

    open spec fn deep_view(&self) -> ArgumentView {
        argument_view(*self)
    }
}

impl DeepView for Parameter {
    type V = ParameterView;

    open spec fn deep_view(&self) -> ParameterView {
        parameter_view(*self)
    }
}

impl DeepView for Statement {
    type V = StatementView;

    open spec fn deep_view(&self) -> StatementView {
        statement_view(*self)
    }
}

impl DeepView for Block {
    type V = Seq<StatementView>;

    open spec fn deep_view(&self) -> Seq<StatementView> {
        block_view(*self)
    }
}

impl DeepView for Pipeline {
    type V = Seq<ExpressionView>;

    open spec fn deep_view(&self) -> Seq<ExpressionView> {
        self.stages.deep_view()
    }
}

impl DeepView for Program {
    type V = Seq<StatementView>;

    open spec fn deep_view(&self) -> Seq<StatementView> {
        self.statements.deep_view()
    }
}

/// The views of the lists inside a tree are the lists of the views.
pub proof fn lemma_views(e: Expression)
    ensures
        e matches Expression::Call { name, arguments } ==> e.deep_view() == (ExpressionView::Call {
            name: name@,
            arguments: arguments.deep_view(),
        }),
        e matches Expression::Hashtable(entries) ==> e.deep_view() == ExpressionView::Hashtable(entries.deep_view()),
        e matches Expression::Array(items) ==> e.deep_view() == ExpressionView::Array(items.deep_view()),
        e matches Expression::ScriptBlock(block) ==> e.deep_view() == ExpressionView::ScriptBlock(
            block.statements.deep_view(),
        ),
{
    match e {
        Expression::Call { name, arguments } => {
            assert(e.deep_view()->Call_arguments =~= arguments.deep_view());
        },
        Expression::Hashtable(entries) => {
            assert(e.deep_view()->Hashtable_0 =~= entries.deep_view());
        },
        Expression::Array(items) => {
            assert(e.deep_view()->Array_0 =~= items.deep_view());
        },
        Expression::ScriptBlock(block) => {
            lemma_block_view(block);
        },
        _ => {},
    }
}

/// The view of a block is the view of the list of its statements.
pub proof fn lemma_block_view(b: Block)
    ensures
        b.deep_view() == b.statements.deep_view(),
{
    assert(b.deep_view() =~= b.statements.deep_view());
}

/// The views of the lists inside a statement are the lists of the views.
pub proof fn lemma_statement_views(s: Statement)
    ensures
        s matches Statement::FunctionDef { name, parameters, body } ==> s.deep_view() == (StatementView::FunctionDef {
            name: name@,
            parameters: parameters.deep_view(),
            body: body.statements.deep_view(),
        }),
        s matches Statement::If { condition, then_branch, else_branch } ==> s.deep_view() == (StatementView::If {
            condition: condition.deep_view(),
            then_branch: then_branch.statements.deep_view(),
            else_branch: else_branch.deep_view(),
        }),
        s matches Statement::Pipeline(pipeline) ==> s.deep_view() == StatementView::Pipeline(
            pipeline.stages.deep_view(),
        ),
{
    match s {
        Statement::FunctionDef { name, parameters, body } => {
            assert(s.deep_view()->FunctionDef_parameters =~= parameters.deep_view());
            lemma_block_view(body);
        },
        Statement::If { condition, then_branch, else_branch } => {
            lemma_block_view(then_branch);
            match else_branch {
                Some(b) => {
                    lemma_block_view(b);
                },
                None => {},
            }
        },
        Statement::Pipeline(pipeline) => {
            assert(s.deep_view()->Pipeline_0 =~= pipeline.stages.deep_view());
        },
        _ => {},
    }
}

// ---------------------------------------------------------------------------
// Copies
// ---------------------------------------------------------------------------

/// A copy of an expression.
#[verifier::loop_isolation(false)]
pub fn clone_expression(e: &Expression) -> (r: Expression)
    ensures
        r.deep_view() == e.deep_view(),
    decreases e,
{
    match e {
        Expression::Literal(literal) => Expression::Literal(literal.clone()),
        Expression::Variable(name) => Expression::Variable(name.clone()),
        Expression::BinaryOp { left, operator, right } => Expression::BinaryOp {
            left: Box::new(clone_expression(left)),
            operator: *operator,
            right: Box::new(clone_expression(right)),
        },
        Expression::UnaryOp { operator, operand } => Expression::UnaryOp {
            operator: *operator,
            operand: Box::new(clone_expression(operand)),
        },
        Expression::Call { name, arguments } => {
            let mut out: Vec<Argument> = Vec::new();
            let mut i: usize = 0;
            while i < arguments.len()
                invariant
                    i <= arguments.len(),
                    out.len() == i,
                    forall|j: int| 0 <= j < i ==> (#[trigger] out[j]).deep_view() == arguments[j].deep_view(),
                decreases arguments.len() - i,
            {
                let copy = match &arguments[i] {
                    Argument::Positional(value) => Argument::Positional(clone_expression(value)),
                    Argument::Named { name, value } => Argument::Named {
                        name: name.clone(),
                        value: clone_expression(value),
                    },
                };
                out.push(copy);
                i += 1;
            }
            let r = Expression::Call { name: name.clone(), arguments: out };
            proof {
                crate::text::lemma_deep_view_eq(out, *arguments);
                lemma_views(r);
                lemma_views(*e);
            }
            r
        },
        Expression::MemberAccess { object, member } => Expression::MemberAccess {
            object: Box::new(clone_expression(object)),
            member: member.clone(),
        },
        Expression::ScriptBlock(block) => {
            let r = Expression::ScriptBlock(clone_block(block));
            r
        },
        Expression::Hashtable(entries) => {
            let mut out: Vec<HashEntry> = Vec::new();
            let mut i: usize = 0;
            while i < entries.len()
                invariant
                    i <= entries.len(),
                    out.len() == i,
                    forall|j: int| 0 <= j < i ==> (#[trigger] out[j]).deep_view() == entries[j].deep_view(),
                decreases entries.len() - i,
            {
                out.push(HashEntry { key: entries[i].key.clone(), value: clone_expression(&entries[i].value) });
                i += 1;
            }
            let r = Expression::Hashtable(out);
            proof {
                crate::text::lemma_deep_view_eq(out, *entries);
                lemma_views(r);
                lemma_views(*e);
            }
            r
        },
        Expression::Array(items) => {
            let out = clone_expressions(items);
            let r = Expression::Array(out);
            proof {
                lemma_views(r);
                lemma_views(*e);
            }
            r
        },
    }
}

/// A copy of a list of expressions.
#[verifier::loop_isolation(false)]
pub fn clone_expressions(items: &Vec<Expression>) -> (r: Vec<Expression>)
    ensures
        r.deep_view() == items.deep_view(),
    decreases items,
{
    let mut out: Vec<Expression> = Vec::new();
    let mut i: usize = 0;
    while i < items.len()
        invariant
            i <= items.len(),
            out.len() == i,
            forall|j: int| 0 <= j < i ==> (#[trigger] out[j]).deep_view() == items[j].deep_view(),
        decreases items.len() - i,
    {
        out.push(clone_expression(&items[i]));
        i += 1;
    }
    proof {
        crate::text::lemma_deep_view_eq(out, *items);
    }
    out
}

/// A copy of a list of statements.
#[verifier::loop_isolation(false)]
pub fn clone_statements(items: &Vec<Statement>) -> (r: Vec<Statement>)
    ensures
        r.deep_view() == items.deep_view(),
    decreases items,
{
    let mut out: Vec<Statement> = Vec::new();
    let mut i: usize = 0;
    while i < items.len()
        invariant
            i <= items.len(),
            out.len() == i,
            forall|j: int| 0 <= j < i ==> (#[trigger] out[j]).deep_view() == items[j].deep_view(),
        decreases items.len() - i,
    {
        out.push(clone_statement(&items[i]));
        i += 1;
    }
    proof {
        crate::text::lemma_deep_view_eq(out, *items);
    }
    out
}

/// A copy of a block.
pub fn clone_block(b: &Block) -> (r: Block)
    ensures
        r.deep_view() == b.deep_view(),
    decreases b,
{
    let r = Block { statements: clone_statements(&b.statements) };
    proof {
        lemma_block_view(r);
        lemma_block_view(*b);
    }
    r
}

/// A copy of a list of parameters.
#[verifier::loop_isolation(false)]
pub fn clone_parameters(items: &Vec<Parameter>) -> (r: Vec<Parameter>)
    ensures
        r.deep_view() == items.deep_view(),
    decreases items,
{
    let mut out: Vec<Parameter> = Vec::new();
    let mut i: usize = 0;
    while i < items.len()
        invariant
            i <= items.len(),
            out.len() == i,
            forall|j: int| 0 <= j < i ==> (#[trigger] out[j]).deep_view() == items[j].deep_view(),
        decreases items.len() - i,
    {
        let default_value = match &items[i].default_value {
            Some(e) => Some(clone_expression(e)),
            None => None,
        };
        out.push(Parameter { name: items[i].name.clone(), default_value });
        i += 1;
    }
    proof {
        crate::text::lemma_deep_view_eq(out, *items);
    }
    out
}

/// A copy of a statement.
pub fn clone_statement(s: &Statement) -> (r: Statement)
    ensures
        r.deep_view() == s.deep_view(),
    decreases s,
{
    match s {
        Statement::Expression(e) => Statement::Expression(clone_expression(e)),
        Statement::Assignment { variable, value } => Statement::Assignment {
            variable: variable.clone(),
            value: clone_expression(value),
        },
        Statement::FunctionDef { name, parameters, body } => {
            let r = Statement::FunctionDef {
                name: name.clone(),
                parameters: clone_parameters(parameters),
                body: clone_block(body),
            };
            proof {
                lemma_statement_views(r);
                lemma_statement_views(*s);
                lemma_block_view(*body);
                lemma_block_view(r->FunctionDef_body);
            }
            r
        },
        Statement::If { condition, then_branch, else_branch } => {
            let other = match else_branch {
                Some(b) => Some(clone_block(b)),
                None => None,
            };
            Statement::If { condition: clone_expression(condition), then_branch: clone_block(then_branch), else_branch: other }
        },
        Statement::Return(value) => {
            let copy = match value {
                Some(e) => Some(clone_expression(e)),
                None => None,
            };
            Statement::Return(copy)
        },
        Statement::Pipeline(pipeline) => {
            let r = Statement::Pipeline(Pipeline { stages: clone_expressions(&pipeline.stages) });
            proof {
                lemma_statement_views(r);
                lemma_statement_views(*s);
            }
            r
        },
    }
}

impl Clone for Expression {
    fn clone(&self) -> (r: Expression)
        ensures
            r.deep_view() == self.deep_view(),
    {
        clone_expression(self)
    }
}

impl Clone for Statement {
    fn clone(&self) -> (r: Statement)
        ensures
            r.deep_view() == self.deep_view(),
    {
        clone_statement(self)
    }
}

impl Clone for Block {
    fn clone(&self) -> (r: Block)
        ensures
            r.deep_view() == self.deep_view(),
    {
        clone_block(self)
    }
}

impl Clone for Program {
    fn clone(&self) -> (r: Program)
        ensures
            r.deep_view() == self.deep_view(),
    {
        Program { statements: clone_statements(&self.statements) }
    }
}

} // verus!

//! The parser: from located tokens to a program.
//!
//! Statements are parsed by recursive descent, expressions by precedence climbing.
//! The `spec` functions of this file define the tree of a token list; the
//! executable parser is proved to build exactly that tree, or to fail with exactly
//! that error.

use vstd::prelude::*;
use crate::ast::{
    Argument,
    ArgumentView,
    BinaryOperator,
    Block,
    Expression,
    ExpressionView,
    HashEntry,
    HashEntryView,
    Literal,
    LiteralView,
    Parameter,
    ParameterView,
    Pipeline,
    Program,
    Statement,
    StatementView,
    UnaryOperator,
    lemma_block_view,
    lemma_statement_views,
    lemma_views,
};
use crate::text::{lemma_deep_view_push, push_text, string_from};
use crate::token::{
    clone_parts,
    place_text,
    token_text,
    LocatedToken,
    LocatedTokenView,
    Position,
    Token,
    TokenView,
};

verus! {

/// Why a token list is no program.
#[derive(Debug, PartialEq)]
pub enum ParseError {
    UnexpectedToken { expected: String, found: Token, position: Position },
    UnexpectedEof { expected: String },
    InvalidExpression { message: String, position: Position },
    InvalidStatement { message: String, position: Position },
    InvalidOperator { operator: Token, position: Position },
}

/// The view of an error of the parser.
pub enum ParseErrorView {
    UnexpectedToken { expected: Seq<char>, found: TokenView, position: Position },
    UnexpectedEof { expected: Seq<char> },
    InvalidExpression { message: Seq<char>, position: Position },
    InvalidStatement { message: Seq<char>, position: Position },
    InvalidOperator { operator: TokenView, position: Position },
}

impl DeepView for ParseError {
    type V = ParseErrorView;

    open spec fn deep_view(&self) -> ParseErrorView {
        match self {
            ParseError::UnexpectedToken { expected, found, position } => ParseErrorView::UnexpectedToken {
                expected: expected@,
                found: found.deep_view(),
                position: *position,
            },
            ParseError::UnexpectedEof { expected } => ParseErrorView::UnexpectedEof { expected: expected@ },
            ParseError::InvalidExpression { message, position } => ParseErrorView::InvalidExpression {
                message: message@,
                position: *position,
            },
            ParseError::InvalidStatement { message, position } => ParseErrorView::InvalidStatement {
                message: message@,
                position: *position,
            },
            ParseError::InvalidOperator { operator, position } => ParseErrorView::InvalidOperator {
                operator: operator.deep_view(),
                position: *position,
            },
        }
    }
}

/// The message of an error.
pub open spec fn parse_error_text(e: ParseErrorView) -> Seq<char> {
    match e {
        ParseErrorView::UnexpectedToken { expected, found, position } => "Unexpected token at "@ + place_text(position)
            + ": expected "@ + expected + ", found "@ + token_text(found),
        ParseErrorView::UnexpectedEof { expected } => "Unexpected end of input: expected "@ + expected,
        ParseErrorView::InvalidExpression { message, position } => "Invalid expression at "@ + place_text(position)
            + ": "@ + message,
        ParseErrorView::InvalidStatement { message, position } => "Invalid statement at "@ + place_text(position)
            + ": "@ + message,
        ParseErrorView::InvalidOperator { operator, position } => "Invalid operator "@ + token_text(operator)
            + " at "@ + place_text(position),
    }
}

impl ParseError {
    /// The message of the error.
    pub fn to_string(&self) -> (r: String)
        ensures
            r@ == parse_error_text(self.deep_view()),
    {
        let mut out: Vec<char> = Vec::new();
        match self {
            ParseError::UnexpectedToken { expected, found, position } => {
                push_text(&mut out, "Unexpected token at ");
                position.write_text(&mut out);
                push_text(&mut out, ": expected ");
                push_text(&mut out, expected.as_str());
                push_text(&mut out, ", found ");
                found.write_text(&mut out);
            },
            ParseError::UnexpectedEof { expected } => {
                push_text(&mut out, "Unexpected end of input: expected ");
                push_text(&mut out, expected.as_str());
            },
            ParseError::InvalidExpression { message, position } => {
                push_text(&mut out, "Invalid expression at ");
                position.write_text(&mut out);
                push_text(&mut out, ": ");
                push_text(&mut out, message.as_str());
            },
            ParseError::InvalidStatement { message, position } => {
                push_text(&mut out, "Invalid statement at ");
                position.write_text(&mut out);
                push_text(&mut out, ": ");
                push_text(&mut out, message.as_str());
            },
            ParseError::InvalidOperator { operator, position } => {
                push_text(&mut out, "Invalid operator ");
                operator.write_text(&mut out);
                push_text(&mut out, " at ");
                position.write_text(&mut out);
            },
        }
        assert(out@ =~= parse_error_text(self.deep_view()));
        string_from(&out)
    }
}

/// The views of located tokens.
pub type Tokens = Seq<LocatedTokenView>;

/// A parsed piece, and the number of tokens that it took.
pub struct Parsed<T> {
    pub value: T,
    pub used: nat,
}

/// A parsed list, and the index of the token behind it.
pub struct Listed<T> {
    pub items: Seq<T>,
    pub end: int,
}

/// A parsed expression, and the index of the token behind it.
pub struct Ended {
    pub value: ExpressionView,
    pub end: int,
}

// ---------------------------------------------------------------------------
// Looking at tokens
// ---------------------------------------------------------------------------

/// The token at index `i`, if there is one.
pub open spec fn peek(ts: Tokens, i: int) -> Option<TokenView> {
    if 0 <= i < ts.len() {
        Some(ts[i].token)
    } else {
        None
    }
}

/// Whether the token at index `i` is `token`.
pub open spec fn is_token(ts: Tokens, i: int, token: TokenView) -> bool {
    peek(ts, i) == Some(token)
}

/// The number of tokens from `i` to the end of the list.
pub open spec fn remaining(ts: Tokens, i: int) -> nat {
    if i < ts.len() {
        (ts.len() - i) as nat
    } else {
        0
    }
}

/// Whether nothing is left to parse at `i`: the list is over, or `Eof` stands there.
pub open spec fn at_end(ts: Tokens, i: int) -> bool {
    peek(ts, i) is None || is_token(ts, i, TokenView::Eof)
}

/// Whether a statement separator stands at `i`: a line feed or a semicolon.
pub open spec fn is_separator(ts: Tokens, i: int) -> bool {
    is_token(ts, i, TokenView::Newline) || is_token(ts, i, TokenView::Semicolon)
}

/// Whether a statement ends at `i`: at a separator or at `Eof`.
pub open spec fn is_terminator(ts: Tokens, i: int) -> bool {
    is_separator(ts, i) || is_token(ts, i, TokenView::Eof)
}

/// The number of separators in a row from `i`.
pub open spec fn separators(ts: Tokens, i: int) -> nat
    decreases remaining(ts, i),
{
    if is_separator(ts, i) {
        1 + separators(ts, i + 1)
    } else {
        0
    }
}

/// The token that is taken at `i`: behind the end of the list this is `Eof` at the
/// place of the last token.
pub open spec fn taken(ts: Tokens, i: int) -> LocatedTokenView {
    if 0 <= i < ts.len() {
        ts[i]
    } else if ts.len() > 0 {
        LocatedTokenView { token: TokenView::Eof, position: ts[ts.len() - 1].position }
    } else {
        LocatedTokenView { token: TokenView::Eof, position: Position { line: 1, column: 1 } }
    }
}

/// The error of finding another token at `i` than the one described.
pub open spec fn unexpected(ts: Tokens, i: int, expected: Seq<char>) -> ParseErrorView {
    ParseErrorView::UnexpectedToken { expected, found: taken(ts, i).token, position: taken(ts, i).position }
}

/// Precedence and operator of a token that stands between two operands. Comparisons
/// bind least (1), then sums (2), then products (3).
pub open spec fn binary_operator(token: TokenView) -> Option<(u8, BinaryOperator)> {
    match token {
        TokenView::Equal => Some((1u8, BinaryOperator::Equal)),
        TokenView::NotEqual => Some((1u8, BinaryOperator::NotEqual)),
        TokenView::Greater => Some((1u8, BinaryOperator::Greater)),
        TokenView::Less => Some((1u8, BinaryOperator::Less)),
        TokenView::GreaterOrEqual => Some((1u8, BinaryOperator::GreaterOrEqual)),
        TokenView::LessOrEqual => Some((1u8, BinaryOperator::LessOrEqual)),
        TokenView::Plus => Some((2u8, BinaryOperator::Add)),
        TokenView::Minus => Some((2u8, BinaryOperator::Subtract)),
        TokenView::Multiply => Some((3u8, BinaryOperator::Multiply)),
        TokenView::Divide => Some((3u8, BinaryOperator::Divide)),
        TokenView::Modulo => Some((3u8, BinaryOperator::Modulo)),
        _ => None,
    }
}

/// Whether a token that stands between two operands stands at `i`.
pub open spec fn is_binary_operator(ts: Tokens, i: int) -> bool {
    peek(ts, i) matches Some(token) && binary_operator(token) is Some
}

/// Whether a named argument starts at `i`: a minus sign and an identifier. This
/// wins over subtraction.
pub open spec fn named_argument_starts(ts: Tokens, i: int) -> bool {
    is_token(ts, i, TokenView::Minus) && (peek(ts, i + 1) matches Some(token) && token is Identifier)
}

/// Whether the tokens from `i`, behind an identifier, are arguments of a call.
pub open spec fn call_has_arguments(ts: Tokens, i: int) -> bool {
    named_argument_starts(ts, i) || (!is_token(ts, i, TokenView::Comma) && !is_token(ts, i, TokenView::Pipeline)
        && !is_terminator(ts, i) && !is_token(ts, i, TokenView::RightParen) && !is_token(
        ts,
        i,
        TokenView::RightBrace,
    ) && !is_binary_operator(ts, i))
}

/// Whether the arguments of a call end at `i`.
pub open spec fn arguments_end(ts: Tokens, i: int) -> bool {
    at_end(ts, i) || is_terminator(ts, i) || is_token(ts, i, TokenView::Pipeline) || is_token(
        ts,
        i,
        TokenView::RightParen,
    ) || is_token(ts, i, TokenView::RightBrace)
}

/// Whether a variable and an assignment sign stand at `i`.
pub open spec fn assignment_ahead(ts: Tokens, i: int) -> bool {
    (peek(ts, i) matches Some(token) && token is Variable) && is_token(ts, i + 1, TokenView::Assignment)
}

/// Whether a pipe stands outside all brackets before the statement that starts at
/// `i` ends. `depth` counts the brackets that are open.
pub open spec fn pipe_ahead(ts: Tokens, i: int, depth: int) -> bool
    decreases remaining(ts, i),
{
    if !(0 <= i < ts.len()) {
        false
    } else {
        match ts[i].token {
            TokenView::LeftParen | TokenView::LeftBrace | TokenView::LeftBracket => pipe_ahead(ts, i + 1, depth + 1),
            TokenView::RightParen | TokenView::RightBrace | TokenView::RightBracket => pipe_ahead(
                ts,
                i + 1,
                depth - 1,
            ),
            TokenView::Pipeline => depth == 0 || pipe_ahead(ts, i + 1, depth),
            TokenView::Newline | TokenView::Semicolon | TokenView::Eof => depth != 0 && pipe_ahead(ts, i + 1, depth),
            _ => pipe_ahead(ts, i + 1, depth),
        }
    }
}

// ---------------------------------------------------------------------------
// The grammar
// ---------------------------------------------------------------------------

/// A primary expression at `pos`: a literal, a variable, a call, an expression in
/// parentheses, a script block, a negation, or an array or hashtable literal.
pub open spec fn primary(ts: Tokens, pos: int) -> Result<Parsed<ExpressionView>, ParseErrorView>
    decreases remaining(ts, pos), 3int,
{
    match peek(ts, pos) {
        None => Err(ParseErrorView::UnexpectedEof { expected: "expression"@ }),
        Some(token) => match token {
            TokenView::Number(bits) => Ok(
                Parsed { value: ExpressionView::Literal(LiteralView::Number(bits)), used: 1 },
            ),
            TokenView::String(s) => Ok(Parsed { value: ExpressionView::Literal(LiteralView::String(s)), used: 1 }),
            TokenView::InterpolatedString(parts) => Ok(
                Parsed { value: ExpressionView::Literal(LiteralView::InterpolatedString(parts)), used: 1 },
            ),
            TokenView::Boolean(b) => Ok(Parsed { value: ExpressionView::Literal(LiteralView::Boolean(b)), used: 1 }),
            TokenView::Variable(name) => Ok(Parsed { value: ExpressionView::Variable(name), used: 1 }),
            TokenView::Identifier(name) => {
                if call_has_arguments(ts, pos + 1) {
                    match call_arguments(ts, pos + 1, Seq::empty()) {
                        Err(e) => Err(e),
                        Ok(list) => Ok(
                            Parsed {
                                value: ExpressionView::Call { name, arguments: list.items },
                                used: (list.end - pos) as nat,
                            },
                        ),
                    }
                } else {
                    Ok(Parsed { value: ExpressionView::Call { name, arguments: Seq::empty() }, used: 1 })
                }
            },
            TokenView::LeftParen => match expression(ts, pos + 1, 0) {
                Err(e) => Err(e),
                Ok(inner) => if is_token(ts, pos + 1 + inner.used, TokenView::RightParen) {
                    Ok(Parsed { value: inner.value, used: inner.used + 2 })
                } else {
                    Err(unexpected(ts, pos + 1 + inner.used, ")"@))
                },
            },
            TokenView::LeftBrace => match block(ts, pos) {
                Err(e) => Err(e),
                Ok(body) => Ok(Parsed { value: ExpressionView::ScriptBlock(body.value), used: body.used }),
            },
            TokenView::Minus => match primary(ts, pos + 1) {
                Err(e) => Err(e),
                Ok(operand) => Ok(
                    Parsed {
                        value: ExpressionView::UnaryOp {
                            operator: UnaryOperator::Negate,
                            operand: Box::new(operand.value),
                        },
                        used: operand.used + 1,
                    },
                ),
            },
            TokenView::At => {
                if is_token(ts, pos + 1, TokenView::LeftParen) {
                    match array_items(ts, pos + 2, Seq::empty()) {
                        Err(e) => Err(e),
                        Ok(list) => Ok(
                            Parsed { value: ExpressionView::Array(list.items), used: (list.end - pos) as nat },
                        ),
                    }
                } else if is_token(ts, pos + 1, TokenView::LeftBrace) {
                    match hash_entries(ts, pos + 2, Seq::empty()) {
                        Err(e) => Err(e),
                        Ok(list) => Ok(
                            Parsed { value: ExpressionView::Hashtable(list.items), used: (list.end - pos) as nat },
                        ),
                    }
                } else {
                    Err(unexpected(ts, pos + 1, "( or {"@))
                }
            },
            _ => Err(
                ParseErrorView::InvalidExpression {
                    message: "Unexpected token: "@ + token_text(token),
                    position: ts[pos].position,
                },
            ),
        },
    }
}

/// The arguments of a call from `pos`, behind those of `acc`: named arguments
/// (`-Name value`) and positional ones, with commas between them or not. (An
/// argument that took no token would end the list; `lemma_progress` shows that there
/// is none.)
pub open spec fn call_arguments(ts: Tokens, pos: int, acc: Seq<ArgumentView>) -> Result<
    Listed<ArgumentView>,
    ParseErrorView,
>
    decreases remaining(ts, pos), 5int,
{
    if arguments_end(ts, pos) {
        Ok(Listed { items: acc, end: pos })
    } else if named_argument_starts(ts, pos) {
        match argument(ts, pos + 2) {
            Err(e) => Err(e),
            Ok(value) => {
                let behind = pos + 2 + value.used;
                let next = if is_token(ts, behind, TokenView::Comma) {
                    behind + 1
                } else {
                    behind
                };
                call_arguments(
                    ts,
                    next,
                    acc.push(ArgumentView::Named { name: ts[pos + 1].token->Identifier_0, value: value.value }),
                )
            },
        }
    } else if is_binary_operator(ts, pos) {
        Ok(Listed { items: acc, end: pos })
    } else {
        match argument(ts, pos) {
            Err(e) => Err(e),
            Ok(value) => {
                let behind = pos + value.used;
                let next = if is_token(ts, behind, TokenView::Comma) {
                    behind + 1
                } else {
                    behind
                };
                if value.used == 0 {
                    Ok(Listed { items: acc.push(ArgumentView::Positional(value.value)), end: pos })
                } else {
                    call_arguments(ts, next, acc.push(ArgumentView::Positional(value.value)))
                }
            },
        }
    }
}

/// A positional argument at `pos`: a primary expression, but an identifier is a bare
/// word, that is a call without arguments. A call with arguments stands in
/// parentheses where it is an argument.
pub open spec fn argument(ts: Tokens, pos: int) -> Result<Parsed<ExpressionView>, ParseErrorView>
    decreases remaining(ts, pos), 4int,
{
    match peek(ts, pos) {
        Some(TokenView::Identifier(name)) => Ok(
            Parsed { value: ExpressionView::Call { name, arguments: Seq::empty() }, used: 1 },
        ),
        _ => primary(ts, pos),
    }
}

/// The items of an array literal from `pos`, up to and with the closing parenthesis.
/// Commas and statement separators stand between the items.
pub open spec fn array_items(ts: Tokens, pos: int, acc: Seq<ExpressionView>) -> Result<
    Listed<ExpressionView>,
    ParseErrorView,
>
    decreases remaining(ts, pos), 13int,
{
    if is_token(ts, pos, TokenView::RightParen) {
        Ok(Listed { items: acc, end: pos + 1 })
    } else if is_separator(ts, pos) || is_token(ts, pos, TokenView::Comma) {
        array_items(ts, pos + 1, acc)
    } else if at_end(ts, pos) {
        Err(unexpected(ts, pos, ")"@))
    } else {
        match expression(ts, pos, 0) {
            Err(e) => Err(e),
            Ok(item) => if item.used == 0 {
                Err(unexpected(ts, pos, ")"@))
            } else {
                array_items(ts, pos + item.used, acc.push(item.value))
            },
        }
    }
}

/// The entries of a hashtable literal from `pos`, up to and with the closing brace.
/// A key is an identifier or a string; statement separators stand between the entries.
pub open spec fn hash_entries(ts: Tokens, pos: int, acc: Seq<HashEntryView>) -> Result<
    Listed<HashEntryView>,
    ParseErrorView,
>
    decreases remaining(ts, pos), 13int,
{
    if is_token(ts, pos, TokenView::RightBrace) {
        Ok(Listed { items: acc, end: pos + 1 })
    } else if is_separator(ts, pos) {
        hash_entries(ts, pos + 1, acc)
    } else {
        match hash_key(peek(ts, pos)) {
            None => Err(unexpected(ts, pos, "hashtable key"@)),
            Some(key) => if !is_token(ts, pos + 1, TokenView::Assignment) {
                Err(unexpected(ts, pos + 1, "="@))
            } else {
                match expression(ts, pos + 2, 0) {
                    Err(e) => Err(e),
                    Ok(value) => hash_entries(
                        ts,
                        pos + 2 + value.used,
                        acc.push(HashEntryView { key, value: value.value }),
                    ),
                }
            },
        }
    }
}

/// The key that a token names in a hashtable literal.
pub open spec fn hash_key(token: Option<TokenView>) -> Option<Seq<char>> {
    match token {
        Some(TokenView::Identifier(name)) => Some(name),
        Some(TokenView::String(text)) => Some(text),
        _ => None,
    }
}

/// An expression at `pos` whose operators bind at least as much as `min`.
pub open spec fn expression(ts: Tokens, pos: int, min: int) -> Result<Parsed<ExpressionView>, ParseErrorView>
    decreases remaining(ts, pos), 6int,
{
    match primary(ts, pos) {
        Err(e) => Err(e),
        Ok(first) => match operators(ts, pos + first.used, first.value, min) {
            Err(e) => Err(e),
            Ok(whole) => Ok(Parsed { value: whole.value, used: (whole.end - pos) as nat }),
        },
    }
}

/// What follows the operand `left` from `pos`: member accesses, which bind most, and
/// operators with their right operands, as long as they bind at least as much as `min`.
pub open spec fn operators(ts: Tokens, pos: int, left: ExpressionView, min: int) -> Result<Ended, ParseErrorView>
    decreases remaining(ts, pos), 5int,
{
    if is_token(ts, pos, TokenView::Dot) {
        match taken(ts, pos + 1).token {
            TokenView::Identifier(member) => operators(
                ts,
                pos + 2,
                ExpressionView::MemberAccess { object: Box::new(left), member },
                min,
            ),
            _ => Err(unexpected(ts, pos + 1, "property name"@)),
        }
    } else if is_binary_operator(ts, pos) {
        let (precedence, operator) = binary_operator(ts[pos].token)->0;
        if precedence < min {
            Ok(Ended { value: left, end: pos })
        } else {
            match expression(ts, pos + 1, precedence + 1) {
                Err(e) => Err(e),
                Ok(right) => operators(
                    ts,
                    pos + 1 + right.used,
                    ExpressionView::BinaryOp { left: Box::new(left), operator, right: Box::new(right.value) },
                    min,
                ),
            }
        }
    } else {
        Ok(Ended { value: left, end: pos })
    }
}

/// A block at `pos`: statements between braces.
pub open spec fn block(ts: Tokens, pos: int) -> Result<Parsed<Seq<StatementView>>, ParseErrorView>
    decreases remaining(ts, pos), 2int,
{
    if !is_token(ts, pos, TokenView::LeftBrace) {
        Err(unexpected(ts, pos, "{"@))
    } else {
        match statements(ts, pos + 1, Seq::empty(), true) {
            Err(e) => Err(e),
            Ok(list) => if is_token(ts, list.end, TokenView::RightBrace) {
                Ok(Parsed { value: list.items, used: (list.end + 1 - pos) as nat })
            } else {
                Err(unexpected(ts, list.end, "}"@))
            },
        }
    }
}

/// The statements from `pos`, behind those of `acc`, as far as the end of the
/// tokens and, inside a block, as far as a closing brace.
pub open spec fn statements(ts: Tokens, pos: int, acc: Seq<StatementView>, in_block: bool) -> Result<
    Listed<StatementView>,
    ParseErrorView,
>
    decreases remaining(ts, pos), 20int,
{
    if at_end(ts, pos) || (in_block && is_token(ts, pos, TokenView::RightBrace)) {
        Ok(Listed { items: acc, end: pos })
    } else if is_separator(ts, pos) {
        statements(ts, pos + 1, acc, in_block)
    } else {
        match statement(ts, pos) {
            Err(e) => Err(e),
            Ok(one) => if one.used == 0 {
                Ok(Listed { items: acc.push(one.value), end: pos })
            } else {
                statements(ts, pos + one.used, acc.push(one.value), in_block)
            },
        }
    }
}

/// A statement at `pos`, with the separators before and behind it.
pub open spec fn statement(ts: Tokens, pos: int) -> Result<Parsed<StatementView>, ParseErrorView>
    decreases remaining(ts, pos), 19int,
{
    let skipped = separators(ts, pos);
    let start = pos + skipped;
    if is_token(ts, start, TokenView::If) {
        match if_statement(ts, start) {
            Err(e) => Err(e),
            Ok(s) => Ok(Parsed { value: s.value, used: skipped + s.used }),
        }
    } else if is_token(ts, start, TokenView::Function) {
        match function_definition(ts, start) {
            Err(e) => Err(e),
            Ok(s) => Ok(Parsed { value: s.value, used: skipped + s.used }),
        }
    } else if is_token(ts, start, TokenView::Return) {
        match return_statement(ts, start) {
            Err(e) => Err(e),
            Ok(s) => Ok(Parsed { value: s.value, used: skipped + s.used }),
        }
    } else if assignment_ahead(ts, start) {
        match expression(ts, start + 2, 0) {
            Err(e) => Err(e),
            Ok(value) => Ok(
                Parsed {
                    value: StatementView::Assignment { variable: ts[start].token->Variable_0, value: value.value },
                    used: skipped + 2 + value.used + separators(ts, start + 2 + value.used),
                },
            ),
        }
    } else if pipe_ahead(ts, start, 0) {
        match expression(ts, start, 0) {
            Err(e) => Err(e),
            Ok(first) => match pipeline_stages(ts, start + first.used, seq![first.value]) {
                Err(e) => Err(e),
                Ok(list) => Ok(
                    Parsed {
                        value: StatementView::Pipeline(list.items),
                        used: ((list.end - pos) + separators(ts, list.end)) as nat,
                    },
                ),
            },
        }
    } else {
        match expression(ts, start, 0) {
            Err(e) => Err(e),
            Ok(value) => Ok(
                Parsed {
                    value: StatementView::Expression(value.value),
                    used: skipped + value.used + separators(ts, start + value.used),
                },
            ),
        }
    }
}

/// The stages of a pipeline from `pos`, behind those of `acc`: each follows a pipe.
pub open spec fn pipeline_stages(ts: Tokens, pos: int, acc: Seq<ExpressionView>) -> Result<
    Listed<ExpressionView>,
    ParseErrorView,
>
    decreases remaining(ts, pos), 16int,
{
    if is_token(ts, pos, TokenView::Pipeline) {
        match expression(ts, pos + 1, 0) {
            Err(e) => Err(e),
            Ok(stage) => pipeline_stages(ts, pos + 1 + stage.used, acc.push(stage.value)),
        }
    } else {
        Ok(Listed { items: acc, end: pos })
    }
}

/// A conditional at `pos`, where `if` stands: the condition in parentheses, a
/// block, and an `else` with its block or none.
pub open spec fn if_statement(ts: Tokens, pos: int) -> Result<Parsed<StatementView>, ParseErrorView>
    decreases remaining(ts, pos), 18int,
{
    if !is_token(ts, pos, TokenView::If) {
        Err(unexpected(ts, pos, "if"@))
    } else if !is_token(ts, pos + 1, TokenView::LeftParen) {
        Err(unexpected(ts, pos + 1, "("@))
    } else {
        match expression(ts, pos + 2, 0) {
            Err(e) => Err(e),
            Ok(condition) => {
                let close = pos + 2 + condition.used;
                if !is_token(ts, close, TokenView::RightParen) {
                    Err(unexpected(ts, close, ")"@))
                } else {
                    match block(ts, close + 1) {
                        Err(e) => Err(e),
                        Ok(then_branch) => {
                            let behind = close + 1 + then_branch.used;
                            if is_token(ts, behind, TokenView::Else) {
                                match block(ts, behind + 1) {
                                    Err(e) => Err(e),
                                    Ok(else_branch) => Ok(
                                        Parsed {
                                            value: StatementView::If {
                                                condition: condition.value,
                                                then_branch: then_branch.value,
                                                else_branch: Some(else_branch.value),
                                            },
                                            used: 3 + condition.used + then_branch.used + 1 + else_branch.used,
                                        },
                                    ),
                                }
                            } else {
                                Ok(
                                    Parsed {
                                        value: StatementView::If {
                                            condition: condition.value,
                                            then_branch: then_branch.value,
                                            else_branch: None,
                                        },
                                        used: 3 + condition.used + then_branch.used,
                                    },
                                )
                            }
                        },
                    }
                }
            },
        }
    }
}

/// A function definition at `pos`, where `function` stands: the name, the
/// parameters in parentheses or none, and the body.
pub open spec fn function_definition(ts: Tokens, pos: int) -> Result<Parsed<StatementView>, ParseErrorView>
    decreases remaining(ts, pos), 18int,
{
    if !is_token(ts, pos, TokenView::Function) {
        Err(unexpected(ts, pos, "function"@))
    } else {
        match taken(ts, pos + 1).token {
            TokenView::Identifier(name) => {
                let list = if is_token(ts, pos + 2, TokenView::LeftParen) {
                    if is_token(ts, pos + 3, TokenView::RightParen) {
                        Ok(Listed { items: Seq::<ParameterView>::empty(), end: pos + 4 })
                    } else {
                        parameters(ts, pos + 3, Seq::empty())
                    }
                } else {
                    Ok(Listed { items: Seq::<ParameterView>::empty(), end: pos + 2 })
                };
                match list {
                    Err(e) => Err(e),
                    Ok(list) => {
                        let used = (list.end - pos) as nat;
                        match block(ts, pos + used) {
                            Err(e) => Err(e),
                            Ok(body) => Ok(
                                Parsed {
                                    value: StatementView::FunctionDef {
                                        name,
                                        parameters: list.items,
                                        body: body.value,
                                    },
                                    used: used + body.used,
                                },
                            ),
                        }
                    },
                }
            },
            _ => Err(unexpected(ts, pos + 1, "function name"@)),
        }
    }
}

/// The parameters of a function from `pos`, behind those of `acc`, up to and with
/// the closing parenthesis: variables, each with a default value (`= expression`)
/// or none, and commas between them.
pub open spec fn parameters(ts: Tokens, pos: int, acc: Seq<ParameterView>) -> Result<
    Listed<ParameterView>,
    ParseErrorView,
>
    decreases remaining(ts, pos), 1int,
{
    match taken(ts, pos).token {
        TokenView::Variable(name) => {
            let default_value = if is_token(ts, pos + 1, TokenView::Assignment) {
                match expression(ts, pos + 2, 0) {
                    Err(e) => Err(e),
                    Ok(value) => Ok(Parsed { value: Some(value.value), used: value.used + 1 }),
                }
            } else {
                Ok(Parsed { value: None::<ExpressionView>, used: 0 })
            };
            match default_value {
                Err(e) => Err(e),
                Ok(default_value) => {
                    let behind = pos + 1 + default_value.used;
                    let all = acc.push(ParameterView { name, default_value: default_value.value });
                    if is_token(ts, behind, TokenView::Comma) {
                        parameters(ts, behind + 1, all)
                    } else if is_token(ts, behind, TokenView::RightParen) {
                        Ok(Listed { items: all, end: behind + 1 })
                    } else {
                        Err(unexpected(ts, behind, ")"@))
                    }
                },
            }
        },
        _ => Err(unexpected(ts, pos, "parameter name"@)),
    }
}

/// A return statement at `pos`, where `return` stands: with an expression, unless
/// the statement ends at once.
pub open spec fn return_statement(ts: Tokens, pos: int) -> Result<Parsed<StatementView>, ParseErrorView>
    decreases remaining(ts, pos), 18int,
{
    if !is_token(ts, pos, TokenView::Return) {
        Err(unexpected(ts, pos, "return"@))
    } else if is_separator(ts, pos + 1) || at_end(ts, pos + 1) {
        Ok(Parsed { value: StatementView::Return(None), used: 1 + separators(ts, pos + 1) })
    } else {
        match expression(ts, pos + 1, 0) {
            Err(e) => Err(e),
            Ok(value) => Ok(
                Parsed {
                    value: StatementView::Return(Some(value.value)),
                    used: 1 + value.used + separators(ts, pos + 1 + value.used),
                },
            ),
        }
    }
}

/// The program of a token list, parsed from `pos` on.
pub open spec fn program_from(ts: Tokens, pos: int) -> Result<Seq<StatementView>, ParseErrorView> {
    match statements(ts, pos, Seq::empty(), false) {
        Err(e) => Err(e),
        Ok(list) => Ok(list.items),
    }
}

/// The program of a token list.
pub open spec fn program_of(ts: Tokens) -> Result<Seq<StatementView>, ParseErrorView> {
    program_from(ts, 0)
}

// ---------------------------------------------------------------------------
// Progress
// ---------------------------------------------------------------------------

/// The arguments of a call end at or behind the token at which they start.
pub proof fn lemma_call_arguments_extent(ts: Tokens, pos: int, acc: Seq<ArgumentView>)
    ensures
        call_arguments(ts, pos, acc) matches Ok(list) ==> list.end >= pos,
    decreases remaining(ts, pos),
{
    if arguments_end(ts, pos) {
    } else if named_argument_starts(ts, pos) {
        match argument(ts, pos + 2) {
            Err(_) => {},
            Ok(value) => {
                let behind = pos + 2 + value.used;
                let next = if is_token(ts, behind, TokenView::Comma) {
                    behind + 1
                } else {
                    behind
                };
                lemma_call_arguments_extent(
                    ts,
                    next,
                    acc.push(ArgumentView::Named { name: ts[pos + 1].token->Identifier_0, value: value.value }),
                );
            },
        }
    } else if is_binary_operator(ts, pos) {
    } else {
        match argument(ts, pos) {
            Err(_) => {},
            Ok(value) => {
                if value.used > 0 {
                    let behind = pos + value.used;
                    let next = if is_token(ts, behind, TokenView::Comma) {
                        behind + 1
                    } else {
                        behind
                    };
                    lemma_call_arguments_extent(ts, next, acc.push(ArgumentView::Positional(value.value)));
                }
            },
        }
    }
}

/// An array literal ends behind the token at which its items start.
pub proof fn lemma_array_items_extent(ts: Tokens, pos: int, acc: Seq<ExpressionView>)
    ensures
        array_items(ts, pos, acc) matches Ok(list) ==> list.end > pos,
    decreases remaining(ts, pos),
{
    if is_token(ts, pos, TokenView::RightParen) {
    } else if is_separator(ts, pos) || is_token(ts, pos, TokenView::Comma) {
        lemma_array_items_extent(ts, pos + 1, acc);
    } else if at_end(ts, pos) {
    } else {
        match expression(ts, pos, 0) {
            Err(_) => {},
            Ok(item) => {
                if item.used > 0 {
                    lemma_array_items_extent(ts, pos + item.used, acc.push(item.value));
                }
            },
        }
    }
}

/// A hashtable literal ends behind the token at which its entries start.
pub proof fn lemma_hash_entries_extent(ts: Tokens, pos: int, acc: Seq<HashEntryView>)
    ensures
        hash_entries(ts, pos, acc) matches Ok(list) ==> list.end > pos,
    decreases remaining(ts, pos),
{
    if is_token(ts, pos, TokenView::RightBrace) {
    } else if is_separator(ts, pos) {
        lemma_hash_entries_extent(ts, pos + 1, acc);
    } else {
        match hash_key(peek(ts, pos)) {
            None => {},
            Some(key) => {
                if is_token(ts, pos + 1, TokenView::Assignment) {
                    match expression(ts, pos + 2, 0) {
                        Err(_) => {},
                        Ok(value) => {
                            lemma_hash_entries_extent(
                                ts,
                                pos + 2 + value.used,
                                acc.push(HashEntryView { key, value: value.value }),
                            );
                        },
                    }
                }
            },
        }
    }
}

/// What follows an operand ends at or behind the token at which it starts.
pub proof fn lemma_operators_extent(ts: Tokens, pos: int, left: ExpressionView, min: int)
    ensures
        operators(ts, pos, left, min) matches Ok(whole) ==> whole.end >= pos,
    decreases remaining(ts, pos),
{
    if is_token(ts, pos, TokenView::Dot) {
        match taken(ts, pos + 1).token {
            TokenView::Identifier(member) => {
                lemma_operators_extent(
                    ts,
                    pos + 2,
                    ExpressionView::MemberAccess { object: Box::new(left), member },
                    min,
                );
            },
            _ => {},
        }
    } else if is_binary_operator(ts, pos) {
        let (precedence, operator) = binary_operator(ts[pos].token)->0;
        if precedence >= min {
            match expression(ts, pos + 1, precedence + 1) {
                Err(_) => {},
                Ok(right) => {
                    lemma_operators_extent(
                        ts,
                        pos + 1 + right.used,
                        ExpressionView::BinaryOp { left: Box::new(left), operator, right: Box::new(right.value) },
                        min,
                    );
                },
            }
        }
    }
}

/// A list of statements ends at or behind the token at which it starts.
pub proof fn lemma_statements_extent(ts: Tokens, pos: int, acc: Seq<StatementView>, in_block: bool)
    ensures
        statements(ts, pos, acc, in_block) matches Ok(list) ==> list.end >= pos,
    decreases remaining(ts, pos),
{
    if at_end(ts, pos) || (in_block && is_token(ts, pos, TokenView::RightBrace)) {
    } else if is_separator(ts, pos) {
        lemma_statements_extent(ts, pos + 1, acc, in_block);
    } else {
        match statement(ts, pos) {
            Err(_) => {},
            Ok(one) => {
                if one.used > 0 {
                    lemma_statements_extent(ts, pos + one.used, acc.push(one.value), in_block);
                }
            },
        }
    }
}

/// The stages of a pipeline end at or behind the token at which they start.
pub proof fn lemma_pipeline_stages_extent(ts: Tokens, pos: int, acc: Seq<ExpressionView>)
    ensures
        pipeline_stages(ts, pos, acc) matches Ok(list) ==> list.end >= pos,
    decreases remaining(ts, pos),
{
    if is_token(ts, pos, TokenView::Pipeline) {
        match expression(ts, pos + 1, 0) {
            Err(_) => {},
            Ok(stage) => {
                lemma_pipeline_stages_extent(ts, pos + 1 + stage.used, acc.push(stage.value));
            },
        }
    }
}

/// The parameters of a function end behind the token at which they start.
pub proof fn lemma_parameters_extent(ts: Tokens, pos: int, acc: Seq<ParameterView>)
    ensures
        parameters(ts, pos, acc) matches Ok(list) ==> list.end > pos,
    decreases remaining(ts, pos),
{
    match taken(ts, pos).token {
        TokenView::Variable(name) => {
            if is_token(ts, pos + 1, TokenView::Assignment) {
                match expression(ts, pos + 2, 0) {
                    Err(_) => {},
                    Ok(value) => {
                        let behind = pos + 2 + value.used;
                        let all = acc.push(ParameterView { name, default_value: Some(value.value) });
                        if is_token(ts, behind, TokenView::Comma) {
                            lemma_parameters_extent(ts, behind + 1, all);
                        }
                    },
                }
            } else {
                let behind = pos + 1;
                let all = acc.push(ParameterView { name, default_value: None });
                if is_token(ts, behind, TokenView::Comma) {
                    lemma_parameters_extent(ts, behind + 1, all);
                }
            }
        },
        _ => {},
    }
}

/// Every primary expression, every argument, every expression and every statement
/// takes at least one token. So no list of the grammar ends for want of progress:
/// the lists go on to the token that ends them.
pub proof fn lemma_progress(ts: Tokens, pos: int, min: int)
    ensures
        primary(ts, pos) matches Ok(p) ==> p.used >= 1,
        argument(ts, pos) matches Ok(p) ==> p.used >= 1,
        expression(ts, pos, min) matches Ok(p) ==> p.used >= 1,
        statement(ts, pos) matches Ok(p) ==> p.used >= 1,
{
    lemma_primary_progress(ts, pos);
    lemma_expression_progress(ts, pos, min);
    let skipped = separators(ts, pos);
    let start = pos + skipped;
    if is_token(ts, start, TokenView::If) {
    } else if is_token(ts, start, TokenView::Function) {
        match taken(ts, start + 1).token {
            TokenView::Identifier(name) => {
                if is_token(ts, start + 2, TokenView::LeftParen) && !is_token(ts, start + 3, TokenView::RightParen) {
                    lemma_parameters_extent(ts, start + 3, Seq::empty());
                }
            },
            _ => {},
        }
    } else if is_token(ts, start, TokenView::Return) {
    } else if assignment_ahead(ts, start) {
    } else if pipe_ahead(ts, start, 0) {
        lemma_expression_progress(ts, start, 0);
        match expression(ts, start, 0) {
            Err(_) => {},
            Ok(first) => {
                lemma_pipeline_stages_extent(ts, start + first.used, seq![first.value]);
            },
        }
    } else {
        lemma_expression_progress(ts, start, 0);
    }
}

/// A primary expression and an argument take at least one token.
pub proof fn lemma_primary_progress(ts: Tokens, pos: int)
    ensures
        primary(ts, pos) matches Ok(p) ==> p.used >= 1,
        argument(ts, pos) matches Ok(p) ==> p.used >= 1,
{
    match peek(ts, pos) {
        Some(TokenView::Identifier(name)) => {
            if call_has_arguments(ts, pos + 1) {
                lemma_call_arguments_extent(ts, pos + 1, Seq::empty());
            }
        },
        Some(TokenView::LeftBrace) => {
            lemma_statements_extent(ts, pos + 1, Seq::empty(), true);
        },
        Some(TokenView::At) => {
            lemma_array_items_extent(ts, pos + 2, Seq::empty());
            lemma_hash_entries_extent(ts, pos + 2, Seq::empty());
        },
        _ => {},
    }
}

/// An expression takes at least one token.
pub proof fn lemma_expression_progress(ts: Tokens, pos: int, min: int)
    ensures
        expression(ts, pos, min) matches Ok(p) ==> p.used >= 1,
{
    lemma_primary_progress(ts, pos);
    match primary(ts, pos) {
        Err(_) => {},
        Ok(first) => {
            lemma_operators_extent(ts, pos + first.used, first.value, min);
        },
    }
}

// ---------------------------------------------------------------------------
// The executable parser
// ---------------------------------------------------------------------------

/// Whether a token carries no data.
pub open spec fn is_plain(token: TokenView) -> bool {
    !(token is String || token is InterpolatedString || token is Number || token is Boolean || token is Identifier
        || token is Variable)
}

/// What the executable parser returns for a piece: the piece and the index behind it.
pub open spec fn parsed_as<T: DeepView>(
    r: Result<(T, usize), ParseError>,
    expected: Result<Parsed<T::V>, ParseErrorView>,
    pos: usize,
    len: usize,
) -> bool {
    match expected {
        Ok(p) => r matches Ok(got) && got.0.deep_view() == p.value && got.1 == pos + p.used && got.1 <= len,
        Err(e) => r matches Err(err) && err.deep_view() == e,
    }
}

/// What the executable parser returns for a list: the items and the index behind them.
pub open spec fn listed_as<T: DeepView>(
    r: Result<(Vec<T>, usize), ParseError>,
    expected: Result<Listed<T::V>, ParseErrorView>,
    pos: usize,
    len: usize,
) -> bool {
    match expected {
        Ok(l) => r matches Ok(got) && got.0.deep_view() == l.items && got.1 == l.end && pos <= got.1 <= len,
        Err(e) => r matches Err(err) && err.deep_view() == e,
    }
}

fn same_plain(a: &Token, b: &Token) -> (r: bool)
    requires
        is_plain(b.deep_view()),
    ensures
        r == (a.deep_view() == b.deep_view()),
{
    match b {
        Token::Plus => matches!(a, Token::Plus),
        Token::Minus => matches!(a, Token::Minus),
        Token::Multiply => matches!(a, Token::Multiply),
        Token::Divide => matches!(a, Token::Divide),
        Token::Modulo => matches!(a, Token::Modulo),
        Token::Equal => matches!(a, Token::Equal),
        Token::NotEqual => matches!(a, Token::NotEqual),
        Token::Greater => matches!(a, Token::Greater),
        Token::Less => matches!(a, Token::Less),
        Token::GreaterOrEqual => matches!(a, Token::GreaterOrEqual),
        Token::LessOrEqual => matches!(a, Token::LessOrEqual),
        Token::If => matches!(a, Token::If),
        Token::Else => matches!(a, Token::Else),
        Token::ElseIf => matches!(a, Token::ElseIf),
        Token::Function => matches!(a, Token::Function),
        Token::Return => matches!(a, Token::Return),
        Token::LeftParen => matches!(a, Token::LeftParen),
        Token::RightParen => matches!(a, Token::RightParen),
        Token::LeftBrace => matches!(a, Token::LeftBrace),
        Token::RightBrace => matches!(a, Token::RightBrace),
        Token::LeftBracket => matches!(a, Token::LeftBracket),
        Token::RightBracket => matches!(a, Token::RightBracket),
        Token::Comma => matches!(a, Token::Comma),
        Token::Dot => matches!(a, Token::Dot),
        Token::Pipeline => matches!(a, Token::Pipeline),
        Token::Assignment => matches!(a, Token::Assignment),
        Token::Semicolon => matches!(a, Token::Semicolon),
        Token::Newline => matches!(a, Token::Newline),
        Token::At => matches!(a, Token::At),
        Token::Eof => matches!(a, Token::Eof),
        _ => false,
    }
}

fn at(ts: &Vec<LocatedToken>, i: usize, token: Token) -> (r: bool)
    requires
        is_plain(token.deep_view()),
    ensures
        r == is_token(ts.deep_view(), i as int, token.deep_view()),
        r ==> i < ts.len(),
{
    if i < ts.len() {
        same_plain(&ts[i].token, &token)
    } else {
        false
    }
}

fn ends_at(ts: &Vec<LocatedToken>, i: usize) -> (r: bool)
    ensures
        r == at_end(ts.deep_view(), i as int),
{
    i >= ts.len() || at(ts, i, Token::Eof)
}

fn separator_at(ts: &Vec<LocatedToken>, i: usize) -> (r: bool)
    ensures
        r == is_separator(ts.deep_view(), i as int),
{
    at(ts, i, Token::Newline) || at(ts, i, Token::Semicolon)
}

fn terminator_at(ts: &Vec<LocatedToken>, i: usize) -> (r: bool)
    ensures
        r == is_terminator(ts.deep_view(), i as int),
{
    separator_at(ts, i) || at(ts, i, Token::Eof)
}

fn skip_separators(ts: &Vec<LocatedToken>, from: usize) -> (r: usize)
    requires
        from <= ts.len(),
    ensures
        r == from + separators(ts.deep_view(), from as int),
        r <= ts.len(),
{
    let mut i: usize = from;
    while separator_at(ts, i)
        invariant
            from <= i <= ts.len(),
            i + separators(ts.deep_view(), i as int) == from + separators(ts.deep_view(), from as int),
        decreases ts.len() - i,
    {
        i += 1;
    }
    i
}

fn operator_of(token: &Token) -> (r: Option<(u8, BinaryOperator)>)
    ensures
        r == binary_operator(token.deep_view()),
{
    match token {
        Token::Equal => Some((1u8, BinaryOperator::Equal)),
        Token::NotEqual => Some((1u8, BinaryOperator::NotEqual)),
        Token::Greater => Some((1u8, BinaryOperator::Greater)),
        Token::Less => Some((1u8, BinaryOperator::Less)),
        Token::GreaterOrEqual => Some((1u8, BinaryOperator::GreaterOrEqual)),
        Token::LessOrEqual => Some((1u8, BinaryOperator::LessOrEqual)),
        Token::Plus => Some((2u8, BinaryOperator::Add)),
        Token::Minus => Some((2u8, BinaryOperator::Subtract)),
        Token::Multiply => Some((3u8, BinaryOperator::Multiply)),
        Token::Divide => Some((3u8, BinaryOperator::Divide)),
        Token::Modulo => Some((3u8, BinaryOperator::Modulo)),
        _ => None,
    }
}

fn operator_at(ts: &Vec<LocatedToken>, i: usize) -> (r: Option<(u8, BinaryOperator)>)
    ensures
        r is Some == is_binary_operator(ts.deep_view(), i as int),
        r is Some ==> i < ts.len() && r == binary_operator(ts.deep_view()[i as int].token),
{
    if i < ts.len() {
        operator_of(&ts[i].token)
    } else {
        None
    }
}

fn identifier_at(ts: &Vec<LocatedToken>, i: usize) -> (r: bool)
    ensures
        r == (peek(ts.deep_view(), i as int) matches Some(token) && token is Identifier),
{
    i < ts.len() && matches!(ts[i].token, Token::Identifier(_))
}

fn named_argument_at(ts: &Vec<LocatedToken>, i: usize) -> (r: bool)
    ensures
        r == named_argument_starts(ts.deep_view(), i as int),
        r ==> i + 1 < ts.len(),
{
    at(ts, i, Token::Minus) && i + 1 < ts.len() && identifier_at(ts, i + 1)
}

fn has_arguments(ts: &Vec<LocatedToken>, i: usize) -> (r: bool)
    ensures
        r == call_has_arguments(ts.deep_view(), i as int),
{
    named_argument_at(ts, i) || (!at(ts, i, Token::Comma) && !at(ts, i, Token::Pipeline) && !terminator_at(ts, i)
        && !at(ts, i, Token::RightParen) && !at(ts, i, Token::RightBrace) && operator_at(ts, i).is_none())
}

fn arguments_end_at(ts: &Vec<LocatedToken>, i: usize) -> (r: bool)
    ensures
        r == arguments_end(ts.deep_view(), i as int),
{
    ends_at(ts, i) || terminator_at(ts, i) || at(ts, i, Token::Pipeline) || at(ts, i, Token::RightParen) || at(
        ts,
        i,
        Token::RightBrace,
    )
}

fn assignment_at(ts: &Vec<LocatedToken>, i: usize) -> (r: bool)
    ensures
        r == assignment_ahead(ts.deep_view(), i as int),
        r ==> i + 1 < ts.len(),
{
    i < ts.len() && matches!(ts[i].token, Token::Variable(_)) && i + 1 < ts.len() && at(ts, i + 1, Token::Assignment)
}

fn pipe_follows(ts: &Vec<LocatedToken>, from: usize) -> (r: bool)
    ensures
        r == pipe_ahead(ts.deep_view(), from as int, 0),
{
    let mut i: usize = from;
    let mut depth: i128 = 0;
    while i < ts.len()
        invariant
            from <= i,
            -(i - from) <= depth <= i - from,
            pipe_ahead(ts.deep_view(), i as int, depth as int) == pipe_ahead(ts.deep_view(), from as int, 0),
        decreases ts.len() - i,
    {
        match &ts[i].token {
            Token::LeftParen | Token::LeftBrace | Token::LeftBracket => {
                depth = depth + 1;
            },
            Token::RightParen | Token::RightBrace | Token::RightBracket => {
                depth = depth - 1;
            },
            Token::Pipeline => {
                if depth == 0 {
                    return true;
                }
            },
            Token::Newline | Token::Semicolon | Token::Eof => {
                if depth == 0 {
                    return false;
                }
            },
            _ => {},
        }
        i += 1;
    }
    false
}

/// The token that is taken at `i`.
fn take_token(ts: &Vec<LocatedToken>, i: usize) -> (r: LocatedToken)
    ensures
        r.deep_view() == taken(ts.deep_view(), i as int),
{
    if i < ts.len() {
        ts[i].clone()
    } else if ts.len() > 0 {
        LocatedToken { token: Token::Eof, position: ts[ts.len() - 1].position }
    } else {
        LocatedToken { token: Token::Eof, position: Position { line: 1, column: 1 } }
    }
}

fn unexpected_at(ts: &Vec<LocatedToken>, i: usize, expected: &str) -> (r: ParseError)
    ensures
        r.deep_view() == unexpected(ts.deep_view(), i as int, expected@),
{
    let found = take_token(ts, i);
    let mut text: Vec<char> = Vec::new();
    push_text(&mut text, expected);
    ParseError::UnexpectedToken { expected: string_from(&text), found: found.token, position: found.position }
}

fn text_of(s: &str) -> (r: String)
    ensures
        r@ == s@,
{
    let mut text: Vec<char> = Vec::new();
    push_text(&mut text, s);
    string_from(&text)
}

fn parse_primary(ts: &Vec<LocatedToken>, pos: usize) -> (r: Result<(Expression, usize), ParseError>)
    requires
        pos <= ts.len(),
    ensures
        parsed_as(r, primary(ts.deep_view(), pos as int), pos, ts.len()),
    decreases remaining(ts.deep_view(), pos as int), 3int,
{
    if pos >= ts.len() {
        return Err(ParseError::UnexpectedEof { expected: text_of("expression") });
    }
    match &ts[pos].token {
        Token::Number(n) => Ok((Expression::Literal(Literal::Number(*n)), pos + 1)),
        Token::String(s) => Ok((Expression::Literal(Literal::String(s.clone())), pos + 1)),
        Token::InterpolatedString(parts) => Ok(
            (Expression::Literal(Literal::InterpolatedString(clone_parts(parts))), pos + 1),
        ),
        Token::Boolean(b) => Ok((Expression::Literal(Literal::Boolean(*b)), pos + 1)),
        Token::Variable(name) => Ok((Expression::Variable(name.clone()), pos + 1)),
        Token::Identifier(name) => {
            if has_arguments(ts, pos + 1) {
                match parse_call_arguments(ts, pos + 1) {
                    Err(e) => Err(e),
                    Ok((arguments, end)) => {
                        let call = Expression::Call { name: name.clone(), arguments };
                        proof {
                            lemma_views(call);
                        }
                        Ok((call, end))
                    },
                }
            } else {
                let call = Expression::Call { name: name.clone(), arguments: Vec::new() };
                proof {
                    lemma_views(call);
                    assert(call->Call_arguments.deep_view() =~= Seq::<ArgumentView>::empty());
                }
                Ok((call, pos + 1))
            }
        },
        Token::LeftParen => {
            match parse_expression(ts, pos + 1, 0) {
                Err(e) => Err(e),
                Ok((inner, end)) => {
                    if at(ts, end, Token::RightParen) {
                        Ok((inner, end + 1))
                    } else {
                        Err(unexpected_at(ts, end, ")"))
                    }
                },
            }
        },
        Token::LeftBrace => {
            match parse_block(ts, pos) {
                Err(e) => Err(e),
                Ok((body, end)) => {
                    let value = Expression::ScriptBlock(body);
                    Ok((value, end))
                },
            }
        },
        Token::Minus => {
            match parse_primary(ts, pos + 1) {
                Err(e) => Err(e),
                Ok((operand, end)) => Ok(
                    (Expression::UnaryOp { operator: UnaryOperator::Negate, operand: Box::new(operand) }, end),
                ),
            }
        },
        Token::At => {
            if at(ts, pos + 1, Token::LeftParen) {
                match parse_array_items(ts, pos + 2) {
                    Err(e) => Err(e),
                    Ok((items, end)) => {
                        let value = Expression::Array(items);
                        proof {
                            lemma_views(value);
                        }
                        Ok((value, end))
                    },
                }
            } else if at(ts, pos + 1, Token::LeftBrace) {
                match parse_hash_entries(ts, pos + 2) {
                    Err(e) => Err(e),
                    Ok((entries, end)) => {
                        let value = Expression::Hashtable(entries);
                        proof {
                            lemma_views(value);
                        }
                        Ok((value, end))
                    },
                }
            } else {
                Err(unexpected_at(ts, pos + 1, "( or {"))
            }
        },
        other => {
            let mut message: Vec<char> = Vec::new();
            push_text(&mut message, "Unexpected token: ");
            other.write_text(&mut message);
            Err(ParseError::InvalidExpression { message: string_from(&message), position: ts[pos].position })
        },
    }
}

fn parse_call_arguments(ts: &Vec<LocatedToken>, start: usize) -> (r: Result<(Vec<Argument>, usize), ParseError>)
    requires
        start <= ts.len(),
    ensures
        listed_as(r, call_arguments(ts.deep_view(), start as int, Seq::empty()), start, ts.len()),
    decreases remaining(ts.deep_view(), start as int), 5int,
{
    let mut arguments: Vec<Argument> = Vec::new();
    let mut pos: usize = start;
    assert(arguments.deep_view() =~= Seq::<ArgumentView>::empty());
    while !arguments_end_at(ts, pos)
        invariant
            start <= pos <= ts.len(),
            call_arguments(ts.deep_view(), pos as int, arguments.deep_view()) == call_arguments(
                ts.deep_view(),
                start as int,
                Seq::empty(),
            ),
        decreases ts.len() - pos,
    {
        let ghost before = arguments;
        if named_argument_at(ts, pos) {
            let name = match &ts[pos + 1].token {
                Token::Identifier(n) => n.clone(),
                _ => String::new(),
            };
            match parse_argument(ts, pos + 2) {
                Err(e) => {
                    return Err(e);
                },
                Ok((value, end)) => {
                    let argument = Argument::Named { name, value };
                    arguments.push(argument);
                    proof {
                        lemma_deep_view_push(before, arguments, argument);
                    }
                    pos = if at(ts, end, Token::Comma) {
                        end + 1
                    } else {
                        end
                    };
                },
            }
        } else if operator_at(ts, pos).is_some() {
            return Ok((arguments, pos));
        } else {
            match parse_argument(ts, pos) {
                Err(e) => {
                    return Err(e);
                },
                Ok((value, end)) => {
                    let argument = Argument::Positional(value);
                    arguments.push(argument);
                    proof {
                        lemma_deep_view_push(before, arguments, argument);
                    }
                    proof {
                        lemma_progress(ts.deep_view(), pos as int, 0);
                    }
                    pos = if at(ts, end, Token::Comma) {
                        end + 1
                    } else {
                        end
                    };
                },
            }
        }
    }
    Ok((arguments, pos))
}

fn parse_argument(ts: &Vec<LocatedToken>, pos: usize) -> (r: Result<(Expression, usize), ParseError>)
    requires
        pos <= ts.len(),
    ensures
        parsed_as(r, argument(ts.deep_view(), pos as int), pos, ts.len()),
    decreases remaining(ts.deep_view(), pos as int), 4int,
{
    if pos < ts.len() {
        match &ts[pos].token {
            Token::Identifier(name) => {
                let call = Expression::Call { name: name.clone(), arguments: Vec::new() };
                proof {
                    lemma_views(call);
                    assert(call->Call_arguments.deep_view() =~= Seq::<ArgumentView>::empty());
                }
                return Ok((call, pos + 1));
            },
            _ => {},
        }
    }
    parse_primary(ts, pos)
}

fn parse_array_items(ts: &Vec<LocatedToken>, start: usize) -> (r: Result<(Vec<Expression>, usize), ParseError>)
    requires
        start <= ts.len(),
    ensures
        listed_as(r, array_items(ts.deep_view(), start as int, Seq::empty()), start, ts.len()),
    decreases remaining(ts.deep_view(), start as int), 13int,
{
    let mut items: Vec<Expression> = Vec::new();
    let mut pos: usize = start;
    assert(items.deep_view() =~= Seq::<ExpressionView>::empty());
    loop
        invariant
            start <= pos <= ts.len(),
            array_items(ts.deep_view(), pos as int, items.deep_view()) == array_items(
                ts.deep_view(),
                start as int,
                Seq::empty(),
            ),
        decreases ts.len() - pos,
    {
        let ghost before = items;
        if at(ts, pos, Token::RightParen) {
            return Ok((items, pos + 1));
        } else if separator_at(ts, pos) || at(ts, pos, Token::Comma) {
            pos += 1;
        } else if ends_at(ts, pos) {
            return Err(unexpected_at(ts, pos, ")"));
        } else {
            match parse_expression(ts, pos, 0) {
                Err(e) => {
                    return Err(e);
                },
                Ok((item, end)) => {
                    proof {
                        lemma_progress(ts.deep_view(), pos as int, 0);
                    }
                    items.push(item);
                    proof {
                        lemma_deep_view_push(before, items, item);
                    }
                    pos = end;
                },
            }
        }
    }
}

fn key_of(token: &Token) -> (r: Option<String>)
    ensures
        r.deep_view() == hash_key(Some(token.deep_view())),
{
    match token {
        Token::Identifier(name) => Some(name.clone()),
        Token::String(text) => Some(text.clone()),
        _ => None,
    }
}

fn parse_hash_entries(ts: &Vec<LocatedToken>, start: usize) -> (r: Result<(Vec<HashEntry>, usize), ParseError>)
    requires
        start <= ts.len(),
    ensures
        listed_as(r, hash_entries(ts.deep_view(), start as int, Seq::empty()), start, ts.len()),
    decreases remaining(ts.deep_view(), start as int), 13int,
{
    let mut entries: Vec<HashEntry> = Vec::new();
    let mut pos: usize = start;
    assert(entries.deep_view() =~= Seq::<HashEntryView>::empty());
    loop
        invariant
            start <= pos <= ts.len(),
            hash_entries(ts.deep_view(), pos as int, entries.deep_view()) == hash_entries(
                ts.deep_view(),
                start as int,
                Seq::empty(),
            ),
        decreases ts.len() - pos,
    {
        let ghost before = entries;
        if at(ts, pos, Token::RightBrace) {
            return Ok((entries, pos + 1));
        } else if separator_at(ts, pos) {
            pos += 1;
        } else {
            let key = if pos < ts.len() {
                key_of(&ts[pos].token)
            } else {
                None
            };
            match key {
                None => {
                    return Err(unexpected_at(ts, pos, "hashtable key"));
                },
                Some(key) => {
                    if !at(ts, pos + 1, Token::Assignment) {
                        return Err(unexpected_at(ts, pos + 1, "="));
                    }
                    match parse_expression(ts, pos + 2, 0) {
                        Err(e) => {
                            return Err(e);
                        },
                        Ok((value, end)) => {
                            let entry = HashEntry { key, value };
                            entries.push(entry);
                            proof {
                                lemma_deep_view_push(before, entries, entry);
                            }
                            pos = end;
                        },
                    }
                },
            }
        }
    }
}

fn parse_expression(ts: &Vec<LocatedToken>, pos: usize, min: u8) -> (r: Result<(Expression, usize), ParseError>)
    requires
        pos <= ts.len(),
        min <= 4,
    ensures
        parsed_as(r, expression(ts.deep_view(), pos as int, min as int), pos, ts.len()),
    decreases remaining(ts.deep_view(), pos as int), 6int,
{
    match parse_primary(ts, pos) {
        Err(e) => Err(e),
        Ok((first, end)) => parse_operators(ts, pos, end, first, min),
    }
}

/// Parses what follows the operand `left`, which runs from `start` to `from`.
fn parse_operators(ts: &Vec<LocatedToken>, start: usize, from: usize, left: Expression, min: u8) -> (r: Result<
    (Expression, usize),
    ParseError,
>)
    requires
        start <= from <= ts.len(),
        min <= 4,
    ensures
        match operators(ts.deep_view(), from as int, left.deep_view(), min as int) {
            Ok(whole) => r matches Ok(got) && got.0.deep_view() == whole.value && got.1 == whole.end && from <= got.1
                <= ts.len(),
            Err(e) => r matches Err(err) && err.deep_view() == e,
        },
    decreases remaining(ts.deep_view(), from as int), 5int,
{
    let mut current = left;
    let mut pos: usize = from;
    loop
        invariant
            from <= pos <= ts.len(),
            min <= 4,
            operators(ts.deep_view(), pos as int, current.deep_view(), min as int) == operators(
                ts.deep_view(),
                from as int,
                left.deep_view(),
                min as int,
            ),
        decreases ts.len() - pos,
    {
        if at(ts, pos, Token::Dot) {
            let member = take_token(ts, pos + 1);
            match member.token {
                Token::Identifier(name) => {
                    current = Expression::MemberAccess { object: Box::new(current), member: name };
                    pos = pos + 2;
                },
                _ => {
                    return Err(unexpected_at(ts, pos + 1, "property name"));
                },
            }
        } else {
            match operator_at(ts, pos) {
                None => {
                    return Ok((current, pos));
                },
                Some((precedence, operator)) => {
                    if precedence < min {
                        return Ok((current, pos));
                    }
                    match parse_expression(ts, pos + 1, precedence + 1) {
                        Err(e) => {
                            return Err(e);
                        },
                        Ok((right, end)) => {
                            current = Expression::BinaryOp { left: Box::new(current), operator, right: Box::new(right) };
                            pos = end;
                        },
                    }
                },
            }
        }
    }
}

fn parse_block(ts: &Vec<LocatedToken>, pos: usize) -> (r: Result<(Block, usize), ParseError>)
    requires
        pos <= ts.len(),
    ensures
        parsed_as(r, block(ts.deep_view(), pos as int), pos, ts.len()),
    decreases remaining(ts.deep_view(), pos as int), 2int,
{
    if !at(ts, pos, Token::LeftBrace) {
        return Err(unexpected_at(ts, pos, "{"));
    }
    match parse_statements(ts, pos + 1, true) {
        Err(e) => Err(e),
        Ok((statements, end)) => {
            if at(ts, end, Token::RightBrace) {
                let body = Block { statements };
                proof {
                    lemma_block_view(body);
                }
                Ok((body, end + 1))
            } else {
                Err(unexpected_at(ts, end, "}"))
            }
        },
    }
}

fn parse_statements(ts: &Vec<LocatedToken>, start: usize, in_block: bool) -> (r: Result<
    (Vec<Statement>, usize),
    ParseError,
>)
    requires
        start <= ts.len(),
    ensures
        listed_as(r, statements(ts.deep_view(), start as int, Seq::empty(), in_block), start, ts.len()),
        !in_block ==> (r matches Ok(got) ==> at_end(ts.deep_view(), got.1 as int)),
    decreases remaining(ts.deep_view(), start as int), 20int,
{
    let mut list: Vec<Statement> = Vec::new();
    let mut pos: usize = start;
    assert(list.deep_view() =~= Seq::<StatementView>::empty());
    while !(ends_at(ts, pos) || (in_block && at(ts, pos, Token::RightBrace)))
        invariant
            start <= pos <= ts.len(),
            statements(ts.deep_view(), pos as int, list.deep_view(), in_block) == statements(
                ts.deep_view(),
                start as int,
                Seq::empty(),
                in_block,
            ),
        decreases ts.len() - pos,
    {
        let ghost before = list;
        if separator_at(ts, pos) {
            pos += 1;
        } else {
            match parse_statement(ts, pos) {
                Err(e) => {
                    return Err(e);
                },
                Ok((one, end)) => {
                    list.push(one);
                    proof {
                        lemma_deep_view_push(before, list, one);
                    }
                    proof {
                        lemma_progress(ts.deep_view(), pos as int, 0);
                    }
                    pos = end;
                },
            }
        }
    }
    Ok((list, pos))
}

fn parse_statement(ts: &Vec<LocatedToken>, pos: usize) -> (r: Result<(Statement, usize), ParseError>)
    requires
        pos <= ts.len(),
    ensures
        parsed_as(r, statement(ts.deep_view(), pos as int), pos, ts.len()),
    decreases remaining(ts.deep_view(), pos as int), 19int,
{
    let start = skip_separators(ts, pos);
    if at(ts, start, Token::If) {
        parse_if_statement(ts, start)
    } else if at(ts, start, Token::Function) {
        parse_function_definition(ts, start)
    } else if at(ts, start, Token::Return) {
        parse_return_statement(ts, start)
    } else if assignment_at(ts, start) {
        let variable = match &ts[start].token {
            Token::Variable(name) => name.clone(),
            _ => String::new(),
        };
        match parse_expression(ts, start + 2, 0) {
            Err(e) => Err(e),
            Ok((value, end)) => Ok((Statement::Assignment { variable, value }, skip_separators(ts, end))),
        }
    } else if pipe_follows(ts, start) {
        match parse_expression(ts, start, 0) {
            Err(e) => Err(e),
            Ok((first, end)) => {
                let mut stages: Vec<Expression> = Vec::new();
                stages.push(first);
                assert(stages.deep_view() =~= seq![first.deep_view()]);
                match parse_pipeline_stages(ts, end, stages) {
                    Err(e) => Err(e),
                    Ok((stages, end)) => {
                        let one = Statement::Pipeline(Pipeline { stages });
                        proof {
                            lemma_statement_views(one);
                        }
                        Ok((one, skip_separators(ts, end)))
                    },
                }
            },
        }
    } else {
        match parse_expression(ts, start, 0) {
            Err(e) => Err(e),
            Ok((value, end)) => Ok((Statement::Expression(value), skip_separators(ts, end))),
        }
    }
}

fn parse_pipeline_stages(ts: &Vec<LocatedToken>, from: usize, stages: Vec<Expression>) -> (r: Result<
    (Vec<Expression>, usize),
    ParseError,
>)
    requires
        from <= ts.len(),
    ensures
        listed_as(r, pipeline_stages(ts.deep_view(), from as int, stages.deep_view()), from, ts.len()),
    decreases remaining(ts.deep_view(), from as int), 16int,
{
    let mut list = stages;
    let mut pos: usize = from;
    while at(ts, pos, Token::Pipeline)
        invariant
            from <= pos <= ts.len(),
            pipeline_stages(ts.deep_view(), pos as int, list.deep_view()) == pipeline_stages(
                ts.deep_view(),
                from as int,
                stages.deep_view(),
            ),
        decreases ts.len() - pos,
    {
        let ghost before = list;
        match parse_expression(ts, pos + 1, 0) {
            Err(e) => {
                return Err(e);
            },
            Ok((stage, end)) => {
                list.push(stage);
                proof {
                    lemma_deep_view_push(before, list, stage);
                }
                pos = end;
            },
        }
    }
    Ok((list, pos))
}

fn parse_if_statement(ts: &Vec<LocatedToken>, pos: usize) -> (r: Result<(Statement, usize), ParseError>)
    requires
        pos <= ts.len(),
    ensures
        match if_statement(ts.deep_view(), pos as int) {
            Ok(p) => r matches Ok(got) && got.0.deep_view() == p.value && got.1 == pos + p.used && got.1 <= ts.len(),
            Err(e) => r matches Err(err) && err.deep_view() == e,
        },
    decreases remaining(ts.deep_view(), pos as int), 18int,
{
    if !at(ts, pos, Token::If) {
        return Err(unexpected_at(ts, pos, "if"));
    }
    if !at(ts, pos + 1, Token::LeftParen) {
        return Err(unexpected_at(ts, pos + 1, "("));
    }
    match parse_expression(ts, pos + 2, 0) {
        Err(e) => Err(e),
        Ok((condition, close)) => {
            if !at(ts, close, Token::RightParen) {
                return Err(unexpected_at(ts, close, ")"));
            }
            match parse_block(ts, close + 1) {
                Err(e) => Err(e),
                Ok((then_branch, behind)) => {
                    if at(ts, behind, Token::Else) {
                        match parse_block(ts, behind + 1) {
                            Err(e) => Err(e),
                            Ok((else_branch, end)) => Ok(
                                (Statement::If { condition, then_branch, else_branch: Some(else_branch) }, end),
                            ),
                        }
                    } else {
                        Ok((Statement::If { condition, then_branch, else_branch: None }, behind))
                    }
                },
            }
        },
    }
}

fn parse_function_definition(ts: &Vec<LocatedToken>, pos: usize) -> (r: Result<(Statement, usize), ParseError>)
    requires
        pos <= ts.len(),
    ensures
        match function_definition(ts.deep_view(), pos as int) {
            Ok(p) => r matches Ok(got) && got.0.deep_view() == p.value && got.1 == pos + p.used && got.1 <= ts.len(),
            Err(e) => r matches Err(err) && err.deep_view() == e,
        },
    decreases remaining(ts.deep_view(), pos as int), 18int,
{
    if !at(ts, pos, Token::Function) {
        return Err(unexpected_at(ts, pos, "function"));
    }
    let name_token = take_token(ts, pos + 1);
    match name_token.token {
        Token::Identifier(name) => {
            let list = if at(ts, pos + 2, Token::LeftParen) {
                if at(ts, pos + 3, Token::RightParen) {
                    let none: Vec<Parameter> = Vec::new();
                    assert(none.deep_view() =~= Seq::<ParameterView>::empty());
                    Ok((none, pos + 4))
                } else {
                    parse_parameters(ts, pos + 3)
                }
            } else {
                let none: Vec<Parameter> = Vec::new();
                assert(none.deep_view() =~= Seq::<ParameterView>::empty());
                Ok((none, pos + 2))
            };
            match list {
                Err(e) => Err(e),
                Ok((parameters, behind)) => {
                    match parse_block(ts, behind) {
                        Err(e) => Err(e),
                        Ok((body, end)) => {
                            let one = Statement::FunctionDef { name, parameters, body };
                            proof {
                                lemma_statement_views(one);
                                lemma_block_view(body);
                            }
                            Ok((one, end))
                        },
                    }
                },
            }
        },
        _ => Err(unexpected_at(ts, pos + 1, "function name")),
    }
}

fn parse_parameters(ts: &Vec<LocatedToken>, start: usize) -> (r: Result<(Vec<Parameter>, usize), ParseError>)
    requires
        start <= ts.len(),
    ensures
        listed_as(r, parameters(ts.deep_view(), start as int, Seq::empty()), start, ts.len()),
    decreases remaining(ts.deep_view(), start as int), 1int,
{
    let mut list: Vec<Parameter> = Vec::new();
    let mut pos: usize = start;
    assert(list.deep_view() =~= Seq::<ParameterView>::empty());
    loop
        invariant
            start <= pos <= ts.len(),
            parameters(ts.deep_view(), pos as int, list.deep_view()) == parameters(
                ts.deep_view(),
                start as int,
                Seq::empty(),
            ),
        decreases ts.len() - pos,
    {
        let ghost before = list;
        let token = take_token(ts, pos);
        match token.token {
            Token::Variable(name) => {
                let mut behind = pos + 1;
                let default_value = if at(ts, pos + 1, Token::Assignment) {
                    match parse_expression(ts, pos + 2, 0) {
                        Err(e) => {
                            return Err(e);
                        },
                        Ok((value, end)) => {
                            behind = end;
                            Some(value)
                        },
                    }
                } else {
                    None
                };
                let parameter = Parameter { name, default_value };
                list.push(parameter);
                proof {
                    lemma_deep_view_push(before, list, parameter);
                }
                if at(ts, behind, Token::Comma) {
                    pos = behind + 1;
                } else if at(ts, behind, Token::RightParen) {
                    return Ok((list, behind + 1));
                } else {
                    return Err(unexpected_at(ts, behind, ")"));
                }
            },
            _ => {
                return Err(unexpected_at(ts, pos, "parameter name"));
            },
        }
    }
}

fn parse_return_statement(ts: &Vec<LocatedToken>, pos: usize) -> (r: Result<(Statement, usize), ParseError>)
    requires
        pos <= ts.len(),
    ensures
        match return_statement(ts.deep_view(), pos as int) {
            Ok(p) => r matches Ok(got) && got.0.deep_view() == p.value && got.1 == pos + p.used && got.1 <= ts.len(),
            Err(e) => r matches Err(err) && err.deep_view() == e,
        },
    decreases remaining(ts.deep_view(), pos as int), 18int,
{
    if !at(ts, pos, Token::Return) {
        return Err(unexpected_at(ts, pos, "return"));
    }
    if separator_at(ts, pos + 1) || ends_at(ts, pos + 1) {
        Ok((Statement::Return(None), skip_separators(ts, pos + 1)))
    } else {
        match parse_expression(ts, pos + 1, 0) {
            Err(e) => Err(e),
            Ok((value, end)) => Ok((Statement::Return(Some(value)), skip_separators(ts, end))),
        }
    }
}

/// The parser: a token list and the index of the token that comes next.
pub struct Parser {
    tokens: Vec<LocatedToken>,
    current: usize,
}

impl Parser {
    /// The tokens that are parsed.
    pub closed spec fn tokens(&self) -> Tokens {
        self.tokens.deep_view()
    }

    /// The index of the token that comes next.
    pub closed spec fn position(&self) -> int {
        self.current as int
    }

    /// A parser at the start of `tokens`.
    pub fn new(tokens: Vec<LocatedToken>) -> (r: Parser)
        ensures
            r.tokens() == tokens.deep_view(),
            r.position() == 0,
    {
        Parser { tokens, current: 0 }
    }

    /// Parses the tokens from the current one on into a program.
    pub fn parse(&mut self) -> (r: Result<Program, ParseError>)
        ensures
            final(self).tokens() == old(self).tokens(),
            match program_from(old(self).tokens(), old(self).position()) {
                Ok(statements) => r matches Ok(program) && program.deep_view() == statements,
                Err(e) => r matches Err(err) && err.deep_view() == e && final(self).position() == old(
                    self,
                ).position(),
            },
            r is Ok ==> at_end(final(self).tokens(), final(self).position()),
    {
        if self.current > self.tokens.len() {
            let statements: Vec<Statement> = Vec::new();
            assert(statements.deep_view() =~= Seq::<StatementView>::empty());
            return Ok(Program { statements });
        }
        match parse_statements(&self.tokens, self.current, false) {
            Err(e) => Err(e),
            Ok((statements, end)) => {
                self.current = end;
                Ok(Program { statements })
            },
        }
    }
}

/// The program of a token list.
pub fn parse(tokens: Vec<LocatedToken>) -> (r: Result<Program, ParseError>)
    ensures
        match program_of(tokens.deep_view()) {
            Ok(statements) => r matches Ok(program) && program.deep_view() == statements,
            Err(e) => r matches Err(err) && err.deep_view() == e,
        },
{
    let mut parser = Parser::new(tokens);
    parser.parse()
}

} // verus!

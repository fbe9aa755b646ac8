//! Tokens of the scripting language, and positions in the source text.

use vstd::prelude::*;
use crate::number::Number;
use crate::text::push_text;

verus! {

/// A place in the source text: line and column, both counted from one.
#[derive(Clone, Copy, Debug, PartialEq, Eq, Structural)]
pub struct Position {
    pub line: usize,
    pub column: usize,
}

impl Position {
    /// A place with the given line and column.
    pub fn new(line: usize, column: usize) -> (r: Position)
        ensures
            r.line == line,
            r.column == column,
    {
        Position { line, column }
    }
}

/// The text of a place in messages: `line L, column C`.
pub open spec fn place_text(position: Position) -> Seq<char> {
    "line "@ + crate::number::decimal_digits(position.line as nat) + ", column "@ + crate::number::decimal_digits(
        position.column as nat,
    )
}

impl Position {
    /// Appends `line L, column C` to `out`.
    pub fn write_text(&self, out: &mut Vec<char>)
        ensures
            final(out)@ == old(out)@ + place_text(*self),
    {
        push_text(out, "line ");
        crate::number::push_decimal(out, self.line as u64);
        push_text(out, ", column ");
        crate::number::push_decimal(out, self.column as u64);
        assert(out@ =~= old(out)@ + place_text(*self));
    }
}

impl DeepView for Position {
    type V = Position;

    open spec fn deep_view(&self) -> Position {
        *self
    }
}

/// A part of a double-quoted string: literal text, or the name of a variable whose
/// text is put in its place.
#[derive(Debug, PartialEq)]
pub enum StringPart {
    Literal(String),
    Variable(String),
}

/// The view of a part of a double-quoted string.
pub enum StringPartView {
    Literal(Seq<char>),
    Variable(Seq<char>),
}

impl DeepView for StringPart {
    type V = StringPartView;

    open spec fn deep_view(&self) -> StringPartView {
        match self {
            StringPart::Literal(s) => StringPartView::Literal(s@),
            StringPart::Variable(s) => StringPartView::Variable(s@),
        }
    }
}

impl Clone for StringPart {
    fn clone(&self) -> (r: StringPart)
        ensures
            r.deep_view() == self.deep_view(),
    {
        match self {
            StringPart::Literal(s) => StringPart::Literal(s.clone()),
            StringPart::Variable(s) => StringPart::Variable(s.clone()),
        }
    }
}

/// A copy of a list of string parts.
pub fn clone_parts(parts: &Vec<StringPart>) -> (r: Vec<StringPart>)
    ensures
        r.deep_view() == parts.deep_view(),
{
    let mut out: Vec<StringPart> = Vec::new();
    let mut i: usize = 0;
    while i < parts.len()
        invariant
            i <= parts.len(),
            out.len() == i,
            forall|j: int| 0 <= j < i ==> (#[trigger] out[j]).deep_view() == parts[j].deep_view(),
        decreases parts.len() - i,
    {
        out.push(parts[i].clone());
        i += 1;
    }
    assert(out.deep_view() =~= parts.deep_view());
    out
}

/// A token.
#[derive(Debug, PartialEq)]
pub enum Token {
    String(String),
    InterpolatedString(Vec<StringPart>),
    Number(Number),
    Boolean(bool),
    Identifier(String),
    Variable(String),
    Plus,
    Minus,
    Multiply,
    Divide,
    Modulo,
    Equal,
    NotEqual,
    Greater,
    Less,
    GreaterOrEqual,
    LessOrEqual,
    If,
    Else,
    ElseIf,
    Function,
    Return,
    LeftParen,
    RightParen,
    LeftBrace,
    RightBrace,
    LeftBracket,
    RightBracket,
    Comma,
    Dot,
    Pipeline,
    Assignment,
    Semicolon,
    Newline,
    /// The `@` that opens an array or a hashtable literal.
    At,
    Eof,
}

/// The view of a token.
pub enum TokenView {
    String(Seq<char>),
    InterpolatedString(Seq<StringPartView>),
    Number(u64),
    Boolean(bool),
    Identifier(Seq<char>),
    Variable(Seq<char>),
    Plus,
    Minus,
    Multiply,
    Divide,
    Modulo,
    Equal,
    NotEqual,
    Greater,
    Less,
    GreaterOrEqual,
    LessOrEqual,
    If,
    Else,
    ElseIf,
    Function,
    Return,
    LeftParen,
    RightParen,
    LeftBrace,
    RightBrace,
    LeftBracket,
    RightBracket,
    Comma,
    Dot,
    Pipeline,
    Assignment,
    Semicolon,
    Newline,
    At,
    Eof,
}

impl DeepView for Token {
    type V = TokenView;

    open spec fn deep_view(&self) -> TokenView {
        match self {
            Token::String(s) => TokenView::String(s@),
            Token::InterpolatedString(parts) => TokenView::InterpolatedString(parts.deep_view()),
            Token::Number(n) => TokenView::Number(n@),
            Token::Boolean(b) => TokenView::Boolean(*b),
            Token::Identifier(s) => TokenView::Identifier(s@),
            Token::Variable(s) => TokenView::Variable(s@),
            Token::Plus => TokenView::Plus,
            Token::Minus => TokenView::Minus,
            Token::Multiply => TokenView::Multiply,
            Token::Divide => TokenView::Divide,
            Token::Modulo => TokenView::Modulo,
            Token::Equal => TokenView::Equal,
            Token::NotEqual => TokenView::NotEqual,
            Token::Greater => TokenView::Greater,
            Token::Less => TokenView::Less,
            Token::GreaterOrEqual => TokenView::GreaterOrEqual,
            Token::LessOrEqual => TokenView::LessOrEqual,
            Token::If => TokenView::If,
            Token::Else => TokenView::Else,
            Token::ElseIf => TokenView::ElseIf,
            Token::Function => TokenView::Function,
            Token::Return => TokenView::Return,
            Token::LeftParen => TokenView::LeftParen,
            Token::RightParen => TokenView::RightParen,
            Token::LeftBrace => TokenView::LeftBrace,
            Token::RightBrace => TokenView::RightBrace,
            Token::LeftBracket => TokenView::LeftBracket,
            Token::RightBracket => TokenView::RightBracket,
            Token::Comma => TokenView::Comma,
            Token::Dot => TokenView::Dot,
            Token::Pipeline => TokenView::Pipeline,
            Token::Assignment => TokenView::Assignment,
            Token::Semicolon => TokenView::Semicolon,
            Token::Newline => TokenView::Newline,
            Token::At => TokenView::At,
            Token::Eof => TokenView::Eof,
        }
    }
}

impl Clone for Token {
    fn clone(&self) -> (r: Token)
        ensures
            r.deep_view() == self.deep_view(),
    {
        match self {
            Token::String(s) => Token::String(s.clone()),
            Token::InterpolatedString(parts) => Token::InterpolatedString(clone_parts(parts)),
            Token::Number(n) => Token::Number(*n),
            Token::Boolean(b) => Token::Boolean(*b),
            Token::Identifier(s) => Token::Identifier(s.clone()),
            Token::Variable(s) => Token::Variable(s.clone()),
            Token::Plus => Token::Plus,
            Token::Minus => Token::Minus,
            Token::Multiply => Token::Multiply,
            Token::Divide => Token::Divide,
            Token::Modulo => Token::Modulo,
            Token::Equal => Token::Equal,
            Token::NotEqual => Token::NotEqual,
            Token::Greater => Token::Greater,
            Token::Less => Token::Less,
            Token::GreaterOrEqual => Token::GreaterOrEqual,
            Token::LessOrEqual => Token::LessOrEqual,
            Token::If => Token::If,
            Token::Else => Token::Else,
            Token::ElseIf => Token::ElseIf,
            Token::Function => Token::Function,
            Token::Return => Token::Return,
            Token::LeftParen => Token::LeftParen,
            Token::RightParen => Token::RightParen,
            Token::LeftBrace => Token::LeftBrace,
            Token::RightBrace => Token::RightBrace,
            Token::LeftBracket => Token::LeftBracket,
            Token::RightBracket => Token::RightBracket,
            Token::Comma => Token::Comma,
            Token::Dot => Token::Dot,
            Token::Pipeline => Token::Pipeline,
            Token::Assignment => Token::Assignment,
            Token::Semicolon => Token::Semicolon,
            Token::Newline => Token::Newline,
            Token::At => Token::At,
            Token::Eof => Token::Eof,
        }
    }
}

/// A token with the place where it starts.
#[derive(Debug, PartialEq)]
pub struct LocatedToken {
    pub token: Token,
    pub position: Position,
}

/// The view of a located token.
pub struct LocatedTokenView {
    pub token: TokenView,
    pub position: Position,
}

impl DeepView for LocatedToken {
    type V = LocatedTokenView;

    open spec fn deep_view(&self) -> LocatedTokenView {
        LocatedTokenView { token: self.token.deep_view(), position: self.position }
    }
}

impl Clone for LocatedToken {
    fn clone(&self) -> (r: LocatedToken)
        ensures
            r.deep_view() == self.deep_view(),
    {
        LocatedToken { token: self.token.clone(), position: self.position }
    }
}

impl LocatedToken {
    /// A token at a place.
    pub fn new(token: Token, position: Position) -> (r: LocatedToken)
        ensures
            r.token == token,
            r.position == position,
    {
        LocatedToken { token, position }
    }
}

/// The text of one part of a double-quoted string, as a token's text shows it.
pub open spec fn part_text(part: StringPartView) -> Seq<char> {
    match part {
        StringPartView::Literal(s) => "\""@ + s + "\""@,
        StringPartView::Variable(s) => "$"@ + s,
    }
}

/// The texts of the first `n` parts, joined by ` + `.
pub open spec fn parts_text(parts: Seq<StringPartView>, n: int) -> Seq<char>
    decreases n,
{
    if n <= 0 || n > parts.len() {
        Seq::empty()
    } else if n == 1 {
        part_text(parts[0])
    } else {
        parts_text(parts, n - 1) + " + "@ + part_text(parts[n - 1])
    }
}

/// The text that names a token in messages.
pub open spec fn token_text(token: TokenView) -> Seq<char> {
    match token {
        TokenView::String(s) => "String(\""@ + s + "\")"@,
        TokenView::InterpolatedString(parts) => "InterpolatedString("@ + parts_text(parts, parts.len() as int) + ")"@,
        TokenView::Number(bits) => "Number("@ + crate::number::number_text(bits) + ")"@,
        TokenView::Boolean(b) => if b {
            "Boolean(true)"@
        } else {
            "Boolean(false)"@
        },
        TokenView::Identifier(s) => "Identifier("@ + s + ")"@,
        TokenView::Variable(s) => "Variable($"@ + s + ")"@,
        TokenView::Plus => "Plus"@,
        TokenView::Minus => "Minus"@,
        TokenView::Multiply => "Multiply"@,
        TokenView::Divide => "Divide"@,
        TokenView::Modulo => "Modulo"@,
        TokenView::Equal => "Equal(-eq)"@,
        TokenView::NotEqual => "NotEqual(-ne)"@,
        TokenView::Greater => "Greater(-gt)"@,
        TokenView::Less => "Less(-lt)"@,
        TokenView::GreaterOrEqual => "GreaterOrEqual(-ge)"@,
        TokenView::LessOrEqual => "LessOrEqual(-le)"@,
        TokenView::If => "If"@,
        TokenView::Else => "Else"@,
        TokenView::ElseIf => "ElseIf"@,
        TokenView::Function => "Function"@,
        TokenView::Return => "Return"@,
        TokenView::LeftParen => "LeftParen"@,
        TokenView::RightParen => "RightParen"@,
        TokenView::LeftBrace => "LeftBrace"@,
        TokenView::RightBrace => "RightBrace"@,
        TokenView::LeftBracket => "LeftBracket"@,
        TokenView::RightBracket => "RightBracket"@,
        TokenView::Comma => "Comma"@,
        TokenView::Dot => "Dot"@,
        TokenView::Pipeline => "Pipeline"@,
        TokenView::Assignment => "Assignment"@,
        TokenView::Semicolon => "Semicolon"@,
        TokenView::Newline => "Newline"@,
        TokenView::At => "At"@,
        TokenView::Eof => "Eof"@,
    }
}

impl Token {
    /// The text that names the token in messages.
    pub fn to_string(&self) -> (r: String)
        ensures
            r@ == token_text(self.deep_view()),
    {
        let mut out: Vec<char> = Vec::new();
        self.write_text(&mut out);
        crate::text::string_from(&out)
    }

    /// Appends the token's text to `out`.
    pub fn write_text(&self, out: &mut Vec<char>)
        ensures
            final(out)@ == old(out)@ + token_text(self.deep_view()),
    {
        match self {
            Token::String(s) => {
                push_text(out, "String(\"");
                push_text(out, s.as_str());
                push_text(out, "\")");
                assert(out@ =~= old(out)@ + token_text(self.deep_view()));
            },
            Token::InterpolatedString(parts) => {
                push_text(out, "InterpolatedString(");
                let ghost base = out@;
                let mut i: usize = 0;
                while i < parts.len()
                    invariant
                        i <= parts.len(),
                        out@ == base + parts_text(parts.deep_view(), i as int),
                    decreases parts.len() - i,
                {
                    let ghost before = out@;
                    if i > 0 {
                        push_text(out, " + ");
                    }
                    match &parts[i] {
                        StringPart::Literal(s) => {
                            push_text(out, "\"");
                            push_text(out, s.as_str());
                            push_text(out, "\"");
                        },
                        StringPart::Variable(s) => {
                            push_text(out, "$");
                            push_text(out, s.as_str());
                        },
                    }
                    i += 1;
                    assert(out@ =~= base + parts_text(parts.deep_view(), i as int));
                }
                push_text(out, ")");
                assert(out@ =~= old(out)@ + token_text(self.deep_view()));
            },
            Token::Number(n) => {
                push_text(out, "Number(");
                let digits = n.display_chars();
                crate::text::push_chars(out, &digits);
                push_text(out, ")");
                assert(out@ =~= old(out)@ + token_text(self.deep_view()));
            },
            Token::Boolean(b) => {
                if *b {
                    push_text(out, "Boolean(true)");
                } else {
                    push_text(out, "Boolean(false)");
                }
            },
            Token::Identifier(s) => {
                push_text(out, "Identifier(");
                push_text(out, s.as_str());
                push_text(out, ")");
                assert(out@ =~= old(out)@ + token_text(self.deep_view()));
            },
            Token::Variable(s) => {
                push_text(out, "Variable($");
                push_text(out, s.as_str());
                push_text(out, ")");
                assert(out@ =~= old(out)@ + token_text(self.deep_view()));
            },
            Token::Plus => push_text(out, "Plus"),
            Token::Minus => push_text(out, "Minus"),
            Token::Multiply => push_text(out, "Multiply"),
            Token::Divide => push_text(out, "Divide"),
            Token::Modulo => push_text(out, "Modulo"),
            Token::Equal => push_text(out, "Equal(-eq)"),
            Token::NotEqual => push_text(out, "NotEqual(-ne)"),
            Token::Greater => push_text(out, "Greater(-gt)"),
            Token::Less => push_text(out, "Less(-lt)"),
            Token::GreaterOrEqual => push_text(out, "GreaterOrEqual(-ge)"),
            Token::LessOrEqual => push_text(out, "LessOrEqual(-le)"),
            Token::If => push_text(out, "If"),
            Token::Else => push_text(out, "Else"),
            Token::ElseIf => push_text(out, "ElseIf"),
            Token::Function => push_text(out, "Function"),
            Token::Return => push_text(out, "Return"),
            Token::LeftParen => push_text(out, "LeftParen"),
            Token::RightParen => push_text(out, "RightParen"),
            Token::LeftBrace => push_text(out, "LeftBrace"),
            Token::RightBrace => push_text(out, "RightBrace"),
            Token::LeftBracket => push_text(out, "LeftBracket"),
            Token::RightBracket => push_text(out, "RightBracket"),
            Token::Comma => push_text(out, "Comma"),
            Token::Dot => push_text(out, "Dot"),
            Token::Pipeline => push_text(out, "Pipeline"),
            Token::Assignment => push_text(out, "Assignment"),
            Token::Semicolon => push_text(out, "Semicolon"),
            Token::Newline => push_text(out, "Newline"),
            Token::At => push_text(out, "At"),
            Token::Eof => push_text(out, "Eof"),
        }
    }
}

} // verus!

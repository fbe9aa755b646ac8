//! The tokenizer: from source text to located tokens.
//!
//! The `spec` functions of this file define the token stream of a text; the
//! executable `Lexer` is proved to produce exactly that stream.

use vstd::prelude::*;
use crate::number::{Number, text_bits};
use crate::text::{
    alphabetic,
    alphanumeric,
    chars_of,
    is_alphabetic,
    is_alphanumeric,
    is_ascii_digit,
    is_digit,
    lowercase,
    same_text,
    string_of,
    to_lowercase,
};
use crate::token::{
    place_text,
    LocatedToken,
    LocatedTokenView,
    Position,
    StringPart,
    StringPartView,
    Token,
    TokenView,
};

verus! {

/// What makes a text no program, with the place where it was found.
#[derive(Debug, PartialEq)]
pub enum LexError {
    UnexpectedCharacter { ch: char, position: Position },
    UnterminatedString { position: Position },
    InvalidNumber { text: String, position: Position },
    InvalidToken { text: String, position: Position },
}

/// The view of an error of the tokenizer.
pub enum LexErrorView {
    UnexpectedCharacter { ch: char, position: Position },
    UnterminatedString { position: Position },
    InvalidNumber { text: Seq<char>, position: Position },
    InvalidToken { text: Seq<char>, position: Position },
}

impl DeepView for LexError {
    type V = LexErrorView;

    open spec fn deep_view(&self) -> LexErrorView {
        match self {
            LexError::UnexpectedCharacter { ch, position } => LexErrorView::UnexpectedCharacter {
                ch: *ch,
                position: *position,
            },
            LexError::UnterminatedString { position } => LexErrorView::UnterminatedString { position: *position },
            LexError::InvalidNumber { text, position } => LexErrorView::InvalidNumber {
                text: text@,
                position: *position,
            },
            LexError::InvalidToken { text, position } => LexErrorView::InvalidToken {
                text: text@,
                position: *position,
            },
        }
    }
}

/// The message of an error.
pub open spec fn lex_error_text(e: LexErrorView) -> Seq<char> {
    match e {
        LexErrorView::UnexpectedCharacter { ch, position } => "Unexpected character '"@ + seq![ch] + "' at "@
            + place_text(position),
        LexErrorView::UnterminatedString { position } => "Unterminated string at "@ + place_text(position),
        LexErrorView::InvalidNumber { text, position } => "Invalid number '"@ + text + "' at "@ + place_text(position),
        LexErrorView::InvalidToken { text, position } => "Invalid token '"@ + text + "' at "@ + place_text(position),
    }
}

impl LexError {
    /// The message of the error.
    pub fn to_string(&self) -> (r: String)
        ensures
            r@ == lex_error_text(self.deep_view()),
    {
        let mut out: Vec<char> = Vec::new();
        match self {
            LexError::UnexpectedCharacter { ch, position } => {
                crate::text::push_text(&mut out, "Unexpected character '");
                out.push(*ch);
                crate::text::push_text(&mut out, "' at ");
                position.write_text(&mut out);
            },
            LexError::UnterminatedString { position } => {
                crate::text::push_text(&mut out, "Unterminated string at ");
                position.write_text(&mut out);
            },
            LexError::InvalidNumber { text, position } => {
                crate::text::push_text(&mut out, "Invalid number '");
                crate::text::push_text(&mut out, text.as_str());
                crate::text::push_text(&mut out, "' at ");
                position.write_text(&mut out);
            },
            LexError::InvalidToken { text, position } => {
                crate::text::push_text(&mut out, "Invalid token '");
                crate::text::push_text(&mut out, text.as_str());
                crate::text::push_text(&mut out, "' at ");
                position.write_text(&mut out);
            },
        }
        assert(out@ =~= lex_error_text(self.deep_view()));
        crate::text::string_from(&out)
    }
}

// ---------------------------------------------------------------------------
// Places
// ---------------------------------------------------------------------------

/// One more, as far as the machine's integers go.
pub open spec fn bump(n: usize) -> usize {
    if n < usize::MAX {
        (n + 1) as usize
    } else {
        n
    }
}

/// The place after a character that stands at `at`: a line feed starts a new line.
pub open spec fn step(at: Position, ch: char) -> Position {
    if ch == '\n' {
        Position { line: bump(at.line), column: 1 }
    } else {
        Position { line: at.line, column: bump(at.column) }
    }
}

/// The place of `s[to]`, where `s[from]` stands at `at`.
pub open spec fn place_after(s: Seq<char>, from: int, to: int, at: Position) -> Position
    decreases to - from,
{
    if from < to && 0 < to <= s.len() {
        step(place_after(s, from, to - 1, at), s[to - 1])
    } else {
        at
    }
}

// ---------------------------------------------------------------------------
// Runs of characters
// ---------------------------------------------------------------------------

/// Whether a character is a blank: a space, a tab or a carriage return. A line feed is none.
pub open spec fn is_blank(c: char) -> bool {
    c == ' ' || c == '\t' || c == '\r'
}

/// A character of a variable name.
pub open spec fn is_name_char(c: char) -> bool {
    alphanumeric(c) || c == '_'
}

/// A character of a bare word: a hyphen counts, so that `Get-Item` is one word.
pub open spec fn is_word_char(c: char) -> bool {
    alphanumeric(c) || c == '_' || c == '-'
}

/// A character of a number: a digit or a point.
pub open spec fn is_number_char(c: char) -> bool {
    is_digit(c) || c == '.'
}

/// The end of the run of blanks that starts at `i`.
pub open spec fn blanks_end(s: Seq<char>, i: int) -> int
    decreases s.len() - i,
{
    if 0 <= i < s.len() && is_blank(s[i]) {
        blanks_end(s, i + 1)
    } else {
        i
    }
}

/// The end of the line that `i` is in: the place of its line feed, or the end of the text.
pub open spec fn line_end(s: Seq<char>, i: int) -> int
    decreases s.len() - i,
{
    if 0 <= i < s.len() && s[i] != '\n' {
        line_end(s, i + 1)
    } else {
        i
    }
}

/// The end of the run of name characters that starts at `i`.
pub open spec fn name_end(s: Seq<char>, i: int) -> int
    decreases s.len() - i,
{
    if 0 <= i < s.len() && is_name_char(s[i]) {
        name_end(s, i + 1)
    } else {
        i
    }
}

/// The end of the run of word characters that starts at `i`.
pub open spec fn word_end(s: Seq<char>, i: int) -> int
    decreases s.len() - i,
{
    if 0 <= i < s.len() && is_word_char(s[i]) {
        word_end(s, i + 1)
    } else {
        i
    }
}

/// The end of the run of number characters that starts at `i`.
pub open spec fn number_end(s: Seq<char>, i: int) -> int
    decreases s.len() - i,
{
    if 0 <= i < s.len() && is_number_char(s[i]) {
        number_end(s, i + 1)
    } else {
        i
    }
}

/// The end of the variable name that starts at `i`: a name, and behind a colon that
/// a name character follows, a second name. So a name can carry a scope qualifier,
/// as in `global:count`.
pub open spec fn variable_end(s: Seq<char>, i: int) -> int {
    let first = name_end(s, i);
    if first > i && 0 <= first && first + 1 < s.len() && s[first] == ':' && is_name_char(s[first + 1]) {
        name_end(s, first + 1)
    } else {
        first
    }
}

/// Where the next token starts: after blanks, and after a comment (`#` to the end of
/// its line) with the blanks behind it.
pub open spec fn trivia_end(s: Seq<char>, i: int) -> int {
    let a = blanks_end(s, i);
    if 0 <= a < s.len() && s[a] == '#' {
        blanks_end(s, line_end(s, a))
    } else {
        a
    }
}

/// A run of blanks ends at or behind its start, and within the text.
pub proof fn lemma_blanks_end(s: Seq<char>, i: int)
    ensures
        i <= blanks_end(s, i),
        blanks_end(s, i) <= s.len() || blanks_end(s, i) == i,
    decreases s.len() - i,
{
    if 0 <= i < s.len() && is_blank(s[i]) {
        lemma_blanks_end(s, i + 1);
    }
}

/// A line ends at or behind its start, and within the text.
pub proof fn lemma_line_end(s: Seq<char>, i: int)
    ensures
        i <= line_end(s, i),
        line_end(s, i) <= s.len() || line_end(s, i) == i,
    decreases s.len() - i,
{
    if 0 <= i < s.len() && s[i] != '\n' {
        lemma_line_end(s, i + 1);
    }
}

/// A run of name characters ends at or behind its start, and within the text.
pub proof fn lemma_name_end(s: Seq<char>, i: int)
    ensures
        i <= name_end(s, i),
        name_end(s, i) <= s.len() || name_end(s, i) == i,
    decreases s.len() - i,
{
    if 0 <= i < s.len() && is_name_char(s[i]) {
        lemma_name_end(s, i + 1);
    }
}

/// A run of word characters ends at or behind its start, and within the text.
pub proof fn lemma_word_end(s: Seq<char>, i: int)
    ensures
        i <= word_end(s, i),
        word_end(s, i) <= s.len() || word_end(s, i) == i,
    decreases s.len() - i,
{
    if 0 <= i < s.len() && is_word_char(s[i]) {
        lemma_word_end(s, i + 1);
    }
}

/// A run of number characters ends at or behind its start, and within the text.
pub proof fn lemma_number_end(s: Seq<char>, i: int)
    ensures
        i <= number_end(s, i),
        number_end(s, i) <= s.len() || number_end(s, i) == i,
    decreases s.len() - i,
{
    if 0 <= i < s.len() && is_number_char(s[i]) {
        lemma_number_end(s, i + 1);
    }
}

/// Trivia ends at or behind its start, and within the text.
pub proof fn lemma_trivia_end(s: Seq<char>, i: int)
    ensures
        i <= trivia_end(s, i),
        trivia_end(s, i) <= s.len() || trivia_end(s, i) == i,
{
    lemma_blanks_end(s, i);
    let a = blanks_end(s, i);
    if 0 <= a < s.len() && s[a] == '#' {
        lemma_line_end(s, a);
        lemma_blanks_end(s, line_end(s, a));
    }
}

// ---------------------------------------------------------------------------
// Strings
// ---------------------------------------------------------------------------

/// What a backslash and the character `c` behind it stand for. An escape that is not
/// known stands for itself, backslash included.
pub open spec fn escape_text(c: char) -> Seq<char> {
    if c == 'n' {
        seq!['\n']
    } else if c == 'r' {
        seq!['\r']
    } else if c == 't' {
        seq!['\t']
    } else if c == '\\' || c == '"' || c == '\'' || c == '$' {
        seq![c]
    } else {
        seq!['\\', c]
    }
}

/// The outcome of reading a string: its content, and where the text goes on.
pub struct Scanned<T> {
    pub value: T,
    pub end: int,
    pub place: Position,
}

/// Reads the rest of a quoted string from `i`, with `acc` read so far. Two quotes in
/// a row stand for one quote in the string; a backslash starts an escape. `None`
/// where the text ends before the closing quote.
pub open spec fn scan_string(s: Seq<char>, i: int, at: Position, quote: char, acc: Seq<char>) -> Option<
    Scanned<Seq<char>>,
>
    decreases s.len() - i,
{
    if !(0 <= i < s.len()) {
        None
    } else if s[i] == quote && i + 1 < s.len() && s[i + 1] == quote {
        scan_string(s, i + 2, step(step(at, s[i]), s[i + 1]), quote, acc.push(quote))
    } else if s[i] == quote {
        Some(Scanned { value: acc, end: i + 1, place: step(at, s[i]) })
    } else if s[i] == '\\' && i + 1 < s.len() {
        scan_string(s, i + 2, step(step(at, s[i]), s[i + 1]), quote, acc + escape_text(s[i + 1]))
    } else {
        scan_string(s, i + 1, step(at, s[i]), quote, acc.push(s[i]))
    }
}

/// Whether a variable reference starts at `i`: a dollar sign, then a name character.
pub open spec fn variable_starts(s: Seq<char>, i: int) -> bool {
    0 <= i && i + 1 < s.len() && s[i] == '$' && is_name_char(s[i + 1])
}

/// The parts with the literal text read so far added, if there is any.
pub open spec fn flushed(parts: Seq<StringPartView>, literal: Seq<char>) -> Seq<StringPartView> {
    if literal.len() == 0 {
        parts
    } else {
        parts.push(StringPartView::Literal(literal))
    }
}

/// Reads the rest of a double-quoted string from `i` into parts. A variable's name
/// runs as far as a bare word would.
pub open spec fn scan_interpolated(
    s: Seq<char>,
    i: int,
    at: Position,
    parts: Seq<StringPartView>,
    literal: Seq<char>,
) -> Option<Scanned<Seq<StringPartView>>>
    decreases s.len() - i,
{
    if !(0 <= i < s.len()) {
        None
    } else if s[i] == '"' {
        Some(Scanned { value: flushed(parts, literal), end: i + 1, place: step(at, s[i]) })
    } else if variable_starts(s, i) {
        let end = word_end(s, i + 1);
        proof {
            lemma_word_end(s, i + 1);
        }
        scan_interpolated(
            s,
            end,
            place_after(s, i, end, at),
            flushed(parts, literal).push(StringPartView::Variable(s.subrange(i + 1, end))),
            Seq::empty(),
        )
    } else if s[i] == '\\' && i + 1 < s.len() {
        scan_interpolated(s, i + 2, step(step(at, s[i]), s[i + 1]), parts, literal + escape_text(s[i + 1]))
    } else {
        scan_interpolated(s, i + 1, step(at, s[i]), parts, literal.push(s[i]))
    }
}

/// A quoted string ends behind the index from which it is read, and within the text.
pub proof fn lemma_scan_string_extent(s: Seq<char>, i: int, at: Position, quote: char, acc: Seq<char>)
    ensures
        scan_string(s, i, at, quote, acc) matches Some(scanned) ==> i < scanned.end <= s.len(),
    decreases s.len() - i,
{
    if 0 <= i < s.len() {
        if s[i] == quote && i + 1 < s.len() && s[i + 1] == quote {
            lemma_scan_string_extent(s, i + 2, step(step(at, s[i]), s[i + 1]), quote, acc.push(quote));
        } else if s[i] == quote {
        } else if s[i] == '\\' && i + 1 < s.len() {
            lemma_scan_string_extent(s, i + 2, step(step(at, s[i]), s[i + 1]), quote, acc + escape_text(s[i + 1]));
        } else {
            lemma_scan_string_extent(s, i + 1, step(at, s[i]), quote, acc.push(s[i]));
        }
    }
}

/// A double-quoted string ends behind the index from which it is read, and within the text.
pub proof fn lemma_scan_interpolated_extent(
    s: Seq<char>,
    i: int,
    at: Position,
    parts: Seq<StringPartView>,
    literal: Seq<char>,
)
    ensures
        scan_interpolated(s, i, at, parts, literal) matches Some(scanned) ==> i < scanned.end <= s.len(),
    decreases s.len() - i,
{
    if 0 <= i < s.len() && s[i] != '"' {
        if variable_starts(s, i) {
            let end = word_end(s, i + 1);
            lemma_word_end(s, i + 1);
            lemma_scan_interpolated_extent(
                s,
                end,
                place_after(s, i, end, at),
                flushed(parts, literal).push(StringPartView::Variable(s.subrange(i + 1, end))),
                Seq::empty(),
            );
        } else if s[i] == '\\' && i + 1 < s.len() {
            lemma_scan_interpolated_extent(
                s,
                i + 2,
                step(step(at, s[i]), s[i + 1]),
                parts,
                literal + escape_text(s[i + 1]),
            );
        } else {
            lemma_scan_interpolated_extent(s, i + 1, step(at, s[i]), parts, literal.push(s[i]));
        }
    }
}

/// The token of a double-quoted string: a plain string where no variable is in it.
pub open spec fn quoted_token(parts: Seq<StringPartView>) -> TokenView {
    if parts.len() == 0 {
        TokenView::String(Seq::empty())
    } else if parts.len() == 1 && parts[0] is Literal {
        TokenView::String(parts[0]->Literal_0)
    } else {
        TokenView::InterpolatedString(parts)
    }
}

// ---------------------------------------------------------------------------
// Words
// ---------------------------------------------------------------------------

/// The token of a bare word: a keyword or a boolean literal in any case, else an identifier.
pub open spec fn word_token(word: Seq<char>) -> TokenView {
    let lower = lowercase(word);
    if lower == "if"@ {
        TokenView::If
    } else if lower == "else"@ {
        TokenView::Else
    } else if lower == "elseif"@ {
        TokenView::ElseIf
    } else if lower == "function"@ {
        TokenView::Function
    } else if lower == "return"@ {
        TokenView::Return
    } else if lower == "true"@ {
        TokenView::Boolean(true)
    } else if lower == "false"@ {
        TokenView::Boolean(false)
    } else {
        TokenView::Identifier(word)
    }
}

/// The comparison operator that is spelled with a hyphen and `name`, in any case.
/// A hyphen before any other word is a minus sign: so a named argument starts.
pub open spec fn operator_token(name: Seq<char>) -> Option<TokenView> {
    let lower = lowercase(name);
    if lower == "eq"@ {
        Some(TokenView::Equal)
    } else if lower == "ne"@ {
        Some(TokenView::NotEqual)
    } else if lower == "gt"@ {
        Some(TokenView::Greater)
    } else if lower == "lt"@ {
        Some(TokenView::Less)
    } else if lower == "ge"@ {
        Some(TokenView::GreaterOrEqual)
    } else if lower == "le"@ {
        Some(TokenView::LessOrEqual)
    } else {
        None
    }
}

/// The token that a single character makes, for those that make one alone.
pub open spec fn mark_token(c: char) -> Option<TokenView> {
    if c == '\n' {
        Some(TokenView::Newline)
    } else if c == ';' {
        Some(TokenView::Semicolon)
    } else if c == '(' {
        Some(TokenView::LeftParen)
    } else if c == ')' {
        Some(TokenView::RightParen)
    } else if c == '{' {
        Some(TokenView::LeftBrace)
    } else if c == '}' {
        Some(TokenView::RightBrace)
    } else if c == '[' {
        Some(TokenView::LeftBracket)
    } else if c == ']' {
        Some(TokenView::RightBracket)
    } else if c == ',' {
        Some(TokenView::Comma)
    } else if c == '.' {
        Some(TokenView::Dot)
    } else if c == '|' {
        Some(TokenView::Pipeline)
    } else if c == '=' {
        Some(TokenView::Assignment)
    } else if c == '+' {
        Some(TokenView::Plus)
    } else if c == '*' {
        Some(TokenView::Multiply)
    } else if c == '/' {
        Some(TokenView::Divide)
    } else if c == '%' {
        Some(TokenView::Modulo)
    } else if c == '@' {
        Some(TokenView::At)
    } else {
        None
    }
}

// ---------------------------------------------------------------------------
// One token
// ---------------------------------------------------------------------------

/// A token, and where the text goes on behind it.
pub struct Lexed {
    pub token: LocatedTokenView,
    pub end: int,
    pub place: Position,
}

/// The token from `start` to `end`, with the place behind it.
pub open spec fn lexed(token: TokenView, position: Position, s: Seq<char>, start: int, end: int) -> Lexed {
    Lexed {
        token: LocatedTokenView { token, position },
        end,
        place: place_after(s, start, end, position),
    }
}

/// The token that starts at `start`, which is the place `position` and holds no
/// trivia: this is the table of the token kinds.
pub open spec fn token_at(s: Seq<char>, start: int, position: Position) -> Result<Lexed, LexErrorView> {
    if !(0 <= start < s.len()) {
        Ok(lexed(TokenView::Eof, position, s, start, start))
    } else {
        let c = s[start];
        if mark_token(c) is Some {
            Ok(lexed(mark_token(c)->0, position, s, start, start + 1))
        } else if c == '-' {
            if start + 1 < s.len() && alphabetic(s[start + 1]) {
                let end = word_end(s, start + 1);
                match operator_token(s.subrange(start + 1, end)) {
                    Some(token) => Ok(lexed(token, position, s, start, end)),
                    None => Ok(lexed(TokenView::Minus, position, s, start, start + 1)),
                }
            } else {
                Ok(lexed(TokenView::Minus, position, s, start, start + 1))
            }
        } else if c == '"' {
            match scan_interpolated(s, start + 1, step(position, c), Seq::empty(), Seq::empty()) {
                Some(scanned) => Ok(
                    Lexed {
                        token: LocatedTokenView { token: quoted_token(scanned.value), position },
                        end: scanned.end,
                        place: scanned.place,
                    },
                ),
                None => Err(LexErrorView::UnterminatedString { position }),
            }
        } else if c == '\'' {
            match scan_string(s, start + 1, step(position, c), '\'', Seq::empty()) {
                Some(scanned) => Ok(
                    Lexed {
                        token: LocatedTokenView { token: TokenView::String(scanned.value), position },
                        end: scanned.end,
                        place: scanned.place,
                    },
                ),
                None => Err(LexErrorView::UnterminatedString { position }),
            }
        } else if c == '$' {
            let end = variable_end(s, start + 1);
            if end == start + 1 {
                Err(LexErrorView::InvalidToken { text: seq!['$'], position })
            } else {
                Ok(lexed(TokenView::Variable(s.subrange(start + 1, end)), position, s, start, end))
            }
        } else if is_digit(c) {
            let end = number_end(s, start);
            let text = s.subrange(start, end);
            match text_bits(text) {
                Some(bits) => Ok(lexed(TokenView::Number(bits), position, s, start, end)),
                None => Err(LexErrorView::InvalidNumber { text, position }),
            }
        } else if alphabetic(c) {
            let end = word_end(s, start + 1);
            Ok(lexed(word_token(s.subrange(start, end)), position, s, start, end))
        } else {
            Err(LexErrorView::UnexpectedCharacter { ch: c, position })
        }
    }
}

/// A token that is not `Eof` takes at least one character, and none from behind the text.
pub proof fn lemma_token_extent(s: Seq<char>, i: int, at: Position)
    ensures
        next_token_from(s, i, at) matches Ok(lexed) ==> (lexed.token.token is Eof && lexed.end == trivia_end(s, i))
            || i < lexed.end <= s.len(),
{
    let start = trivia_end(s, i);
    let position = place_after(s, i, start, at);
    lemma_trivia_end(s, i);
    if 0 <= start < s.len() {
        let c = s[start];
        lemma_word_end(s, start + 1);
        lemma_name_end(s, start + 1);
        lemma_name_end(s, name_end(s, start + 1) + 1);
        lemma_number_end(s, start);
        lemma_scan_interpolated_extent(s, start + 1, step(position, c), Seq::empty(), Seq::empty());
        lemma_scan_string_extent(s, start + 1, step(position, c), '\'', Seq::empty());
    }
}

/// The next token from `i`, which stands at `at`: the token behind the trivia.
pub open spec fn next_token_from(s: Seq<char>, i: int, at: Position) -> Result<Lexed, LexErrorView> {
    let start = trivia_end(s, i);
    token_at(s, start, place_after(s, i, start, at))
}

/// All tokens from `i` on, behind those of `acc`; the last one is `Eof`.
pub open spec fn tokens_from(s: Seq<char>, i: int, at: Position, acc: Seq<LocatedTokenView>) -> Result<
    Seq<LocatedTokenView>,
    LexErrorView,
>
    decreases s.len() - i,
{
    match next_token_from(s, i, at) {
        Err(e) => Err(e),
        Ok(lexed) => {
            if lexed.token.token is Eof {
                Ok(acc.push(lexed.token))
            } else {
                proof {
                    lemma_token_extent(s, i, at);
                }
                tokens_from(s, lexed.end, lexed.place, acc.push(lexed.token))
            }
        },
    }
}

/// The tokens of a text.
pub open spec fn tokens_of(s: Seq<char>) -> Result<Seq<LocatedTokenView>, LexErrorView> {
    tokens_from(s, 0, Position { line: 1, column: 1 }, Seq::empty())
}

// ---------------------------------------------------------------------------
// The executable tokenizer
// ---------------------------------------------------------------------------

fn bumped(n: usize) -> (r: usize)
    ensures
        r == bump(n),
{
    if n < usize::MAX {
        n + 1
    } else {
        n
    }
}

fn stepped(at: Position, ch: char) -> (r: Position)
    ensures
        r == step(at, ch),
{
    if ch == '\n' {
        Position { line: bumped(at.line), column: 1 }
    } else {
        Position { line: at.line, column: bumped(at.column) }
    }
}

fn place_to(s: &Vec<char>, from: usize, to: usize, at: Position) -> (r: Position)
    requires
        from <= to <= s.len(),
    ensures
        r == place_after(s@, from as int, to as int, at),
{
    let mut i: usize = from;
    let mut cur = at;
    while i < to
        invariant
            from <= i <= to <= s.len(),
            cur == place_after(s@, from as int, i as int, at),
        decreases to - i,
    {
        cur = stepped(cur, s[i]);
        i += 1;
    }
    cur
}

fn blank(c: char) -> (r: bool)
    ensures
        r == is_blank(c),
{
    c == ' ' || c == '\t' || c == '\r'
}

fn name_char(c: char) -> (r: bool)
    ensures
        r == is_name_char(c),
{
    is_alphanumeric(c) || c == '_'
}

fn word_char(c: char) -> (r: bool)
    ensures
        r == is_word_char(c),
{
    is_alphanumeric(c) || c == '_' || c == '-'
}

fn find_blanks_end(s: &Vec<char>, from: usize) -> (end: usize)
    ensures
        end == blanks_end(s@, from as int),
        from <= end,
        end <= s.len() || end == from,
{
    let mut i: usize = from;
    while i < s.len() && blank(s[i])
        invariant
            from <= i,
            i <= s.len() || i == from,
            blanks_end(s@, i as int) == blanks_end(s@, from as int),
        decreases s.len() - i,
    {
        i += 1;
    }
    i
}

fn find_line_end(s: &Vec<char>, from: usize) -> (end: usize)
    ensures
        end == line_end(s@, from as int),
        from <= end,
        end <= s.len() || end == from,
{
    let mut i: usize = from;
    while i < s.len() && s[i] != '\n'
        invariant
            from <= i,
            i <= s.len() || i == from,
            line_end(s@, i as int) == line_end(s@, from as int),
        decreases s.len() - i,
    {
        i += 1;
    }
    i
}

fn find_name_end(s: &Vec<char>, from: usize) -> (end: usize)
    ensures
        end == name_end(s@, from as int),
        from <= end,
        end <= s.len() || end == from,
{
    let mut i: usize = from;
    while i < s.len() && name_char(s[i])
        invariant
            from <= i,
            i <= s.len() || i == from,
            name_end(s@, i as int) == name_end(s@, from as int),
        decreases s.len() - i,
    {
        i += 1;
    }
    i
}

fn find_variable_end(s: &Vec<char>, from: usize) -> (end: usize)
    ensures
        end == variable_end(s@, from as int),
        from <= end,
        end <= s.len() || end == from,
{
    let first = find_name_end(s, from);
    if first > from && first < s.len() && s[first] == ':' && first + 1 < s.len() && name_char(s[first + 1]) {
        find_name_end(s, first + 1)
    } else {
        first
    }
}

fn find_word_end(s: &Vec<char>, from: usize) -> (end: usize)
    ensures
        end == word_end(s@, from as int),
        from <= end,
        end <= s.len() || end == from,
{
    let mut i: usize = from;
    while i < s.len() && word_char(s[i])
        invariant
            from <= i,
            i <= s.len() || i == from,
            word_end(s@, i as int) == word_end(s@, from as int),
        decreases s.len() - i,
    {
        i += 1;
    }
    i
}

fn find_number_end(s: &Vec<char>, from: usize) -> (end: usize)
    ensures
        end == number_end(s@, from as int),
        from <= end,
        end <= s.len() || end == from,
{
    let mut i: usize = from;
    while i < s.len() && (is_ascii_digit(s[i]) || s[i] == '.')
        invariant
            from <= i,
            i <= s.len() || i == from,
            number_end(s@, i as int) == number_end(s@, from as int),
        decreases s.len() - i,
    {
        i += 1;
    }
    i
}

fn find_trivia_end(s: &Vec<char>, from: usize) -> (end: usize)
    ensures
        end == trivia_end(s@, from as int),
        from <= end,
        end <= s.len() || end == from,
{
    let a = find_blanks_end(s, from);
    if a < s.len() && s[a] == '#' {
        let b = find_line_end(s, a);
        find_blanks_end(s, b)
    } else {
        a
    }
}

/// Appends to `out` what a backslash and `c` stand for.
fn push_escape(out: &mut Vec<char>, c: char)
    ensures
        final(out)@ == old(out)@ + escape_text(c),
{
    if c == 'n' {
        out.push('\n');
        assert(out@ =~= old(out)@ + escape_text(c));
    } else if c == 'r' {
        out.push('\r');
        assert(out@ =~= old(out)@ + escape_text(c));
    } else if c == 't' {
        out.push('\t');
        assert(out@ =~= old(out)@ + escape_text(c));
    } else if c == '\\' || c == '"' || c == '\'' || c == '$' {
        out.push(c);
        assert(out@ =~= old(out)@ + escape_text(c));
    } else {
        out.push('\\');
        out.push(c);
        assert(out@ =~= old(out)@ + escape_text(c));
    }
}

/// The outcome of reading a string, in the executable tokenizer.
struct Read<T> {
    value: T,
    end: usize,
    place: Position,
}

fn read_string(s: &Vec<char>, start: usize, start_place: Position, quote: char) -> (r: Option<Read<String>>)
    requires
        start <= s.len(),
    ensures
        match scan_string(s@, start as int, start_place, quote, Seq::empty()) {
            Some(scanned) => r matches Some(read) && read.value@ == scanned.value && read.end == scanned.end
                && read.place == scanned.place && start < read.end <= s.len(),
            None => r is None,
        },
{
    let mut i: usize = start;
    let mut at = start_place;
    let mut acc: Vec<char> = Vec::new();
    while i < s.len()
        invariant
            start <= i <= s.len(),
            scan_string(s@, i as int, at, quote, acc@) == scan_string(s@, start as int, start_place, quote, Seq::empty()),
        decreases s.len() - i,
    {
        let ch = s[i];
        if ch == quote && i + 1 < s.len() && s[i + 1] == quote {
            at = stepped(stepped(at, ch), quote);
            acc.push(quote);
            i += 2;
        } else if ch == quote {
            return Some(Read { value: crate::text::string_from(&acc), end: i + 1, place: stepped(at, ch) });
        } else if ch == '\\' && i + 1 < s.len() {
            let next = s[i + 1];
            at = stepped(stepped(at, ch), next);
            push_escape(&mut acc, next);
            i += 2;
        } else {
            at = stepped(at, ch);
            acc.push(ch);
            i += 1;
        }
    }
    None
}

fn flush(parts: &mut Vec<StringPart>, literal: &mut Vec<char>)
    ensures
        final(parts).deep_view() == flushed(old(parts).deep_view(), old(literal)@),
        final(literal)@ == Seq::<char>::empty(),
{
    if literal.len() > 0 {
        let part = StringPart::Literal(crate::text::string_from(literal));
        let ghost before = *parts;
        parts.push(part);
        proof {
            crate::text::lemma_deep_view_push(before, *parts, part);
        }
        literal.clear();
    }
}

fn read_interpolated(s: &Vec<char>, start: usize, start_place: Position) -> (r: Option<Read<Vec<StringPart>>>)
    requires
        start <= s.len(),
    ensures
        match scan_interpolated(s@, start as int, start_place, Seq::empty(), Seq::empty()) {
            Some(scanned) => r matches Some(read) && read.value.deep_view() == scanned.value && read.end
                == scanned.end && read.place == scanned.place && start < read.end <= s.len(),
            None => r is None,
        },
{
    let mut i: usize = start;
    let mut at = start_place;
    let mut parts: Vec<StringPart> = Vec::new();
    let mut literal: Vec<char> = Vec::new();
    assert(parts.deep_view() =~= Seq::<StringPartView>::empty());
    while i < s.len()
        invariant
            start <= i <= s.len(),
            scan_interpolated(s@, i as int, at, parts.deep_view(), literal@) == scan_interpolated(
                s@,
                start as int,
                start_place,
                Seq::empty(),
                Seq::empty(),
            ),
        decreases s.len() - i,
    {
        let ch = s[i];
        if ch == '"' {
            flush(&mut parts, &mut literal);
            return Some(Read { value: parts, end: i + 1, place: stepped(at, ch) });
        } else if ch == '$' && i + 1 < s.len() && name_char(s[i + 1]) {
            let end = find_word_end(s, i + 1);
            flush(&mut parts, &mut literal);
            let name = string_of(s, i + 1, end);
            let part = StringPart::Variable(name);
            let ghost before = parts;
            parts.push(part);
            proof {
                crate::text::lemma_deep_view_push(before, parts, part);
            }
            at = place_to(s, i, end, at);
            i = end;
        } else if ch == '\\' && i + 1 < s.len() {
            let next = s[i + 1];
            at = stepped(stepped(at, ch), next);
            push_escape(&mut literal, next);
            i += 2;
        } else {
            at = stepped(at, ch);
            literal.push(ch);
            i += 1;
        }
    }
    None
}

fn make_quoted_token(parts: Vec<StringPart>) -> (r: Token)
    ensures
        r.deep_view() == quoted_token(parts.deep_view()),
{
    if parts.len() == 0 {
        Token::String(String::new())
    } else if parts.len() == 1 {
        match &parts[0] {
            StringPart::Literal(text) => Token::String(text.clone()),
            StringPart::Variable(_) => Token::InterpolatedString(parts),
        }
    } else {
        Token::InterpolatedString(parts)
    }
}

fn make_word_token(word: String) -> (r: Token)
    ensures
        r.deep_view() == word_token(word@),
{
    let lower = to_lowercase(word.as_str());
    if same_text(lower.as_str(), "if") {
        Token::If
    } else if same_text(lower.as_str(), "else") {
        Token::Else
    } else if same_text(lower.as_str(), "elseif") {
        Token::ElseIf
    } else if same_text(lower.as_str(), "function") {
        Token::Function
    } else if same_text(lower.as_str(), "return") {
        Token::Return
    } else if same_text(lower.as_str(), "true") {
        Token::Boolean(true)
    } else if same_text(lower.as_str(), "false") {
        Token::Boolean(false)
    } else {
        Token::Identifier(word)
    }
}

fn make_operator_token(name: &str) -> (r: Option<Token>)
    ensures
        r.deep_view() == operator_token(name@),
{
    let lower = to_lowercase(name);
    if same_text(lower.as_str(), "eq") {
        Some(Token::Equal)
    } else if same_text(lower.as_str(), "ne") {
        Some(Token::NotEqual)
    } else if same_text(lower.as_str(), "gt") {
        Some(Token::Greater)
    } else if same_text(lower.as_str(), "lt") {
        Some(Token::Less)
    } else if same_text(lower.as_str(), "ge") {
        Some(Token::GreaterOrEqual)
    } else if same_text(lower.as_str(), "le") {
        Some(Token::LessOrEqual)
    } else {
        None
    }
}

fn make_mark_token(c: char) -> (r: Option<Token>)
    ensures
        r.deep_view() == mark_token(c),
{
    if c == '\n' {
        Some(Token::Newline)
    } else if c == ';' {
        Some(Token::Semicolon)
    } else if c == '(' {
        Some(Token::LeftParen)
    } else if c == ')' {
        Some(Token::RightParen)
    } else if c == '{' {
        Some(Token::LeftBrace)
    } else if c == '}' {
        Some(Token::RightBrace)
    } else if c == '[' {
        Some(Token::LeftBracket)
    } else if c == ']' {
        Some(Token::RightBracket)
    } else if c == ',' {
        Some(Token::Comma)
    } else if c == '.' {
        Some(Token::Dot)
    } else if c == '|' {
        Some(Token::Pipeline)
    } else if c == '=' {
        Some(Token::Assignment)
    } else if c == '+' {
        Some(Token::Plus)
    } else if c == '*' {
        Some(Token::Multiply)
    } else if c == '/' {
        Some(Token::Divide)
    } else if c == '%' {
        Some(Token::Modulo)
    } else if c == '@' {
        Some(Token::At)
    } else {
        None
    }
}

/// A token read by the executable tokenizer, with where the text goes on.
struct Taken {
    token: LocatedToken,
    end: usize,
    place: Position,
}

impl Taken {
    spec fn matches_lexed(&self, lexed: Lexed) -> bool {
        self.token.deep_view() == lexed.token && self.end == lexed.end && self.place == lexed.place
    }
}

fn take(token: Token, position: Position, s: &Vec<char>, start: usize, end: usize) -> (r: Taken)
    requires
        start <= end <= s.len(),
    ensures
        r.matches_lexed(lexed(token.deep_view(), position, s@, start as int, end as int)),
        r.end == end,
{
    Taken { token: LocatedToken { token, position }, end, place: place_to(s, start, end, position) }
}

/// Reads the token that starts at `start`.
fn read_token_at(s: &Vec<char>, start: usize, position: Position) -> (r: Result<Taken, LexError>)
    ensures
        match token_at(s@, start as int, position) {
            Ok(lexed) => r matches Ok(taken) && taken.matches_lexed(lexed) && (taken.end <= s.len() || taken.end == start)
                && (lexed.token.token is Eof || start < taken.end),
            Err(e) => r matches Err(err) && err.deep_view() == e,
        },
{
    if start >= s.len() {
        return Ok(Taken { token: LocatedToken { token: Token::Eof, position }, end: start, place: position });
    }
    let c = s[start];
    match make_mark_token(c) {
        Some(token) => {
            return Ok(take(token, position, s, start, start + 1));
        },
        None => {},
    }
    if c == '-' {
        if start + 1 < s.len() && is_alphabetic(s[start + 1]) {
            let end = find_word_end(s, start + 1);
            let name = string_of(s, start + 1, end);
            match make_operator_token(name.as_str()) {
                Some(token) => Ok(take(token, position, s, start, end)),
                None => Ok(take(Token::Minus, position, s, start, start + 1)),
            }
        } else {
            Ok(take(Token::Minus, position, s, start, start + 1))
        }
    } else if c == '"' {
        match read_interpolated(s, start + 1, stepped(position, c)) {
            Some(read) => Ok(
                Taken {
                    token: LocatedToken { token: make_quoted_token(read.value), position },
                    end: read.end,
                    place: read.place,
                },
            ),
            None => Err(LexError::UnterminatedString { position }),
        }
    } else if c == '\'' {
        match read_string(s, start + 1, stepped(position, c), '\'') {
            Some(read) => Ok(
                Taken {
                    token: LocatedToken { token: Token::String(read.value), position },
                    end: read.end,
                    place: read.place,
                },
            ),
            None => Err(LexError::UnterminatedString { position }),
        }
    } else if c == '$' {
        let end = find_variable_end(s, start + 1);
        if end == start + 1 {
            let mut text: Vec<char> = Vec::new();
            text.push('$');
            let text = crate::text::string_from(&text);
            assert(text@ =~= seq!['$']);
            Err(LexError::InvalidToken { text, position })
        } else {
            Ok(take(Token::Variable(string_of(s, start + 1, end)), position, s, start, end))
        }
    } else if is_ascii_digit(c) {
        let end = find_number_end(s, start);
        let text = string_of(s, start, end);
        match Number::parse(text.as_str()) {
            Some(n) => Ok(take(Token::Number(n), position, s, start, end)),
            None => Err(LexError::InvalidNumber { text, position }),
        }
    } else if is_alphabetic(c) {
        let end = find_word_end(s, start + 1);
        Ok(take(make_word_token(string_of(s, start, end)), position, s, start, end))
    } else {
        Err(LexError::UnexpectedCharacter { ch: c, position })
    }
}

/// The tokenizer: a text and the place in it that comes next.
pub struct Lexer {
    input: Vec<char>,
    position: usize,
    line: usize,
    column: usize,
}

impl Lexer {
    /// The text that is read.
    pub closed spec fn source(&self) -> Seq<char> {
        self.input@
    }

    /// The index of the character that comes next.
    pub closed spec fn offset(&self) -> int {
        self.position as int
    }

    /// Line and column of the character that comes next.
    pub closed spec fn place(&self) -> Position {
        Position { line: self.line, column: self.column }
    }

    /// A tokenizer at the start of `input`.
    pub fn new(input: &str) -> (r: Lexer)
        ensures
            r.source() == input@,
            r.offset() == 0,
            r.place() == (Position { line: 1, column: 1 }),
    {
        Lexer { input: chars_of(input), position: 0, line: 1, column: 1 }
    }

    /// Reads the next token. At the end of the text this is `Eof`, again and again.
    pub fn next_token(&mut self) -> (r: Result<LocatedToken, LexError>)
        ensures
            final(self).source() == old(self).source(),
            match next_token_from(old(self).source(), old(self).offset(), old(self).place()) {
                Ok(lexed) => r matches Ok(token) && token.deep_view() == lexed.token && final(self).offset()
                    == lexed.end && final(self).place() == lexed.place && (lexed.token.token is Eof || old(
                    self,
                ).offset() < lexed.end),
                Err(e) => r matches Err(err) && err.deep_view() == e && final(self).offset() == old(self).offset()
                    && final(self).place() == old(self).place(),
            },
    {
        let start = find_trivia_end(&self.input, self.position);
        let position = if start <= self.input.len() {
            place_to(&self.input, self.position, start, Position { line: self.line, column: self.column })
        } else {
            Position { line: self.line, column: self.column }
        };
        match read_token_at(&self.input, start, position) {
            Ok(taken) => {
                self.position = taken.end;
                self.line = taken.place.line;
                self.column = taken.place.column;
                Ok(taken.token)
            },
            Err(e) => Err(e),
        }
    }

    /// Reads all tokens up to and with `Eof`.
    pub fn tokenize(&mut self) -> (r: Result<Vec<LocatedToken>, LexError>)
        ensures
            final(self).source() == old(self).source(),
            match tokens_from(old(self).source(), old(self).offset(), old(self).place(), Seq::empty()) {
                Ok(tokens) => r matches Ok(list) && list.deep_view() == tokens,
                Err(e) => r matches Err(err) && err.deep_view() == e,
            },
    {
        let mut tokens: Vec<LocatedToken> = Vec::new();
        assert(tokens.deep_view() =~= Seq::<LocatedTokenView>::empty());
        loop
            invariant
                self.source() == old(self).source(),
                tokens_from(self.source(), self.offset(), self.place(), tokens.deep_view()) == tokens_from(
                    old(self).source(),
                    old(self).offset(),
                    old(self).place(),
                    Seq::empty(),
                ),
            ensures
                final(self).source() == old(self).source(),
            decreases self.source().len() - self.offset(),
        {
            let ghost before = tokens;
            proof {
                lemma_token_extent(self.source(), self.offset(), self.place());
            }
            match self.next_token() {
                Err(e) => {
                    return Err(e);
                },
                Ok(token) => {
                    let is_eof = matches!(token.token, Token::Eof);
                    tokens.push(token);
                    proof {
                        crate::text::lemma_deep_view_push(before, tokens, token);
                    }
                    if is_eof {
                        return Ok(tokens);
                    }
                },
            }
        }
    }
}

/// The tokens of a text.
pub fn tokenize(source: &str) -> (r: Result<Vec<LocatedToken>, LexError>)
    ensures
        match tokens_of(source@) {
            Ok(tokens) => r matches Ok(list) && list.deep_view() == tokens,
            Err(e) => r matches Err(err) && err.deep_view() == e,
        },
{
    let mut lexer = Lexer::new(source);
    lexer.tokenize()
}

} // verus!

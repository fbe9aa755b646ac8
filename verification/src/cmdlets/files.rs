//! What the commands on files decide and compute. Reading and writing the file
//! system is the caller's part: these functions get what was read and give what is
//! to be written.

use vstd::prelude::*;
use crate::cmdlet::CmdletContext;
use crate::cmdlets::common::{get_parameter_ci, parameter, parse_switch, switch_value};
use crate::cmdlets::patterns::{name_is_listed, parse_string_patterns, pattern_list, should_output_name};
use crate::error::{RuntimeError, RuntimeErrorView};
use crate::lexer::line_end;
use crate::number::{
    all_digits,
    digits_value,
    is_finite_bits,
    less_bits,
    number_text,
    text_bits,
    truncated_bits,
    whole_of,
    Number,
};
use crate::text::{
    chars_of,
    is_ascii_digit,
    is_digit,
    lemma_deep_view_push,
    lowercase,
    push_chars,
    push_text,
    same_text,
    string_from,
    string_of,
    to_lowercase,
    trim,
    trimmed,
};
use crate::value::{
    clone_values,
    display_chars,
    display_text,
    item_texts,
    lemma_value_views,
    truthy,
    Property,
    PropertyView,
    Value,
    ValueView,
};

verus! {

/// The error with the given message.
pub open spec fn failure(message: Seq<char>) -> RuntimeErrorView {
    RuntimeErrorView::InvalidOperation(message)
}

fn fail(message: Vec<char>) -> (r: RuntimeError)
    ensures
        r.deep_view() == failure(message@),
{
    RuntimeError::InvalidOperation(string_from(&message))
}

fn fail_with(message: &str, shown: &Vec<char>) -> (r: RuntimeError)
    ensures
        r.deep_view() == failure(message@ + shown@),
{
    let mut text: Vec<char> = Vec::new();
    push_text(&mut text, message);
    push_chars(&mut text, shown);
    fail(text)
}

// ---------------------------------------------------------------------------
// Paths and flags
// ---------------------------------------------------------------------------

/// The path that a context names: the string of `-Path`, or else the string that is
/// the first positional argument.
pub open spec fn path_of(context: CmdletContext) -> Option<Seq<char>> {
    match parameter(context, "Path"@) {
        Some(ValueView::String(p)) => Some(p),
        _ => if context.arguments.len() > 0 {
            match context.arguments.deep_view()[0] {
                ValueView::String(p) => Some(p),
                _ => None,
            }
        } else {
            None
        },
    }
}

/// The path that a context names.
pub fn path_argument(context: &CmdletContext) -> (r: Option<String>)
    ensures
        r.deep_view() == path_of(*context),
{
    match get_parameter_ci(context, "Path") {
        Some(Value::String(p)) => {
            return Some(p.clone());
        },
        _ => {},
    }
    if context.arguments.len() > 0 {
        match &context.arguments[0] {
            Value::String(p) => Some(p.clone()),
            _ => None,
        }
    } else {
        None
    }
}

/// The path that a context names, or the error with the given message.
pub fn require_path(context: &CmdletContext, message: &str) -> (r: Result<String, RuntimeError>)
    ensures
        match path_of(*context) {
            Some(p) => r matches Ok(path) && path@ == p,
            None => r matches Err(e) && e.deep_view() == failure(message@),
        },
{
    match path_argument(context) {
        Some(path) => Ok(path),
        None => {
            let mut text: Vec<char> = Vec::new();
            push_text(&mut text, message);
            Err(fail(text))
        },
    }
}

/// Whether a flag is set: whether the parameter of that name counts as true.
pub open spec fn flag_of(context: CmdletContext, name: Seq<char>) -> bool {
    match parameter(context, name) {
        Some(value) => truthy(value),
        None => false,
    }
}

/// Whether a flag is set.
pub fn parse_flag(context: &CmdletContext, name: &str) -> (r: bool)
    ensures
        r == flag_of(*context, name@),
{
    match get_parameter_ci(context, name) {
        Some(value) => value.to_bool(),
        None => false,
    }
}

// ---------------------------------------------------------------------------
// Whole numbers in parameters
// ---------------------------------------------------------------------------

/// The number that a text of digits with an optional plus sign before them denotes,
/// if it is such a text and the number fits the machine's counts.
pub open spec fn count_of_text(s: Seq<char>) -> Option<usize> {
    let digits = if s.len() > 0 && s[0] == '+' {
        s.subrange(1, s.len() as int)
    } else {
        s
    };
    if digits.len() > 0 && all_digits(digits) && digits_value(digits) <= usize::MAX {
        Some(digits_value(digits) as usize)
    } else {
        None
    }
}

/// A longer run of digits denotes no smaller number.
pub proof fn lemma_digits_grow(s: Seq<char>, k: int)
    requires
        0 <= k <= s.len(),
    ensures
        digits_value(s.take(k)) <= digits_value(s),
    decreases s.len() - k,
{
    if k < s.len() {
        lemma_digits_grow(s, k + 1);
        assert(s.take(k + 1).drop_last() =~= s.take(k));
    } else {
        assert(s.take(k) =~= s);
    }
}

fn digit_number(c: char) -> (d: usize)
    requires
        is_digit(c),
    ensures
        d == crate::number::digit_value(c),
        d <= 9,
{
    if c == '1' {
        1
    } else if c == '2' {
        2
    } else if c == '3' {
        3
    } else if c == '4' {
        4
    } else if c == '5' {
        5
    } else if c == '6' {
        6
    } else if c == '7' {
        7
    } else if c == '8' {
        8
    } else if c == '9' {
        9
    } else {
        0
    }
}

/// Reads a count from a text of digits.
#[verifier::loop_isolation(false)]
pub fn parse_count(text: &str) -> (r: Option<usize>)
    ensures
        r == count_of_text(text@),
{
    let all = chars_of(text);
    let start: usize = if all.len() > 0 && all[0] == '+' {
        1
    } else {
        0
    };
    let mut digits: Vec<char> = Vec::new();
    let mut j: usize = start;
    while j < all.len()
        invariant
            start <= j <= all.len(),
            digits@ == all@.subrange(start as int, j as int),
        decreases all.len() - j,
    {
        digits.push(all[j]);
        j += 1;
        assert(all@.subrange(start as int, j as int) =~= all@.subrange(start as int, j - 1).push(all@[j - 1]));
    }
    assert(start == 0 ==> digits@ =~= all@);
    if digits.len() == 0 {
        return None;
    }
    let mut acc: usize = 0;
    let mut i: usize = 0;
    assert(digits@.take(0) =~= Seq::<char>::empty());
    while i < digits.len()
        invariant
            i <= digits.len(),
            acc == digits_value(digits@.take(i as int)),
            forall|k: int| 0 <= k < i ==> is_digit(#[trigger] digits@[k]),
        decreases digits.len() - i,
    {
        let c = digits[i];
        if !is_ascii_digit(c) {
            return None;
        }
        let d = digit_number(c);
        proof {
            let next = digits@.take(i + 1);
            assert(next.drop_last() =~= digits@.take(i as int));
            assert(next.last() == c);
            lemma_digits_grow(digits@, i + 1);
        }
        if acc > (usize::MAX - d) / 10 {
            assert(digits_value(digits@.take(i + 1)) > usize::MAX) by (nonlinear_arith)
                requires
                    digits_value(digits@.take(i + 1)) == acc * 10 + d,
                    acc > (usize::MAX - d) / 10,
                    d <= 9,
            ;
            return None;
        }
        assert(acc * 10 + d <= usize::MAX) by (nonlinear_arith)
            requires
                acc <= (usize::MAX - d) / 10,
                d <= 9,
        ;
        acc = acc * 10 + d;
        i += 1;
    }
    assert(digits@.take(digits.len() as int) =~= digits@);
    Some(acc)
}

/// The count that a machine can hold of a count as a `u64`.
pub open spec fn clamped(n: u64) -> usize {
    if n <= usize::MAX {
        n as usize
    } else {
        usize::MAX
    }
}

fn clamp(n: u64) -> (r: usize)
    ensures
        r == clamped(n),
{
    if n <= usize::MAX as u64 {
        n as usize
    } else {
        usize::MAX
    }
}

/// The depth that `-Depth` sets: none where it is not given; the whole part of a
/// number that is not negative; the count that a string spells.
pub open spec fn depth_of(value: Option<ValueView>) -> Result<Option<usize>, RuntimeErrorView> {
    match value {
        None => Ok(None),
        Some(ValueView::Number(bits)) => if less_bits(bits, 0) {
            Err(failure("Depth must be a non-negative number"@))
        } else {
            Ok(Some(clamped(truncated_bits(bits))))
        },
        Some(ValueView::String(s)) => match count_of_text(trimmed(s)) {
            Some(n) => Ok(Some(n)),
            None => Err(failure("Depth must be an integer, got: "@ + s)),
        },
        Some(other) => Err(failure("Depth must be a number, got: "@ + display_text(other))),
    }
}

/// The view of a result with an optional count.
pub open spec fn count_view(r: Result<Option<usize>, RuntimeError>) -> Result<Option<usize>, RuntimeErrorView> {
    match r {
        Ok(n) => Ok(n),
        Err(e) => Err(e.deep_view()),
    }
}

/// Reads `-Depth`.
pub fn parse_optional_depth(value: Option<&Value>) -> (r: Result<Option<usize>, RuntimeError>)
    ensures
        count_view(r) == depth_of(value.deep_view()),
{
    match value {
        None => Ok(None),
        Some(v) => match v {
            Value::Number(n) => {
                if n.less_than(Number::from_bits(0)) {
                    let mut text: Vec<char> = Vec::new();
                    push_text(&mut text, "Depth must be a non-negative number");
                    Err(fail(text))
                } else {
                    Ok(Some(clamp(n.truncated())))
                }
            },
            Value::String(s) => match parse_count(trim(s.as_str()).as_str()) {
                Some(n) => Ok(Some(n)),
                None => Err(fail_with("Depth must be an integer, got: ", &chars_of(s.as_str()))),
            },
            other => Err(fail_with("Depth must be a number, got: ", &display_chars(other))),
        },
    }
}

/// Whether a listing goes down into an entry: it recurses, the depth allows one
/// more step, and the entry is a directory that is no link.
pub open spec fn descends(recurse: bool, max_depth: Option<usize>, depth: usize, is_link: bool, is_dir: bool) -> bool {
    recurse && (match max_depth {
        Some(d) => depth < d,
        None => true,
    }) && !is_link && is_dir
}

/// Whether a listing goes down into an entry.
pub fn should_descend(recurse: bool, max_depth: Option<usize>, depth: usize, is_link: bool, is_dir: bool) -> (r: bool)
    ensures
        r == descends(recurse, max_depth, depth, is_link, is_dir),
{
    let within = match max_depth {
        Some(d) => depth < d,
        None => true,
    };
    recurse && within && !is_link && is_dir
}

/// Whether a number is a count: finite, not negative, and without a fraction.
pub open spec fn is_count(bits: u64) -> bool {
    is_finite_bits(bits) && !less_bits(bits, 0) && (crate::number::magnitude_of(bits) >> 52 >= 1075 || whole_of(bits) is Some)
}

/// The count that the parameter `name` sets: none where it is not given; a number,
/// or the number that a string denotes, where it is a count that the machine holds.
pub open spec fn count_parameter(context: CmdletContext, name: Seq<char>) -> Result<Option<usize>, RuntimeErrorView> {
    match parameter(context, name) {
        None => Ok(None),
        Some(value) => {
            let number = match value {
                ValueView::Number(bits) => Some(bits),
                ValueView::String(s) => text_bits(trimmed(s)),
                _ => None,
            };
            match number {
                None => Err(failure(name + " must be a non-negative integer, got: "@ + display_text(value))),
                Some(bits) => if !is_count(bits) {
                    Err(failure(name + " must be a non-negative integer, got: "@ + number_text(bits)))
                } else if crate::number::magnitude_of(bits) >> 52 >= 1087 || truncated_bits(bits) > usize::MAX {
                    Err(failure(name + " is too large: "@ + number_text(bits)))
                } else {
                    Ok(Some(truncated_bits(bits) as usize))
                },
            }
        },
    }
}

/// Reads a parameter that sets a count.
pub fn parse_count_param(context: &CmdletContext, name: &str) -> (r: Result<Option<usize>, RuntimeError>)
    ensures
        count_view(r) == count_parameter(*context, name@),
{
    let value = match get_parameter_ci(context, name) {
        None => {
            return Ok(None);
        },
        Some(value) => value,
    };
    let number = match value {
        Value::Number(n) => Some(*n),
        Value::String(s) => Number::parse(trim(s.as_str()).as_str()),
        _ => None,
    };
    let mut message: Vec<char> = Vec::new();
    push_text(&mut message, name);
    match number {
        None => {
            push_text(&mut message, " must be a non-negative integer, got: ");
            let shown = display_chars(value);
            push_chars(&mut message, &shown);
            assert(message@ =~= name@ + " must be a non-negative integer, got: "@ + display_text(value.deep_view()));
            Err(fail(message))
        },
        Some(n) => {
            let exponent = (n.to_bits() & crate::number::MAGNITUDE_MASK) >> 52;
            let whole = exponent >= 1075 || n.whole().is_some();
            if !(n.is_finite() && !n.less_than(Number::from_bits(0)) && whole) {
                push_text(&mut message, " must be a non-negative integer, got: ");
                let shown = n.display_chars();
                push_chars(&mut message, &shown);
                assert(message@ =~= name@ + " must be a non-negative integer, got: "@ + number_text(n@));
                Err(fail(message))
            } else if exponent >= 1087 || n.truncated() > usize::MAX as u64 {
                push_text(&mut message, " is too large: ");
                let shown = n.display_chars();
                push_chars(&mut message, &shown);
                assert(message@ =~= name@ + " is too large: "@ + number_text(n@));
                Err(fail(message))
            } else {
                Ok(Some(n.truncated() as usize))
            }
        },
    }
}

// ---------------------------------------------------------------------------
// Listings
// ---------------------------------------------------------------------------

/// The character for one permission: `c` where the bit of `mask` is set, else `-`.
pub open spec fn bit_char(mode: u32, mask: u32, c: char) -> char {
    if mode & mask != 0 {
        c
    } else {
        '-'
    }
}

/// The mode text of an entry from its permission bits: `d` or `-`, then `rwx` for
/// the owner, the group and the others, with `-` for what is not allowed.
pub open spec fn mode_text(is_dir: bool, mode: u32) -> Seq<char> {
    seq![
        if is_dir {
            'd'
        } else {
            '-'
        },
        bit_char(mode, 0o400, 'r'),
        bit_char(mode, 0o200, 'w'),
        bit_char(mode, 0o100, 'x'),
        bit_char(mode, 0o040, 'r'),
        bit_char(mode, 0o020, 'w'),
        bit_char(mode, 0o010, 'x'),
        bit_char(mode, 0o004, 'r'),
        bit_char(mode, 0o002, 'w'),
        bit_char(mode, 0o001, 'x'),
    ]
}

fn bit(mode: u32, mask: u32, c: char) -> (r: char)
    ensures
        r == bit_char(mode, mask, c),
{
    if mode & mask != 0 {
        c
    } else {
        '-'
    }
}

/// The mode text of an entry from its permission bits.
pub fn build_mode_string(is_dir: bool, mode: u32) -> (r: String)
    ensures
        r@ == mode_text(is_dir, mode),
{
    let mut out: Vec<char> = Vec::new();
    out.push(if is_dir {
        'd'
    } else {
        '-'
    });
    out.push(bit(mode, 0o400, 'r'));
    out.push(bit(mode, 0o200, 'w'));
    out.push(bit(mode, 0o100, 'x'));
    out.push(bit(mode, 0o040, 'r'));
    out.push(bit(mode, 0o020, 'w'));
    out.push(bit(mode, 0o010, 'x'));
    out.push(bit(mode, 0o004, 'r'));
    out.push(bit(mode, 0o002, 'w'));
    out.push(bit(mode, 0o001, 'x'));
    assert(out@ =~= mode_text(is_dir, mode));
    string_from(&out)
}

/// The object of an entry of a listing.
pub open spec fn file_object(name: Seq<char>, length: u64, last_write_time: u64, mode: Seq<char>, is_dir: bool) -> ValueView {
    ValueView::Object(
        seq![
            PropertyView { name: "Name"@, value: ValueView::String(name) },
            PropertyView { name: "Length"@, value: ValueView::Number(length) },
            PropertyView { name: "LastWriteTime"@, value: ValueView::Number(last_write_time) },
            PropertyView { name: "Mode"@, value: ValueView::String(mode) },
            PropertyView { name: "Directory"@, value: ValueView::Boolean(is_dir) },
        ],
    )
}

/// The object of an entry of a listing.
pub fn build_file_object(name: String, length: Number, last_write_time: Number, mode: String, is_dir: bool) -> (r: Value)
    ensures
        r.deep_view() == file_object(name@, length@, last_write_time@, mode@, is_dir),
{
    let mut properties: Vec<Property> = Vec::new();
    properties.push(Property { name: "Name".to_owned(), value: Value::String(name) });
    properties.push(Property { name: "Length".to_owned(), value: Value::Number(length) });
    properties.push(Property { name: "LastWriteTime".to_owned(), value: Value::Number(last_write_time) });
    properties.push(Property { name: "Mode".to_owned(), value: Value::String(mode) });
    properties.push(Property { name: "Directory".to_owned(), value: Value::Boolean(is_dir) });
    let r = Value::Object(properties);
    proof {
        lemma_value_views(r);
        assert(r.deep_view()->Object_0 =~= file_object(name@, length@, last_write_time@, mode@, is_dir)->Object_0);
    }
    r
}

/// The object of an item that was made.
pub open spec fn item_object(full_name: Seq<char>, name: Seq<char>, item_type: Seq<char>, is_dir: bool) -> ValueView {
    ValueView::Object(
        seq![
            PropertyView { name: "FullName"@, value: ValueView::String(full_name) },
            PropertyView { name: "Name"@, value: ValueView::String(name) },
            PropertyView { name: "ItemType"@, value: ValueView::String(item_type) },
            PropertyView { name: "Directory"@, value: ValueView::Boolean(is_dir) },
        ],
    )
}

/// The object of an item that was made.
pub fn build_item_object(full_name: String, name: String, item_type: &str, is_dir: bool) -> (r: Value)
    ensures
        r.deep_view() == item_object(full_name@, name@, item_type@, is_dir),
{
    let mut properties: Vec<Property> = Vec::new();
    properties.push(Property { name: "FullName".to_owned(), value: Value::String(full_name) });
    properties.push(Property { name: "Name".to_owned(), value: Value::String(name) });
    properties.push(Property { name: "ItemType".to_owned(), value: Value::String(item_type.to_owned()) });
    properties.push(Property { name: "Directory".to_owned(), value: Value::Boolean(is_dir) });
    let r = Value::Object(properties);
    proof {
        lemma_value_views(r);
        assert(r.deep_view()->Object_0 =~= item_object(full_name@, name@, item_type@, is_dir)->Object_0);
    }
    r
}

/// What is to be made.
#[derive(Clone, Copy, Debug, PartialEq, Eq, Structural)]
pub enum ItemKind {
    File,
    Directory,
}

/// The type that a context asks for as it is written: that of `-Type`, of
/// `-ItemType` or of the second positional argument.
pub open spec fn item_type_text(context: CmdletContext) -> Option<Seq<char>> {
    let value = match parameter(context, "Type"@) {
        Some(v) => Some(v),
        None => match parameter(context, "ItemType"@) {
            Some(v) => Some(v),
            None => if context.arguments.len() > 1 {
                Some(context.arguments.deep_view()[1])
            } else {
                None
            },
        },
    };
    match value {
        None => None,
        Some(ValueView::String(s)) => Some(trimmed(s)),
        Some(other) => Some(display_text(other)),
    }
}

/// The kind of item that a context asks for, or the error of a type that is
/// missing or not known.
pub open spec fn item_kind(context: CmdletContext) -> Result<ItemKind, RuntimeErrorView> {
    match item_type_text(context) {
        None => Err(failure("New-Item requires -Type (File or Directory)"@)),
        Some(text) => {
            let word = lowercase(trimmed(text));
            if word == "directory"@ || word == "dir"@ || word == "folder"@ {
                Ok(ItemKind::Directory)
            } else if word == "file"@ {
                Ok(ItemKind::File)
            } else {
                Err(failure("Unsupported -Type for New-Item: "@ + word))
            }
        },
    }
}

/// The kind of item that a context asks for.
pub fn parse_item_type(context: &CmdletContext) -> (r: Result<ItemKind, RuntimeError>)
    ensures
        match item_kind(*context) {
            Ok(kind) => r == Ok::<ItemKind, RuntimeError>(kind),
            Err(e) => r matches Err(error) && error.deep_view() == e,
        },
{
    let value = match get_parameter_ci(context, "Type") {
        Some(v) => Some(v),
        None => match get_parameter_ci(context, "ItemType") {
            Some(v) => Some(v),
            None => context.get_argument(1),
        },
    };
    let text = match value {
        None => {
            let mut message: Vec<char> = Vec::new();
            push_text(&mut message, "New-Item requires -Type (File or Directory)");
            return Err(fail(message));
        },
        Some(Value::String(s)) => trim(s.as_str()),
        Some(other) => string_from(&display_chars(other)),
    };
    let word = to_lowercase(trim(text.as_str()).as_str());
    let w = word.as_str();
    if same_text(w, "directory") || same_text(w, "dir") || same_text(w, "folder") {
        Ok(ItemKind::Directory)
    } else if same_text(w, "file") {
        Ok(ItemKind::File)
    } else {
        Err(fail_with("Unsupported -Type for New-Item: ", &chars_of(w)))
    }
}

// ---------------------------------------------------------------------------
// Reading text
// ---------------------------------------------------------------------------

/// How the bytes of a file stand for text.
#[derive(Clone, Copy, Debug, PartialEq, Eq, Structural)]
pub enum TextEncoding {
    Utf8,
    Ascii,
    Utf16Le,
    Utf16Be,
}

/// The encoding that `-Encoding` names: none where it is not given or empty.
pub open spec fn encoding_of(value: Option<ValueView>) -> Result<Option<TextEncoding>, RuntimeErrorView> {
    match value {
        None => Ok(None),
        Some(ValueView::String(s)) => {
            let word = lowercase(trimmed(s));
            if word == "utf8"@ || word == "utf-8"@ || word == "utf8bom"@ {
                Ok(Some(TextEncoding::Utf8))
            } else if word == "ascii"@ || word == "us-ascii"@ {
                Ok(Some(TextEncoding::Ascii))
            } else if word == "unicode"@ || word == "utf16"@ || word == "utf-16"@ || word == "utf-16le"@ {
                Ok(Some(TextEncoding::Utf16Le))
            } else if word == "bigendianunicode"@ || word == "utf-16be"@ {
                Ok(Some(TextEncoding::Utf16Be))
            } else if word == "utf32"@ || word == "utf-32"@ || word == "utf-32le"@ || word == "utf-32be"@ {
                Err(failure("Unsupported encoding: UTF-32"@))
            } else if word.len() == 0 {
                Ok(None)
            } else {
                Err(failure("Unsupported encoding: "@ + word))
            }
        },
        Some(other) => Err(failure("Encoding must be a string, got: "@ + display_text(other))),
    }
}

/// Reads `-Encoding`.
pub fn parse_encoding(value: Option<&Value>) -> (r: Result<Option<TextEncoding>, RuntimeError>)
    ensures
        match encoding_of(value.deep_view()) {
            Ok(encoding) => r == Ok::<Option<TextEncoding>, RuntimeError>(encoding),
            Err(e) => r matches Err(error) && error.deep_view() == e,
        },
{
    match value {
        None => Ok(None),
        Some(v) => match v {
            Value::String(s) => {
                let word = to_lowercase(trim(s.as_str()).as_str());
                let w = word.as_str();
                let chars = chars_of(w);
                if same_text(w, "utf8") || same_text(w, "utf-8") || same_text(w, "utf8bom") {
                    Ok(Some(TextEncoding::Utf8))
                } else if same_text(w, "ascii") || same_text(w, "us-ascii") {
                    Ok(Some(TextEncoding::Ascii))
                } else if same_text(w, "unicode") || same_text(w, "utf16") || same_text(w, "utf-16") || same_text(
                    w,
                    "utf-16le",
                ) {
                    Ok(Some(TextEncoding::Utf16Le))
                } else if same_text(w, "bigendianunicode") || same_text(w, "utf-16be") {
                    Ok(Some(TextEncoding::Utf16Be))
                } else if same_text(w, "utf32") || same_text(w, "utf-32") || same_text(w, "utf-32le") || same_text(
                    w,
                    "utf-32be",
                ) {
                    let mut message: Vec<char> = Vec::new();
                    push_text(&mut message, "Unsupported encoding: UTF-32");
                    Err(fail(message))
                } else if chars.len() == 0 {
                    Ok(None)
                } else {
                    Err(fail_with("Unsupported encoding: ", &chars))
                }
            },
            other => Err(fail_with("Encoding must be a string, got: ", &display_chars(other))),
        },
    }
}

/// The text that bytes stand for in an encoding, as `encoding_rs_io` decodes them:
/// with an encoding, in that encoding; without one, in the encoding that a byte
/// order mark at the start names, or else as UTF-8 that is taken as it is. `None`
/// where what comes out is no text.
pub uninterp spec fn decoded_text(bytes: Seq<u8>, encoding: Option<TextEncoding>) -> Option<Seq<char>>;

/// Decodes bytes with a `DecodeReaderBytes` of `encoding_rs_io`, built with the
/// given encoding of `encoding_rs` and with byte order mark sniffing, and read to
/// its end; the result is the named text of the bytes.
#[verifier::external_body]
fn decode_bytes(bytes: &Vec<u8>, encoding: Option<TextEncoding>) -> (r: Option<String>)
    ensures
        r.deep_view() == decoded_text(bytes@, encoding),
{
    let chosen = match encoding {
        None => None,
        Some(TextEncoding::Utf8) => Some(encoding_rs::UTF_8),
        Some(TextEncoding::Ascii) => encoding_rs::Encoding::for_label(b"us-ascii"),
        Some(TextEncoding::Utf16Le) => Some(encoding_rs::UTF_16LE),
        Some(TextEncoding::Utf16Be) => Some(encoding_rs::UTF_16BE),
    };
    let mut text = String::new();
    let mut reader = encoding_rs_io::DecodeReaderBytesBuilder::new().bom_sniffing(true).encoding(chosen).build(
        bytes.as_slice(),
    );
    match std::io::Read::read_to_string(&mut reader, &mut text) {
        Ok(_) => Some(text),
        Err(_) => None,
    }
}

/// A line without the carriage return at its end.
pub open spec fn without_return(line: Seq<char>) -> Seq<char> {
    if line.len() > 0 && line.last() == '\r' {
        line.drop_last()
    } else {
        line
    }
}

/// The lines of a text from index `i` on, behind those of `acc`: what stands
/// between the line feeds, each without a carriage return at its end. A line feed at
/// the end of the text starts no line.
pub open spec fn lines_from(s: Seq<char>, i: int, acc: Seq<Seq<char>>) -> Seq<Seq<char>>
    decreases s.len() - i,
{
    if !(0 <= i < s.len()) {
        acc
    } else {
        let end = line_end(s, i);
        if i <= end < s.len() {
            lines_from(s, end + 1, acc.push(without_return(s.subrange(i, end))))
        } else {
            acc.push(without_return(s.subrange(i, s.len() as int)))
        }
    }
}

/// The lines of a text.
pub fn split_lines(text: &str) -> (r: Vec<String>)
    ensures
        r.deep_view() == lines_from(text@, 0, Seq::empty()),
{
    let s = chars_of(text);
    let mut out: Vec<String> = Vec::new();
    let mut i: usize = 0;
    assert(out.deep_view() =~= Seq::<Seq<char>>::empty());
    while i < s.len()
        invariant
            i <= s.len(),
            s@ == text@,
            lines_from(s@, i as int, out.deep_view()) == lines_from(s@, 0, Seq::empty()),
        decreases s.len() - i,
    {
        let mut end: usize = i;
        while end < s.len() && s[end] != '\n'
            invariant
                i <= end <= s.len(),
                line_end(s@, end as int) == line_end(s@, i as int),
            decreases s.len() - end,
        {
            end += 1;
        }
        let stop = if end > i && s[end - 1] == '\r' {
            end - 1
        } else {
            end
        };
        let line = string_of(&s, i, stop);
        proof {
            let whole = s@.subrange(i as int, end as int);
            if end > i && s@[end - 1] == '\r' {
                assert(whole.last() == '\r');
                assert(whole.drop_last() =~= s@.subrange(i as int, stop as int));
            }
            assert(line@ == without_return(whole));
        }
        let ghost before = out;
        out.push(line);
        proof {
            lemma_deep_view_push(before, out, line);
        }
        if end < s.len() {
            i = end + 1;
        } else {
            i = end;
        }
    }
    out
}

/// The strings of the lines from index `from` up to index `n`.
pub open spec fn line_values(lines: Seq<Seq<char>>, from: int, n: int) -> Seq<ValueView>
    decreases n - from,
{
    if n <= from || from < 0 || n > lines.len() {
        Seq::empty()
    } else {
        line_values(lines, from, n - 1).push(ValueView::String(lines[n - 1]))
    }
}

/// The lines that are given: the first `total_count` or the last `tail` of them, or
/// all of them; both limits together are an error.
pub open spec fn chosen_lines(lines: Seq<Seq<char>>, total_count: Option<usize>, tail: Option<usize>) -> Result<
    Seq<ValueView>,
    RuntimeErrorView,
> {
    if total_count is Some && tail is Some {
        Err(failure("Get-Content does not support using -TotalCount and -Tail together"@))
    } else {
        match tail {
            Some(n) => if n < lines.len() {
                Ok(line_values(lines, lines.len() - n, lines.len() as int))
            } else {
                Ok(line_values(lines, 0, lines.len() as int))
            },
            None => match total_count {
                Some(n) => if n < lines.len() {
                    Ok(line_values(lines, 0, n as int))
                } else {
                    Ok(line_values(lines, 0, lines.len() as int))
                },
                None => Ok(line_values(lines, 0, lines.len() as int)),
            },
        }
    }
}

/// Picks the lines that are given.
pub fn select_lines(lines: &Vec<String>, total_count: Option<usize>, tail: Option<usize>) -> (r: Result<
    Vec<Value>,
    RuntimeError,
>)
    ensures
        match chosen_lines(lines.deep_view(), total_count, tail) {
            Ok(values) => r matches Ok(out) && out.deep_view() == values,
            Err(e) => r matches Err(error) && error.deep_view() == e,
        },
{
    if total_count.is_some() && tail.is_some() {
        let mut message: Vec<char> = Vec::new();
        push_text(&mut message, "Get-Content does not support using -TotalCount and -Tail together");
        return Err(fail(message));
    }
    let count = lines.len();
    let (from, to) = match tail {
        Some(n) => if n < count {
            (count - n, count)
        } else {
            (0, count)
        },
        None => match total_count {
            Some(n) => if n < count {
                (0, n)
            } else {
                (0, count)
            },
            None => (0, count),
        },
    };
    let mut out: Vec<Value> = Vec::new();
    let mut i: usize = from;
    assert(out.deep_view() =~= line_values(lines.deep_view(), from as int, from as int));
    while i < to
        invariant
            from <= i <= to <= lines.len(),
            out.deep_view() == line_values(lines.deep_view(), from as int, i as int),
        decreases to - i,
    {
        let value = Value::String(lines[i].clone());
        let ghost before = out;
        out.push(value);
        proof {
            lemma_deep_view_push(before, out, value);
        }
        i += 1;
    }
    Ok(out)
}

// ---------------------------------------------------------------------------
// Writing text
// ---------------------------------------------------------------------------

/// The lines that a value is written as: the texts of the items of an array, or the
/// text of any other value.
pub open spec fn value_lines(value: ValueView) -> Seq<Seq<char>> {
    match value {
        ValueView::Array(items) => item_texts(items, items.len() as int),
        other => seq![display_text(other)],
    }
}

/// The lines that the first `n` values are written as.
pub open spec fn all_lines(values: Seq<ValueView>, n: int) -> Seq<Seq<char>>
    decreases n,
{
    if n <= 0 || n > values.len() {
        Seq::empty()
    } else {
        all_lines(values, n - 1) + value_lines(values[n - 1])
    }
}

/// The first `n` lines, each with a line feed behind it.
pub open spec fn line_text(lines: Seq<Seq<char>>, n: int) -> Seq<char>
    decreases n,
{
    if n <= 0 || n > lines.len() {
        Seq::empty()
    } else {
        line_text(lines, n - 1) + lines[n - 1] + "\n"@
    }
}

/// The text that values are written as: their lines, each with a line feed behind it.
pub open spec fn file_text(values: Seq<ValueView>) -> Seq<char> {
    let lines = all_lines(values, values.len() as int);
    line_text(lines, lines.len() as int)
}

/// The lines that a value is written as.
pub fn normalize_value_to_lines(value: &Value) -> (r: Vec<String>)
    ensures
        r.deep_view() == value_lines(value.deep_view()),
{
    proof {
        lemma_value_views(*value);
    }
    let mut out: Vec<String> = Vec::new();
    match value {
        Value::Array(items) => {
            let mut i: usize = 0;
            assert(out.deep_view() =~= item_texts(items.deep_view(), 0));
            while i < items.len()
                invariant
                    i <= items.len(),
                    out.deep_view() == item_texts(items.deep_view(), i as int),
                decreases items.len() - i,
            {
                let line = string_from(&display_chars(&items[i]));
                let ghost before = out;
                out.push(line);
                proof {
                    lemma_deep_view_push(before, out, line);
                }
                i += 1;
            }
        },
        other => {
            let line = string_from(&display_chars(other));
            out.push(line);
            assert(out.deep_view() =~= seq![line@]);
        },
    }
    out
}

/// The text that values are written as.
pub fn values_to_file_string(values: &Vec<Value>) -> (r: String)
    ensures
        r@ == file_text(values.deep_view()),
{
    let mut lines: Vec<String> = Vec::new();
    let mut i: usize = 0;
    assert(lines.deep_view() =~= all_lines(values.deep_view(), 0));
    while i < values.len()
        invariant
            i <= values.len(),
            lines.deep_view() == all_lines(values.deep_view(), i as int),
        decreases values.len() - i,
    {
        let more = normalize_value_to_lines(&values[i]);
        let ghost start = lines.deep_view();
        let mut k: usize = 0;
        assert(more.deep_view().take(0) =~= Seq::<Seq<char>>::empty());
        assert(lines.deep_view() =~= start + more.deep_view().take(0));
        while k < more.len()
            invariant
                k <= more.len(),
                lines.deep_view() == start + more.deep_view().take(k as int),
            decreases more.len() - k,
        {
            let line = more[k].clone();
            let ghost before = lines;
            lines.push(line);
            proof {
                lemma_deep_view_push(before, lines, line);
                assert(more.deep_view().take(k + 1) =~= more.deep_view().take(k as int).push(line@));
                assert(lines.deep_view() =~= start + more.deep_view().take(k + 1));
            }
            k += 1;
        }
        assert(more.deep_view().take(more.len() as int) =~= more.deep_view());
        i += 1;
    }
    let mut out: Vec<char> = Vec::new();
    let mut n: usize = 0;
    assert(out@ =~= line_text(lines.deep_view(), 0));
    while n < lines.len()
        invariant
            n <= lines.len(),
            out@ == line_text(lines.deep_view(), n as int),
        decreases lines.len() - n,
    {
        push_text(&mut out, lines[n].as_str());
        out.push('\n');
        n += 1;
        assert(out@ =~= line_text(lines.deep_view(), n as int)) by {
            reveal_strlit("\n");
            assert("\n"@ =~= seq!['\n']);
        }
    }
    string_from(&out)
}

/// The strings of the first `n` lines.
pub open spec fn strings_of_lines(lines: Seq<Seq<char>>, n: int) -> Seq<ValueView> {
    line_values(lines, 0, n)
}

/// The values that `Set-Content` writes: the lines of `-Value`; else the pipeline
/// input; else the lines of the second positional argument; else an error.
pub open spec fn content_values(context: CmdletContext) -> Result<Seq<ValueView>, RuntimeErrorView> {
    match parameter(context, "Value"@) {
        Some(v) => Ok(strings_of_lines(value_lines(v), value_lines(v).len() as int)),
        None => if context.pipeline_input.len() > 0 {
            Ok(context.pipeline_input.deep_view())
        } else if context.arguments.len() > 1 {
            let v = context.arguments.deep_view()[1];
            Ok(strings_of_lines(value_lines(v), value_lines(v).len() as int))
        } else {
            Err(failure("Set-Content requires a value to write (use -Value or pipeline input)"@))
        },
    }
}

fn lines_as_values(value: &Value) -> (r: Vec<Value>)
    ensures
        r.deep_view() == strings_of_lines(value_lines(value.deep_view()), value_lines(value.deep_view()).len() as int),
{
    let lines = normalize_value_to_lines(value);
    match select_lines(&lines, None, None) {
        Ok(values) => values,
        Err(_) => Vec::new(),
    }
}

/// The values that `Set-Content` writes.
pub fn values_to_write(context: &CmdletContext) -> (r: Result<Vec<Value>, RuntimeError>)
    ensures
        match content_values(*context) {
            Ok(values) => r matches Ok(out) && out.deep_view() == values,
            Err(e) => r matches Err(error) && error.deep_view() == e,
        },
{
    match get_parameter_ci(context, "Value") {
        Some(v) => Ok(lines_as_values(v)),
        None => {
            if context.pipeline_input.len() > 0 {
                Ok(clone_values(&context.pipeline_input))
            } else if context.arguments.len() > 1 {
                Ok(lines_as_values(&context.arguments[1]))
            } else {
                let mut message: Vec<char> = Vec::new();
                push_text(&mut message, "Set-Content requires a value to write (use -Value or pipeline input)");
                Err(fail(message))
            }
        },
    }
}

// ---------------------------------------------------------------------------
// The commands
// ---------------------------------------------------------------------------

/// `Get-ChildItem`: lists the entries of a directory.
pub struct GetChildItemCmdlet;

/// What a listing is asked to do.
pub struct ListingPlan {
    /// The path to list; without one, the current directory.
    pub path: Option<String>,
    pub filters: Vec<String>,
    pub includes: Vec<String>,
    pub excludes: Vec<String>,
    pub recurse: bool,
    pub max_depth: Option<usize>,
}

/// Whether a plan is the one that a context asks for.
pub open spec fn is_listing_plan(plan: ListingPlan, context: CmdletContext) -> bool {
    &&& plan.path.deep_view() == path_of(context)
    &&& plan.filters.deep_view() == pattern_list(parameter(context, "Filter"@))
    &&& plan.includes.deep_view() == pattern_list(parameter(context, "Include"@))
    &&& plan.excludes.deep_view() == pattern_list(parameter(context, "Exclude"@))
    &&& switch_value(parameter(context, "Recurse"@)) == Ok::<bool, RuntimeErrorView>(plan.recurse)
    &&& depth_of(parameter(context, "Depth"@)) == Ok::<Option<usize>, RuntimeErrorView>(plan.max_depth)
}

/// The error that reading the parameters of a listing gives, if it gives one.
pub open spec fn listing_error(context: CmdletContext) -> Option<RuntimeErrorView> {
    match switch_value(parameter(context, "Recurse"@)) {
        Err(e) => Some(e),
        Ok(_) => match depth_of(parameter(context, "Depth"@)) {
            Err(e) => Some(e),
            Ok(_) => None,
        },
    }
}

impl GetChildItemCmdlet {
    /// Reads what a listing is asked to do.
    pub fn plan(context: &CmdletContext) -> (r: Result<ListingPlan, RuntimeError>)
        ensures
            match listing_error(*context) {
                Some(e) => r matches Err(error) && error.deep_view() == e,
                None => r matches Ok(plan) && is_listing_plan(plan, *context),
            },
    {
        let filters = parse_string_patterns(get_parameter_ci(context, "Filter"));
        let includes = parse_string_patterns(get_parameter_ci(context, "Include"));
        let excludes = parse_string_patterns(get_parameter_ci(context, "Exclude"));
        let recurse = match parse_switch(get_parameter_ci(context, "Recurse")) {
            Ok(b) => b,
            Err(e) => {
                return Err(e);
            },
        };
        let max_depth = match parse_optional_depth(get_parameter_ci(context, "Depth")) {
            Ok(d) => d,
            Err(e) => {
                return Err(e);
            },
        };
        Ok(ListingPlan { path: path_argument(context), filters, includes, excludes, recurse, max_depth })
    }

    /// Whether an entry of the given name is listed.
    pub fn lists(plan: &ListingPlan, name: &str) -> (r: bool)
        ensures
            r == name_is_listed(name@, plan.filters.deep_view(), plan.includes.deep_view(), plan.excludes.deep_view()),
    {
        should_output_name(name, &plan.filters, &plan.includes, &plan.excludes)
    }

    /// Whether the listing goes down into an entry that is `depth` steps below the
    /// path that is listed.
    pub fn enters(plan: &ListingPlan, depth: usize, is_link: bool, is_dir: bool) -> (r: bool)
        ensures
            r == descends(plan.recurse, plan.max_depth, depth, is_link, is_dir),
    {
        should_descend(plan.recurse, plan.max_depth, depth, is_link, is_dir)
    }
}

/// `Get-Content`: gives the lines of a file.
pub struct GetContentCmdlet;

/// What a reading is asked to do.
pub struct ReadPlan {
    pub path: String,
    pub encoding: Option<TextEncoding>,
    pub total_count: Option<usize>,
    pub tail: Option<usize>,
}

/// The plan that a context asks for, or the error of its parameters: of the
/// encoding first, then of the counts, then of a missing path, then of both counts
/// together.
pub open spec fn read_plan(context: CmdletContext) -> Result<
    (Seq<char>, Option<TextEncoding>, Option<usize>, Option<usize>),
    RuntimeErrorView,
> {
    match encoding_of(parameter(context, "Encoding"@)) {
        Err(e) => Err(e),
        Ok(encoding) => match count_parameter(context, "TotalCount"@) {
            Err(e) => Err(e),
            Ok(total_count) => match count_parameter(context, "Tail"@) {
                Err(e) => Err(e),
                Ok(tail) => match path_of(context) {
                    None => Err(failure("Get-Content requires a file path"@)),
                    Some(path) => if total_count is Some && tail is Some {
                        Err(failure("Get-Content does not support using -TotalCount and -Tail together"@))
                    } else {
                        Ok((path, encoding, total_count, tail))
                    },
                },
            },
        },
    }
}

/// The lines that a reading gives for the bytes of the file: none where a count is
/// zero; else the chosen lines of the decoded text, or an error where the bytes are
/// no text.
pub open spec fn read_output(
    bytes: Seq<u8>,
    path: Seq<char>,
    encoding: Option<TextEncoding>,
    total_count: Option<usize>,
    tail: Option<usize>,
) -> Result<Seq<ValueView>, RuntimeErrorView> {
    if total_count is Some && tail is Some {
        Err(failure("Get-Content does not support using -TotalCount and -Tail together"@))
    } else if total_count == Some(0usize) || tail == Some(0usize) {
        Ok(Seq::empty())
    } else {
        match decoded_text(bytes, encoding) {
            None => Err(failure("Failed to read file '"@ + path + "': the data is no text"@)),
            Some(text) => chosen_lines(lines_from(text, 0, Seq::empty()), total_count, tail),
        }
    }
}

impl GetContentCmdlet {
    /// Reads what a reading is asked to do.
    pub fn plan(context: &CmdletContext) -> (r: Result<ReadPlan, RuntimeError>)
        ensures
            match read_plan(*context) {
                Ok(plan) => r matches Ok(p) && p.path@ == plan.0 && p.encoding == plan.1 && p.total_count == plan.2
                    && p.tail == plan.3,
                Err(e) => r matches Err(error) && error.deep_view() == e,
            },
    {
        let encoding = match parse_encoding(get_parameter_ci(context, "Encoding")) {
            Ok(e) => e,
            Err(e) => {
                return Err(e);
            },
        };
        let total_count = match parse_count_param(context, "TotalCount") {
            Ok(n) => n,
            Err(e) => {
                return Err(e);
            },
        };
        let tail = match parse_count_param(context, "Tail") {
            Ok(n) => n,
            Err(e) => {
                return Err(e);
            },
        };
        let path = match require_path(context, "Get-Content requires a file path") {
            Ok(p) => p,
            Err(e) => {
                return Err(e);
            },
        };
        if total_count.is_some() && tail.is_some() {
            let mut message: Vec<char> = Vec::new();
            push_text(&mut message, "Get-Content does not support using -TotalCount and -Tail together");
            return Err(fail(message));
        }
        Ok(ReadPlan { path, encoding, total_count, tail })
    }

    /// The lines that a reading gives for the bytes of the file.
    pub fn output(bytes: &Vec<u8>, plan: &ReadPlan) -> (r: Result<Vec<Value>, RuntimeError>)
        ensures
            match read_output(bytes@, plan.path@, plan.encoding, plan.total_count, plan.tail) {
                Ok(values) => r matches Ok(out) && out.deep_view() == values,
                Err(e) => r matches Err(error) && error.deep_view() == e,
            },
    {
        if plan.total_count.is_some() && plan.tail.is_some() {
            let mut message: Vec<char> = Vec::new();
            push_text(&mut message, "Get-Content does not support using -TotalCount and -Tail together");
            return Err(fail(message));
        }
        let none = match plan.total_count {
            Some(n) => n == 0,
            None => false,
        } || match plan.tail {
            Some(n) => n == 0,
            None => false,
        };
        if none {
            let out: Vec<Value> = Vec::new();
            assert(out.deep_view() =~= Seq::<ValueView>::empty());
            return Ok(out);
        }
        match decode_bytes(bytes, plan.encoding) {
            None => {
                let mut message: Vec<char> = Vec::new();
                push_text(&mut message, "Failed to read file '");
                push_text(&mut message, plan.path.as_str());
                push_text(&mut message, "': the data is no text");
                assert(message@ =~= "Failed to read file '"@ + plan.path@ + "': the data is no text"@);
                Err(fail(message))
            },
            Some(text) => {
                let lines = split_lines(text.as_str());
                select_lines(&lines, plan.total_count, plan.tail)
            },
        }
    }
}

/// `Set-Content`: writes values to a file as lines.
pub struct SetContentCmdlet;

/// The path and the text that a context asks to write, or the error of a missing
/// path or of a missing value.
pub open spec fn write_plan(context: CmdletContext) -> Result<(Seq<char>, Seq<char>), RuntimeErrorView> {
    match path_of(context) {
        None => Err(failure("Set-Content requires a file path"@)),
        Some(path) => match content_values(context) {
            Err(e) => Err(e),
            Ok(values) => Ok((path, file_text(values))),
        },
    }
}

impl SetContentCmdlet {
    /// The path and the text to write.
    pub fn plan(context: &CmdletContext) -> (r: Result<(String, String), RuntimeError>)
        ensures
            match write_plan(*context) {
                Ok(plan) => r matches Ok(p) && p.0@ == plan.0 && p.1@ == plan.1,
                Err(e) => r matches Err(error) && error.deep_view() == e,
            },
    {
        let path = match require_path(context, "Set-Content requires a file path") {
            Ok(p) => p,
            Err(e) => {
                return Err(e);
            },
        };
        match values_to_write(context) {
            Err(e) => Err(e),
            Ok(values) => Ok((path, values_to_file_string(&values))),
        }
    }
}

/// `New-Item`: makes a file or a directory.
pub struct NewItemCmdlet;

/// What is to be done to make an item.
#[derive(Clone, Copy, Debug, PartialEq, Eq, Structural)]
pub enum Making {
    /// Make the directory with the directories above it.
    CreateDirectories,
    /// The directory is there: make nothing.
    KeepDirectory,
    /// Make the file, empty.
    CreateFile,
}

/// What is to be done for an item of a kind, where `exists` tells whether the path
/// is there and `parent_missing` whether a file's parent directory is missing. What
/// is there is an error unless it is forced; a missing parent always is.
pub open spec fn making(kind: ItemKind, path: Seq<char>, parent: Seq<char>, exists: bool, parent_missing: bool, force: bool) -> Result<
    Making,
    RuntimeErrorView,
> {
    match kind {
        ItemKind::Directory => if exists {
            if force {
                Ok(Making::KeepDirectory)
            } else {
                Err(failure("Path already exists: "@ + path))
            }
        } else {
            Ok(Making::CreateDirectories)
        },
        ItemKind::File => if parent_missing {
            Err(failure("Parent directory does not exist: "@ + parent))
        } else if exists && !force {
            Err(failure("Path already exists: "@ + path))
        } else {
            Ok(Making::CreateFile)
        },
    }
}

impl NewItemCmdlet {
    /// The path, the kind and the force flag that a context asks for.
    pub fn plan(context: &CmdletContext) -> (r: Result<(String, ItemKind, bool), RuntimeError>)
        ensures
            match path_of(*context) {
                None => r matches Err(e) && e.deep_view() == failure("New-Item requires a path"@),
                Some(path) => match item_kind(*context) {
                    Err(e) => r matches Err(error) && error.deep_view() == e,
                    Ok(kind) => r matches Ok(p) && p.0@ == path && p.1 == kind && p.2 == flag_of(*context, "Force"@),
                },
            },
    {
        let path = match require_path(context, "New-Item requires a path") {
            Ok(p) => p,
            Err(e) => {
                return Err(e);
            },
        };
        let kind = match parse_item_type(context) {
            Ok(k) => k,
            Err(e) => {
                return Err(e);
            },
        };
        Ok((path, kind, parse_flag(context, "Force")))
    }

    /// What is to be done to make the item.
    pub fn decide(kind: ItemKind, path: &str, parent: &str, exists: bool, parent_missing: bool, force: bool) -> (r: Result<
        Making,
        RuntimeError,
    >)
        ensures
            match making(kind, path@, parent@, exists, parent_missing, force) {
                Ok(m) => r == Ok::<Making, RuntimeError>(m),
                Err(e) => r matches Err(error) && error.deep_view() == e,
            },
    {
        match kind {
            ItemKind::Directory => {
                if exists {
                    if force {
                        Ok(Making::KeepDirectory)
                    } else {
                        Err(fail_with("Path already exists: ", &chars_of(path)))
                    }
                } else {
                    Ok(Making::CreateDirectories)
                }
            },
            ItemKind::File => {
                if parent_missing {
                    Err(fail_with("Parent directory does not exist: ", &chars_of(parent)))
                } else if exists && !force {
                    Err(fail_with("Path already exists: ", &chars_of(path)))
                } else {
                    Ok(Making::CreateFile)
                }
            },
        }
    }

    /// The object of the item that was made.
    pub fn output(full_name: String, name: String, kind: ItemKind) -> (r: Value)
        ensures
            r.deep_view() == match kind {
                ItemKind::Directory => item_object(full_name@, name@, "Directory"@, true),
                ItemKind::File => item_object(full_name@, name@, "File"@, false),
            },
    {
        match kind {
            ItemKind::Directory => build_item_object(full_name, name, "Directory", true),
            ItemKind::File => build_item_object(full_name, name, "File", false),
        }
    }
}

/// `Remove-Item`: removes a file or a directory.
pub struct RemoveItemCmdlet;

/// What is to be removed.
#[derive(Clone, Copy, Debug, PartialEq, Eq, Structural)]
pub enum Removal {
    /// A directory with all that is in it.
    DirectoryTree,
    /// A directory, which must be empty.
    Directory,
    File,
}

/// What is removed at a path that is a directory or not, with or without `-Recurse`.
pub open spec fn removal(is_dir: bool, recurse: bool) -> Removal {
    if is_dir {
        if recurse {
            Removal::DirectoryTree
        } else {
            Removal::Directory
        }
    } else {
        Removal::File
    }
}

impl RemoveItemCmdlet {
    /// The path and the recurse flag that a context asks for.
    pub fn plan(context: &CmdletContext) -> (r: Result<(String, bool), RuntimeError>)
        ensures
            match path_of(*context) {
                None => r matches Err(e) && e.deep_view() == failure("Remove-Item requires a path"@),
                Some(path) => r matches Ok(p) && p.0@ == path && p.1 == flag_of(*context, "Recurse"@),
            },
    {
        match require_path(context, "Remove-Item requires a path") {
            Ok(path) => Ok((path, parse_flag(context, "Recurse"))),
            Err(e) => Err(e),
        }
    }

    /// What is to be removed.
    pub fn decide(is_dir: bool, recurse: bool) -> (r: Removal)
        ensures
            r == removal(is_dir, recurse),
    {
        if is_dir {
            if recurse {
                Removal::DirectoryTree
            } else {
                Removal::Directory
            }
        } else {
            Removal::File
        }
    }
}

/// `Test-Path`: tells whether a path is there.
pub struct TestPathCmdlet;

impl TestPathCmdlet {
    /// The path that a context asks about.
    pub fn plan(context: &CmdletContext) -> (r: Result<String, RuntimeError>)
        ensures
            match path_of(*context) {
                None => r matches Err(e) && e.deep_view() == failure("Test-Path requires a path"@),
                Some(path) => r matches Ok(p) && p@ == path,
            },
    {
        require_path(context, "Test-Path requires a path")
    }

    /// What the command gives where the path is there or not.
    pub fn output(exists: bool) -> (r: Vec<Value>)
        ensures
            r.deep_view() == seq![ValueView::Boolean(exists)],
    {
        let mut out: Vec<Value> = Vec::new();
        out.push(Value::Boolean(exists));
        assert(out.deep_view() =~= seq![ValueView::Boolean(exists)]);
        out
    }
}

} // verus!

//! What the commands share: reading their parameters, and facts about the registry.

use vstd::prelude::*;
use crate::ast::Block;
use crate::cmdlet::{has_command, key_index, keys_with, lemma_key_index, lemma_key_index_push, CmdletContext};
use crate::error::{RuntimeError, RuntimeErrorView};
use crate::text::{lemma_deep_view_push, lowercase, push_chars, push_text, same_text, string_from, to_lowercase, trim, trimmed};
use crate::value::{
    clone_value,
    display_chars,
    display_text,
    find_property,
    lemma_value_views,
    lookup,
    property_of,
    Value,
    ValueView,
};

verus! {

/// After a command is registered under a name, it is found under that name.
pub proof fn lemma_keys_with(keys: Seq<Seq<char>>, name: Seq<char>)
    ensures
        has_command(keys_with(keys, name), name),
{
    if !has_command(keys, name) {
        lemma_key_index_push(keys, lowercase(name), 0);
    }
}

/// Registering a command keeps the commands that were there.
pub proof fn lemma_keys_with_keeps(keys: Seq<Seq<char>>, name: Seq<char>, other: Seq<char>)
    requires
        has_command(keys, other),
    ensures
        has_command(keys_with(keys, name), other),
{
    if !has_command(keys, name) {
        lemma_key_index(keys, lowercase(other), 0);
        let i = key_index(keys, lowercase(other), 0)->0;
        let after = keys.push(lowercase(name));
        assert(after[i] == lowercase(other));
        lemma_key_index(after, lowercase(other), 0);
    }
}

/// The named parameter `name`, without regard to case.
pub open spec fn parameter(context: CmdletContext, name: Seq<char>) -> Option<ValueView> {
    lookup(context.parameters.deep_view(), name)
}

/// The named parameter `name` of a context, without regard to case.
pub fn get_parameter_ci<'a>(context: &'a CmdletContext, name: &str) -> (r: Option<&'a Value>)
    ensures
        match parameter(*context, name@) {
            Some(value) => r matches Some(found) && found.deep_view() == value,
            None => r is None,
        },
{
    match find_property(&context.parameters, name) {
        Some(i) => Some(&context.parameters[i].value),
        None => None,
    }
}

/// The script block that a context brings as its first positional argument.
pub open spec fn block_argument(context: CmdletContext) -> Option<Block> {
    if context.arguments.len() > 0 {
        match context.arguments[0] {
            Value::ScriptBlock(block) => Some(block),
            _ => None,
        }
    } else {
        None
    }
}

/// The script block that a context brings as its first positional argument.
pub fn first_block(context: &CmdletContext) -> (r: Option<&Block>)
    ensures
        match block_argument(*context) {
            Some(block) => r == Some(&block),
            None => r is None,
        },
{
    if context.arguments.len() > 0 {
        match &context.arguments[0] {
            Value::ScriptBlock(block) => Some(block),
            _ => None,
        }
    } else {
        None
    }
}

/// The text of a switch value in lower case and without white space at its ends.
pub open spec fn switch_word(s: Seq<char>) -> Seq<char> {
    lowercase(trimmed(s))
}

/// Whether a word says yes.
pub open spec fn is_yes(word: Seq<char>) -> bool {
    word == "true"@ || word == "t"@ || word == "1"@ || word == "yes"@ || word == "y"@
}

/// Whether a word says no.
pub open spec fn is_no(word: Seq<char>) -> bool {
    word == "false"@ || word == "f"@ || word == "0"@ || word == "no"@ || word == "n"@
}

/// The error of a value that is no switch value.
pub open spec fn invalid_switch(v: ValueView) -> RuntimeErrorView {
    RuntimeErrorView::InvalidOperation("Invalid boolean value: "@ + display_text(v))
}

/// What a switch parameter says: off where it is not given; a boolean as it is; a
/// number as whether it is not zero; a string as the yes or no that it spells; any
/// other value is an error.
pub open spec fn switch_value(value: Option<ValueView>) -> Result<bool, RuntimeErrorView> {
    match value {
        None => Ok(false),
        Some(ValueView::Boolean(b)) => Ok(b),
        Some(ValueView::Number(bits)) => Ok(!crate::number::is_zero_bits(bits)),
        Some(ValueView::String(s)) => if is_yes(switch_word(s)) {
            Ok(true)
        } else if is_no(switch_word(s)) {
            Ok(false)
        } else {
            Err(invalid_switch(ValueView::String(s)))
        },
        Some(other) => Err(invalid_switch(other)),
    }
}

/// The view of a result of reading a switch.
pub open spec fn switch_view(r: Result<bool, RuntimeError>) -> Result<bool, RuntimeErrorView> {
    match r {
        Ok(b) => Ok(b),
        Err(e) => Err(e.deep_view()),
    }
}

fn bad_switch(v: &Value) -> (r: RuntimeError)
    ensures
        r.deep_view() == invalid_switch(v.deep_view()),
{
    let mut text: Vec<char> = Vec::new();
    push_text(&mut text, "Invalid boolean value: ");
    let shown = display_chars(v);
    push_chars(&mut text, &shown);
    RuntimeError::InvalidOperation(string_from(&text))
}

/// Reads a switch parameter.
pub fn parse_switch(value: Option<&Value>) -> (r: Result<bool, RuntimeError>)
    ensures
        switch_view(r) == switch_value(value.deep_view()),
{
    match value {
        None => Ok(false),
        Some(v) => match v {
            Value::Boolean(b) => Ok(*b),
            Value::Number(n) => Ok(!n.is_zero()),
            Value::String(s) => {
                let word = to_lowercase(trim(s.as_str()).as_str());
                let w = word.as_str();
                if same_text(w, "true") || same_text(w, "t") || same_text(w, "1") || same_text(w, "yes") || same_text(
                    w,
                    "y",
                ) {
                    Ok(true)
                } else if same_text(w, "false") || same_text(w, "f") || same_text(w, "0") || same_text(w, "no")
                    || same_text(w, "n") {
                    Ok(false)
                } else {
                    Err(bad_switch(v))
                }
            },
            _ => Err(bad_switch(v)),
        },
    }
}

/// The texts of the strings among the first `n` values.
pub open spec fn strings_among(values: Seq<ValueView>, n: int) -> Seq<Seq<char>>
    decreases n,
{
    if n <= 0 || n > values.len() {
        Seq::empty()
    } else {
        match values[n - 1] {
            ValueView::String(s) => strings_among(values, n - 1).push(s),
            _ => strings_among(values, n - 1),
        }
    }
}

/// The property names that a value lists: none where it is not given; a string
/// itself; the strings of an array; the text of any other value.
pub open spec fn property_names(value: Option<ValueView>) -> Seq<Seq<char>> {
    match value {
        None => Seq::empty(),
        Some(ValueView::String(s)) => seq![s],
        Some(ValueView::Array(items)) => strings_among(items, items.len() as int),
        Some(other) => seq![display_text(other)],
    }
}

/// The texts of the strings among `values`.
pub fn strings_of(values: &Vec<Value>) -> (r: Vec<String>)
    ensures
        r.deep_view() == strings_among(values.deep_view(), values.len() as int),
{
    let mut out: Vec<String> = Vec::new();
    let mut i: usize = 0;
    assert(out.deep_view() =~= strings_among(values.deep_view(), 0));
    while i < values.len()
        invariant
            i <= values.len(),
            out.deep_view() == strings_among(values.deep_view(), i as int),
        decreases values.len() - i,
    {
        match &values[i] {
            Value::String(s) => {
                let ghost before = out;
                let copy = s.clone();
                out.push(copy);
                proof {
                    lemma_deep_view_push(before, out, copy);
                }
            },
            _ => {},
        }
        i += 1;
    }
    out
}

/// Reads a list of property names.
pub fn parse_property_list(value: Option<&Value>) -> (r: Vec<String>)
    ensures
        r.deep_view() == property_names(value.deep_view()),
{
    match value {
        None => {
            let out: Vec<String> = Vec::new();
            assert(out.deep_view() =~= Seq::<Seq<char>>::empty());
            out
        },
        Some(v) => {
            proof {
                lemma_value_views(*v);
            }
            match v {
                Value::String(s) => {
                    let mut out: Vec<String> = Vec::new();
                    out.push(s.clone());
                    assert(out.deep_view() =~= seq![s@]);
                    out
                },
                Value::Array(items) => strings_of(items),
                other => {
                    let mut out: Vec<String> = Vec::new();
                    let text = string_from(&display_chars(other));
                    out.push(text);
                    assert(out.deep_view() =~= seq![text@]);
                    out
                },
            }
        },
    }
}

/// The first `n` values with arrays replaced by their items.
pub open spec fn flattened(values: Seq<ValueView>, n: int) -> Seq<ValueView>
    decreases n,
{
    if n <= 0 || n > values.len() {
        Seq::empty()
    } else {
        match values[n - 1] {
            ValueView::Array(items) => flattened(values, n - 1) + items,
            other => flattened(values, n - 1).push(other),
        }
    }
}

/// The values with arrays replaced by their items.
pub fn unroll_to_items(values: &Vec<Value>) -> (r: Vec<Value>)
    ensures
        r.deep_view() == flattened(values.deep_view(), values.len() as int),
{
    let mut out: Vec<Value> = Vec::new();
    let mut i: usize = 0;
    assert(out.deep_view() =~= flattened(values.deep_view(), 0));
    while i < values.len()
        invariant
            i <= values.len(),
            out.deep_view() == flattened(values.deep_view(), i as int),
        decreases values.len() - i,
    {
        proof {
            lemma_value_views(values[i as int]);
        }
        match &values[i] {
            Value::Array(items) => {
                let ghost start = out.deep_view();
                let mut k: usize = 0;
                assert(items.deep_view().take(0) =~= Seq::<ValueView>::empty());
                assert(out.deep_view() =~= start + items.deep_view().take(0));
                while k < items.len()
                    invariant
                        k <= items.len(),
                        out.deep_view() == start + items.deep_view().take(k as int),
                    decreases items.len() - k,
                {
                    let copy = clone_value(&items[k]);
                    let ghost before = out;
                    out.push(copy);
                    proof {
                        lemma_deep_view_push(before, out, copy);
                        assert(items.deep_view().take(k + 1) =~= items.deep_view().take(k as int).push(
                            copy.deep_view(),
                        ));
                        assert(out.deep_view() =~= start + items.deep_view().take(k + 1));
                    }
                    k += 1;
                }
                assert(items.deep_view().take(items.len() as int) =~= items.deep_view());
            },
            other => {
                let copy = clone_value(other);
                let ghost before = out;
                out.push(copy);
                proof {
                    lemma_deep_view_push(before, out, copy);
                }
            },
        }
        i += 1;
    }
    out
}

/// The property `name` of a value, or `Null` where it has none.
pub open spec fn property_or_null(v: ValueView, name: Seq<char>) -> ValueView {
    match property_of(v, name) {
        Some(value) => value,
        None => ValueView::Null,
    }
}

/// The property `name` of a value, or `Null` where it has none.
pub fn get_or_null(v: &Value, name: &str) -> (r: Value)
    ensures
        r.deep_view() == property_or_null(v.deep_view(), name@),
{
    match v.get_property(name) {
        Some(value) => value,
        None => Value::Null,
    }
}

} // verus!

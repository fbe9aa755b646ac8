//! Values: what expressions evaluate to, with the rules of truth, of coercion to
//! numbers, of their text and of their properties.

use vstd::prelude::*;
use crate::ast::{
    clone_block,
    clone_parameters,
    Block,
    Parameter,
    ParameterView,
    StatementView,
};
use crate::number::{number_text, text_bits, Number};
use crate::text::{lowercase, push_chars, push_text, same_text, string_from, to_lowercase};

verus! {

/// A value.
#[derive(Debug, PartialEq)]
pub enum Value {
    Null,
    Boolean(bool),
    Number(Number),
    String(String),
    /// Named properties. Names are told apart without regard to case; where two
    /// properties have the same name, the first one counts.
    Object(Vec<Property>),
    Array(Vec<Value>),
    /// A function, bound by its name.
    Function { name: String, parameters: Vec<Parameter>, body: Block },
    /// A block to be invoked with `$_` bound to an item.
    ScriptBlock(Block),
}

/// A named value: a property of an object, or a variable of a scope.
#[derive(Debug, PartialEq)]
pub struct Property {
    pub name: String,
    pub value: Value,
}

/// The view of a value.
pub enum ValueView {
    Null,
    Boolean(bool),
    Number(u64),
    String(Seq<char>),
    Object(Seq<PropertyView>),
    Array(Seq<ValueView>),
    Function { name: Seq<char>, parameters: Seq<ParameterView>, body: Seq<StatementView> },
    ScriptBlock(Seq<StatementView>),
}

/// The view of a named value.
pub struct PropertyView {
    pub name: Seq<char>,
    pub value: ValueView,
}

/// The view of a value.
pub open spec fn value_view(v: Value) -> ValueView
    decreases v,
{
    match v {
        Value::Null => ValueView::Null,
        Value::Boolean(b) => ValueView::Boolean(b),
        Value::Number(n) => ValueView::Number(n@),
        Value::String(s) => ValueView::String(s@),
        Value::Object(properties) => ValueView::Object(
            Seq::new(
                properties.len() as nat,
                |i: int|
                    if 0 <= i < properties.len() {
                        PropertyView { name: properties[i].name@, value: value_view(properties[i].value) }
                    } else {
                        arbitrary()
                    },
            ),
        ),
        Value::Array(items) => ValueView::Array(
            Seq::new(
                items.len() as nat,
                |i: int|
                    if 0 <= i < items.len() {
                        value_view(items[i])
                    } else {
                        arbitrary()
                    },
            ),
        ),
        Value::Function { name, parameters, body } => ValueView::Function {
            name: name@,
            parameters: parameters.deep_view(),
            body: body.deep_view(),
        },
        Value::ScriptBlock(body) => ValueView::ScriptBlock(body.deep_view()),
    }
}

impl DeepView for Value {
    type V = ValueView;

    open spec fn deep_view(&self) -> ValueView {
        value_view(*self)
    }
}

impl DeepView for Property {
    type V = PropertyView;

    open spec fn deep_view(&self) -> PropertyView {
        PropertyView { name: self.name@, value: value_view(self.value) }
    }
}

/// The views of the lists inside a value are the lists of the views.
pub proof fn lemma_value_views(v: Value)
    ensures
        v matches Value::Object(properties) ==> v.deep_view() == ValueView::Object(properties.deep_view()),
        v matches Value::Array(items) ==> v.deep_view() == ValueView::Array(items.deep_view()),
{
    match v {
        Value::Object(properties) => {
            assert(v.deep_view()->Object_0 =~= properties.deep_view());
        },
        Value::Array(items) => {
            assert(v.deep_view()->Array_0 =~= items.deep_view());
        },
        _ => {},
    }
}

// ---------------------------------------------------------------------------
// Copies
// ---------------------------------------------------------------------------

/// A copy of a value.
#[verifier::loop_isolation(false)]
pub fn clone_value(v: &Value) -> (r: Value)
    ensures
        r.deep_view() == v.deep_view(),
    decreases v,
{
    match v {
        Value::Null => Value::Null,
        Value::Boolean(b) => Value::Boolean(*b),
        Value::Number(n) => Value::Number(*n),
        Value::String(s) => Value::String(s.clone()),
        Value::Object(properties) => {
            let mut out: Vec<Property> = Vec::new();
            let mut i: usize = 0;
            while i < properties.len()
                invariant
                    i <= properties.len(),
                    out.len() == i,
                    forall|j: int| 0 <= j < i ==> (#[trigger] out[j]).deep_view() == properties[j].deep_view(),
                decreases properties.len() - i,
            {
                out.push(Property { name: properties[i].name.clone(), value: clone_value(&properties[i].value) });
                i += 1;
            }
            let r = Value::Object(out);
            proof {
                crate::text::lemma_deep_view_eq(out, *properties);
                lemma_value_views(r);
                lemma_value_views(*v);
            }
            r
        },
        Value::Array(items) => {
            let mut out: Vec<Value> = Vec::new();
            let mut i: usize = 0;
            while i < items.len()
                invariant
                    i <= items.len(),
                    out.len() == i,
                    forall|j: int| 0 <= j < i ==> (#[trigger] out[j]).deep_view() == items[j].deep_view(),
                decreases items.len() - i,
            {
                out.push(clone_value(&items[i]));
                i += 1;
            }
            let r = Value::Array(out);
            proof {
                crate::text::lemma_deep_view_eq(out, *items);
                lemma_value_views(r);
                lemma_value_views(*v);
            }
            r
        },
        Value::Function { name, parameters, body } => Value::Function {
            name: name.clone(),
            parameters: clone_parameters(parameters),
            body: clone_block(body),
        },
        Value::ScriptBlock(body) => Value::ScriptBlock(clone_block(body)),
    }
}

/// A copy of a list of values.
pub fn clone_values(items: &Vec<Value>) -> (r: Vec<Value>)
    ensures
        r.deep_view() == items.deep_view(),
{
    let mut out: Vec<Value> = Vec::new();
    let mut i: usize = 0;
    while i < items.len()
        invariant
            i <= items.len(),
            out.len() == i,
            forall|j: int| 0 <= j < i ==> (#[trigger] out[j]).deep_view() == items[j].deep_view(),
        decreases items.len() - i,
    {
        out.push(clone_value(&items[i]));
        i += 1;
    }
    proof {
        crate::text::lemma_deep_view_eq(out, *items);
    }
    out
}

impl Clone for Value {
    fn clone(&self) -> (r: Value)
        ensures
            r.deep_view() == self.deep_view(),
    {
        clone_value(self)
    }
}

impl Clone for Property {
    fn clone(&self) -> (r: Property)
        ensures
            r.deep_view() == self.deep_view(),
    {
        Property { name: self.name.clone(), value: clone_value(&self.value) }
    }
}

// ---------------------------------------------------------------------------
// Names without regard to case
// ---------------------------------------------------------------------------

/// Whether two names are the same without regard to case.
pub open spec fn same_name(a: Seq<char>, b: Seq<char>) -> bool {
    lowercase(a) == lowercase(b)
}

/// The index of the first property from `from` on whose name is `name` without
/// regard to case.
pub open spec fn property_index(properties: Seq<PropertyView>, name: Seq<char>, from: int) -> Option<int>
    decreases properties.len() - from,
{
    if !(0 <= from < properties.len()) {
        None
    } else if same_name(properties[from].name, name) {
        Some(from)
    } else {
        property_index(properties, name, from + 1)
    }
}

/// The value of the property `name`, if there is one.
pub open spec fn lookup(properties: Seq<PropertyView>, name: Seq<char>) -> Option<ValueView> {
    match property_index(properties, name, 0) {
        Some(i) => Some(properties[i].value),
        None => None,
    }
}

/// The properties with `name` set to `value`: a property of that name keeps its own
/// spelling and gets the value; without one, a new property is added at the end.
pub open spec fn updated(properties: Seq<PropertyView>, name: Seq<char>, value: ValueView) -> Seq<PropertyView> {
    match property_index(properties, name, 0) {
        Some(i) => properties.update(i, PropertyView { name: properties[i].name, value }),
        None => properties.push(PropertyView { name, value }),
    }
}

/// What the index of a property says: it is the first property of that name.
pub proof fn lemma_property_index(properties: Seq<PropertyView>, name: Seq<char>, from: int)
    requires
        0 <= from,
    ensures
        match property_index(properties, name, from) {
            Some(i) => from <= i < properties.len() && same_name(properties[i].name, name) && forall|j: int|
                from <= j < i ==> !same_name(#[trigger] properties[j].name, name),
            None => forall|j: int| from <= j < properties.len() ==> !same_name(#[trigger] properties[j].name, name),
        },
    decreases properties.len() - from,
{
    if from < properties.len() && !same_name(properties[from].name, name) {
        lemma_property_index(properties, name, from + 1);
    }
}

/// A name that was set is found, whatever its case, with the value it was set to.
pub proof fn lemma_lookup_updated(properties: Seq<PropertyView>, name: Seq<char>, value: ValueView, other: Seq<char>)
    ensures
        same_name(other, name) ==> lookup(updated(properties, name, value), other) == Some(value),
        !same_name(other, name) ==> lookup(updated(properties, name, value), other) == lookup(properties, other),
{
    let after = updated(properties, name, value);
    lemma_property_index(properties, name, 0);
    lemma_property_index(properties, other, 0);
    lemma_property_index(after, other, 0);
    match property_index(properties, name, 0) {
        Some(i) => {
            assert forall|j: int| 0 <= j < after.len() implies same_name(#[trigger] after[j].name, other) == same_name(
                properties[j].name,
                other,
            ) by {}
            if same_name(other, name) {
                assert(same_name(after[i].name, other));
            } else {
                match property_index(properties, other, 0) {
                    Some(k) => {
                        assert(same_name(after[k].name, other));
                    },
                    None => {},
                }
            }
        },
        None => {
            let n = properties.len() as int;
            assert(after[n].name == name);
            if same_name(other, name) {
                assert(same_name(after[n].name, other));
                assert forall|j: int| 0 <= j < n implies !same_name(#[trigger] after[j].name, other) by {
                    assert(after[j] == properties[j]);
                }
            } else {
                match property_index(properties, other, 0) {
                    Some(k) => {
                        assert(after[k] == properties[k]);
                        assert forall|j: int| 0 <= j < k implies !same_name(#[trigger] after[j].name, other) by {
                            assert(after[j] == properties[j]);
                        }
                    },
                    None => {
                        assert forall|j: int| 0 <= j < after.len() implies !same_name(
                            #[trigger] after[j].name,
                            other,
                        ) by {
                            if j < n {
                                assert(after[j] == properties[j]);
                            }
                        }
                    },
                }
            }
        },
    }
}

/// The index of the first property whose name is `name` without regard to case.
pub fn find_property(properties: &Vec<Property>, name: &str) -> (r: Option<usize>)
    ensures
        r matches Some(i) ==> i < properties.len() && property_index(properties.deep_view(), name@, 0) == Some(
            i as int,
        ),
        r is None ==> property_index(properties.deep_view(), name@, 0) is None,
{
    let wanted = to_lowercase(name);
    let mut i: usize = 0;
    while i < properties.len()
        invariant
            i <= properties.len(),
            wanted@ == lowercase(name@),
            property_index(properties.deep_view(), name@, i as int) == property_index(
                properties.deep_view(),
                name@,
                0,
            ),
        decreases properties.len() - i,
    {
        let folded = to_lowercase(properties[i].name.as_str());
        if same_text(folded.as_str(), wanted.as_str()) {
            return Some(i);
        }
        i += 1;
    }
    None
}

/// A copy of the value of the property `name`, if there is one.
pub fn get_from(properties: &Vec<Property>, name: &str) -> (r: Option<Value>)
    ensures
        r.deep_view() == lookup(properties.deep_view(), name@),
{
    match find_property(properties, name) {
        Some(i) => Some(clone_value(&properties[i].value)),
        None => None,
    }
}

/// Sets the property `name` to `value`.
pub fn set_in(properties: &mut Vec<Property>, name: &str, value: Value)
    ensures
        final(properties).deep_view() == updated(old(properties).deep_view(), name@, value.deep_view()),
{
    let ghost before = *properties;
    match find_property(properties, name) {
        Some(i) => {
            let kept = properties[i].name.clone();
            let property = Property { name: kept, value };
            properties.set(i, property);
            assert(properties.deep_view() =~= updated(before.deep_view(), name@, value.deep_view()));
        },
        None => {
            let mut text: Vec<char> = Vec::new();
            push_text(&mut text, name);
            let property = Property { name: string_from(&text), value };
            properties.push(property);
            proof {
                crate::text::lemma_deep_view_push(before, *properties, property);
            }
        },
    }
}

// ---------------------------------------------------------------------------
// Truth, numbers, text
// ---------------------------------------------------------------------------

/// Whether a value counts as true: `Null`, the empty string, zero and the empty
/// array do not; everything else does.
pub open spec fn truthy(v: ValueView) -> bool {
    match v {
        ValueView::Null => false,
        ValueView::Boolean(b) => b,
        ValueView::Number(bits) => !crate::number::is_zero_bits(bits),
        ValueView::String(s) => s.len() > 0,
        ValueView::Object(_) => true,
        ValueView::Array(items) => items.len() > 0,
        ValueView::Function { .. } => true,
        ValueView::ScriptBlock(_) => true,
    }
}

/// The bit pattern of the number one.
pub const ONE_BITS: u64 = 0x3ff0_0000_0000_0000u64;

/// The number that a value stands for: a number itself, the number that a string
/// denotes, one and zero for true and false; nothing else is a number.
pub open spec fn number_of(v: ValueView) -> Option<u64> {
    match v {
        ValueView::Number(bits) => Some(bits),
        ValueView::String(s) => text_bits(s),
        ValueView::Boolean(b) => Some(
            if b {
                ONE_BITS
            } else {
                0u64
            },
        ),
        _ => None,
    }
}

/// Whether the text `a` comes before the text `b` in the order of their characters,
/// looking from index `i` on, where they are the same before `i`.
pub open spec fn text_before(a: Seq<char>, b: Seq<char>, i: int) -> bool
    decreases a.len() - i,
{
    if i >= b.len() {
        false
    } else if i >= a.len() {
        true
    } else if i < 0 {
        false
    } else if a[i] != b[i] {
        a[i] < b[i]
    } else {
        text_before(a, b, i + 1)
    }
}

/// The sorted list `sorted` with `text` put in before the first item that comes
/// after it.
pub open spec fn inserted(sorted: Seq<Seq<char>>, text: Seq<char>, from: int) -> Seq<Seq<char>>
    decreases sorted.len() - from,
{
    if 0 <= from < sorted.len() && !text_before(text, sorted[from], 0) {
        inserted(sorted, text, from + 1)
    } else if 0 <= from <= sorted.len() {
        sorted.insert(from, text)
    } else {
        sorted
    }
}

/// The first `n` of `texts`, sorted.
pub open spec fn sorted_texts(texts: Seq<Seq<char>>, n: int) -> Seq<Seq<char>>
    decreases n,
{
    if n <= 0 || n > texts.len() {
        Seq::empty()
    } else {
        inserted(sorted_texts(texts, n - 1), texts[n - 1], 0)
    }
}

/// The first `n` of `texts`, joined with `separator` between them.
pub open spec fn joined(texts: Seq<Seq<char>>, separator: Seq<char>, n: int) -> Seq<char>
    decreases n,
{
    if n <= 0 || n > texts.len() {
        Seq::empty()
    } else if n == 1 {
        texts[0]
    } else {
        joined(texts, separator, n - 1) + separator + texts[n - 1]
    }
}

/// The text of a value. A whole number has no decimal point; an object is
/// `@{name=text; ...}` with its properties sorted by their texts; an array is
/// `@(text, ...)`.
pub open spec fn display_text(v: ValueView) -> Seq<char>
    decreases v, 0int,
{
    match v {
        ValueView::Null => Seq::empty(),
        ValueView::Boolean(b) => if b {
            "true"@
        } else {
            "false"@
        },
        ValueView::Number(bits) => number_text(bits),
        ValueView::String(s) => s,
        ValueView::Object(properties) => {
            let texts = property_texts(properties, properties.len() as int);
            "@{"@ + joined(sorted_texts(texts, texts.len() as int), "; "@, texts.len() as int) + "}"@
        },
        ValueView::Array(items) => {
            let texts = item_texts(items, items.len() as int);
            "@("@ + joined(texts, ", "@, texts.len() as int) + ")"@
        },
        ValueView::Function { name, parameters, body } => "function "@ + name,
        ValueView::ScriptBlock(body) => "{ }"@,
    }
}

/// The texts `name=text` of the first `n` properties.
pub open spec fn property_texts(properties: Seq<PropertyView>, n: int) -> Seq<Seq<char>>
    decreases properties, n,
{
    if n <= 0 || n > properties.len() {
        Seq::empty()
    } else {
        property_texts(properties, n - 1).push(
            properties[n - 1].name + "="@ + display_text(properties[n - 1].value),
        )
    }
}

/// The texts of the first `n` items.
pub open spec fn item_texts(items: Seq<ValueView>, n: int) -> Seq<Seq<char>>
    decreases items, n,
{
    if n <= 0 || n > items.len() {
        Seq::empty()
    } else {
        item_texts(items, n - 1).push(display_text(items[n - 1]))
    }
}

/// There is one text for each property and for each item.
pub proof fn lemma_texts_len(properties: Seq<PropertyView>, items: Seq<ValueView>, n: int)
    ensures
        0 <= n <= properties.len() ==> property_texts(properties, n).len() == n,
        0 <= n <= items.len() ==> item_texts(items, n).len() == n,
    decreases n,
{
    if n > 0 {
        lemma_texts_len(properties, items, n - 1);
    }
}

/// The name of a value's kind, for messages.
pub open spec fn kind_name(v: ValueView) -> Seq<char> {
    match v {
        ValueView::Null => "null"@,
        ValueView::Boolean(_) => "boolean"@,
        ValueView::Number(_) => "number"@,
        ValueView::String(_) => "string"@,
        ValueView::Object(_) => "object"@,
        ValueView::Array(_) => "array"@,
        ValueView::Function { .. } => "function"@,
        ValueView::ScriptBlock(_) => "script block"@,
    }
}

/// The property `name` of a value: objects have properties, nothing else has.
pub open spec fn property_of(v: ValueView, name: Seq<char>) -> Option<ValueView> {
    match v {
        ValueView::Object(properties) => lookup(properties, name),
        _ => None,
    }
}

/// Whether the text `a` comes before the text `b` in the order of their characters.
pub fn before(a: &Vec<char>, b: &Vec<char>) -> (r: bool)
    ensures
        r == text_before(a@, b@, 0),
{
    let mut i: usize = 0;
    loop
        invariant
            text_before(a@, b@, i as int) == text_before(a@, b@, 0),
            i <= a.len(),
        decreases a.len() - i,
    {
        if i >= b.len() {
            return false;
        } else if i >= a.len() {
            return true;
        } else if a[i] != b[i] {
            return a[i] < b[i];
        }
        i += 1;
    }
}

/// The views of a list of texts.
pub open spec fn texts_view(texts: Vec<Vec<char>>) -> Seq<Seq<char>> {
    Seq::new(texts.len() as nat, |i: int| texts[i]@)
}

fn insert_sorted(sorted: &mut Vec<Vec<char>>, text: Vec<char>)
    ensures
        texts_view(*final(sorted)) == inserted(texts_view(*old(sorted)), text@, 0),
{
    let mut i: usize = 0;
    while i < sorted.len() && !before(&text, &sorted[i])
        invariant
            i <= sorted.len(),
            *sorted == *old(sorted),
            inserted(texts_view(*sorted), text@, i as int) == inserted(texts_view(*sorted), text@, 0),
        decreases sorted.len() - i,
    {
        i += 1;
    }
    sorted.insert(i, text);
    assert(texts_view(*sorted) =~= texts_view(*old(sorted)).insert(i as int, text@));
}

fn sort_texts(texts: &Vec<Vec<char>>) -> (r: Vec<Vec<char>>)
    ensures
        texts_view(r) == sorted_texts(texts_view(*texts), texts.len() as int),
{
    let mut sorted: Vec<Vec<char>> = Vec::new();
    let mut i: usize = 0;
    assert(texts_view(sorted) =~= Seq::<Seq<char>>::empty());
    while i < texts.len()
        invariant
            i <= texts.len(),
            texts_view(sorted) == sorted_texts(texts_view(*texts), i as int),
        decreases texts.len() - i,
    {
        let mut copy: Vec<char> = Vec::new();
        push_chars(&mut copy, &texts[i]);
        assert(copy@ =~= texts[i as int]@);
        insert_sorted(&mut sorted, copy);
        i += 1;
    }
    sorted
}

fn push_joined(out: &mut Vec<char>, texts: &Vec<Vec<char>>, separator: &str)
    ensures
        final(out)@ == old(out)@ + joined(texts_view(*texts), separator@, texts.len() as int),
{
    let mut i: usize = 0;
    assert(out@ =~= old(out)@ + joined(texts_view(*texts), separator@, 0));
    while i < texts.len()
        invariant
            i <= texts.len(),
            out@ == old(out)@ + joined(texts_view(*texts), separator@, i as int),
        decreases texts.len() - i,
    {
        if i > 0 {
            push_text(out, separator);
        }
        push_chars(out, &texts[i]);
        i += 1;
        assert(out@ =~= old(out)@ + joined(texts_view(*texts), separator@, i as int));
    }
}

/// The text of a value, as characters.
#[verifier::loop_isolation(false)]
pub fn display_chars(v: &Value) -> (r: Vec<char>)
    ensures
        r@ == display_text(v.deep_view()),
    decreases v,
{
    let mut out: Vec<char> = Vec::new();
    match v {
        Value::Null => {
            assert(out@ =~= display_text(v.deep_view()));
        },
        Value::Boolean(b) => {
            if *b {
                push_text(&mut out, "true");
            } else {
                push_text(&mut out, "false");
            }
            assert(out@ =~= display_text(v.deep_view()));
        },
        Value::Number(n) => {
            out = n.display_chars();
        },
        Value::String(s) => {
            push_text(&mut out, s.as_str());
            assert(out@ =~= display_text(v.deep_view()));
        },
        Value::Object(properties) => {
            let mut texts: Vec<Vec<char>> = Vec::new();
            let mut i: usize = 0;
            let ghost view = properties.deep_view();
            assert(texts_view(texts) =~= property_texts(view, 0));
            while i < properties.len()
                invariant
                    i <= properties.len(),
                    texts.len() == i,
                    texts_view(texts) == property_texts(view, i as int),
                decreases properties.len() - i,
            {
                let mut text: Vec<char> = Vec::new();
                push_text(&mut text, properties[i].name.as_str());
                push_text(&mut text, "=");
                let inner = display_chars(&properties[i].value);
                push_chars(&mut text, &inner);
                let ghost before = texts_view(texts);
                texts.push(text);
                i += 1;
                assert(texts_view(texts) =~= before.push(text@));
            }
            let sorted = sort_texts(&texts);
            push_text(&mut out, "@{");
            assert(sorted.len() == texts.len()) by {
                lemma_sorted_len(texts_view(texts), texts.len() as int);
                assert(texts_view(sorted).len() == sorted.len());
            }
            push_joined(&mut out, &sorted, "; ");
            push_text(&mut out, "}");
            proof {
                lemma_value_views(*v);
                lemma_texts_len(view, Seq::empty(), view.len() as int);
                assert(out@ =~= display_text(v.deep_view()));
            }
        },
        Value::Array(items) => {
            let mut texts: Vec<Vec<char>> = Vec::new();
            let mut i: usize = 0;
            let ghost view = items.deep_view();
            assert(texts_view(texts) =~= item_texts(view, 0));
            while i < items.len()
                invariant
                    i <= items.len(),
                    texts.len() == i,
                    texts_view(texts) == item_texts(view, i as int),
                decreases items.len() - i,
            {
                let text = display_chars(&items[i]);
                let ghost before = texts_view(texts);
                texts.push(text);
                i += 1;
                assert(texts_view(texts) =~= before.push(text@));
            }
            push_text(&mut out, "@(");
            push_joined(&mut out, &texts, ", ");
            push_text(&mut out, ")");
            proof {
                lemma_value_views(*v);
                lemma_texts_len(Seq::empty(), view, view.len() as int);
                assert(out@ =~= display_text(v.deep_view()));
            }
        },
        Value::Function { name, parameters, body } => {
            push_text(&mut out, "function ");
            push_text(&mut out, name.as_str());
            assert(out@ =~= display_text(v.deep_view()));
        },
        Value::ScriptBlock(body) => {
            push_text(&mut out, "{ }");
            assert(out@ =~= display_text(v.deep_view()));
        },
    }
    out
}

/// Sorting keeps the number of texts.
pub proof fn lemma_sorted_len(texts: Seq<Seq<char>>, n: int)
    requires
        0 <= n <= texts.len(),
    ensures
        sorted_texts(texts, n).len() == n,
    decreases n,
{
    if n > 0 {
        lemma_sorted_len(texts, n - 1);
        lemma_inserted_len(sorted_texts(texts, n - 1), texts[n - 1], 0);
    }
}

/// Putting a text into a list makes the list one longer.
pub proof fn lemma_inserted_len(sorted: Seq<Seq<char>>, text: Seq<char>, from: int)
    requires
        0 <= from <= sorted.len(),
    ensures
        inserted(sorted, text, from).len() == sorted.len() + 1,
    decreases sorted.len() - from,
{
    if from < sorted.len() && !text_before(text, sorted[from], 0) {
        lemma_inserted_len(sorted, text, from + 1);
    }
}

impl Value {
    /// An object with no properties.
    pub fn object() -> (r: Value)
        ensures
            r.deep_view() == ValueView::Object(Seq::empty()),
    {
        let r = Value::Object(Vec::new());
        proof {
            lemma_value_views(r);
            assert(r->Object_0.deep_view() =~= Seq::<PropertyView>::empty());
        }
        r
    }

    /// Whether the value counts as true.
    pub fn to_bool(&self) -> (r: bool)
        ensures
            r == truthy(self.deep_view()),
    {
        match self {
            Value::Null => false,
            Value::Boolean(b) => *b,
            Value::Number(n) => !n.is_zero(),
            Value::String(s) => {
                let chars = crate::text::chars_of(s.as_str());
                chars.len() > 0
            },
            Value::Object(_) => true,
            Value::Array(items) => {
                proof {
                    lemma_value_views(*self);
                }
                items.len() > 0
            },
            Value::Function { .. } => true,
            Value::ScriptBlock(_) => true,
        }
    }

    /// The number that the value stands for, if it stands for one.
    pub fn to_number(&self) -> (r: Option<Number>)
        ensures
            r.deep_view() == number_of(self.deep_view()),
    {
        match self {
            Value::Number(n) => Some(*n),
            Value::String(s) => Number::parse(s.as_str()),
            Value::Boolean(true) => Some(Number::from_bits(ONE_BITS)),
            Value::Boolean(false) => Some(Number::from_bits(0)),
            _ => None,
        }
    }

    /// The text of the value.
    pub fn to_string(&self) -> (r: String)
        ensures
            r@ == display_text(self.deep_view()),
    {
        let chars = display_chars(self);
        string_from(&chars)
    }

    /// A copy of the property `name`, which is looked up without regard to case.
    /// Only objects have properties.
    pub fn get_property(&self, name: &str) -> (r: Option<Value>)
        ensures
            r.deep_view() == property_of(self.deep_view(), name@),
    {
        match self {
            Value::Object(properties) => {
                proof {
                    lemma_value_views(*self);
                }
                get_from(properties, name)
            },
            _ => None,
        }
    }

    /// Sets the property `name` of an object: a property of that name, without
    /// regard to case, keeps its spelling and gets the value; else a property is
    /// added. A value that is no object is left as it is, and an error is returned.
    pub fn set_property(&mut self, name: &str, value: Value) -> (r: Result<(), String>)
        ensures
            match old(self).deep_view() {
                ValueView::Object(properties) => r is Ok && final(self).deep_view() == ValueView::Object(
                    updated(properties, name@, value.deep_view()),
                ),
                _ => r matches Err(message) && message@ == "Cannot set property on non-object value"@
                    && final(self).deep_view() == old(self).deep_view(),
            },
    {
        proof {
            lemma_value_views(*self);
        }
        match self {
            Value::Object(properties) => {
                set_in(properties, name, value);
                proof {
                    lemma_value_views(*self);
                }
                Ok(())
            },
            _ => {
                let mut text: Vec<char> = Vec::new();
                push_text(&mut text, "Cannot set property on non-object value");
                Err(string_from(&text))
            },
        }
    }
}

} // verus!

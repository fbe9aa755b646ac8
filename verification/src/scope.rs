//! Variables: scopes, and the stack of scopes.
//!
//! A scope maps names to values without regard to case and keeps the spelling of
//! the first write. The stack has the global scope at the bottom, which never
//! leaves, and the current scope on top.

use vstd::prelude::*;
use crate::text::{chars_of, lowercase, same_text, string_from, string_of, to_lowercase};
use crate::value::{
    clone_value,
    find_property,
    lemma_lookup_updated,
    lemma_property_index,
    lookup,
    property_index,
    same_name,
    set_in,
    updated,
    Property,
    PropertyView,
    Value,
    ValueView,
};

verus! {

/// The view of a scope: its variables in the order in which they were made.
pub type ScopeView = Seq<PropertyView>;

/// The view of a stack of scopes: the global scope first, the current one last.
pub type StackView = Seq<Seq<PropertyView>>;

// ---------------------------------------------------------------------------
// What the stack means
// ---------------------------------------------------------------------------

/// The value of `name` in the innermost of the first `depth` scopes that has it.
pub open spec fn stack_lookup(stack: StackView, name: Seq<char>, depth: int) -> Option<ValueView>
    decreases depth,
{
    if depth <= 0 || depth > stack.len() {
        None
    } else {
        match lookup(stack[depth - 1], name) {
            Some(value) => Some(value),
            None => stack_lookup(stack, name, depth - 1),
        }
    }
}

/// The index of the innermost of the first `depth` scopes that has `name`.
pub open spec fn stack_owner(stack: StackView, name: Seq<char>, depth: int) -> Option<int>
    decreases depth,
{
    if depth <= 0 || depth > stack.len() {
        None
    } else if lookup(stack[depth - 1], name) is Some {
        Some(depth - 1)
    } else {
        stack_owner(stack, name, depth - 1)
    }
}

/// The value of a variable: the innermost binding counts.
pub open spec fn stack_get(stack: StackView, name: Seq<char>) -> Option<ValueView> {
    stack_lookup(stack, name, stack.len() as int)
}

/// The stack with `name` set in scope `i`.
pub open spec fn stack_set_at(stack: StackView, i: int, name: Seq<char>, value: ValueView) -> StackView {
    if 0 <= i < stack.len() {
        stack.update(i, updated(stack[i], name, value))
    } else {
        stack
    }
}

/// The stack with `name` set in the current scope, whatever the outer scopes hold.
pub open spec fn stack_define(stack: StackView, name: Seq<char>, value: ValueView) -> StackView {
    stack_set_at(stack, stack.len() - 1, name, value)
}

/// The stack after an assignment without a qualifier: the innermost scope that has
/// the name gets the value; if none has it, the current scope gets the binding.
pub open spec fn stack_assign(stack: StackView, name: Seq<char>, value: ValueView) -> StackView {
    match stack_owner(stack, name, stack.len() as int) {
        Some(i) => stack_set_at(stack, i, name, value),
        None => stack_define(stack, name, value),
    }
}

/// The stack with an empty scope on top.
pub open spec fn stack_push(stack: StackView) -> StackView {
    stack.push(Seq::empty())
}

/// The stack without its current scope; the global scope stays.
pub open spec fn stack_pop(stack: StackView) -> StackView {
    if stack.len() > 1 {
        stack.drop_last()
    } else {
        stack
    }
}

/// Where a qualified name points.
pub enum Target {
    /// The global scope: `global:` and `script:`.
    Global,
    /// The current scope: `local:`.
    Local,
    /// No qualifier: the innermost scope that has the name.
    Search,
}

/// The index of the first colon from `from` on.
pub open spec fn colon_index(name: Seq<char>, from: int) -> Option<int>
    decreases name.len() - from,
{
    if !(0 <= from < name.len()) {
        None
    } else if name[from] == ':' {
        Some(from)
    } else {
        colon_index(name, from + 1)
    }
}

/// The target of a name and the name without its qualifier. The qualifier counts in
/// any case; a prefix that is no qualifier is part of the name.
pub open spec fn qualified(name: Seq<char>) -> (Target, Seq<char>) {
    match colon_index(name, 0) {
        None => (Target::Search, name),
        Some(i) => {
            let prefix = lowercase(name.subrange(0, i));
            let rest = name.subrange(i + 1, name.len() as int);
            if prefix == "global"@ || prefix == "script"@ {
                (Target::Global, rest)
            } else if prefix == "local"@ {
                (Target::Local, rest)
            } else {
                (Target::Search, name)
            }
        },
    }
}

/// The value of a name that may carry a qualifier.
pub open spec fn stack_get_qualified(stack: StackView, name: Seq<char>) -> Option<ValueView> {
    let (target, base) = qualified(name);
    match target {
        Target::Global => if stack.len() > 0 {
            lookup(stack[0], base)
        } else {
            None
        },
        Target::Local => if stack.len() > 0 {
            lookup(stack[stack.len() - 1], base)
        } else {
            None
        },
        Target::Search => stack_get(stack, base),
    }
}

/// The stack after an assignment to a name that may carry a qualifier.
pub open spec fn stack_set_qualified(stack: StackView, name: Seq<char>, value: ValueView) -> StackView {
    let (target, base) = qualified(name);
    match target {
        Target::Global => stack_set_at(stack, 0, base, value),
        Target::Local => stack_define(stack, base, value),
        Target::Search => stack_assign(stack, base, value),
    }
}

// ---------------------------------------------------------------------------
// Laws
// ---------------------------------------------------------------------------

/// The global scope never leaves: a stack that has it keeps it under every operation,
/// and no operation but push and pop changes the number of scopes.
pub proof fn lemma_global_scope_stays(stack: StackView, name: Seq<char>, value: ValueView)
    requires
        stack.len() >= 1,
    ensures
        stack_pop(stack).len() >= 1,
        stack_push(stack).len() == stack.len() + 1,
        stack_assign(stack, name, value).len() == stack.len(),
        stack_define(stack, name, value).len() == stack.len(),
        stack_set_qualified(stack, name, value).len() == stack.len(),
{
}

/// Names that differ in case only find the same property.
pub proof fn lemma_index_ignores_case(properties: ScopeView, a: Seq<char>, b: Seq<char>, from: int)
    requires
        same_name(a, b),
    ensures
        property_index(properties, a, from) == property_index(properties, b, from),
    decreases properties.len() - from,
{
    if 0 <= from < properties.len() && !same_name(properties[from].name, a) {
        lemma_index_ignores_case(properties, a, b, from + 1);
    }
}

/// Names that differ in case only have the same value in a scope.
pub proof fn lemma_lookup_ignores_case(properties: ScopeView, a: Seq<char>, b: Seq<char>)
    requires
        same_name(a, b),
    ensures
        lookup(properties, a) == lookup(properties, b),
{
    lemma_index_ignores_case(properties, a, b, 0);
}

/// Variable names resolve without regard to case: names that differ in case only
/// resolve to the same binding, unqualified or under the same qualifier.
pub proof fn lemma_resolution_ignores_case(stack: StackView, a: Seq<char>, b: Seq<char>, depth: int)
    requires
        same_name(a, b),
    ensures
        stack_lookup(stack, a, depth) == stack_lookup(stack, b, depth),
        stack_owner(stack, a, depth) == stack_owner(stack, b, depth),
    decreases depth,
{
    if 0 < depth <= stack.len() {
        lemma_lookup_ignores_case(stack[depth - 1], a, b);
        lemma_resolution_ignores_case(stack, a, b, depth - 1);
    }
}

/// The scope that owns a name is one of the stack, and it has the name.
pub proof fn lemma_owner(stack: StackView, name: Seq<char>, depth: int)
    requires
        depth <= stack.len(),
    ensures
        match stack_owner(stack, name, depth) {
            Some(i) => 0 <= i < depth && i < stack.len() && lookup(stack[i], name) is Some && stack_lookup(
                stack,
                name,
                depth,
            ) == lookup(stack[i], name) && forall|j: int| i < j < depth ==> lookup(#[trigger] stack[j], name) is None,
            None => stack_lookup(stack, name, depth) is None && forall|j: int|
                0 <= j < depth && j < stack.len() ==> lookup(#[trigger] stack[j], name) is None,
        },
    decreases depth,
{
    if 0 < depth <= stack.len() {
        lemma_owner(stack, name, depth - 1);
    }
}

/// Lookup in the first `depth` scopes does not depend on the scopes above them.
pub proof fn lemma_lookup_prefix(a: StackView, b: StackView, name: Seq<char>, depth: int)
    requires
        depth <= a.len(),
        depth <= b.len(),
        forall|j: int| 0 <= j < depth ==> a[j] == b[j],
    ensures
        stack_lookup(a, name, depth) == stack_lookup(b, name, depth),
        stack_owner(a, name, depth) == stack_owner(b, name, depth),
    decreases depth,
{
    if depth > 0 {
        lemma_lookup_prefix(a, b, name, depth - 1);
    }
}

/// After an assignment the name has the value that was assigned, under every
/// spelling of the name.
pub proof fn lemma_get_after_assign(stack: StackView, name: Seq<char>, value: ValueView, other: Seq<char>)
    requires
        stack.len() >= 1,
        same_name(other, name),
    ensures
        stack_get(stack_assign(stack, name, value), other) == Some(value),
{
    let after = stack_assign(stack, name, value);
    let n = stack.len() as int;
    lemma_owner(stack, name, n);
    let i = match stack_owner(stack, name, n) {
        Some(i) => i,
        None => n - 1,
    };
    lemma_lookup_updated(stack[i], name, value, other);
    assert(after == stack.update(i, updated(stack[i], name, value)));
    assert(lookup(after[i], other) == Some(value));
    assert forall|j: int| i < j < n implies lookup(#[trigger] after[j], other) is None by {
        assert(after[j] == stack[j]);
        lemma_lookup_ignores_case(stack[j], other, name);
    }
    lemma_owner(after, other, n);
}

/// A variable that is defined in a pushed scope is gone when the scope is popped:
/// the stack is what it was before the push, so every name resolves as before.
pub proof fn lemma_define_is_contained(stack: StackView, name: Seq<char>, value: ValueView)
    requires
        stack.len() >= 1,
    ensures
        stack_pop(stack_define(stack_push(stack), name, value)) == stack,
{
    let pushed = stack_push(stack);
    let defined = stack_define(pushed, name, value);
    assert(stack_pop(defined) =~= stack);
}

/// An assignment without a qualifier to a name that an outer scope has changes that
/// binding, and the change stays when the inner scope is popped.
pub proof fn lemma_assign_reaches_outer(stack: StackView, name: Seq<char>, value: ValueView)
    requires
        stack.len() >= 1,
        stack_get(stack, name) is Some,
    ensures
        stack_pop(stack_assign(stack_push(stack), name, value)) == stack_assign(stack, name, value),
        stack_get(stack_pop(stack_assign(stack_push(stack), name, value)), name) == Some(value),
{
    let n = stack.len() as int;
    let pushed = stack_push(stack);
    lemma_owner(stack, name, n);
    lemma_lookup_prefix(pushed, stack, name, n);
    lemma_property_index(pushed[n], name, 0);
    assert(lookup(pushed[n], name) is None);
    assert(stack_owner(pushed, name, n + 1) == stack_owner(stack, name, n));
    let i = stack_owner(stack, name, n)->0;
    assert(stack_pop(stack_assign(pushed, name, value)) =~= stack_assign(stack, name, value));
    lemma_get_after_assign(stack, name, value, name);
}

// ---------------------------------------------------------------------------
// One scope
// ---------------------------------------------------------------------------

/// The variables of one scope.
#[derive(Debug)]
pub struct Scope {
    variables: Vec<Property>,
}

impl DeepView for Scope {
    type V = Seq<PropertyView>;

    closed spec fn deep_view(&self) -> Seq<PropertyView> {
        self.variables.deep_view()
    }
}

impl Scope {
    /// A scope without variables.
    pub fn new() -> (r: Scope)
        ensures
            r.deep_view() == Seq::<PropertyView>::empty(),
    {
        let r = Scope { variables: Vec::new() };
        assert(r.variables.deep_view() =~= Seq::<PropertyView>::empty());
        r
    }

    /// The value of `name`, which is looked up without regard to case.
    pub fn get(&self, name: &str) -> (r: Option<&Value>)
        ensures
            match lookup(self.deep_view(), name@) {
                Some(value) => r matches Some(found) && found.deep_view() == value,
                None => r is None,
            },
    {
        match find_property(&self.variables, name) {
            Some(i) => Some(&self.variables[i].value),
            None => None,
        }
    }

    /// Sets `name` to `value`: a variable of that name, without regard to case,
    /// keeps its spelling and gets the value; else the variable is added.
    pub fn set(&mut self, name: &str, value: Value)
        ensures
            final(self).deep_view() == updated(old(self).deep_view(), name@, value.deep_view()),
    {
        set_in(&mut self.variables, name, value);
    }

    /// Whether the scope has a variable `name`, without regard to case.
    pub fn contains(&self, name: &str) -> (r: bool)
        ensures
            r == lookup(self.deep_view(), name@) is Some,
    {
        find_property(&self.variables, name).is_some()
    }
}

/// What a qualified name points to, in the executable code.
fn split_qualifier(name: &str) -> (r: (Target, String))
    ensures
        r.0 == qualified(name@).0,
        r.1@ == qualified(name@).1,
{
    let chars = chars_of(name);
    let mut i: usize = 0;
    while i < chars.len() && chars[i] != ':'
        invariant
            i <= chars.len(),
            colon_index(chars@, i as int) == colon_index(chars@, 0),
        decreases chars.len() - i,
    {
        i += 1;
    }
    if i >= chars.len() {
        (Target::Search, string_from(&chars))
    } else {
        let prefix = string_of(&chars, 0, i);
        let lower = to_lowercase(prefix.as_str());
        let rest = string_of(&chars, i + 1, chars.len());
        if same_text(lower.as_str(), "global") || same_text(lower.as_str(), "script") {
            (Target::Global, rest)
        } else if same_text(lower.as_str(), "local") {
            (Target::Local, rest)
        } else {
            (Target::Search, string_from(&chars))
        }
    }
}

// ---------------------------------------------------------------------------
// The stack
// ---------------------------------------------------------------------------

/// The stack of scopes. It is made with the global scope, and no operation takes
/// that scope away.
#[derive(Debug)]
pub struct ScopeStack {
    scopes: Vec<Scope>,
}

impl DeepView for ScopeStack {
    type V = Seq<Seq<PropertyView>>;

    closed spec fn deep_view(&self) -> Seq<Seq<PropertyView>> {
        self.scopes.deep_view()
    }
}

impl ScopeStack {
    /// A stack with the global scope alone.
    pub fn new() -> (r: ScopeStack)
        ensures
            r.deep_view() == seq![Seq::<PropertyView>::empty()],
    {
        let mut scopes: Vec<Scope> = Vec::new();
        scopes.push(Scope::new());
        let r = ScopeStack { scopes };
        assert(r.scopes.deep_view() =~= seq![Seq::<PropertyView>::empty()]);
        r
    }

    /// Puts an empty scope on top.
    pub fn push_scope(&mut self)
        ensures
            final(self).deep_view() == stack_push(old(self).deep_view()),
    {
        let ghost before = self.scopes;
        let scope = Scope::new();
        self.scopes.push(scope);
        proof {
            crate::text::lemma_deep_view_push(before, self.scopes, scope);
        }
    }

    /// Takes the current scope off and returns it; the global scope stays, and
    /// `None` is returned for it.
    pub fn pop_scope(&mut self) -> (r: Option<Scope>)
        ensures
            final(self).deep_view() == stack_pop(old(self).deep_view()),
            match r {
                Some(scope) => old(self).deep_view().len() > 1 && scope.deep_view() == old(self).deep_view().last(),
                None => old(self).deep_view().len() <= 1,
            },
    {
        if self.scopes.len() > 1 {
            let r = self.scopes.pop();
            assert(self.scopes.deep_view() =~= old(self).scopes.deep_view().drop_last());
            r
        } else {
            None
        }
    }

    /// The number of scopes.
    pub fn depth(&self) -> (r: usize)
        ensures
            r == self.deep_view().len(),
    {
        self.scopes.len()
    }

    /// A copy of the value of a variable: the innermost binding counts.
    pub fn get_variable(&self, name: &str) -> (r: Option<Value>)
        ensures
            r.deep_view() == stack_get(self.deep_view(), name@),
    {
        let mut depth: usize = self.scopes.len();
        while depth > 0
            invariant
                depth <= self.scopes.len(),
                stack_lookup(self.deep_view(), name@, depth as int) == stack_get(self.deep_view(), name@),
            decreases depth,
        {
            match self.scopes[depth - 1].get(name) {
                Some(value) => {
                    return Some(clone_value(value));
                },
                None => {},
            }
            depth -= 1;
        }
        None
    }

    /// The index of the innermost scope that has the variable.
    fn owner(&self, name: &str) -> (r: Option<usize>)
        ensures
            match stack_owner(self.deep_view(), name@, self.deep_view().len() as int) {
                Some(i) => r == Some(i as usize) && 0 <= i < self.scopes.len(),
                None => r is None,
            },
    {
        let mut depth: usize = self.scopes.len();
        while depth > 0
            invariant
                depth <= self.scopes.len(),
                stack_owner(self.deep_view(), name@, depth as int) == stack_owner(
                    self.deep_view(),
                    name@,
                    self.deep_view().len() as int,
                ),
            decreases depth,
        {
            if self.scopes[depth - 1].contains(name) {
                return Some(depth - 1);
            }
            depth -= 1;
        }
        None
    }

    /// Sets `name` in scope `i`.
    fn set_at(&mut self, i: usize, name: &str, value: Value)
        requires
            i < old(self).scopes.len(),
        ensures
            final(self).deep_view() == stack_set_at(old(self).deep_view(), i as int, name@, value.deep_view()),
    {
        let mut scope = Scope::new();
        std::mem::swap(&mut scope, &mut self.scopes[i]);
        scope.set(name, value);
        self.scopes.set(i, scope);
        assert(self.scopes.deep_view() =~= stack_set_at(
            old(self).scopes.deep_view(),
            i as int,
            name@,
            value.deep_view(),
        ));
    }

    /// Assigns to a variable: the innermost scope that has it gets the value; if
    /// none has it, the variable is made in the current scope.
    pub fn set_variable(&mut self, name: &str, value: Value)
        ensures
            final(self).deep_view() == stack_assign(old(self).deep_view(), name@, value.deep_view()),
    {
        match self.owner(name) {
            Some(i) => self.set_at(i, name, value),
            None => self.define_variable(name, value),
        }
    }

    /// Sets a variable in the current scope, whatever the outer scopes hold.
    pub fn define_variable(&mut self, name: &str, value: Value)
        ensures
            final(self).deep_view() == stack_define(old(self).deep_view(), name@, value.deep_view()),
    {
        if self.scopes.len() > 0 {
            let top = self.scopes.len() - 1;
            self.set_at(top, name, value)
        }
    }

    /// A copy of the value of a variable whose name may carry a qualifier:
    /// `global:` and `script:` look in the global scope, `local:` in the current one.
    pub fn get_variable_qualified(&self, name: &str) -> (r: Option<Value>)
        ensures
            r.deep_view() == stack_get_qualified(self.deep_view(), name@),
    {
        let (target, base) = split_qualifier(name);
        let index = match target {
            Target::Global => 0,
            Target::Local => if self.scopes.len() > 0 {
                self.scopes.len() - 1
            } else {
                0
            },
            Target::Search => {
                return self.get_variable(base.as_str());
            },
        };
        if index < self.scopes.len() {
            match self.scopes[index].get(base.as_str()) {
                Some(value) => Some(clone_value(value)),
                None => None,
            }
        } else {
            None
        }
    }

    /// Assigns to a variable whose name may carry a qualifier: `global:` and
    /// `script:` write to the global scope, `local:` to the current one.
    pub fn set_variable_qualified(&mut self, name: &str, value: Value)
        ensures
            final(self).deep_view() == stack_set_qualified(old(self).deep_view(), name@, value.deep_view()),
    {
        let (target, base) = split_qualifier(name);
        match target {
            Target::Global => {
                if self.scopes.len() > 0 {
                    self.set_at(0, base.as_str(), value)
                }
            },
            Target::Local => self.define_variable(base.as_str(), value),
            Target::Search => self.set_variable(base.as_str(), value),
        }
    }
}

} // verus!

//! Commands: the contract that a command meets, what it is handed, and the
//! registry of commands by name.
//!
//! A command never holds the evaluator. Where it needs a script block run, it
//! returns a request; the evaluator runs the block with `$_` bound to the item,
//! adds the outcome to the replies and calls the command again.

use vstd::prelude::*;
use crate::ast::Block;
use crate::error::RuntimeError;
use crate::text::{lowercase, same_text, to_lowercase};
use crate::value::{ Property, PropertyView, Value, ValueView};

verus! {

/// What a command is handed: the items that the pipeline brings, the named
/// parameters, and the positional arguments.
#[derive(Debug)]
pub struct CmdletContext {
    pub pipeline_input: Vec<Value>,
    /// The named parameters, by their names as written.
    pub parameters: Vec<Property>,
    pub arguments: Vec<Value>,
}

/// The index of the first parameter from `from` on that is named exactly `name`.
pub open spec fn parameter_index(parameters: Seq<PropertyView>, name: Seq<char>, from: int) -> Option<int>
    decreases parameters.len() - from,
{
    if !(0 <= from < parameters.len()) {
        None
    } else if parameters[from].name == name {
        Some(from)
    } else {
        parameter_index(parameters, name, from + 1)
    }
}

/// The parameters with `name` set to `value`: in place of a parameter of exactly
/// that name, or at the end.
pub open spec fn with_named(parameters: Seq<PropertyView>, name: Seq<char>, value: ValueView) -> Seq<PropertyView> {
    match parameter_index(parameters, name, 0) {
        Some(i) => parameters.update(i, PropertyView { name, value }),
        None => parameters.push(PropertyView { name, value }),
    }
}

fn find_parameter(parameters: &Vec<Property>, name: &str) -> (r: Option<usize>)
    ensures
        r matches Some(i) ==> i < parameters.len() && parameter_index(parameters.deep_view(), name@, 0) == Some(
            i as int,
        ),
        r is None ==> parameter_index(parameters.deep_view(), name@, 0) is None,
{
    let mut i: usize = 0;
    while i < parameters.len()
        invariant
            i <= parameters.len(),
            parameter_index(parameters.deep_view(), name@, i as int) == parameter_index(
                parameters.deep_view(),
                name@,
                0,
            ),
        decreases parameters.len() - i,
    {
        if same_text(parameters[i].name.as_str(), name) {
            return Some(i);
        }
        i += 1;
    }
    None
}

impl CmdletContext {
    /// A context with nothing in it.
    pub fn new() -> (r: CmdletContext)
        ensures
            r.pipeline_input.deep_view() == Seq::<ValueView>::empty(),
            r.parameters.deep_view() == Seq::<PropertyView>::empty(),
            r.arguments.deep_view() == Seq::<ValueView>::empty(),
    {
        let r = CmdletContext { pipeline_input: Vec::new(), parameters: Vec::new(), arguments: Vec::new() };
        assert(r.pipeline_input.deep_view() =~= Seq::<ValueView>::empty());
        assert(r.parameters.deep_view() =~= Seq::<PropertyView>::empty());
        assert(r.arguments.deep_view() =~= Seq::<ValueView>::empty());
        r
    }

    /// A context with pipeline input alone.
    pub fn with_input(input: Vec<Value>) -> (r: CmdletContext)
        ensures
            r.pipeline_input == input,
            r.parameters.deep_view() == Seq::<PropertyView>::empty(),
            r.arguments.deep_view() == Seq::<ValueView>::empty(),
    {
        let r = CmdletContext { pipeline_input: input, parameters: Vec::new(), arguments: Vec::new() };
        assert(r.parameters.deep_view() =~= Seq::<PropertyView>::empty());
        assert(r.arguments.deep_view() =~= Seq::<ValueView>::empty());
        r
    }

    /// The context with the named parameter `name` set to `value`.
    pub fn with_parameter(self, name: String, value: Value) -> (r: CmdletContext)
        ensures
            r.pipeline_input == self.pipeline_input,
            r.arguments == self.arguments,
            r.parameters.deep_view() == with_named(self.parameters.deep_view(), name@, value.deep_view()),
    {
        let mut parameters = self.parameters;
        let ghost before = parameters;
        let property = Property { name, value };
        match find_parameter(&parameters, property.name.as_str()) {
            Some(i) => {
                parameters.set(i, property);
                assert(parameters.deep_view() =~= with_named(before.deep_view(), name@, value.deep_view()));
            },
            None => {
                parameters.push(property);
                proof {
                    crate::text::lemma_deep_view_push(before, parameters, property);
                }
            },
        }
        CmdletContext { pipeline_input: self.pipeline_input, parameters, arguments: self.arguments }
    }

    /// The context with `args` as its positional arguments.
    pub fn with_arguments(self, args: Vec<Value>) -> (r: CmdletContext)
        ensures
            r.pipeline_input == self.pipeline_input,
            r.parameters == self.parameters,
            r.arguments == args,
    {
        CmdletContext { pipeline_input: self.pipeline_input, parameters: self.parameters, arguments: args }
    }

    /// The named parameter that is spelled exactly `name`.
    pub fn get_parameter(&self, name: &str) -> (r: Option<&Value>)
        ensures
            match parameter_index(self.parameters.deep_view(), name@, 0) {
                Some(i) => r matches Some(value) && value.deep_view() == self.parameters.deep_view()[i].value,
                None => r is None,
            },
    {
        match find_parameter(&self.parameters, name) {
            Some(i) => Some(&self.parameters[i].value),
            None => None,
        }
    }

    /// The positional argument at `index`.
    pub fn get_argument(&self, index: usize) -> (r: Option<&Value>)
        ensures
            index < self.arguments.len() ==> r == Some(&self.arguments[index as int]),
            index >= self.arguments.len() ==> r is None,
    {
        if index < self.arguments.len() {
            Some(&self.arguments[index])
        } else {
            None
        }
    }
}

/// What a command answers when it is called.
#[derive(Debug)]
pub enum CmdletStep {
    /// The command is done; these are its results.
    Done(Vec<Value>),
    /// The command needs `block` invoked with `$_` bound to `item`. It is called
    /// again with the value of that invocation added to the replies.
    Invoke { block: Block, item: Value },
}

/// A command: a unit of behaviour that is registered under a name and called from
/// pipelines and calls.
pub trait Cmdlet {
    /// The name under which the command is called, such as `Write-Output`.
    fn name(&self) -> (r: String);

    /// Runs the command on a context. `replies` holds the values of the script
    /// block invocations that the command has asked for in this run so far, in the
    /// order of its requests; it is empty on the first call.
    fn execute(&self, context: &CmdletContext, replies: &Vec<Value>) -> (r: Result<CmdletStep, RuntimeError>);
}

/// The index of the first of `keys` from `from` on that is `key`.
pub open spec fn key_index(keys: Seq<Seq<char>>, key: Seq<char>, from: int) -> Option<int>
    decreases keys.len() - from,
{
    if !(0 <= from < keys.len()) {
        None
    } else if keys[from] == key {
        Some(from)
    } else {
        key_index(keys, key, from + 1)
    }
}

/// Whether something is stored under `name`, without regard to case.
pub open spec fn has_command(keys: Seq<Seq<char>>, name: Seq<char>) -> bool {
    key_index(keys, lowercase(name), 0) is Some
}

/// The keys after something is stored under `name`.
pub open spec fn keys_with(keys: Seq<Seq<char>>, name: Seq<char>) -> Seq<Seq<char>> {
    if has_command(keys, name) {
        keys
    } else {
        keys.push(lowercase(name))
    }
}

/// Items by name. Names count without regard to case, and the item that was stored
/// last under a name is the one that is found.
pub struct NameTable<T> {
    /// The names in lower case.
    keys: Vec<String>,
    /// The item of each key, at the same index.
    items: Vec<T>,
}

impl<T> NameTable<T> {
    /// Each key has its item.
    #[verifier::type_invariant]
    spec fn paired(self) -> bool {
        self.items@.len() == self.keys@.len()
    }

    /// The keys: the names in lower case, in the order in which they came.
    pub closed spec fn keys(&self) -> Seq<Seq<char>> {
        self.keys.deep_view()
    }

    /// The item of each key, at the same index.
    pub closed spec fn items(&self) -> Seq<T> {
        self.items@
    }

    /// The item that is found under `name`, without regard to case.
    pub open spec fn entry(&self, name: Seq<char>) -> Option<T> {
        match key_index(self.keys(), lowercase(name), 0) {
            Some(i) => Some(self.items()[i]),
            None => None,
        }
    }

    /// Whether this table is `before` with `item` stored under `name`: the name
    /// is among the keys, the item is found under it, and every name that differs
    /// from it in more than case leads where it led.
    pub open spec fn stored(&self, before: NameTable<T>, name: Seq<char>, item: T) -> bool {
        &&& self.keys() == keys_with(before.keys(), name)
        &&& self.entry(name) == Some(item)
        &&& forall|other: Seq<char>|
            lowercase(other) != lowercase(name) ==> #[trigger] self.entry(other) == before.entry(other)
    }

    /// A table without items.
    pub fn new() -> (r: NameTable<T>)
        ensures
            r.keys() == Seq::<Seq<char>>::empty(),
    {
        let r = NameTable { keys: Vec::new(), items: Vec::new() };
        assert(r.keys() =~= Seq::<Seq<char>>::empty());
        r
    }

    fn find(&self, name: &str) -> (r: Option<usize>)
        ensures
            r matches Some(i) ==> i < self.keys.len() && key_index(self.keys(), lowercase(name@), 0) == Some(
                i as int,
            ),
            r is None ==> key_index(self.keys(), lowercase(name@), 0) is None,
    {
        let key = to_lowercase(name);
        let mut i: usize = 0;
        while i < self.keys.len()
            invariant
                i <= self.keys.len(),
                key@ == lowercase(name@),
                key_index(self.keys(), key@, i as int) == key_index(self.keys(), key@, 0),
            decreases self.keys.len() - i,
        {
            if same_text(self.keys[i].as_str(), key.as_str()) {
                return Some(i);
            }
            i += 1;
        }
        None
    }

    /// Stores an item under `name`. An item that was stored under the same name,
    /// without regard to case, gives way to the new one.
    pub fn store(&mut self, name: &str, item: T)
        ensures
            final(self).stored(*old(self), name@, item),
    {
        proof {
            use_type_invariant(&*self);
        }
        let key = to_lowercase(name);
        let found = self.find(name);
        let mut taken = NameTable::new();
        core::mem::swap(self, &mut taken);
        let NameTable { keys, items } = taken;
        let mut keys = keys;
        let mut items = items;
        let ghost old_keys = keys.deep_view();
        let ghost old_items = items@;
        match found {
            Some(i) => {
                items.set(i, item);
            },
            None => {
                let ghost before = keys;
                keys.push(key);
                items.push(item);
                proof {
                    crate::text::lemma_deep_view_push(before, keys, key);
                    lemma_key_index_push(old_keys, key@, 0);
                }
            },
        }
        *self = NameTable { keys, items };
        proof {
            assert(old(self).keys() == old_keys);
            assert(old(self).items() == old_items);
            assert(self.keys() == keys_with(old_keys, name@));
            assert(self.entry(name@) == Some(item));
            lemma_key_index(old_keys, lowercase(name@), 0);
            assert forall|other: Seq<char>| lowercase(other) != lowercase(name@) implies #[trigger] self.entry(other)
                == old(self).entry(other) by {
                lemma_key_index(old_keys, lowercase(other), 0);
                if found is None {
                    lemma_key_index_push_other(old_keys, key@, lowercase(other), 0);
                }
            }
        }
    }

    /// The item that is stored under `name`, without regard to case.
    pub fn get(&self, name: &str) -> (r: Option<&T>)
        ensures
            match r {
                Some(found) => self.entry(name@) == Some(*found),
                None => self.entry(name@) is None,
            },
    {
        proof {
            use_type_invariant(self);
        }
        match self.find(name) {
            Some(i) => Some(&self.items[i]),
            None => None,
        }
    }

    /// Whether an item is stored under `name`, without regard to case.
    pub fn contains(&self, name: &str) -> (r: bool)
        ensures
            r == has_command(self.keys(), name@),
    {
        self.find(name).is_some()
    }
}

/// The commands by name. Names count without regard to case, and the last command
/// that is registered under a name is the one that is found.
pub struct CmdletRegistry {
    table: NameTable<Box<dyn Cmdlet>>,
}

impl CmdletRegistry {
    /// The commands by name.
    pub closed spec fn table(&self) -> NameTable<Box<dyn Cmdlet>> {
        self.table
    }

    /// The keys of the registered commands: their names in lower case.
    pub open spec fn keys(&self) -> Seq<Seq<char>> {
        self.table().keys()
    }

    /// A registry without commands.
    pub fn new() -> (r: CmdletRegistry)
        ensures
            r.keys() == Seq::<Seq<char>>::empty(),
    {
        CmdletRegistry { table: NameTable::new() }
    }

    /// Registers a command under the name that it gives itself. A command that was
    /// registered under the same name, without regard to case, gives way to the new one.
    pub fn register(&mut self, cmdlet: Box<dyn Cmdlet>)
        ensures
            exists|name: Seq<char>| #[trigger] final(self).table().stored(old(self).table(), name, cmdlet),
    {
        let ghost given = cmdlet;
        let name = cmdlet.name();
        self.table.store(name.as_str(), cmdlet);
        assert(self.table().stored(old(self).table(), name@, given));
    }

    /// Registers a command under `name`. A command that was registered under the
    /// same name, without regard to case, gives way to the new one.
    pub fn register_as(&mut self, name: &str, cmdlet: Box<dyn Cmdlet>)
        ensures
            final(self).table().stored(old(self).table(), name@, cmdlet),
    {
        self.table.store(name, cmdlet);
    }

    /// The command that is registered under `name`, without regard to case.
    pub fn get(&self, name: &str) -> (r: Option<&Box<dyn Cmdlet>>)
        ensures
            match r {
                Some(found) => self.table().entry(name@) == Some(*found),
                None => self.table().entry(name@) is None,
            },
            r is Some <==> has_command(self.keys(), name@),
    {
        self.table.get(name)
    }

    /// Whether a command is registered under `name`, without regard to case.
    pub fn contains(&self, name: &str) -> (r: bool)
        ensures
            r == has_command(self.keys(), name@),
    {
        self.table.contains(name)
    }
}

/// What the index of a key says.
pub proof fn lemma_key_index(keys: Seq<Seq<char>>, key: Seq<char>, from: int)
    requires
        0 <= from,
    ensures
        match key_index(keys, key, from) {
            Some(i) => from <= i < keys.len() && keys[i] == key,
            None => forall|j: int| from <= j < keys.len() ==> #[trigger] keys[j] != key,
        },
    decreases keys.len() - from,
{
    if from < keys.len() && keys[from] != key {
        lemma_key_index(keys, key, from + 1);
    }
}

/// A key that is not among the keys is found at the end once it is added.
pub proof fn lemma_key_index_push(keys: Seq<Seq<char>>, key: Seq<char>, from: int)
    requires
        0 <= from <= keys.len(),
        key_index(keys, key, from) is None,
    ensures
        key_index(keys.push(key), key, from) == Some(keys.len() as int),
    decreases keys.len() - from,
{
    if from < keys.len() {
        lemma_key_index_push(keys, key, from + 1);
    }
}

/// Adding a key changes nothing for another key.
pub proof fn lemma_key_index_push_other(keys: Seq<Seq<char>>, key: Seq<char>, other: Seq<char>, from: int)
    requires
        0 <= from <= keys.len(),
        other != key,
    ensures
        key_index(keys.push(key), other, from) == key_index(keys, other, from),
    decreases keys.len() - from,
{
    if from < keys.len() {
        if keys[from] != other {
            lemma_key_index_push_other(keys, key, other, from + 1);
        }
    } else {
        assert(keys.push(key)[from] == key);
        assert(key_index(keys.push(key), other, from + 1) is None);
    }
}

} // verus!

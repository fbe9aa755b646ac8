//! `Get-Process`: a list of processes. The list is a fixed sample.

use vstd::prelude::*;
use crate::cmdlet::{Cmdlet, CmdletContext, CmdletStep};
use crate::error::RuntimeError;
use crate::number::{count_bits, text_bits, Number};
use crate::text::{chars_of, lemma_deep_view_push, lowercase, to_lowercase};
use crate::value::{
    clone_value,
    lemma_value_views,
    display_text,
    Property,
    PropertyView,
    Value,
    ValueView,
};

verus! {

/// Gives the sample processes, or with `-Name` those whose name holds the given text.
pub struct GetProcessCmdlet;

/// Whether `needle` stands in `hay` at index `at`.
pub open spec fn occurs_at(hay: Seq<char>, needle: Seq<char>, at: int) -> bool {
    0 <= at && at + needle.len() <= hay.len() && hay.subrange(at, at + needle.len()) == needle
}

/// Whether `needle` stands somewhere in `hay`.
pub open spec fn contains_text(hay: Seq<char>, needle: Seq<char>) -> bool {
    exists|at: int| occurs_at(hay, needle, at)
}

/// The number that a text denotes, or zero where it denotes none.
pub open spec fn number_or_zero(text: Seq<char>) -> u64 {
    match text_bits(text) {
        Some(bits) => bits,
        None => 0,
    }
}

/// A process as an object: its name, its id, its processor time and its working set.
pub open spec fn process(name: Seq<char>, id: nat, cpu: Seq<char>, working_set: nat) -> ValueView {
    ValueView::Object(
        seq![
            PropertyView { name: "Name"@, value: ValueView::String(name) },
            PropertyView { name: "Id"@, value: ValueView::Number(count_bits(id)) },
            PropertyView { name: "CPU"@, value: ValueView::Number(number_or_zero(cpu)) },
            PropertyView { name: "WorkingSet"@, value: ValueView::Number(count_bits(working_set)) },
        ],
    )
}

/// The sample processes.
pub open spec fn sample_processes() -> Seq<ValueView> {
    seq![
        process("System"@, 4, "0"@, 1024),
        process("explorer"@, 1234, "15.5"@, 102400),
        process("chrome"@, 5678, "45.2"@, 512000),
        process("code"@, 9012, "23.1"@, 256000),
        process("pwsh"@, 3456, "5"@, 51200),
    ]
}

/// Whether a process has a name, as a string, that holds `filter` without regard
/// to case; `filter` is in lower case.
pub open spec fn name_holds(v: ValueView, filter: Seq<char>) -> bool {
    match v {
        ValueView::Object(properties) => match crate::cmdlet::parameter_index(properties, "Name"@, 0) {
            Some(i) => match properties[i].value {
                ValueView::String(name) => contains_text(lowercase(name), filter),
                _ => false,
            },
            None => false,
        },
        _ => false,
    }
}

/// Of the first `n` processes, those whose name holds `filter`.
pub open spec fn named(processes: Seq<ValueView>, filter: Seq<char>, n: int) -> Seq<ValueView>
    decreases n,
{
    if n <= 0 || n > processes.len() {
        Seq::empty()
    } else if name_holds(processes[n - 1], filter) {
        named(processes, filter, n - 1).push(processes[n - 1])
    } else {
        named(processes, filter, n - 1)
    }
}

/// What `Get-Process` gives.
pub open spec fn process_output(context: CmdletContext) -> Seq<ValueView> {
    match crate::cmdlet::parameter_index(context.parameters.deep_view(), "Name"@, 0) {
        Some(i) => named(
            sample_processes(),
            lowercase(display_text(context.parameters.deep_view()[i].value)),
            sample_processes().len() as int,
        ),
        None => sample_processes(),
    }
}

/// Whether `needle` stands somewhere in `hay`.
pub fn holds(hay: &Vec<char>, needle: &Vec<char>) -> (r: bool)
    ensures
        r == contains_text(hay@, needle@),
{
    if needle.len() > hay.len() {
        assert forall|at: int| !occurs_at(hay@, needle@, at) by {}
        return false;
    }
    let last = hay.len() - needle.len();
    let mut at: usize = 0;
    while at <= last
        invariant
            at <= last + 1,
            last == hay.len() - needle.len(),
            forall|k: int| 0 <= k < at ==> !occurs_at(hay@, needle@, k),
        decreases last + 1 - at,
    {
        let mut j: usize = 0;
        while j < needle.len() && hay[at + j] == needle[j]
            invariant
                j <= needle.len(),
                at + needle.len() <= hay.len(),
                forall|k: int| 0 <= k < j ==> hay@[at + k] == needle@[k],
            decreases needle.len() - j,
        {
            j += 1;
        }
        if j == needle.len() {
            assert(hay@.subrange(at as int, at + needle.len()) =~= needle@);
            assert(occurs_at(hay@, needle@, at as int));
            return true;
        }
        assert(!occurs_at(hay@, needle@, at as int)) by {
            if occurs_at(hay@, needle@, at as int) {
                assert(hay@.subrange(at as int, at + needle.len())[j as int] == needle@[j as int]);
            }
        }
        at += 1;
    }
    assert forall|k: int| !occurs_at(hay@, needle@, k) by {}
    false
}

fn number_of_text(text: &str) -> (r: Number)
    ensures
        r@ == number_or_zero(text@),
{
    match Number::parse(text) {
        Some(n) => n,
        None => Number::from_bits(0),
    }
}

impl GetProcessCmdlet {
    /// A process as an object.
    pub fn create_process(name: &str, id: usize, cpu: &str, working_set: usize) -> (r: Value)
        ensures
            r.deep_view() == process(name@, id as nat, cpu@, working_set as nat),
    {
        let mut properties: Vec<Property> = Vec::new();
        properties.push(Property { name: "Name".to_owned(), value: Value::String(name.to_owned()) });
        properties.push(Property { name: "Id".to_owned(), value: Value::Number(Number::from_count(id)) });
        properties.push(Property { name: "CPU".to_owned(), value: Value::Number(number_of_text(cpu)) });
        properties.push(
            Property { name: "WorkingSet".to_owned(), value: Value::Number(Number::from_count(working_set)) },
        );
        let r = Value::Object(properties);
        proof {
            lemma_value_views(r);
            assert(r.deep_view()->Object_0 =~= process(name@, id as nat, cpu@, working_set as nat)->Object_0);
        }
        r
    }

    /// The sample processes.
    pub fn create_mock_processes() -> (r: Vec<Value>)
        ensures
            r.deep_view() == sample_processes(),
    {
        let mut out: Vec<Value> = Vec::new();
        out.push(GetProcessCmdlet::create_process("System", 4, "0", 1024));
        out.push(GetProcessCmdlet::create_process("explorer", 1234, "15.5", 102400));
        out.push(GetProcessCmdlet::create_process("chrome", 5678, "45.2", 512000));
        out.push(GetProcessCmdlet::create_process("code", 9012, "23.1", 256000));
        out.push(GetProcessCmdlet::create_process("pwsh", 3456, "5", 51200));
        assert(out.deep_view() =~= sample_processes());
        out
    }

    /// Whether a process has a name that holds `filter`, which is in lower case.
    #[verifier::loop_isolation(false)]
    pub fn has_name(v: &Value, filter: &Vec<char>) -> (r: bool)
        ensures
            r == name_holds(v.deep_view(), filter@),
    {
        proof {
            lemma_value_views(*v);
        }
        match v {
            Value::Object(properties) => {
                let mut i: usize = 0;
                while i < properties.len()
                    invariant
                        i <= properties.len(),
                        crate::cmdlet::parameter_index(properties.deep_view(), "Name"@, i as int)
                            == crate::cmdlet::parameter_index(properties.deep_view(), "Name"@, 0),
                    decreases properties.len() - i,
                {
                    if crate::text::same_text(properties[i].name.as_str(), "Name") {
                        return match &properties[i].value {
                            Value::String(name) => {
                                let lower = chars_of(to_lowercase(name.as_str()).as_str());
                                holds(&lower, filter)
                            },
                            _ => false,
                        };
                    }
                    i += 1;
                }
                false
            },
            _ => false,
        }
    }

    /// The values that the command gives for a context.
    pub fn output(context: &CmdletContext) -> (r: Vec<Value>)
        ensures
            r.deep_view() == process_output(*context),
    {
        let processes = GetProcessCmdlet::create_mock_processes();
        match context.get_parameter("Name") {
            None => processes,
            Some(value) => {
                let filter = chars_of(to_lowercase(value.to_string().as_str()).as_str());
                let mut out: Vec<Value> = Vec::new();
                let mut i: usize = 0;
                assert(out.deep_view() =~= named(processes.deep_view(), filter@, 0));
                while i < processes.len()
                    invariant
                        i <= processes.len(),
                        out.deep_view() == named(processes.deep_view(), filter@, i as int),
                    decreases processes.len() - i,
                {
                    if GetProcessCmdlet::has_name(&processes[i], &filter) {
                        let copy = clone_value(&processes[i]);
                        let ghost before = out;
                        out.push(copy);
                        proof {
                            lemma_deep_view_push(before, out, copy);
                        }
                    }
                    i += 1;
                }
                out
            },
        }
    }
}

impl Cmdlet for GetProcessCmdlet {
    fn name(&self) -> (r: String)
        ensures
            r@ == "Get-Process"@,
    {
        "Get-Process".to_owned()
    }

    fn execute(&self, context: &CmdletContext, replies: &Vec<Value>) -> (r: Result<CmdletStep, RuntimeError>)
        ensures
            r matches Ok(CmdletStep::Done(values)) && values.deep_view() == process_output(*context),
    {
        Ok(CmdletStep::Done(GetProcessCmdlet::output(context)))
    }
}

} // verus!

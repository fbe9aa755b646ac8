//! `Select-Object`: picks properties of the items of the pipeline, and the first items.

use vstd::prelude::*;
use crate::cmdlet::{Cmdlet, CmdletContext, CmdletStep};
use crate::cmdlets::common::{
    get_parameter_ci,
    parameter,
    parse_property_list,
    property_names,
    strings_among,
    strings_of,
};
use crate::error::RuntimeError;
use crate::number::truncated_bits;
use crate::text::lemma_deep_view_push;
use crate::value::{clone_value, lemma_value_views, number_of, property_of, Property, PropertyView, Value, ValueView};

verus! {

/// Gives objects with the named properties alone, and with `-First` no more than
/// that many items.
pub struct SelectObjectCmdlet;

/// The first `n` of the named properties that an object has, under the names as
/// they were asked for.
pub open spec fn picked(v: ValueView, names: Seq<Seq<char>>, n: int) -> Seq<PropertyView>
    decreases n,
{
    if n <= 0 || n > names.len() {
        Seq::empty()
    } else {
        match property_of(v, names[n - 1]) {
            Some(value) => picked(v, names, n - 1).push(PropertyView { name: names[n - 1], value }),
            None => picked(v, names, n - 1),
        }
    }
}

/// An item with the named properties alone. A value that is no object stays as it is.
pub open spec fn selected(v: ValueView, names: Seq<Seq<char>>) -> ValueView {
    match v {
        ValueView::Object(_) => ValueView::Object(picked(v, names, names.len() as int)),
        other => other,
    }
}

/// The first `n` items, each with the named properties alone.
pub open spec fn all_selected(items: Seq<ValueView>, names: Seq<Seq<char>>, n: int) -> Seq<ValueView>
    decreases n,
{
    if n <= 0 || n > items.len() {
        Seq::empty()
    } else {
        all_selected(items, names, n - 1).push(selected(items[n - 1], names))
    }
}

/// The names of the properties to pick: those of `-Property`, or else the strings
/// among the positional arguments.
pub open spec fn wanted_names(context: CmdletContext) -> Seq<Seq<char>> {
    match parameter(context, "Property"@) {
        Some(value) => property_names(Some(value)),
        None => strings_among(context.arguments.deep_view(), context.arguments.len() as int),
    }
}

/// The number of items that `-First` lets through: all where it is not given or no
/// number.
pub open spec fn limit(context: CmdletContext) -> nat {
    match parameter(context, "First"@) {
        Some(value) => match number_of(value) {
            Some(bits) => if truncated_bits(bits) < context.pipeline_input.len() {
                truncated_bits(bits) as nat
            } else {
                context.pipeline_input.len() as nat
            },
            None => context.pipeline_input.len() as nat,
        },
        None => context.pipeline_input.len() as nat,
    }
}

/// What `Select-Object` gives: of the first items as far as `-First` says, each with
/// the wanted properties alone; without wanted properties, the items as they are.
pub open spec fn select_output(context: CmdletContext) -> Seq<ValueView> {
    let names = wanted_names(context);
    if names.len() == 0 {
        context.pipeline_input.deep_view().take(limit(context) as int)
    } else {
        all_selected(context.pipeline_input.deep_view(), names, limit(context) as int)
    }
}

impl SelectObjectCmdlet {
    /// An item with the named properties alone.
    pub fn select(v: &Value, names: &Vec<String>) -> (r: Value)
        ensures
            r.deep_view() == selected(v.deep_view(), names.deep_view()),
    {
        match v {
            Value::Object(_) => {
                let mut out: Vec<Property> = Vec::new();
                let mut i: usize = 0;
                assert(out.deep_view() =~= picked(v.deep_view(), names.deep_view(), 0));
                while i < names.len()
                    invariant
                        i <= names.len(),
                        out.deep_view() == picked(v.deep_view(), names.deep_view(), i as int),
                    decreases names.len() - i,
                {
                    match v.get_property(names[i].as_str()) {
                        Some(value) => {
                            let property = Property { name: names[i].clone(), value };
                            let ghost before = out;
                            out.push(property);
                            proof {
                                lemma_deep_view_push(before, out, property);
                            }
                        },
                        None => {},
                    }
                    i += 1;
                }
                let r = Value::Object(out);
                proof {
                    lemma_value_views(r);
                }
                r
            },
            other => clone_value(other),
        }
    }

    /// The values that the command gives for a context.
    pub fn output(context: &CmdletContext) -> (r: Vec<Value>)
        ensures
            r.deep_view() == select_output(*context),
    {
        let names = match get_parameter_ci(context, "Property") {
            Some(value) => parse_property_list(Some(value)),
            None => strings_of(&context.arguments),
        };
        let count = context.pipeline_input.len();
        let limit = match get_parameter_ci(context, "First") {
            Some(value) => match value.to_number() {
                Some(n) => {
                    let wanted = n.truncated();
                    if wanted < count as u64 {
                        wanted as usize
                    } else {
                        count
                    }
                },
                None => count,
            },
            None => count,
        };
        let mut out: Vec<Value> = Vec::new();
        let mut i: usize = 0;
        let ghost input = context.pipeline_input.deep_view();
        assert(out.deep_view() =~= all_selected(input, names.deep_view(), 0));
        assert(out.deep_view() =~= input.take(0));
        while i < limit
            invariant
                i <= limit <= context.pipeline_input.len(),
                input == context.pipeline_input.deep_view(),
                names.len() > 0 ==> out.deep_view() == all_selected(input, names.deep_view(), i as int),
                names.len() == 0 ==> out.deep_view() == input.take(i as int),
            decreases limit - i,
        {
            let item = if names.len() == 0 {
                clone_value(&context.pipeline_input[i])
            } else {
                SelectObjectCmdlet::select(&context.pipeline_input[i], &names)
            };
            let ghost before = out;
            out.push(item);
            proof {
                lemma_deep_view_push(before, out, item);
                assert(input.take(i + 1) =~= input.take(i as int).push(input[i as int]));
            }
            i += 1;
        }
        out
    }
}

impl Cmdlet for SelectObjectCmdlet {
    fn name(&self) -> (r: String)
        ensures
            r@ == "Select-Object"@,
    {
        "Select-Object".to_owned()
    }

    fn execute(&self, context: &CmdletContext, replies: &Vec<Value>) -> (r: Result<CmdletStep, RuntimeError>)
        ensures
            r matches Ok(CmdletStep::Done(values)) && values.deep_view() == select_output(*context),
    {
        Ok(CmdletStep::Done(SelectObjectCmdlet::output(context)))
    }
}

} // verus!

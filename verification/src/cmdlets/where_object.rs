//! `Where-Object`: keeps the items of the pipeline that pass a test.

use vstd::prelude::*;
use crate::ast::clone_block;
use crate::cmdlet::{Cmdlet, CmdletContext, CmdletStep};
use crate::cmdlets::common::{block_argument, first_block, get_parameter_ci, parameter};
use crate::cmdlets::foreach_object::{is_step, Step};
use crate::error::RuntimeError;
use crate::text::{lemma_deep_view_push, string_from};
use crate::value::{clone_value, clone_values, display_chars, display_text, property_of, truthy, Value, ValueView};

verus! {

/// Keeps the items for which a script block gives a true value, or whose property
/// that `-Property` names is true.
pub struct WhereObjectCmdlet;

/// Of the first `n` items, those whose mark counts as true, in their order. An item
/// without a mark is not kept.
pub open spec fn kept(items: Seq<ValueView>, marks: Seq<ValueView>, n: int) -> Seq<ValueView>
    decreases n,
{
    if n <= 0 || n > items.len() {
        Seq::empty()
    } else if n <= marks.len() && truthy(marks[n - 1]) {
        kept(items, marks, n - 1).push(items[n - 1])
    } else {
        kept(items, marks, n - 1)
    }
}

/// Of the first `n` items, those that have a property `name` that counts as true.
pub open spec fn with_property(items: Seq<ValueView>, name: Seq<char>, n: int) -> Seq<ValueView>
    decreases n,
{
    if n <= 0 || n > items.len() {
        Seq::empty()
    } else if property_of(items[n - 1], name) matches Some(value) && truthy(value) {
        with_property(items, name, n - 1).push(items[n - 1])
    } else {
        with_property(items, name, n - 1)
    }
}

/// The step of `Where-Object` on a context, after `replies` replies.
///
/// With a script block as the first argument, the block is invoked on each item in
/// turn, and the items whose reply counts as true are kept. Else, with `-Property`,
/// the items whose property of that name is true are kept. Else the input is passed on.
pub open spec fn where_step(context: CmdletContext, replies: Seq<ValueView>) -> Step {
    if block_argument(context) is Some {
        if replies.len() < context.pipeline_input.len() {
            Step::Invoke(replies.len() as int)
        } else {
            Step::Done(kept(context.pipeline_input.deep_view(), replies, context.pipeline_input.len() as int))
        }
    } else {
        match parameter(context, "Property"@) {
            Some(name) => Step::Done(
                with_property(
                    context.pipeline_input.deep_view(),
                    display_text(name),
                    context.pipeline_input.len() as int,
                ),
            ),
            None => Step::Done(context.pipeline_input.deep_view()),
        }
    }
}

impl WhereObjectCmdlet {
    /// The items whose mark counts as true.
    pub fn keep(items: &Vec<Value>, marks: &Vec<Value>) -> (r: Vec<Value>)
        ensures
            r.deep_view() == kept(items.deep_view(), marks.deep_view(), items.len() as int),
    {
        let mut out: Vec<Value> = Vec::new();
        let mut i: usize = 0;
        assert(out.deep_view() =~= kept(items.deep_view(), marks.deep_view(), 0));
        while i < items.len()
            invariant
                i <= items.len(),
                out.deep_view() == kept(items.deep_view(), marks.deep_view(), i as int),
            decreases items.len() - i,
        {
            if i < marks.len() && marks[i].to_bool() {
                let value = clone_value(&items[i]);
                let ghost before = out;
                out.push(value);
                proof {
                    lemma_deep_view_push(before, out, value);
                }
            }
            i += 1;
        }
        out
    }

    /// The items that have a property `name` that counts as true.
    pub fn keep_with_property(items: &Vec<Value>, name: &str) -> (r: Vec<Value>)
        ensures
            r.deep_view() == with_property(items.deep_view(), name@, items.len() as int),
    {
        let mut out: Vec<Value> = Vec::new();
        let mut i: usize = 0;
        assert(out.deep_view() =~= with_property(items.deep_view(), name@, 0));
        while i < items.len()
            invariant
                i <= items.len(),
                out.deep_view() == with_property(items.deep_view(), name@, i as int),
            decreases items.len() - i,
        {
            let passes = match items[i].get_property(name) {
                Some(value) => value.to_bool(),
                None => false,
            };
            if passes {
                let value = clone_value(&items[i]);
                let ghost before = out;
                out.push(value);
                proof {
                    lemma_deep_view_push(before, out, value);
                }
            }
            i += 1;
        }
        out
    }
}

impl Cmdlet for WhereObjectCmdlet {
    fn name(&self) -> (r: String)
        ensures
            r@ == "Where-Object"@,
    {
        "Where-Object".to_owned()
    }

    fn execute(&self, context: &CmdletContext, replies: &Vec<Value>) -> (r: Result<CmdletStep, RuntimeError>)
        ensures
            is_step(r, where_step(*context, replies.deep_view()), *context),
    {
        match first_block(context) {
            Some(block) => {
                if replies.len() < context.pipeline_input.len() {
                    Ok(
                        CmdletStep::Invoke {
                            block: clone_block(block),
                            item: clone_value(&context.pipeline_input[replies.len()]),
                        },
                    )
                } else {
                    Ok(CmdletStep::Done(WhereObjectCmdlet::keep(&context.pipeline_input, replies)))
                }
            },
            None => match get_parameter_ci(context, "Property") {
                Some(name) => {
                    let text = string_from(&display_chars(name));
                    Ok(
                        CmdletStep::Done(WhereObjectCmdlet::keep_with_property(&context.pipeline_input, text.as_str())),
                    )
                },
                None => Ok(CmdletStep::Done(clone_values(&context.pipeline_input))),
            },
        }
    }
}

} // verus!

//! `ForEach-Object`: gives one value for each item of the pipeline.

use vstd::prelude::*;
use crate::ast::{clone_block};
use crate::cmdlet::{Cmdlet, CmdletContext, CmdletStep};
use crate::cmdlets::common::{block_argument, first_block, get_parameter_ci, parameter};
use crate::error::RuntimeError;
use crate::text::{lemma_deep_view_push, string_from};
use crate::value::{clone_value, clone_values, display_chars, display_text, property_of, Value, ValueView};

verus! {

/// Gives one value for each item: the value of a script block that is invoked on
/// the item, or the property of the item that `-MemberName` names.
pub struct ForEachObjectCmdlet;

/// The property `name` of each of the first `n` items, `Null` where an item has none.
pub open spec fn members(items: Seq<ValueView>, name: Seq<char>, n: int) -> Seq<ValueView>
    decreases n,
{
    if n <= 0 || n > items.len() {
        Seq::empty()
    } else {
        members(items, name, n - 1).push(
            match property_of(items[n - 1], name) {
                Some(value) => value,
                None => ValueView::Null,
            },
        )
    }
}

/// What the command asks for or gives, as a value of specifications.
pub enum Step {
    /// The results.
    Done(Seq<ValueView>),
    /// The request to invoke the script block on the item at this index.
    Invoke(int),
}

/// The step of `ForEach-Object` on a context, after `replies` replies.
///
/// With a script block as the first argument, the block is invoked on each item in
/// turn and the replies are the results. Else, with `-MemberName`, the results are
/// the properties of that name. Else the input is passed on.
pub open spec fn foreach_step(context: CmdletContext, replies: Seq<ValueView>) -> Step {
    if block_argument(context) is Some {
        if replies.len() < context.pipeline_input.len() {
            Step::Invoke(replies.len() as int)
        } else {
            Step::Done(replies)
        }
    } else {
        match parameter(context, "MemberName"@) {
            Some(name) => Step::Done(
                members(context.pipeline_input.deep_view(), display_text(name), context.pipeline_input.len() as int),
            ),
            None => Step::Done(context.pipeline_input.deep_view()),
        }
    }
}

/// Whether an executable step is the step that the specification names.
pub open spec fn is_step(r: Result<CmdletStep, RuntimeError>, step: Step, context: CmdletContext) -> bool {
    match step {
        Step::Done(values) => r matches Ok(CmdletStep::Done(results)) && results.deep_view() == values,
        Step::Invoke(i) => r matches Ok(CmdletStep::Invoke { block, item }) && 0 <= i < context.pipeline_input.len()
            && Some(block.deep_view()) == block_argument(context).deep_view() && item.deep_view()
            == context.pipeline_input[i].deep_view(),
    }
}

impl ForEachObjectCmdlet {
    /// The property `name` of each item, `Null` where an item has none.
    pub fn member_values(items: &Vec<Value>, name: &str) -> (r: Vec<Value>)
        ensures
            r.deep_view() == members(items.deep_view(), name@, items.len() as int),
    {
        let mut out: Vec<Value> = Vec::new();
        let mut i: usize = 0;
        assert(out.deep_view() =~= members(items.deep_view(), name@, 0));
        while i < items.len()
            invariant
                i <= items.len(),
                out.deep_view() == members(items.deep_view(), name@, i as int),
            decreases items.len() - i,
        {
            let value = match items[i].get_property(name) {
                Some(value) => value,
                None => Value::Null,
            };
            let ghost before = out;
            out.push(value);
            proof {
                lemma_deep_view_push(before, out, value);
            }
            i += 1;
        }
        out
    }
}

impl Cmdlet for ForEachObjectCmdlet {
    fn name(&self) -> (r: String)
        ensures
            r@ == "ForEach-Object"@,
    {
        "ForEach-Object".to_owned()
    }

    fn execute(&self, context: &CmdletContext, replies: &Vec<Value>) -> (r: Result<CmdletStep, RuntimeError>)
        ensures
            is_step(r, foreach_step(*context, replies.deep_view()), *context),
    {
        match first_block(context) {
            Some(block) => {
                if replies.len() < context.pipeline_input.len() {
                    Ok(
                        CmdletStep::Invoke {
                            block: clone_block(block),
                            item: clone_value(&context.pipeline_input[replies.len()]),
                        },
                    )
                } else {
                    Ok(CmdletStep::Done(clone_values(replies)))
                }
            },
            None => match get_parameter_ci(context, "MemberName") {
                Some(name) => {
                    let text = string_from(&display_chars(name));
                    Ok(CmdletStep::Done(ForEachObjectCmdlet::member_values(&context.pipeline_input, text.as_str())))
                },
                None => Ok(CmdletStep::Done(clone_values(&context.pipeline_input))),
            },
        }
    }
}

} // verus!

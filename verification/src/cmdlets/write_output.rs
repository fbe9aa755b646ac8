//! `Write-Output`: sends values down the pipeline.

use vstd::prelude::*;
use crate::cmdlet::{Cmdlet, CmdletContext, CmdletStep};
use crate::error::RuntimeError;
use crate::value::{clone_values, Value, ValueView};

verus! {

/// Sends its pipeline input on; without input, its arguments.
pub struct WriteOutputCmdlet;

/// What `Write-Output` gives: the pipeline input, or the arguments where there is
/// no input.
pub open spec fn written(context: CmdletContext) -> Seq<ValueView> {
    if context.pipeline_input.len() > 0 {
        context.pipeline_input.deep_view()
    } else {
        context.arguments.deep_view()
    }
}

impl WriteOutputCmdlet {
    /// The values that the command gives for a context.
    pub fn output(context: &CmdletContext) -> (r: Vec<Value>)
        ensures
            r.deep_view() == written(*context),
    {
        if context.pipeline_input.len() > 0 {
            clone_values(&context.pipeline_input)
        } else {
            clone_values(&context.arguments)
        }
    }
}

impl Cmdlet for WriteOutputCmdlet {
    fn name(&self) -> (r: String)
        ensures
            r@ == "Write-Output"@,
    {
        "Write-Output".to_owned()
    }

    fn execute(&self, context: &CmdletContext, replies: &Vec<Value>) -> (r: Result<CmdletStep, RuntimeError>)
        ensures
            r matches Ok(CmdletStep::Done(values)) && values.deep_view() == written(*context),
    {
        Ok(CmdletStep::Done(WriteOutputCmdlet::output(context)))
    }
}

} // verus!

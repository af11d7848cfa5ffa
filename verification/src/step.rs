//! What is told of one step of a larger operation.
use vstd::prelude::*;

use crate::text::Text;

verus! {

/// What became of one step.
pub struct StepResult {
    pub name: String,
    pub ok: bool,
    pub detail: String,
}

/// [`StepResult`] in the model.
pub struct StepView {
    pub name: Text,
    pub ok: bool,
    pub detail: Text,
}

impl View for StepResult {
    type V = StepView;

    open spec fn view(&self) -> StepView {
        StepView { name: self.name@, ok: self.ok, detail: self.detail@ }
    }
}

/// The model of what became of one step.
pub open spec fn step_view(r: Result<StepResult, String>) -> Result<StepView, Text> {
    match r {
        Ok(s) => Ok(s@),
        Err(e) => Err(e@),
    }
}

/// A step of which the outcome and a remark are told.
pub open spec fn told(name: Text, ok: bool, detail: Text) -> StepView {
    StepView { name, ok, detail }
}

/// A step of which the outcome and a remark are told.
pub(crate) fn tell(name: &str, ok: bool, detail: &str) -> (r: StepResult)
    ensures
        r@ == told(name@, ok, detail@),
{
    StepResult { name: name.to_owned(), ok, detail: detail.to_owned() }
}

} // verus!

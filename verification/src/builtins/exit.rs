//! `exit`: the end of the shell.
use vstd::prelude::*;
use crate::shell::{Step, StepView};

verus! {

/// Exit shell.
pub fn exit(_args: &Vec<String>, _msg: Option<String>) -> (r: Step)
    ensures
        r@ == StepView::Quit,
{
    Step::Quit
}

} // verus!

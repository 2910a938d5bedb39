//! `cd`: another working directory.
use vstd::prelude::*;
use crate::error::ShellError;
use crate::shell::{After, AfterView, Request, RequestView, ShellResult, Step, StepView};
use crate::text::texts;

verus! {

/// What `cd` does with the arguments `args`.
pub open spec fn cd_spec(args: Seq<Seq<char>>) -> StepView {
    if args.len() > 1 {
        StepView::Done(ShellResult::Failure(ShellError::Error("cd: too many arguments")))
    } else if args.len() == 1 {
        StepView::Ask(RequestView::ChangeDir { path: args[0] }, AfterView::Cd)
    } else {
        StepView::Done(ShellResult::Failure(ShellError::Error("cd: to few arguments")))
    }
}

/// What `cd` makes of whether the directory was changed.
pub open spec fn cd_changed_spec(changed: bool) -> ShellResult<Seq<char>> {
    if changed {
        ShellResult::Output(Seq::empty())
    } else {
        ShellResult::Failure(ShellError::Error("cd: no such file or directory"))
    }
}

/// Change working directory to the specified one
pub fn cd(args: &Vec<String>, _stdin: Option<String>) -> (r: Step)
    ensures
        r@ == cd_spec(texts(args@)),
{
    if args.len() > 1 {
        Step::Done(ShellResult::Failure(ShellError::Error("cd: too many arguments")))
    } else if args.len() == 1 {
        Step::Ask(Request::ChangeDir { path: args[0].clone() }, After::Cd)
    } else {
        Step::Done(ShellResult::Failure(ShellError::Error("cd: to few arguments")))
    }
}

/// Hands on an empty text, or says that the directory could not be entered.
pub fn cd_changed(changed: bool) -> (r: ShellResult<String>)
    ensures
        r@ == cd_changed_spec(changed),
{
    if changed {
        ShellResult::Output(String::new())
    } else {
        ShellResult::Failure(ShellError::Error("cd: no such file or directory"))
    }
}

} // verus!

//! `pwd`: the working directory.
use vstd::prelude::*;
use crate::error::ShellError;
use crate::shell::{After, AfterView, Request, RequestView, ShellResult, Step, StepView};
use crate::text::opt_text;

verus! {

/// What `pwd` does.
pub open spec fn pwd_spec() -> StepView {
    StepView::Ask(RequestView::WorkingDir, AfterView::Pwd)
}

/// What `pwd` makes of the directory that it was told, or was not.
pub open spec fn pwd_told_spec(dir: Option<Seq<char>>) -> ShellResult<Seq<char>> {
    match dir {
        Some(path) => ShellResult::Output(path),
        None => ShellResult::Failure(ShellError::Error("Unable to get current directory.")),
    }
}

/// Get full path of the current directory.
///
/// Doesn't take arguments and read from stdin, so we can ignore them.
pub fn pwd(_args: &Vec<String>, _msg: Option<String>) -> (r: Step)
    ensures
        r@ == pwd_spec(),
{
    Step::Ask(Request::WorkingDir, After::Pwd)
}

/// Hands on the directory, or says that it could not be told.
pub fn pwd_told(dir: Option<String>) -> (r: ShellResult<String>)
    ensures
        r@ == pwd_told_spec(opt_text(dir)),
{
    match dir {
        Some(path) => ShellResult::Output(path),
        None => ShellResult::Failure(ShellError::Error("Unable to get current directory.")),
    }
}

} // verus!

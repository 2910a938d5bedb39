//! `ls`: the entries of a directory, one on each line.
use vstd::prelude::*;
use crate::error::ShellError;
use crate::shell::{After, AfterView, Request, RequestView, ShellResult, Step, StepView};
use crate::text::{join, join_spec, texts};

verus! {

/// What `ls` does with the arguments `args`.
pub open spec fn ls_spec(args: Seq<Seq<char>>) -> StepView {
    if args.len() > 1 {
        StepView::Done(ShellResult::Failure(ShellError::Error("ls: too many arguments")))
    } else if args.len() == 1 {
        StepView::Ask(RequestView::ListDir { dir: Some(args[0]) }, AfterView::Ls)
    } else {
        StepView::Ask(RequestView::ListDir { dir: None }, AfterView::Ls)
    }
}

/// What `ls` makes of the entries that it was given, or was not.
pub open spec fn ls_listed_spec(entries: Option<Seq<Seq<char>>>) -> ShellResult<Seq<char>> {
    match entries {
        Some(names) => ShellResult::Output(join_spec(names, "\n"@)),
        None => ShellResult::Failure(ShellError::Error("ls: could not get current dirrectory")),
    }
}

/// Print folder content
pub fn ls(args: &Vec<String>, _stdin: Option<String>) -> (r: Step)
    ensures
        r@ == ls_spec(texts(args@)),
{
    if args.len() > 1 {
        Step::Done(ShellResult::Failure(ShellError::Error("ls: too many arguments")))
    } else if args.len() == 1 {
        Step::Ask(Request::ListDir { dir: Some(args[0].clone()) }, After::Ls)
    } else {
        Step::Ask(Request::ListDir { dir: None }, After::Ls)
    }
}

/// Lists the entries, or says that the working directory could not be told.
pub fn ls_listed(entries: Option<Vec<String>>) -> (r: ShellResult<String>)
    ensures
        r@ == ls_listed_spec(
            match entries {
                Some(names) => Some(texts(names@)),
                None => None,
            },
        ),
{
    match entries {
        Some(names) => ShellResult::Output(join(&names, "\n")),
        None => ShellResult::Failure(ShellError::Error("ls: could not get current dirrectory")),
    }
}

} // verus!

//! `cat`: the text of a file, or the text that a pipe hands over.
use vstd::prelude::*;
use crate::error::ShellError;
use crate::shell::{After, AfterView, Request, RequestView, ShellResult, Step, StepView};
use crate::text::{opt_text, texts};

verus! {

/// What `cat` does with the arguments `args` and the text `input`.
pub open spec fn cat_spec(args: Seq<Seq<char>>, input: Option<Seq<char>>) -> StepView {
    if args.len() != 0 {
        StepView::Ask(RequestView::ReadFile { path: args[0] }, AfterView::Cat)
    } else {
        match input {
            Some(content) => StepView::Done(ShellResult::Output(content)),
            None => StepView::Done(
                ShellResult::Failure(ShellError::Error("No input file or stream")),
            ),
        }
    }
}

/// Print content of the file given in the first argument.
/// If no argument given reads from pipe.
///
/// Doesn't read from stdin.
/// Doesn't actually concatenate files.
pub fn cat(args: &Vec<String>, msg: Option<String>) -> (r: Step)
    ensures
        r@ == cat_spec(texts(args@), opt_text(msg)),
{
    if args.len() != 0 {
        // It's okay if we get more than one argument. Just take the first.
        return Step::Ask(Request::ReadFile { path: args[0].clone() }, After::Cat);
    }
    // Or try to read from pipe.
    if let Some(content) = msg {
        return Step::Done(ShellResult::Output(content));
    }
    Step::Done(ShellResult::Failure(ShellError::Error("No input file or stream")))
}

} // verus!

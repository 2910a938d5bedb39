//! `wc`: the numbers of lines, words and characters of a text.
use vstd::prelude::*;
use vstd::string::*;
use crate::error::ShellError;
use crate::shell::{After, AfterView, Request, RequestView, ShellResult, Step, StepView};
use crate::text::{
    decimal, decimal_spec, lines, lines_spec, opt_text, texts, word_count, word_count_spec,
};

verus! {

/// The counts of `content`, in decimal with a space between each two: its
/// lines, its words, its characters.
pub open spec fn wc_inner_spec(content: Seq<char>) -> Seq<char> {
    decimal_spec(lines_spec(content).len()) + " "@ + decimal_spec(word_count_spec(content)) + " "@
        + decimal_spec(content.len())
}

/// What `wc` does with the arguments `args` and the text `input`.
pub open spec fn wc_spec(args: Seq<Seq<char>>, input: Option<Seq<char>>) -> StepView {
    if args.len() != 0 {
        StepView::Ask(RequestView::ReadFile { path: args[0] }, AfterView::Wc)
    } else {
        match input {
            Some(content) => StepView::Done(ShellResult::Output(wc_inner_spec(content))),
            None => StepView::Done(
                ShellResult::Failure(ShellError::Error("No input file or stream.")),
            ),
        }
    }
}

/// What `wc` makes of what reading its file gave.
pub open spec fn wc_read_spec(read: ShellResult<Seq<char>>) -> ShellResult<Seq<char>> {
    match read {
        ShellResult::Output(content) => ShellResult::Output(wc_inner_spec(content)),
        other => other,
    }
}

/// Count number of symbols, words and lines in given file or pipe.
pub fn wc(args: &Vec<String>, msg: Option<String>) -> (r: Step)
    ensures
        r@ == wc_spec(texts(args@), opt_text(msg)),
{
    if args.len() != 0 {
        // It's ok if we get more than one argument.
        // Just take the first one.
        return Step::Ask(Request::ReadFile { path: args[0].clone() }, After::Wc);
    }
    // If there's no argument, try to "read" from "pipe".
    if let Some(s) = msg {
        return Step::Done(ShellResult::Output(wc_inner(&s)));
    }
    Step::Done(ShellResult::Failure(ShellError::Error("No input file or stream.")))
}

/// Counts what reading the file gave; an error stays as it is.
pub fn wc_read(read: ShellResult<String>) -> (r: ShellResult<String>)
    ensures
        r@ == wc_read_spec(read@),
{
    match read {
        ShellResult::Output(content) => ShellResult::Output(wc_inner(&content)),
        other => other,
    }
}

/// Counts the lines, words and characters of `content`.
pub fn wc_inner(content: &String) -> (r: String)
    ensures
        r@ == wc_inner_spec(content@),
{
    let text = content.as_str();
    let chars = text.unicode_len();
    let words = word_count(text);
    let all = lines(text);
    assert(texts(all@).len() == all@.len());
    let mut r = decimal(all.len());
    r.append(" ");
    r.append(decimal(words).as_str());
    r.append(" ");
    r.append(decimal(chars).as_str());
    r
}

} // verus!

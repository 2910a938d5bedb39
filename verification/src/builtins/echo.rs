//! `echo`: its arguments, with a space between each two.
use vstd::prelude::*;
use crate::shell::{ShellResult, Step, StepView};
use crate::text::{join, join_spec, texts};

verus! {

/// What `echo` does with the arguments `args`.
pub open spec fn echo_spec(args: Seq<Seq<char>>) -> StepView {
    StepView::Done(ShellResult::Output(join_spec(args, " "@)))
}

/// Print given arguments.
///
/// Doesn't read from pipe.
pub fn echo(args: &Vec<String>, _msg: Option<String>) -> (r: Step)
    ensures
        r@ == echo_spec(texts(args@)),
{
    Step::Done(ShellResult::Output(join(args, " ")))
}

/// `echo` does not look at what a pipe hands it.
pub proof fn lemma_echo_ignores_input(
    args: Seq<Seq<char>>,
    input: Option<Seq<char>>,
    other: Option<Seq<char>>,
)
    ensures
        crate::builtins::plan(crate::builtins::Routine::Echo, args, input) == crate::builtins::plan(
            crate::builtins::Routine::Echo,
            args,
            other,
        ),
{
}

} // verus!

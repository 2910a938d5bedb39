//! The tree that is executed: a pipeline in which every word has been
//! resolved into the string it stands for.
//!
//! As for the parsed tree, the model of a pipeline is the sequence of its
//! stages, first stage first, and it is never empty.
use vstd::prelude::*;
use crate::builtins::finish_spec;
use crate::error::ShellError;
use crate::shell::{
    dispatch, After, AfterView, Reply, Request, RequestView, Shell, ShellResult, ShellView, Step,
    StepView,
};
use crate::text::opt_text;

pub mod ast_transform;

verus! {

/// Builtin or system command.
#[derive(PartialEq, Eq, Debug)]
pub struct SimpleCommand {
    name: String,
    args: Vec<String>,
}

/// The model of a [`SimpleCommand`].
pub struct SimpleCommandView {
    pub name: Seq<char>,
    pub args: Seq<Seq<char>>,
}

impl View for SimpleCommand {
    type V = SimpleCommandView;

    closed spec fn view(&self) -> SimpleCommandView {
        SimpleCommandView { name: self.name@, args: crate::text::texts(self.args@) }
    }
}

impl SimpleCommand {
    /// The call of `name` with the arguments `args`.
    pub fn new(name: String, args: Vec<String>) -> (r: SimpleCommand)
        ensures
            r@ == (SimpleCommandView { name: name@, args: crate::text::texts(args@) }),
    {
        SimpleCommand { name, args }
    }

    /// The name of the command.
    pub fn get_name(&self) -> (r: &String)
        ensures
            r@ == self@.name,
    {
        &self.name
    }

    /// The arguments of the command, in order.
    pub fn get_args(&self) -> (r: &Vec<String>)
        ensures
            crate::text::texts(r@) == self@.args,
    {
        &self.args
    }
}

/// Set environment variable `name` with `value`.
#[derive(PartialEq, Eq, Debug)]
pub struct ExportedEnv {
    name: String,
    value: String,
}

/// The model of an [`ExportedEnv`].
pub struct ExportedEnvView {
    pub name: Seq<char>,
    pub value: Seq<char>,
}

impl View for ExportedEnv {
    type V = ExportedEnvView;

    closed spec fn view(&self) -> ExportedEnvView {
        ExportedEnvView { name: self.name@, value: self.value@ }
    }
}

impl ExportedEnv {
    /// The assignment of `value` to the variable `name`.
    pub fn new(name: String, value: String) -> (r: ExportedEnv)
        ensures
            r@ == (ExportedEnvView { name: name@, value: value@ }),
    {
        ExportedEnv { name, value }
    }

    /// The name of the variable.
    pub fn get_name(&self) -> (r: &String)
        ensures
            r@ == self@.name,
    {
        &self.name
    }

    /// The value that the variable gets.
    pub fn get_value(&self) -> (r: &String)
        ensures
            r@ == self@.value,
    {
        &self.value
    }
}

/// One stage of a pipeline.
#[derive(PartialEq, Eq, Debug)]
pub enum CommandType {
    /// Execute a simple command.
    Simple(SimpleCommand),
    /// Export environment variable.
    Env(ExportedEnv),
}

/// The model of a [`CommandType`].
pub enum CommandTypeView {
    Simple(SimpleCommandView),
    Env(ExportedEnvView),
}

impl View for CommandType {
    type V = CommandTypeView;

    open spec fn view(&self) -> CommandTypeView {
        match self {
            CommandType::Simple(c) => CommandTypeView::Simple(c@),
            CommandType::Env(e) => CommandTypeView::Env(e@),
        }
    }
}

/// How a stage is bound to the pipeline that follows it.
#[derive(PartialEq, Eq, Debug)]
pub enum Bind {
    /// Bind two commands with pipe.
    Pipe(Command),
}

/// A pipeline: a stage and, where it is not the last, what follows it.
#[derive(PartialEq, Eq, Debug)]
pub struct Command {
    /// Command itself.
    cmd: CommandType,
    /// The link to the stages behind it, if there are any.
    next: Option<Box<Bind>>,
}

impl Bind {
    /// The stages of the pipeline that the link leads to.
    pub open spec fn view(&self) -> Seq<CommandTypeView>
        decreases self,
    {
        match self {
            Bind::Pipe(c) => c.view(),
        }
    }
}

impl Command {
    /// The stages of the pipeline, first stage first.
    pub closed spec fn view(&self) -> Seq<CommandTypeView>
        decreases self,
    {
        match self.next {
            None => seq![self.cmd@],
            Some(b) => seq![self.cmd@] + b.view(),
        }
    }

    /// A pipeline has at least one stage.
    pub proof fn lemma_nonempty(&self)
        ensures
            self@.len() >= 1,
    {
    }

    /// The pipeline of the stage `cmd` and, behind it, the pipeline that
    /// `next` leads to, if there is one.
    pub fn new(cmd: CommandType, next: Option<Box<Bind>>) -> (r: Command)
        ensures
            r@ == match next {
                None => seq![cmd@],
                Some(b) => seq![cmd@] + b@,
            },
    {
        Command { cmd, next }
    }

    /// The first stage.
    pub fn get_cmd(&self) -> (r: &CommandType)
        ensures
            self@.len() >= 1,
            r@ == self@[0],
    {
        &self.cmd
    }

    /// What follows the first stage: nothing where it is the last, else the
    /// rest of the pipeline.
    pub fn get_next(&self) -> (r: &Option<Box<Bind>>)
        ensures
            self@.len() >= 1,
            match r {
                None => self@.len() == 1,
                Some(b) => b@ == self@.skip(1),
            },
    {
        proof {
            if let Some(b) = &self.next {
                assert((seq![self.cmd@] + b@).skip(1) == b@);
            }
        }
        &self.next
    }
}

/// What the shell has for the user.
#[derive(PartialEq, Eq, Debug)]
pub enum Output {
    /// A line for the standard output.
    Print(String),
    /// An error for the standard error.
    Report(ShellError),
}

/// The model of an [`Output`].
pub enum OutputView {
    Print(Seq<char>),
    Report(ShellError),
}

impl View for Output {
    type V = OutputView;

    open spec fn view(&self) -> OutputView {
        match self {
            Output::Print(text) => OutputView::Print(text@),
            Output::Report(err) => OutputView::Report(*err),
        }
    }
}

/// The models of the outputs of `output`, in order.
pub open spec fn output_views(output: Seq<Output>) -> Seq<OutputView> {
    Seq::new(output.len(), |i: int| output[i]@)
}

/// A pipeline that waits for its host: the stage that asked, with what
/// follows it, and what is done with the reply.
pub struct Job<'a> {
    stage: &'a Command,
    after: After,
}

/// The model of a [`Job`]: the stages from the one that waits on.
pub struct JobView {
    pub stages: Seq<CommandTypeView>,
    pub after: AfterView,
}

impl<'a> View for Job<'a> {
    type V = JobView;

    closed spec fn view(&self) -> JobView {
        JobView { stages: self.stage@, after: self.after@ }
    }
}

/// How far the execution of a pipeline got.
pub enum Progress<'a> {
    /// The pipeline is over.
    Finished { output: Vec<Output> },
    /// The pipeline ended the shell: the host is to stop.
    Quit { output: Vec<Output> },
    /// The pipeline waits: the host does what `request` says and hands the
    /// reply to `job`.
    Pending { output: Vec<Output>, request: Request, job: Job<'a> },
}

/// The model of a [`Progress`]. In each case `output` is what the shell has
/// for the user since it last came back to its host, in order.
pub enum ProgressView {
    Finished { output: Seq<OutputView> },
    Quit { output: Seq<OutputView> },
    Pending { output: Seq<OutputView>, request: RequestView, job: JobView },
}

impl<'a> View for Progress<'a> {
    type V = ProgressView;

    open spec fn view(&self) -> ProgressView {
        match self {
            Progress::Finished { output } => ProgressView::Finished {
                output: output_views(output@),
            },
            Progress::Quit { output } => ProgressView::Quit { output: output_views(output@) },
            Progress::Pending { output, request, job } => ProgressView::Pending {
                output: output_views(output@),
                request: request@,
                job: job@,
            },
        }
    }
}

/// Where the execution of a pipeline leaves the shell's variables, and how
/// far it got.
pub struct Outcome {
    pub env: Map<Seq<char>, Seq<char>>,
    pub progress: ProgressView,
}

/// What the next stage gets as its input after a stage that ended with
/// `result`: the text that the stage put out, and nothing after a stage that
/// put out nothing or failed.
pub open spec fn next_input(result: ShellResult<Seq<char>>) -> Option<Seq<char>> {
    match result {
        ShellResult::Output(text) => Some(text),
        _ => None,
    }
}

/// What the user gets of a stage that ended with `result` and is followed by
/// another: the error, if it failed.
pub open spec fn reported(result: ShellResult<Seq<char>>) -> Seq<OutputView> {
    match result {
        ShellResult::Failure(err) => seq![OutputView::Report(err)],
        _ => Seq::empty(),
    }
}

/// What the user gets of the last stage, which ended with `result`: the text
/// that it put out, or the error, if it failed.
pub open spec fn shown(result: ShellResult<Seq<char>>) -> Seq<OutputView> {
    match result {
        ShellResult::Output(text) => seq![OutputView::Print(text)],
        ShellResult::Failure(err) => seq![OutputView::Report(err)],
        ShellResult::Empty => Seq::empty(),
    }
}

/// What starting `stage` with the input `input` does to the shell's
/// variables, and how far the stage gets. An assignment sets its variable
/// and ends with nothing to hand on, whatever its input is; a call is
/// dispatched.
pub open spec fn begin(shell: ShellView, stage: CommandTypeView, input: Option<Seq<char>>) -> (
    ShellView,
    StepView,
) {
    match stage {
        CommandTypeView::Env(set) => (
            ShellView { env: shell.env.insert(set.name, set.value), builtins: shell.builtins },
            StepView::Done(ShellResult::Empty),
        ),
        CommandTypeView::Simple(call) => (
            shell,
            dispatch(shell.builtins, call.name, call.args, input),
        ),
    }
}

/// The execution of the pipeline `stages`, whose first stage gets `input`,
/// after `output` was put out.
pub open spec fn run(
    shell: ShellView,
    stages: Seq<CommandTypeView>,
    input: Option<Seq<char>>,
    output: Seq<OutputView>,
) -> Outcome
    decreases stages.len(), 1nat,
{
    if stages.len() == 0 {
        Outcome { env: shell.env, progress: ProgressView::Finished { output } }
    } else {
        let (shell, step) = begin(shell, stages[0], input);
        match step {
            StepView::Done(result) => settle(shell, stages, result, output),
            StepView::Ask(request, after) => Outcome {
                env: shell.env,
                progress: ProgressView::Pending {
                    output,
                    request,
                    job: JobView { stages, after },
                },
            },
            StepView::Quit => Outcome { env: shell.env, progress: ProgressView::Quit { output } },
        }
    }
}

/// The execution of the pipeline `stages` from the point where its first
/// stage has ended with `result`, after `output` was put out.
pub open spec fn settle(
    shell: ShellView,
    stages: Seq<CommandTypeView>,
    result: ShellResult<Seq<char>>,
    output: Seq<OutputView>,
) -> Outcome
    decreases stages.len(), 0nat,
{
    if stages.len() <= 1 {
        Outcome { env: shell.env, progress: ProgressView::Finished { output: output + shown(result) } }
    } else {
        run(shell, stages.skip(1), next_input(result), output + reported(result))
    }
}

impl Command {
    /// Executes the pipeline in the shell `shell`, as far as it gets without
    /// its host.
    pub fn execute<'a>(&'a self, shell: &mut Shell) -> (r: Progress<'a>)
        ensures
            (Outcome { env: final(shell)@.env, progress: r@ }) == run(
                old(shell)@,
                self@,
                None,
                Seq::empty(),
            ),
            final(shell)@.builtins == old(shell)@.builtins,
    {
        let output: Vec<Output> = Vec::new();
        assert(output_views(output@) == Seq::<OutputView>::empty());
        match self.start(shell, None) {
            Step::Done(result) => self.execute_rec(shell, result, output),
            Step::Ask(request, after) => Progress::Pending {
                output,
                request,
                job: Job { stage: self, after },
            },
            Step::Quit => Progress::Quit { output },
        }
    }

    // Starts the first stage of the pipeline.
    fn start(&self, shell: &mut Shell, msg: Option<String>) -> (r: Step)
        ensures
            self@.len() >= 1,
            (final(shell)@, r@) == begin(old(shell)@, self@[0], opt_text(msg)),
    {
        match self.get_cmd() {
            CommandType::Env(e) => Step::Done(Command::export(e, shell)),
            CommandType::Simple(c) => Command::exec(c, shell, msg),
        }
    }

    // Goes on behind the first stage, which has ended with `result`: hands
    // on what it put out, stage by stage, up to the end of the pipeline or
    // to a stage that needs the host.
    fn execute_rec<'a>(
        &'a self,
        shell: &mut Shell,
        result: ShellResult<String>,
        output: Vec<Output>,
    ) -> (r: Progress<'a>)
        ensures
            (Outcome { env: final(shell)@.env, progress: r@ }) == settle(
                old(shell)@,
                self@,
                result@,
                output_views(output@),
            ),
            final(shell)@.builtins == old(shell)@.builtins,
    {
        let ghost first = settle(old(shell)@, self@, result@, output_views(output@));
        let mut stage: &'a Command = self;
        let mut stdio = result;
        let mut out = output;
        loop
            invariant
                first == settle(old(shell)@, self@, result@, output_views(output@)),
                settle(shell@, stage@, stdio@, output_views(out@)) == first,
                shell@.builtins == old(shell)@.builtins,
            decreases stage@.len(),
        {
            let ghost before = output_views(out@);
            let ghost ended = stdio@;
            match stage.get_next() {
                None => {
                    match stdio {
                        ShellResult::Output(s) => {
                            out.push(Output::Print(s));
                        },
                        ShellResult::Failure(e) => {
                            out.push(Output::Report(e));
                        },
                        ShellResult::Empty => {},
                    }
                    assert(output_views(out@) == before + shown(ended));
                    return Progress::Finished { output: out };
                },
                Some(bind) => {
                    let Bind::Pipe(next) = &**bind;
                    let msg = match stdio {
                        ShellResult::Output(s) => Some(s),
                        ShellResult::Empty => None,
                        ShellResult::Failure(e) => {
                            out.push(Output::Report(e));
                            None
                        },
                    };
                    assert(output_views(out@) == before + reported(ended));
                    assert(opt_text(msg) == next_input(ended));
                    assert(next@ == stage@.skip(1));
                    match next.start(shell, msg) {
                        Step::Done(r) => {
                            stdio = r;
                            stage = next;
                        },
                        Step::Ask(request, after) => {
                            return Progress::Pending {
                                output: out,
                                request,
                                job: Job { stage: next, after },
                            };
                        },
                        Step::Quit => {
                            return Progress::Quit { output: out };
                        },
                    }
                },
            }
        }
    }

    // Export variable inside shell's environment.
    fn export(env: &ExportedEnv, shell: &mut Shell) -> (r: ShellResult<String>)
        ensures
            r == ShellResult::<String>::Empty,
            final(shell)@ == (ShellView {
                env: old(shell)@.env.insert(env@.name, env@.value),
                builtins: old(shell)@.builtins,
            }),
    {
        shell.export(env.name.clone(), env.value.clone());
        ShellResult::Empty
    }

    // Execute command inside shell's environment.
    fn exec(cmd: &SimpleCommand, shell: &Shell, msg: Option<String>) -> (r: Step)
        ensures
            r@ == dispatch(shell@.builtins, cmd@.name, cmd@.args, opt_text(msg)),
    {
        shell.exec(&cmd.name, &cmd.args, msg)
    }
}

impl<'a> Job<'a> {
    /// Goes on with the pipeline, now that the host has come back with
    /// `reply`.
    pub fn resume(self, shell: &mut Shell, reply: Reply) -> (r: Progress<'a>)
        ensures
            (Outcome { env: final(shell)@.env, progress: r@ }) == settle(
                old(shell)@,
                self@.stages,
                finish_spec(self@.after, reply@),
                Seq::empty(),
            ),
            final(shell)@.builtins == old(shell)@.builtins,
    {
        let result = crate::builtins::finish(self.after, reply);
        let output: Vec<Output> = Vec::new();
        assert(output_views(output@) == Seq::<OutputView>::empty());
        self.stage.execute_rec(shell, result, output)
    }
}

/// After a stage that is not the last, the next stage is begun, whatever
/// the stage ended with. It gets as its input the text that the stage put
/// out, and no input after a stage that put out nothing or failed; the error
/// of a stage that failed is put out once, before anything of the stages
/// that follow.
pub proof fn lemma_next_stage_is_begun(
    shell: ShellView,
    stages: Seq<CommandTypeView>,
    result: ShellResult<Seq<char>>,
    output: Seq<OutputView>,
)
    requires
        stages.len() >= 2,
    ensures
        settle(shell, stages, result, output) == ({
            let (after, step) = begin(shell, stages[1], next_input(result));
            match step {
                StepView::Done(r) => settle(
                    after,
                    stages.skip(1),
                    r,
                    output + reported(result),
                ),
                StepView::Ask(request, waits) => Outcome {
                    env: after.env,
                    progress: ProgressView::Pending {
                        output: output + reported(result),
                        request,
                        job: JobView { stages: stages.skip(1), after: waits },
                    },
                },
                StepView::Quit => Outcome {
                    env: after.env,
                    progress: ProgressView::Quit { output: output + reported(result) },
                },
            }
        }),
{
    assert(stages.skip(1)[0] == stages[1]);
}

/// The text that a stage puts out is the input of the next stage, as it is.
pub proof fn lemma_output_is_handed_on(
    shell: ShellView,
    stages: Seq<CommandTypeView>,
    text: Seq<char>,
    output: Seq<OutputView>,
)
    requires
        stages.len() >= 2,
    ensures
        settle(shell, stages, ShellResult::Output(text), output) == run(
            shell,
            stages.skip(1),
            Some(text),
            output,
        ),
{
    assert(output + Seq::<OutputView>::empty() == output);
}

/// After a stage that put out nothing the next stage has no input: none at
/// all, not an empty text.
pub proof fn lemma_nothing_is_handed_on(
    shell: ShellView,
    stages: Seq<CommandTypeView>,
    output: Seq<OutputView>,
)
    requires
        stages.len() >= 2,
    ensures
        settle(shell, stages, ShellResult::Empty, output) == run(
            shell,
            stages.skip(1),
            None,
            output,
        ),
{
    assert(output + Seq::<OutputView>::empty() == output);
}

/// A stage that fails does not end the pipeline: its error is put out once,
/// and the stages after it are executed, the next of them without input.
pub proof fn lemma_failure_is_contained(
    shell: ShellView,
    stages: Seq<CommandTypeView>,
    err: ShellError,
    output: Seq<OutputView>,
)
    requires
        stages.len() >= 2,
    ensures
        settle(shell, stages, ShellResult::Failure(err), output) == run(
            shell,
            stages.skip(1),
            None,
            output.push(OutputView::Report(err)),
        ),
{
    assert(output + seq![OutputView::Report(err)] == output.push(OutputView::Report(err)));
}

/// The last stage decides what the user sees of the pipeline's end: the
/// text that it put out, its error, or nothing.
pub proof fn lemma_last_stage_is_shown(
    shell: ShellView,
    stage: CommandTypeView,
    result: ShellResult<Seq<char>>,
    output: Seq<OutputView>,
)
    ensures
        settle(shell, seq![stage], result, output) == (Outcome {
            env: shell.env,
            progress: ProgressView::Finished {
                output: match result {
                    ShellResult::Output(text) => output.push(OutputView::Print(text)),
                    ShellResult::Failure(err) => output.push(OutputView::Report(err)),
                    ShellResult::Empty => output,
                },
            },
        }),
{
    match result {
        ShellResult::Output(text) => {
            assert(output + seq![OutputView::Print(text)] == output.push(OutputView::Print(text)));
        },
        ShellResult::Failure(err) => {
            assert(output + seq![OutputView::Report(err)] == output.push(OutputView::Report(err)));
        },
        ShellResult::Empty => {
            assert(output + Seq::<OutputView>::empty() == output);
        },
    }
}

/// An assignment alone sets its variable and nothing else: the host is
/// asked for nothing and the user is told nothing, whatever the input is.
pub proof fn lemma_assignment_is_silent(
    shell: ShellView,
    set: ExportedEnvView,
    input: Option<Seq<char>>,
)
    ensures
        run(shell, seq![CommandTypeView::Env(set)], input, Seq::empty()) == (Outcome {
            env: shell.env.insert(set.name, set.value),
            progress: ProgressView::Finished { output: Seq::empty() },
        }),
{
    let stages = seq![CommandTypeView::Env(set)];
    let after = ShellView { env: shell.env.insert(set.name, set.value), builtins: shell.builtins };
    assert(begin(shell, stages[0], input) == (after, StepView::Done(ShellResult::Empty)));
    assert(Seq::<OutputView>::empty() + shown(ShellResult::<Seq<char>>::Empty) == Seq::<
        OutputView,
    >::empty());
}

/// What the host is asked for a call depends on the call, its input and the
/// builtin commands alone: the shell's variables are no part of a request.
pub proof fn lemma_variables_stay_inside(
    shell: ShellView,
    other: ShellView,
    call: SimpleCommandView,
    input: Option<Seq<char>>,
)
    requires
        shell.builtins == other.builtins,
    ensures
        begin(shell, CommandTypeView::Simple(call), input).1 == begin(
            other,
            CommandTypeView::Simple(call),
            input,
        ).1,
        begin(shell, CommandTypeView::Simple(call), input).0 == shell,
{
}

/// A call of a name that no builtin command bears is handed to the host
/// with the name, the arguments and the input of the call, as they are.
pub proof fn lemma_programs_are_spawned(
    shell: ShellView,
    call: SimpleCommandView,
    input: Option<Seq<char>>,
)
    requires
        !shell.builtins.contains_key(call.name),
    ensures
        begin(shell, CommandTypeView::Simple(call), input) == (
            shell,
            StepView::Ask(
                RequestView::Spawn { name: call.name, args: call.args, input },
                AfterView::Spawned,
            ),
        ),
{
}

/// A builtin command shadows a program of the same name: no call of its
/// name asks the host to run a program.
pub proof fn lemma_builtins_shadow_programs(
    shell: ShellView,
    call: SimpleCommandView,
    input: Option<Seq<char>>,
)
    requires
        shell.builtins.contains_key(call.name),
    ensures
        begin(shell, CommandTypeView::Simple(call), input).1 == crate::builtins::plan(
            shell.builtins[call.name],
            call.args,
            input,
        ),
        !(begin(shell, CommandTypeView::Simple(call), input).1 matches StepView::Ask(
            RequestView::Spawn { .. },
            _,
        )),
{
    let routine = shell.builtins[call.name];
    match routine {
        crate::builtins::Routine::Grep => {
            let step = crate::builtins::grep::grep_spec(call.args, input);
            assert(!(step matches StepView::Ask(RequestView::Spawn { .. }, _)));
        },
        _ => {},
    }
}

proof fn lemma_kept(
    shell: ShellView,
    stages: Seq<CommandTypeView>,
    input: Option<Seq<char>>,
    result: ShellResult<Seq<char>>,
    output: Seq<OutputView>,
)
    ensures
        forall|id: Seq<char>|
            shell.env.contains_key(id) ==> #[trigger] run(
                shell,
                stages,
                input,
                output,
            ).env.contains_key(id),
        forall|id: Seq<char>|
            shell.env.contains_key(id) ==> #[trigger] settle(
                shell,
                stages,
                result,
                output,
            ).env.contains_key(id),
    decreases stages.len(),
{
    if stages.len() >= 1 {
        let (next, step) = begin(shell, stages[0], input);
        assert forall|id: Seq<char>| shell.env.contains_key(id) implies next.env.contains_key(
            id,
        ) by {}
        if stages.len() >= 2 {
            let rest = stages.skip(1);
            match step {
                StepView::Done(r) => {
                    lemma_kept(next, rest, next_input(r), r, output + reported(r));
                },
                _ => {},
            }
            lemma_kept(shell, rest, next_input(result), result, output + reported(result));
        }
    }
}

/// Executing a pipeline removes no variable: what the shell held before, it
/// holds afterwards.
pub proof fn lemma_variables_are_kept(
    shell: ShellView,
    stages: Seq<CommandTypeView>,
    input: Option<Seq<char>>,
    output: Seq<OutputView>,
)
    ensures
        forall|id: Seq<char>|
            shell.env.contains_key(id) ==> #[trigger] run(
                shell,
                stages,
                input,
                output,
            ).env.contains_key(id),
{
    lemma_kept(shell, stages, input, ShellResult::Empty, output);
}

/// Going on with a pipeline that waited removes no variable either.
pub proof fn lemma_variables_are_kept_behind(
    shell: ShellView,
    stages: Seq<CommandTypeView>,
    result: ShellResult<Seq<char>>,
    output: Seq<OutputView>,
)
    ensures
        forall|id: Seq<char>|
            shell.env.contains_key(id) ==> #[trigger] settle(
                shell,
                stages,
                result,
                output,
            ).env.contains_key(id),
{
    lemma_kept(shell, stages, None, result, output);
}

} // verus!

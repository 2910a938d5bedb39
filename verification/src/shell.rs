//! The shell's state, and what it exchanges with the program that hosts it.
//!
//! The shell itself neither starts programs nor touches files. Where a stage
//! needs either, the shell hands its host a [`Request`] and goes on when the
//! host comes back with the [`Reply`].
use vstd::prelude::*;
use crate::builtins::grep::GrepMode;
use crate::builtins::{Builtins, Routine};
use crate::commands;
use crate::commands::ast_transform;
use crate::environment::Env;
use crate::error::ShellError;
use crate::parser;
use crate::text::{copy_strings, opt_text, texts};

verus! {

/// What a stage of a pipeline ends with.
#[derive(PartialEq, Eq, Debug)]
pub enum ShellResult<T> {
    /// Result of the command execution is something from stdout.
    Output(T),
    /// The stage went well and has nothing to hand on.
    Empty,
    /// On error returns error description.
    Failure(ShellError),
}

impl<T: View> View for ShellResult<T> {
    type V = ShellResult<T::V>;

    open spec fn view(&self) -> ShellResult<T::V> {
        match self {
            ShellResult::Output(t) => ShellResult::Output(t@),
            ShellResult::Empty => ShellResult::Empty,
            ShellResult::Failure(e) => ShellResult::Failure(*e),
        }
    }
}

impl<T> ShellResult<T> {
    /// Whether the stage put out something.
    pub fn is_ok(&self) -> (r: bool)
        ensures
            r == (self is Output),
    {
        match self {
            ShellResult::Output(_) => true,
            _ => false,
        }
    }

    /// Whether the stage failed.
    pub fn is_err(&self) -> (r: bool)
        ensures
            r == (self is Failure),
    {
        match self {
            ShellResult::Failure(_) => true,
            _ => false,
        }
    }
}

/// What the shell asks its host to do.
#[derive(PartialEq, Eq, Debug)]
pub enum Request {
    /// Run the program `name` with the arguments `args`, write `input` to
    /// its standard input if there is any, and read its standard output to
    /// the end.
    Spawn { name: String, args: Vec<String>, input: Option<String> },
    /// Read the file at `path` as text.
    ReadFile { path: String },
    /// Tell the working directory.
    WorkingDir,
    /// List the entries of the directory `dir`, or of the working directory
    /// where none is given.
    ListDir { dir: Option<String> },
    /// Make the directory at `path` the working directory.
    ChangeDir { path: String },
}

/// The model of a [`Request`].
pub enum RequestView {
    Spawn { name: Seq<char>, args: Seq<Seq<char>>, input: Option<Seq<char>> },
    ReadFile { path: Seq<char> },
    WorkingDir,
    ListDir { dir: Option<Seq<char>> },
    ChangeDir { path: Seq<char> },
}

impl View for Request {
    type V = RequestView;

    open spec fn view(&self) -> RequestView {
        match self {
            Request::Spawn { name, args, input } => RequestView::Spawn {
                name: name@,
                args: texts(args@),
                input: opt_text(*input),
            },
            Request::ReadFile { path } => RequestView::ReadFile { path: path@ },
            Request::WorkingDir => RequestView::WorkingDir,
            Request::ListDir { dir } => RequestView::ListDir { dir: opt_text(*dir) },
            Request::ChangeDir { path } => RequestView::ChangeDir { path: path@ },
        }
    }
}

/// What the host answers to a [`Request`].
#[derive(PartialEq, Eq, Debug)]
pub enum Reply {
    /// To `Spawn`, what the program wrote, or why it could not be run or
    /// read; to `ReadFile`, the text of the file, or why it could not be
    /// opened or read.
    Outcome(ShellResult<String>),
    /// To `WorkingDir`, the directory, if it could be told.
    Path(Option<String>),
    /// To `ListDir`, the entries of the directory, none where it could not be
    /// read; nothing where no directory was given and the working directory
    /// could not be told.
    Entries(Option<Vec<String>>),
    /// To `ChangeDir`, whether the directory was changed.
    Changed(bool),
}

/// The model of a [`Reply`].
pub enum ReplyView {
    Outcome(ShellResult<Seq<char>>),
    Path(Option<Seq<char>>),
    Entries(Option<Seq<Seq<char>>>),
    Changed(bool),
}

impl View for Reply {
    type V = ReplyView;

    open spec fn view(&self) -> ReplyView {
        match self {
            Reply::Outcome(r) => ReplyView::Outcome(r@),
            Reply::Path(p) => ReplyView::Path(opt_text(*p)),
            Reply::Entries(e) => ReplyView::Entries(
                match e {
                    Some(v) => Some(texts(v@)),
                    None => None,
                },
            ),
            Reply::Changed(b) => ReplyView::Changed(*b),
        }
    }
}

/// What is done with the reply to a request: which command waits for it.
#[derive(PartialEq, Eq, Debug)]
pub enum After {
    /// A program of the system: its output is the result.
    Spawned,
    /// `cat`: the text of the file is the result.
    Cat,
    /// `wc`: the text of the file is counted.
    Wc,
    /// `grep`: the text of the file is searched for `pattern`.
    Grep { pattern: String, mode: GrepMode },
    /// `pwd`: the directory is the result.
    Pwd,
    /// `ls`: the entries are listed, one on each line.
    Ls,
    /// `cd`: nothing is handed on.
    Cd,
}

/// The model of an [`After`].
pub enum AfterView {
    Spawned,
    Cat,
    Wc,
    Grep { pattern: Seq<char>, mode: GrepMode },
    Pwd,
    Ls,
    Cd,
}

impl View for After {
    type V = AfterView;

    open spec fn view(&self) -> AfterView {
        match self {
            After::Spawned => AfterView::Spawned,
            After::Cat => AfterView::Cat,
            After::Wc => AfterView::Wc,
            After::Grep { pattern, mode } => AfterView::Grep { pattern: pattern@, mode: *mode },
            After::Pwd => AfterView::Pwd,
            After::Ls => AfterView::Ls,
            After::Cd => AfterView::Cd,
        }
    }
}

/// How far a stage got when it was started.
#[derive(PartialEq, Eq, Debug)]
pub enum Step {
    /// The stage is over, with this result.
    Done(ShellResult<String>),
    /// The stage needs its host: the host does what the request says, and
    /// the reply is handled as the second field says.
    Ask(Request, After),
    /// The stage ends the shell.
    Quit,
}

/// The model of a [`Step`].
pub enum StepView {
    Done(ShellResult<Seq<char>>),
    Ask(RequestView, AfterView),
    Quit,
}

impl View for Step {
    type V = StepView;

    open spec fn view(&self) -> StepView {
        match self {
            Step::Done(r) => StepView::Done(r@),
            Step::Ask(request, after) => StepView::Ask(request@, after@),
            Step::Quit => StepView::Quit,
        }
    }
}

/// The model of a [`Shell`]: its variables, and its builtin commands by name.
pub struct ShellView {
    pub env: Map<Seq<char>, Seq<char>>,
    pub builtins: Map<Seq<char>, Routine>,
}

/// What calling the command `name` with the arguments `args` and the text
/// `input` does in a shell whose builtin commands are `builtins`. A builtin
/// command of that name is run, whatever else bears the name; any other name
/// is that of a program, which the host is asked to run.
pub open spec fn dispatch(
    builtins: Map<Seq<char>, Routine>,
    name: Seq<char>,
    args: Seq<Seq<char>>,
    input: Option<Seq<char>>,
) -> StepView {
    if builtins.contains_key(name) {
        crate::builtins::plan(builtins[name], args, input)
    } else {
        StepView::Ask(RequestView::Spawn { name, args, input }, AfterView::Spawned)
    }
}

/// The state of the interpreter.
pub struct Shell {
    /// Shell's current local environment variables.
    local_env: Env,
    /// Shell's builtin routines.
    builtins: Builtins,
}

impl View for Shell {
    type V = ShellView;

    closed spec fn view(&self) -> ShellView {
        ShellView { env: self.local_env@, builtins: self.builtins@ }
    }
}

impl Shell {
    /// Initialize shell with outer environment and default tables of builtin routines.
    pub fn init(env: Env) -> (r: Shell)
        ensures
            r@ == (ShellView { env: env@, builtins: crate::builtins::initial_builtins() }),
    {
        Shell { local_env: env, builtins: Builtins::init() }
    }

    /// Export variables to shell's local environment. Nothing else of the
    /// shell changes.
    pub fn export(&mut self, name: String, value: String)
        ensures
            final(self)@ == (ShellView {
                env: old(self)@.env.insert(name@, value@),
                builtins: old(self)@.builtins,
            }),
    {
        self.local_env.add(name, value);
    }

    /// Execute command in shell's context.
    pub fn exec(&self, name: &String, args: &Vec<String>, msg: Option<String>) -> (r: Step)
        ensures
            r@ == dispatch(self@.builtins, name@, texts(args@), opt_text(msg)),
    {
        if let Some(callback) = self.builtins.get(name.as_str()) {
            return callback.exec(args, msg);
        }
        Step::Ask(
            Request::Spawn { name: name.clone(), args: copy_strings(args), input: msg },
            After::Spawned,
        )
    }

    /// Reads a line: parses it and resolves its variables. Nothing comes
    /// back for a line that is not of the grammar.
    pub fn handle(&self, l: String) -> (r: Option<commands::Command>)
        ensures
            match r {
                Some(cmd) => crate::grammar::parse(l@) matches Some(stages) && cmd@
                    == ast_transform::translate(self@.env, stages),
                None => crate::grammar::parse(l@) is None,
            },
    {
        match parser::parse_cmd(l) {
            Some(parsed) => Some(self.transform(&parsed)),
            None => None,
        }
    }

    /// Resolves the variables of `parsed` by the shell's environment.
    pub fn transform(&self, parsed: &parser::Command) -> (r: commands::Command)
        ensures
            r@ == ast_transform::translate(self@.env, parsed@),
    {
        ast_transform::ast_trans(&self.local_env, parsed)
    }
}

} // verus!

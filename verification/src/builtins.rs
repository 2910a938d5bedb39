//! The commands that the shell runs itself, and the table that finds them by
//! name.
use vstd::prelude::*;
use vstd::hash_map::StringHashMap;
use crate::error::{IOErr, ShellError};
use crate::shell::{After, AfterView, Reply, ReplyView, ShellResult, Step, StepView};
use crate::text::{opt_text, texts};

pub mod cat;
pub mod cd;
pub mod echo;
pub mod exit;
pub mod grep;
pub mod ls;
pub mod pwd;
pub mod wc;

verus! {

/// The routines that a builtin command can stand for.
#[derive(PartialEq, Eq, Debug, Clone, Copy)]
pub enum Routine {
    Echo,
    Wc,
    Pwd,
    Exit,
    Cat,
    Grep,
    Ls,
    Cd,
}

/// What the routine `routine` does with the arguments `args` and the text
/// `input` that a pipe hands it.
pub open spec fn plan(routine: Routine, args: Seq<Seq<char>>, input: Option<Seq<char>>) -> StepView {
    match routine {
        Routine::Echo => echo::echo_spec(args),
        Routine::Wc => wc::wc_spec(args, input),
        Routine::Pwd => pwd::pwd_spec(),
        Routine::Exit => StepView::Quit,
        Routine::Cat => cat::cat_spec(args, input),
        Routine::Grep => grep::grep_spec(args, input),
        Routine::Ls => ls::ls_spec(args),
        Routine::Cd => cd::cd_spec(args),
    }
}

/// What the command that waits as `after` says makes of the host's reply. A
/// reply of another kind than the command asked for counts as a failed read.
pub open spec fn finish_spec(after: AfterView, reply: ReplyView) -> ShellResult<Seq<char>> {
    match (after, reply) {
        (AfterView::Spawned, ReplyView::Outcome(r)) => r,
        (AfterView::Cat, ReplyView::Outcome(r)) => r,
        (AfterView::Wc, ReplyView::Outcome(r)) => wc::wc_read_spec(r),
        (AfterView::Grep { pattern, mode }, ReplyView::Outcome(r)) => match r {
            ShellResult::Output(content) => grep::grep_impl_spec(content, pattern, mode),
            other => other,
        },
        (AfterView::Pwd, ReplyView::Path(dir)) => pwd::pwd_told_spec(dir),
        (AfterView::Ls, ReplyView::Entries(entries)) => ls::ls_listed_spec(entries),
        (AfterView::Cd, ReplyView::Changed(changed)) => cd::cd_changed_spec(changed),
        _ => ShellResult::Failure(ShellError::IOError(IOErr::Read)),
    }
}

/// Goes on with the command that waits as `after` says, now that the host
/// has come back with `reply`.
pub fn finish(after: After, reply: Reply) -> (r: ShellResult<String>)
    ensures
        r@ == finish_spec(after@, reply@),
{
    match (after, reply) {
        (After::Spawned, Reply::Outcome(r)) => r,
        (After::Cat, Reply::Outcome(r)) => r,
        (After::Wc, Reply::Outcome(r)) => wc::wc_read(r),
        (After::Grep { pattern, mode }, Reply::Outcome(r)) => match r {
            ShellResult::Output(content) => grep::grep_impl(&content, pattern, &mode),
            other => other,
        },
        (After::Pwd, Reply::Path(dir)) => pwd::pwd_told(dir),
        (After::Ls, Reply::Entries(entries)) => ls::ls_listed(entries),
        (After::Cd, Reply::Changed(changed)) => cd::cd_changed(changed),
        _ => ShellResult::Failure(ShellError::IOError(IOErr::Read)),
    }
}

/// A builtin command.
///
/// It takes the command line arguments and the text that a pipe hands it,
/// if any.
#[derive(PartialEq, Eq, Debug, Clone, Copy)]
pub struct Builtin(Routine);

impl View for Builtin {
    type V = Routine;

    closed spec fn view(&self) -> Routine {
        self.0
    }
}

impl Builtin {
    /// The builtin command that runs `callback`.
    pub fn new(callback: Routine) -> (r: Builtin)
        ensures
            r@ == callback,
    {
        Builtin(callback)
    }

    /// Runs the command with the arguments `args` and the text `msg` that a
    /// pipe hands it, as far as it gets without the host.
    pub fn exec(&self, args: &Vec<String>, msg: Option<String>) -> (r: Step)
        ensures
            r@ == plan(self@, texts(args@), opt_text(msg)),
    {
        match self.0 {
            Routine::Echo => echo::echo(args, msg),
            Routine::Wc => wc::wc(args, msg),
            Routine::Pwd => pwd::pwd(args, msg),
            Routine::Exit => exit::exit(args, msg),
            Routine::Cat => cat::cat(args, msg),
            Routine::Grep => grep::grep(args, msg),
            Routine::Ls => ls::ls(args, msg),
            Routine::Cd => cd::cd(args, msg),
        }
    }
}

/// Dictionary of builtin functions.
pub struct Builtins(StringHashMap<Builtin>);

impl View for Builtins {
    type V = Map<Seq<char>, Routine>;

    /// The routines by the names that they are called by.
    closed spec fn view(&self) -> Map<Seq<char>, Routine> {
        self.0@.map_values(|b: Builtin| b@)
    }
}

/// The builtin commands that a shell starts with.
pub open spec fn initial_builtins() -> Map<Seq<char>, Routine> {
    Map::<Seq<char>, Routine>::empty().insert("echo"@, Routine::Echo).insert(
        "wc"@,
        Routine::Wc,
    ).insert("pwd"@, Routine::Pwd).insert("exit"@, Routine::Exit).insert("cat"@, Routine::Cat)
}

impl Builtins {
    /// An empty dictionary.
    pub fn new() -> (r: Builtins)
        ensures
            r@ == Map::<Seq<char>, Routine>::empty(),
    {
        let r = Builtins(StringHashMap::new());
        assert(r@ =~= Map::<Seq<char>, Routine>::empty());
        r
    }

    /// The dictionary of the commands that every shell knows.
    pub fn init() -> (r: Builtins)
        ensures
            r@ == initial_builtins(),
    {
        // Create list of builtin commands.
        let mut b = Builtins::new();
        b.add("echo", Builtin(Routine::Echo));
        b.add("wc", Builtin(Routine::Wc));
        b.add("pwd", Builtin(Routine::Pwd));
        b.add("exit", Builtin(Routine::Exit));
        b.add("cat", Builtin(Routine::Cat));
        b
    }

    /// Puts `callback` under `name`, in place of what was there.
    pub fn add(&mut self, name: &str, callback: Builtin)
        ensures
            final(self)@ == old(self)@.insert(name@, callback@),
    {
        self.0.insert(name.to_owned(), callback);
        assert(self@ =~= old(self)@.insert(name@, callback@));
    }

    /// The command that `name` calls, if it is a builtin.
    pub fn get(&self, name: &str) -> (r: Option<&Builtin>)
        ensures
            match r {
                Some(b) => self@.contains_key(name@) && self@[name@] == b@,
                None => !self@.contains_key(name@),
            },
    {
        self.0.get(name)
    }
}

} // verus!

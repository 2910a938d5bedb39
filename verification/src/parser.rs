//! The syntax tree that parsing yields, with variables still unresolved, and
//! the parser itself.
//!
//! A pipeline is modelled by the sequence of its stages, first stage first: a
//! [`Command`] owns its first stage and, through a [`Bind`], the pipeline that
//! follows it, so the model of a `Command` is never empty.
use vstd::prelude::*;
use crate::grammar;
use crate::grammar::{CharClass, Found};
use crate::text::{chars_of, cut};

verus! {

/// One piece of a word.
#[derive(PartialEq, Eq, Debug)]
pub enum Name {
    /// Literal text.
    Plain(String),
    /// A variable, to be looked up by its name.
    EnvVar(String),
}

/// The model of a [`Name`].
pub enum NameView {
    Plain(Seq<char>),
    EnvVar(Seq<char>),
}

impl View for Name {
    type V = NameView;

    open spec fn view(&self) -> NameView {
        match self {
            Name::Plain(s) => NameView::Plain(s@),
            Name::EnvVar(s) => NameView::EnvVar(s@),
        }
    }
}

/// The models of the names of `names`, in order.
pub open spec fn name_views(names: Seq<Name>) -> Seq<NameView> {
    Seq::new(names.len(), |i: int| names[i]@)
}

/// One word of a command line.
#[derive(PartialEq, Eq, Debug)]
pub enum ExtendedName {
    /// Simple name: identifier, environment variable or single quoted string.
    Name(Name),
    /// A sequence of pieces that make one word: a double quoted string, which
    /// may hold variables between its literal text, or variables written one
    /// directly after the other.
    Extended(Vec<Name>),
}

/// The model of an [`ExtendedName`].
pub enum ExtendedNameView {
    Name(NameView),
    Extended(Seq<NameView>),
}

impl View for ExtendedName {
    type V = ExtendedNameView;

    open spec fn view(&self) -> ExtendedNameView {
        match self {
            ExtendedName::Name(n) => ExtendedNameView::Name(n@),
            ExtendedName::Extended(v) => ExtendedNameView::Extended(name_views(v@)),
        }
    }
}

/// The models of the words of `words`, in order.
pub open spec fn word_views(words: Seq<ExtendedName>) -> Seq<ExtendedNameView> {
    Seq::new(words.len(), |i: int| words[i]@)
}

/// The call of a command: its name and its arguments.
#[derive(PartialEq, Eq, Debug)]
pub struct SimpleCommand {
    /// Name of the command.
    name: ExtendedName,
    /// Commands' arguments.
    args: Vec<ExtendedName>,
}

/// The model of a [`SimpleCommand`].
pub struct SimpleCommandView {
    pub name: ExtendedNameView,
    pub args: Seq<ExtendedNameView>,
}

impl View for SimpleCommand {
    type V = SimpleCommandView;

    closed spec fn view(&self) -> SimpleCommandView {
        SimpleCommandView { name: self.name@, args: word_views(self.args@) }
    }
}

impl SimpleCommand {
    /// The call of `name` with the arguments `args`.
    pub fn new(name: ExtendedName, args: Vec<ExtendedName>) -> (r: SimpleCommand)
        ensures
            r@ == (SimpleCommandView { name: name@, args: word_views(args@) }),
    {
        SimpleCommand { name, args }
    }

    /// The name of the command.
    pub fn get_name(&self) -> (r: &ExtendedName)
        ensures
            r@ == self@.name,
    {
        &self.name
    }

    /// The arguments of the command, in order.
    pub fn get_args(&self) -> (r: &Vec<ExtendedName>)
        ensures
            word_views(r@) == self@.args,
    {
        &self.args
    }
}

/// The assignment of a value to a variable.
#[derive(PartialEq, Eq, Debug)]
pub struct ExportedEnv {
    /// Name of the variable.
    name: String,
    /// Value of the variable.
    value: String,
}

/// The model of an [`ExportedEnv`].
pub struct ExportedEnvView {
    pub name: Seq<char>,
    pub value: Seq<char>,
}

impl View for ExportedEnv {
    type V = ExportedEnvView;

    closed spec fn view(&self) -> ExportedEnvView {
        ExportedEnvView { name: self.name@, value: self.value@ }
    }
}

impl ExportedEnv {
    /// The assignment of `value` to the variable `name`.
    pub fn new(name: String, value: String) -> (r: ExportedEnv)
        ensures
            r@ == (ExportedEnvView { name: name@, value: value@ }),
    {
        ExportedEnv { name, value }
    }

    /// The name of the variable.
    pub fn get_name(&self) -> (r: &String)
        ensures
            r@ == self@.name,
    {
        &self.name
    }

    /// The value that the variable gets.
    pub fn get_value(&self) -> (r: &String)
        ensures
            r@ == self@.value,
    {
        &self.value
    }
}

/// One stage of a pipeline.
#[derive(PartialEq, Eq, Debug)]
pub enum CommandType {
    /// Execute a simple command (could contain environment variables).
    Simple(SimpleCommand),
    /// Export environment variable.
    Env(ExportedEnv),
}

/// The model of a [`CommandType`].
pub enum CommandTypeView {
    Simple(SimpleCommandView),
    Env(ExportedEnvView),
}

impl View for CommandType {
    type V = CommandTypeView;

    open spec fn view(&self) -> CommandTypeView {
        match self {
            CommandType::Simple(c) => CommandTypeView::Simple(c@),
            CommandType::Env(e) => CommandTypeView::Env(e@),
        }
    }
}

/// How a stage is bound to the pipeline that follows it.
#[derive(PartialEq, Eq, Debug)]
pub enum Bind {
    /// Bind two commands with pipe.
    Pipe(Command),
}

/// A pipeline: a stage and, where it is not the last, what follows it.
#[derive(PartialEq, Eq, Debug)]
pub struct Command {
    /// The first stage.
    cmd: CommandType,
    /// The link to the stages behind it, if there are any.
    next: Option<Box<Bind>>,
}

impl Bind {
    /// The stages of the pipeline that the link leads to.
    pub open spec fn view(&self) -> Seq<CommandTypeView>
        decreases self,
    {
        match self {
            Bind::Pipe(c) => c.view(),
        }
    }
}

impl Command {
    /// The stages of the pipeline, first stage first.
    pub closed spec fn view(&self) -> Seq<CommandTypeView>
        decreases self,
    {
        match self.next {
            None => seq![self.cmd@],
            Some(b) => seq![self.cmd@] + b.view(),
        }
    }

    /// A pipeline has at least one stage.
    pub proof fn lemma_nonempty(&self)
        ensures
            self@.len() >= 1,
    {
    }

    /// The pipeline of the stage `cmd` and, behind it, the pipeline that
    /// `next` leads to, if there is one.
    pub fn new(cmd: CommandType, next: Option<Box<Bind>>) -> (r: Command)
        ensures
            r@ == match next {
                None => seq![cmd@],
                Some(b) => seq![cmd@] + b@,
            },
    {
        Command { cmd, next }
    }

    /// The first stage.
    pub fn get_cmd(&self) -> (r: &CommandType)
        ensures
            self@.len() >= 1,
            r@ == self@[0],
    {
        &self.cmd
    }

    /// What follows the first stage: nothing where it is the last, else the
    /// rest of the pipeline.
    pub fn get_next(&self) -> (r: &Option<Box<Bind>>)
        ensures
            self@.len() >= 1,
            match r {
                None => self@.len() == 1,
                Some(b) => b@ == self@.skip(1),
            },
    {
        proof {
            if let Some(b) = &self.next {
                assert((seq![self.cmd@] + b@).skip(1) == b@);
            }
        }
        &self.next
    }
}

/// The models of the stages of `stages`, in order.
pub open spec fn stage_views(stages: Seq<CommandType>) -> Seq<CommandTypeView> {
    Seq::new(stages.len(), |i: int| stages[i]@)
}

/// Finds where the run of characters of `class` that starts at `from` ends.
fn scan(chars: &Vec<char>, from: usize, class: CharClass) -> (end: usize)
    requires
        from <= chars.len(),
    ensures
        end == grammar::run_end(chars@, from as int, class),
        from <= end <= chars.len(),
{
    let mut end = from;
    while end < chars.len() && class.contains(chars[end])
        invariant
            from <= end <= chars.len(),
            grammar::run_end(chars@, from as int, class) == grammar::run_end(
                chars@,
                end as int,
                class,
            ),
        decreases chars.len() - end,
    {
        end = end + 1;
    }
    end
}

/// Reads the variable at `at`, if one stands there.
fn variable(chars: &Vec<char>, at: usize) -> (r: Option<(String, usize)>)
    requires
        at <= chars.len(),
    ensures
        match r {
            Some((name, end)) => grammar::variable(chars@, at as int) == Some(
                Found { value: name@, end: end as int },
            ) && at < end <= chars.len(),
            None => grammar::variable(chars@, at as int) is None,
        },
{
    if at < chars.len() && chars[at] == '$' {
        let end = scan(chars, at + 1, CharClass::Name);
        if end > at + 1 {
            Some((cut(chars, at + 1, end), end))
        } else {
            None
        }
    } else {
        None
    }
}

/// Reads the variables that stand one directly after the other from `from` on.
fn variables(chars: &Vec<char>, from: usize) -> (r: (Vec<Name>, usize))
    requires
        from <= chars.len(),
    ensures
        name_views(r.0@) == grammar::variables(chars@, from as int).value,
        r.1 == grammar::variables(chars@, from as int).end,
        from <= r.1 <= chars.len(),
{
    let mut names: Vec<Name> = Vec::new();
    let mut at = from;
    loop
        invariant
            from <= at <= chars.len(),
            grammar::variables(chars@, from as int).value == name_views(names@)
                + grammar::variables(chars@, at as int).value,
            grammar::variables(chars@, from as int).end == grammar::variables(
                chars@,
                at as int,
            ).end,
        ensures
            from <= at <= chars.len(),
            name_views(names@) == grammar::variables(chars@, from as int).value,
            at == grammar::variables(chars@, from as int).end,
        decreases chars.len() - at,
    {
        match variable(chars, at) {
            Some((name, end)) => {
                proof {
                    let piece = NameView::EnvVar(name@);
                    let rest = grammar::variables(chars@, end as int).value;
                    assert(name_views(names@.push(Name::EnvVar(name))) == name_views(
                        names@,
                    ).push(piece));
                    assert(name_views(names@) + (seq![piece] + rest) == name_views(names@).push(
                        piece,
                    ) + rest);
                }
                names.push(Name::EnvVar(name));
                at = end;
            },
            None => {
                proof {
                    assert(name_views(names@) + Seq::<NameView>::empty() == name_views(names@));
                }
                break ;
            },
        }
    }
    (names, at)
}

/// Reads the pieces of the body of a double quoted string from `from` on.
fn segments(chars: &Vec<char>, from: usize) -> (r: (Vec<Name>, usize))
    requires
        from <= chars.len(),
    ensures
        name_views(r.0@) == grammar::segments(chars@, from as int).value,
        r.1 == grammar::segments(chars@, from as int).end,
        from <= r.1 <= chars.len(),
{
    let mut names: Vec<Name> = Vec::new();
    let mut at = from;
    loop
        invariant
            from <= at <= chars.len(),
            grammar::segments(chars@, from as int).value == name_views(names@)
                + grammar::segments(chars@, at as int).value,
            grammar::segments(chars@, from as int).end == grammar::segments(
                chars@,
                at as int,
            ).end,
        ensures
            from <= at <= chars.len(),
            name_views(names@) == grammar::segments(chars@, from as int).value,
            at == grammar::segments(chars@, from as int).end,
        decreases chars.len() - at,
    {
        let ghost before = name_views(names@);
        let end: usize;
        match variable(chars, at) {
            Some((name, e)) => {
                names.push(Name::EnvVar(name));
                end = e;
            },
            None => {
                let e = scan(chars, at, CharClass::Text);
                if e > at {
                    names.push(Name::Plain(cut(chars, at, e)));
                    end = e;
                } else {
                    proof {
                        assert(before + Seq::<NameView>::empty() == before);
                    }
                    break ;
                }
            },
        }
        proof {
            let piece = names@.last()@;
            let rest = grammar::segments(chars@, end as int).value;
            assert(name_views(names@) == before.push(piece));
            assert(before + (seq![piece] + rest) == before.push(piece) + rest);
        }
        at = end;
    }
    (names, at)
}

/// Reads the word at `at`, if one stands there.
fn word(chars: &Vec<char>, at: usize) -> (r: Option<(ExtendedName, usize)>)
    requires
        at <= chars.len(),
    ensures
        match r {
            Some((w, end)) => grammar::word(chars@, at as int) == Some(
                Found { value: w@, end: end as int },
            ) && at < end <= chars.len(),
            None => grammar::word(chars@, at as int) is None,
        },
{
    if at >= chars.len() {
        return None;
    }
    proof {
        grammar::lemma_word_end(chars@, at as int);
    }
    let c = chars[at];
    if CharClass::Ident.contains(c) {
        let end = scan(chars, at, CharClass::Ident);
        Some((ExtendedName::Name(Name::Plain(cut(chars, at, end))), end))
    } else if c == '$' {
        let (mut names, end) = variables(chars, at);
        if names.len() == 0 {
            None
        } else if names.len() == 1 {
            let ghost all = names@;
            let name = names.pop().unwrap();
            assert(name@ == name_views(all)[0]);
            Some((ExtendedName::Name(name), end))
        } else {
            Some((ExtendedName::Extended(names), end))
        }
    } else if c == '"' {
        let (names, end) = segments(chars, at + 1);
        if end < chars.len() && chars[end] == '"' {
            Some((ExtendedName::Extended(names), end + 1))
        } else {
            None
        }
    } else if c == '\'' {
        let end = scan(chars, at + 1, CharClass::Single);
        if end < chars.len() {
            Some((ExtendedName::Name(Name::Plain(cut(chars, at + 1, end))), end + 1))
        } else {
            None
        }
    } else {
        None
    }
}

/// Reads the words from `from` on, with the blanks before each of them.
fn words(chars: &Vec<char>, from: usize) -> (r: (Vec<ExtendedName>, usize))
    requires
        from <= chars.len(),
    ensures
        word_views(r.0@) == grammar::words(chars@, from as int).value,
        r.1 == grammar::words(chars@, from as int).end,
        from <= r.1 <= chars.len(),
{
    let mut found: Vec<ExtendedName> = Vec::new();
    let mut at = from;
    loop
        invariant
            from <= at <= chars.len(),
            grammar::words(chars@, from as int).value == word_views(found@) + grammar::words(
                chars@,
                at as int,
            ).value,
            grammar::words(chars@, from as int).end == grammar::words(chars@, at as int).end,
        ensures
            from <= at <= chars.len(),
            word_views(found@) == grammar::words(chars@, from as int).value,
            at == grammar::words(chars@, from as int).end,
        decreases chars.len() - at,
    {
        let start = scan(chars, at, CharClass::Blank);
        match word(chars, start) {
            Some((w, end)) => {
                proof {
                    let before = word_views(found@);
                    let rest = grammar::words(chars@, end as int).value;
                    assert(word_views(found@.push(w)) == before.push(w@));
                    assert(before + (seq![w@] + rest) == before.push(w@) + rest);
                }
                found.push(w);
                at = end;
            },
            None => {
                proof {
                    assert(word_views(found@) + Seq::<ExtendedNameView>::empty() == word_views(
                        found@,
                    ));
                }
                break ;
            },
        }
    }
    (found, at)
}

/// Reads the value of an assignment at `at`, if one stands there.
fn value(chars: &Vec<char>, at: usize) -> (r: Option<(String, usize)>)
    requires
        at <= chars.len(),
    ensures
        match r {
            Some((v, end)) => grammar::value(chars@, at as int) == Some(
                Found { value: v@, end: end as int },
            ) && at < end <= chars.len(),
            None => grammar::value(chars@, at as int) is None,
        },
{
    if at >= chars.len() {
        return None;
    }
    let c = chars[at];
    if CharClass::Ident.contains(c) {
        proof {
            grammar::lemma_run_end(chars@, at as int, CharClass::Ident);
        }
        let end = scan(chars, at, CharClass::Ident);
        Some((cut(chars, at, end), end))
    } else if c == '\'' || c == '"' {
        let class = if c == '"' {
            CharClass::Raw
        } else {
            CharClass::Single
        };
        let end = scan(chars, at + 1, class);
        if end < chars.len() {
            Some((cut(chars, at + 1, end), end + 1))
        } else {
            None
        }
    } else {
        None
    }
}

/// Reads the assignment at `at`, if one stands there.
fn assignment(chars: &Vec<char>, at: usize) -> (r: Option<(ExportedEnv, usize)>)
    requires
        at <= chars.len(),
    ensures
        match r {
            Some((a, end)) => grammar::assignment(chars@, at as int) == Some(
                Found { value: a@, end: end as int },
            ) && at < end <= chars.len(),
            None => grammar::assignment(chars@, at as int) is None,
        },
{
    let stop = scan(chars, at, CharClass::Name);
    if stop > at && stop < chars.len() && chars[stop] == '=' {
        match value(chars, stop + 1) {
            Some((v, end)) => Some((ExportedEnv::new(cut(chars, at, stop), v), end)),
            None => None,
        }
    } else {
        None
    }
}

/// Reads the stage at `at`, if one stands there.
fn stage(chars: &Vec<char>, at: usize) -> (r: Option<(CommandType, usize)>)
    requires
        at <= chars.len(),
    ensures
        match r {
            Some((st, end)) => grammar::stage(chars@, at as int) == Some(
                Found { value: st@, end: end as int },
            ) && at < end <= chars.len(),
            None => grammar::stage(chars@, at as int) is None,
        },
{
    match assignment(chars, at) {
        Some((a, end)) => Some((CommandType::Env(a), end)),
        None => match word(chars, at) {
            Some((name, next)) => {
                let (args, end) = words(chars, next);
                Some((CommandType::Simple(SimpleCommand::new(name, args)), end))
            },
            None => None,
        },
    }
}

/// Links `stages` into a pipeline, each stage bound to those after it.
fn chain(stages: Vec<CommandType>) -> (r: Command)
    requires
        stages.len() >= 1,
    ensures
        r@ == stage_views(stages@),
{
    let ghost all = stage_views(stages@);
    let mut stages = stages;
    let last = stages.pop().unwrap();
    let mut cmd = Command::new(last, None);
    assert(cmd@ == all.skip(stages.len() as int));
    while stages.len() > 0
        invariant
            stages.len() < all.len(),
            stage_views(stages@) == all.take(stages.len() as int),
            cmd@ == all.skip(stages.len() as int),
        decreases stages.len(),
    {
        let ghost before = stages@;
        let st = stages.pop().unwrap();
        proof {
            let n = stages.len() as int;
            assert(st@ == stage_views(before)[n]);
            assert(seq![st@] + all.skip(n + 1) == all.skip(n));
            assert(stage_views(stages@) == all.take(n));
        }
        cmd = Command::new(st, Some(Box::new(Bind::Pipe(cmd))));
    }
    assert(all.skip(0) == all);
    cmd
}

/// Parses a command line into a pipeline.
///
/// Returns the pipeline that the grammar gives the line, and `None` where the
/// line as a whole is not one of the grammar: nothing is skipped and nothing
/// is recovered.
pub fn parse_cmd(cmd: String) -> (r: Option<Command>)
    ensures
        match r {
            Some(c) => grammar::parse(cmd@) == Some(c@),
            None => grammar::parse(cmd@) is None,
        },
{
    let chars = chars_of(cmd.as_str());
    let mut stages: Vec<CommandType> = Vec::new();
    let mut at: usize = 0;
    loop
        invariant_except_break
            match grammar::pipeline(chars@, at as int) {
                Some(rest) => grammar::parse(chars@) == Some(stage_views(stages@) + rest),
                None => grammar::parse(chars@) is None,
            },
        invariant
            chars@ == cmd@,
            at <= chars.len(),
        ensures
            stages.len() >= 1,
            grammar::parse(chars@) == Some(stage_views(stages@)),
        decreases chars.len() - at,
    {
        let start = scan(&chars, at, CharClass::Blank);
        match stage(&chars, start) {
            None => {
                return None;
            },
            Some((st, end)) => {
                let stop = scan(&chars, end, CharClass::Blank);
                proof {
                    let before = stage_views(stages@);
                    assert(stage_views(stages@.push(st)) == before.push(st@));
                    assert(before + seq![st@] == before.push(st@));
                    if stop < chars.len() && chars@[stop as int] == '|' {
                        if let Some(rest) = grammar::pipeline(chars@, stop + 1) {
                            assert(before + (seq![st@] + rest) == before.push(st@) + rest);
                        }
                    }
                }
                stages.push(st);
                if stop >= chars.len() {
                    break ;
                } else if chars[stop] == '|' {
                    at = stop + 1;
                } else {
                    return None;
                }
            },
        }
    }
    Some(chain(stages))
}

} // verus!

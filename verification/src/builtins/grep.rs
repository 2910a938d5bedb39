//! `grep`: the lines of a text that a pattern is found in.
//!
//! Format: `grep [OPTIONS] PATTERN [FILE]`
//! * `-i`: ignore case
//! * `-w`: search as a word
//! * `-A n`: print `n + 1` additional lines after the matched line
//!
//! The command line is taken apart by `getopts` and the pattern is matched by
//! `regex`. What either of them gives is not proved here: it has a name, and
//! the contracts say what `grep` makes of it.
use vstd::prelude::*;
use vstd::string::*;
use crate::error::{IOErr, ShellError};
use crate::shell::{After, AfterView, Request, RequestView, ShellResult, Step, StepView};
use crate::text::{
    copy_strings, join, join_spec, lines, lines_spec, opt_text, parse_u64, parse_u64_spec, texts,
};

verus! {

#[verifier::external_type_specification]
#[verifier::external_body]
pub struct ExOptions(getopts::Options);

#[verifier::external_type_specification]
#[verifier::external_body]
pub struct ExMatches(getopts::Matches);

#[verifier::external_type_specification]
#[verifier::external_body]
pub struct ExFail(getopts::Fail);

#[verifier::external_type_specification]
#[verifier::external_body]
pub struct ExRegex(regex::Regex);

#[verifier::external_type_specification]
#[verifier::external_body]
pub struct ExRegexError(regex::Error);

/// The options that `opts` holds, in the order in which they were declared:
/// of each its short name, its long name, and whether it takes a value.
pub uninterp spec fn declared(opts: getopts::Options) -> Seq<(Seq<char>, Seq<char>, bool)>;

/// Whether `opts` is as `Options::new` made it, but for the options that were
/// declared with `optflag` and `optopt`.
pub uninterp spec fn plain(opts: getopts::Options) -> bool;

/// The arguments of a parsed command line that belong to no option.
pub uninterp spec fn free_args(m: getopts::Matches) -> Seq<Seq<char>>;

/// For each name of an option that a parsed command line was parsed for, the
/// values of its occurrences in the line, in order: `None` for an occurrence
/// without a value.
pub uninterp spec fn occurrences(m: getopts::Matches) -> Map<Seq<char>, Seq<Option<Seq<char>>>>;

/// What `Options::parse` makes of the arguments `args` for the options
/// `groups`: the free arguments and the occurrences of each option, or
/// nothing where it rejects the arguments.
pub uninterp spec fn parsed(groups: Seq<(Seq<char>, Seq<char>, bool)>, args: Seq<Seq<char>>) -> Option<
    (Seq<Seq<char>>, Map<Seq<char>, Seq<Option<Seq<char>>>>),
>;

/// Whether `RegexBuilder::build` accepts `pattern`.
pub uninterp spec fn compiles(pattern: Seq<char>, case_insensitive: bool) -> bool;

/// Where `Regex::find` finds the first match of `pattern` in `haystack`, in
/// bytes from its start.
pub uninterp spec fn first_match(
    pattern: Seq<char>,
    case_insensitive: bool,
    haystack: Seq<char>,
) -> Option<(usize, usize)>;

/// The pattern that `re` was built from, and whether to ignore case.
pub uninterp spec fn built_from(re: regex::Regex) -> (Seq<char>, bool);

/// Whether `name` can be the short name of an option: empty, or one ASCII
/// character.
pub open spec fn short_name(name: Seq<char>) -> bool {
    name.len() == 0 || (name.len() == 1 && (name[0] as u32) < 128)
}

/// Whether `name` can be the long name of an option: empty, or longer than
/// one character.
pub open spec fn long_name(name: Seq<char>) -> bool {
    name.len() != 1
}

/// Whether each option of `groups` has a name.
pub open spec fn all_named(groups: Seq<(Seq<char>, Seq<char>, bool)>) -> bool {
    forall|i: int| 0 <= i < groups.len() ==> (#[trigger] groups[i]).0.len() + groups[i].1.len() > 0
}

/// Whether `found` has an entry for every name of the options `groups`.
pub open spec fn all_known(
    groups: Seq<(Seq<char>, Seq<char>, bool)>,
    found: Map<Seq<char>, Seq<Option<Seq<char>>>>,
) -> bool {
    forall|i: int|
        0 <= i < groups.len() ==> {
            &&& (#[trigger] groups[i]).0.len() > 0 ==> found.contains_key(groups[i].0)
            &&& groups[i].1.len() > 0 ==> found.contains_key(groups[i].1)
        }
}

/// `getopts::Options::new`: a set of options that holds none.
#[verifier::external_body]
fn options_new() -> (opts: getopts::Options)
    ensures
        plain(opts),
        declared(opts) == Seq::<(Seq<char>, Seq<char>, bool)>::empty(),
{
    getopts::Options::new()
}

/// `getopts::Options::optflag`: declares one more option, which takes no
/// value. The call panics on a short name that is longer than one byte and
/// on a long name of one byte.
#[verifier::external_body]
fn optflag(opts: &mut getopts::Options, short: &str, long: &str, desc: &str)
    requires
        short_name(short@),
        long_name(long@),
    ensures
        plain(*final(opts)) == plain(*old(opts)),
        declared(*final(opts)) == declared(*old(opts)).push((short@, long@, false)),
{
    opts.optflag(short, long, desc);
}

/// `getopts::Options::optopt`: declares one more option, which takes a
/// value. The call panics on the names on which `optflag` does.
#[verifier::external_body]
fn optopt(opts: &mut getopts::Options, short: &str, long: &str, desc: &str, hint: &str)
    requires
        short_name(short@),
        long_name(long@),
    ensures
        plain(*final(opts)) == plain(*old(opts)),
        declared(*final(opts)) == declared(*old(opts)).push((short@, long@, true)),
{
    opts.optopt(short, long, desc, hint);
}

/// `getopts::Options::parse`: takes `args` apart. The result depends on the
/// options and the arguments alone. Where it is `Ok`, every name of a
/// declared option can be asked for. The call panics on an option without
/// any name.
#[verifier::external_body]
fn parse_args(opts: &getopts::Options, args: &Vec<String>) -> (r: Result<
    getopts::Matches,
    getopts::Fail,
>)
    requires
        plain(*opts),
        all_named(declared(*opts)),
    ensures
        match r {
            Ok(m) => parsed(declared(*opts), texts(args@)) == Some((free_args(m), occurrences(m)))
                && all_known(declared(*opts), occurrences(m)),
            Err(_) => parsed(declared(*opts), texts(args@)) is None,
        },
{
    opts.parse(args)
}

/// `getopts::Matches::opt_present`: whether the option `name` occurred. The
/// call panics on a name that no option has.
#[verifier::external_body]
fn opt_present(m: &getopts::Matches, name: &str) -> (r: bool)
    requires
        occurrences(*m).contains_key(name@),
    ensures
        r == (occurrences(*m)[name@].len() > 0),
{
    m.opt_present(name)
}

/// `getopts::Matches::opt_str`: the value of the first occurrence of the
/// option `name`, if it occurred with one. The call panics on a name that no
/// option has.
#[verifier::external_body]
fn opt_str(m: &getopts::Matches, name: &str) -> (r: Option<String>)
    requires
        occurrences(*m).contains_key(name@),
    ensures
        opt_text(r) == first_value(occurrences(*m)[name@]),
{
    m.opt_str(name)
}

/// The field `free` of `getopts::Matches`: the arguments that belong to no
/// option.
#[verifier::external_body]
fn free_of(m: &getopts::Matches) -> (r: &Vec<String>)
    ensures
        texts(r@) == free_args(*m),
{
    &m.free
}

/// `regex::RegexBuilder::new`, `case_insensitive` and `build`, in one chain:
/// builds the matcher of `pattern` with the builder's defaults, but that it
/// ignores case if `case_insensitive` says so. Whether the pattern is
/// accepted depends on the two arguments alone.
#[verifier::external_body]
fn compile(pattern: &str, case_insensitive: bool) -> (r: Result<regex::Regex, regex::Error>)
    ensures
        r is Ok == compiles(pattern@, case_insensitive),
        r matches Ok(re) ==> built_from(re) == (pattern@, case_insensitive),
{
    regex::RegexBuilder::new(pattern).case_insensitive(case_insensitive).build()
}

/// `regex::Regex::find`: where the pattern first matches in `haystack`, if
/// it does. The result depends on what the matcher was built from and on
/// `haystack` alone.
#[verifier::external_body]
fn find(re: &regex::Regex, haystack: &str) -> (r: Option<(usize, usize)>)
    ensures
        r == first_match(built_from(*re).0, built_from(*re).1, haystack@),
{
    re.find(haystack).map(|m| (m.start(), m.end()))
}

/// The value of the first of `occurrences`, if there is one and it has a
/// value.
pub open spec fn first_value(occurrences: Seq<Option<Seq<char>>>) -> Option<Seq<char>> {
    if occurrences.len() > 0 {
        occurrences[0]
    } else {
        None
    }
}

/// Modes of `grep` command.
#[derive(PartialEq, Eq, Debug, Clone, Copy)]
pub struct GrepMode {
    /// Ignore case flag.
    pub is_ignore: bool,
    /// 'Search as a word' flag.
    pub is_word: bool,
    /// 'Append' flag.
    /// Some(n) -- append flag is given and `n` is number of lines to append.
    /// None -- no append flag.
    pub is_append: Option<u64>,
}

/// What `grep` is called with, once its command line is taken apart. The
/// value of `-A` counts only where `-A` was given.
#[derive(PartialEq, Eq, Debug)]
pub struct GrepOptions {
    /// The arguments that belong to no option: the pattern and the file.
    pub free: Vec<String>,
    /// Whether `-A` was given.
    pub append_given: bool,
    /// The value that `-A` was given with, if any.
    pub append_value: Option<String>,
    /// Whether `-i` was given.
    pub ignore: bool,
    /// Whether `-w` was given.
    pub word: bool,
}

/// The model of a [`GrepOptions`].
pub struct GrepOptionsView {
    pub free: Seq<Seq<char>>,
    pub append_given: bool,
    pub append_value: Option<Seq<char>>,
    pub ignore: bool,
    pub word: bool,
}

impl View for GrepOptions {
    type V = GrepOptionsView;

    open spec fn view(&self) -> GrepOptionsView {
        GrepOptionsView {
            free: texts(self.free@),
            append_given: self.append_given,
            append_value: opt_text(self.append_value),
            ignore: self.ignore,
            word: self.word,
        }
    }
}

/// The options that `grep` knows.
pub open spec fn grep_options() -> Seq<(Seq<char>, Seq<char>, bool)> {
    seq![("w"@, ""@, false), ("i"@, ""@, false), ("A"@, ""@, true)]
}

/// What `grep` reads from a command line that was taken apart.
pub open spec fn options_of(
    outcome: (Seq<Seq<char>>, Map<Seq<char>, Seq<Option<Seq<char>>>>),
) -> GrepOptionsView {
    let append = outcome.1["A"@];
    GrepOptionsView {
        free: outcome.0,
        append_given: append.len() > 0,
        append_value: if append.len() > 0 {
            first_value(append)
        } else {
            None
        },
        ignore: outcome.1["i"@].len() > 0,
        word: outcome.1["w"@].len() > 0,
    }
}

/// How many lines follow a matching line for `-A` with the value `value`:
/// one more than the number that the value writes. Nothing where the value
/// writes no number, or the count does not fit 64 bits.
pub open spec fn append_count(value: Option<Seq<char>>) -> Option<u64> {
    match value {
        Some(text) => match parse_u64_spec(text) {
            Some(n) => if n < u64::MAX {
                Some((n + 1) as u64)
            } else {
                None
            },
            None => None,
        },
        None => None,
    }
}

/// The pattern that is searched for: `pattern` itself, or `pattern` between
/// two word boundaries.
pub open spec fn effective_pattern(pattern: Seq<char>, mode: GrepMode) -> Seq<char> {
    if mode.is_word {
        seq!['\\', 'b'] + pattern + seq!['\\', 'b']
    } else {
        pattern
    }
}

/// Whether line `i` counts as matching, by `hits`.
pub open spec fn hit(hits: Seq<bool>, i: int) -> bool {
    0 <= i < hits.len() && hits[i]
}

/// The lines chosen among the first `upto` of `lines`, and how many lines
/// that follow them are still to be taken whatever they hold. A line is
/// chosen if it follows a chosen matching line closely enough, or else if it
/// matches; in the second case `append` lines after it are taken.
pub open spec fn chosen(lines: Seq<Seq<char>>, hits: Seq<bool>, append: Option<u64>, upto: int) -> (
    Seq<Seq<char>>,
    nat,
)
    decreases upto,
{
    if upto <= 0 {
        (Seq::empty(), 0)
    } else {
        let (before, allowed) = chosen(lines, hits, append, upto - 1);
        if allowed > 0 {
            (before.push(lines[upto - 1]), (allowed - 1) as nat)
        } else if hit(hits, upto - 1) {
            (
                before.push(lines[upto - 1]),
                match append {
                    Some(n) => n as nat,
                    None => 0,
                },
            )
        } else {
            (before, 0)
        }
    }
}

/// For each line of `lines`, whether `pattern` is found in it.
pub open spec fn hits_of(pattern: Seq<char>, case_insensitive: bool, lines: Seq<Seq<char>>) -> Seq<
    bool,
> {
    Seq::new(lines.len(), |i: int| first_match(pattern, case_insensitive, lines[i]) is Some)
}

/// What searching `content` for `pattern` gives: the chosen lines, joined by
/// line feeds, or an error where the pattern is not accepted.
pub open spec fn grep_impl_spec(content: Seq<char>, pattern: Seq<char>, mode: GrepMode) -> ShellResult<
    Seq<char>,
> {
    let pat = effective_pattern(pattern, mode);
    let all = lines_spec(content);
    if compiles(pat, mode.is_ignore) {
        ShellResult::Output(
            join_spec(
                chosen(all, hits_of(pat, mode.is_ignore, all), mode.is_append, all.len() as int).0,
                "\n"@,
            ),
        )
    } else {
        ShellResult::Failure(ShellError::Error("Unable to build regex."))
    }
}

/// What `grep` does with a command line that was taken apart, or that could
/// not be, and with the text `input` that a pipe hands it.
pub open spec fn grep_with_spec(options: Option<GrepOptionsView>, input: Option<Seq<char>>) -> StepView {
    match options {
        None => StepView::Done(
            ShellResult::Failure(ShellError::Error("Unable to parse command line arguments.")),
        ),
        Some(o) => {
            let count = if o.append_given {
                append_count(o.append_value)
            } else {
                None
            };
            let mode = GrepMode { is_ignore: o.ignore, is_word: o.word, is_append: count };
            if o.free.len() == 0 {
                StepView::Done(ShellResult::Failure(ShellError::Error("No pattern to grep.")))
            } else if o.append_given && count is None {
                StepView::Done(
                    ShellResult::Failure(
                        ShellError::Error("Option `A` needs a number as an argument."),
                    ),
                )
            } else if o.free.len() < 2 {
                match input {
                    Some(content) => StepView::Done(grep_impl_spec(content, o.free[0], mode)),
                    None => StepView::Done(ShellResult::Failure(ShellError::IOError(IOErr::Read))),
                }
            } else {
                StepView::Ask(
                    RequestView::ReadFile { path: o.free[1] },
                    AfterView::Grep { pattern: o.free[0], mode },
                )
            }
        },
    }
}

/// What `grep` does with the arguments `args` and the text `input`.
pub open spec fn grep_spec(args: Seq<Seq<char>>, input: Option<Seq<char>>) -> StepView {
    grep_with_spec(
        match parsed(grep_options(), args) {
            Some(outcome) => Some(options_of(outcome)),
            None => None,
        },
        input,
    )
}

/// Searches for a pattern in a file, or in the text that a pipe hands over.
///
/// The first argument that belongs to no option is the pattern, the second,
/// if there is one, the file: the text is then read from the file, and the
/// host is asked for it.
pub fn grep(args: &Vec<String>, msg: Option<String>) -> (r: Step)
    ensures
        r@ == grep_spec(texts(args@), opt_text(msg)),
{
    proof {
        reveal_strlit("w");
        reveal_strlit("i");
        reveal_strlit("A");
        reveal_strlit("");
    }
    let mut opts = options_new();
    optflag(&mut opts, "w", "", "search as a word");
    optflag(&mut opts, "i", "", "ignore case");
    optopt(&mut opts, "A", "", "print `n` additional lines after the matched line", "N");
    assert(declared(opts) == grep_options());
    let options = match parse_args(&opts, args) {
        Ok(m) => {
            proof {
                assert(grep_options()[0].0 == "w"@);
                assert(grep_options()[1].0 == "i"@);
                assert(grep_options()[2].0 == "A"@);
            }
            let append_given = opt_present(&m, "A");
            let append_value = if append_given {
                opt_str(&m, "A")
            } else {
                None
            };
            let ignore = opt_present(&m, "i");
            let word = opt_present(&m, "w");
            Some(GrepOptions { free: copy_strings(free_of(&m)), append_given, append_value, ignore, word })
        },
        Err(_) => None,
    };
    grep_with(options, msg)
}

/// Does what `grep` does once its command line was taken apart into
/// `options`, or could not be.
pub fn grep_with(options: Option<GrepOptions>, msg: Option<String>) -> (r: Step)
    ensures
        r@ == grep_with_spec(
            match options {
                Some(o) => Some(o@),
                None => None,
            },
            opt_text(msg),
        ),
{
    let options = match options {
        Some(o) => o,
        None => {
            return Step::Done(
                ShellResult::Failure(ShellError::Error("Unable to parse command line arguments.")),
            );
        },
    };
    // `free` contains the rest non-options arguments.
    if options.free.len() == 0 {
        return Step::Done(ShellResult::Failure(ShellError::Error("No pattern to grep.")));
    }
    let pattern = options.free[0].clone();
    let count = if options.append_given {
        let number = match &options.append_value {
            Some(num) => parse_u64(num.as_str()),
            None => None,
        };
        match number {
            Some(n) if n < u64::MAX => Some(n + 1),
            _ => {
                return Step::Done(
                    ShellResult::Failure(
                        ShellError::Error("Option `A` needs a number as an argument."),
                    ),
                );
            },
        }
    } else {
        None
    };
    let mode = GrepMode { is_ignore: options.ignore, is_word: options.word, is_append: count };
    if options.free.len() < 2 {
        return match msg {
            Some(content) => Step::Done(grep_impl(&content, pattern, &mode)),
            None => Step::Done(ShellResult::Failure(ShellError::IOError(IOErr::Read))),
        };
    }
    let path = options.free[1].clone();
    Step::Ask(Request::ReadFile { path }, After::Grep { pattern, mode })
}

fn build_regex(pattern: String, mode: &GrepMode) -> (r: Option<regex::Regex>)
    ensures
        r is Some == compiles(effective_pattern(pattern@, *mode), mode.is_ignore),
        r matches Some(re) ==> built_from(re) == (
            effective_pattern(pattern@, *mode),
            mode.is_ignore,
        ),
{
    let pat = if mode.is_word {
        proof {
            reveal_strlit("\\b");
        }
        let mut pat = String::from_str("\\b");
        pat.append(pattern.as_str());
        pat.append("\\b");
        assert(pat@ == effective_pattern(pattern@, *mode));
        pat
    } else {
        pattern
    };
    match compile(pat.as_str(), mode.is_ignore) {
        Ok(re) => Some(re),
        Err(_) => None,
    }
}

/// Chooses among `lines`, of which `hits` says which match.
///
/// A matching line is taken, and after it the `append` lines that follow,
/// whatever they hold; a match among those does not start the count again.
pub fn select_lines(lines: &Vec<String>, hits: &Vec<bool>, append: Option<u64>) -> (r: Vec<String>)
    ensures
        texts(r@) == chosen(texts(lines@), hits@, append, lines.len() as int).0,
{
    let mut allow_to_print: u64 = 0;
    let mut output: Vec<String> = Vec::new();
    let mut i: usize = 0;
    while i < lines.len()
        invariant
            i <= lines.len(),
            texts(output@) == chosen(texts(lines@), hits@, append, i as int).0,
            allow_to_print == chosen(texts(lines@), hits@, append, i as int).1,
        decreases lines.len() - i,
    {
        let ghost before = texts(output@);
        if allow_to_print > 0 {
            output.push(lines[i].clone());
            allow_to_print = allow_to_print - 1;
            assert(texts(output@) == before.push(texts(lines@)[i as int]));
        } else if i < hits.len() && hits[i] {
            output.push(lines[i].clone());
            if let Some(a) = append {
                allow_to_print = a;
            }
            assert(texts(output@) == before.push(texts(lines@)[i as int]));
        }
        i = i + 1;
    }
    output
}

/// Searches `content` for `pattern`, line by line.
pub fn grep_impl(content: &String, pattern: String, mode: &GrepMode) -> (r: ShellResult<String>)
    ensures
        r@ == grep_impl_spec(content@, pattern@, *mode),
{
    let regex = match build_regex(pattern, mode) {
        Some(r) => r,
        None => {
            return ShellResult::Failure(ShellError::Error("Unable to build regex."));
        },
    };
    let all = lines(content.as_str());
    let ghost pat = effective_pattern(pattern@, *mode);
    let mut hits: Vec<bool> = Vec::new();
    let mut i: usize = 0;
    while i < all.len()
        invariant
            i <= all.len(),
            built_from(regex) == (pat, mode.is_ignore),
            hits@ == hits_of(pat, mode.is_ignore, texts(all@)).take(i as int),
        decreases all.len() - i,
    {
        let found = find(&regex, all[i].as_str());
        assert(hits@.push(found.is_some()) == hits_of(pat, mode.is_ignore, texts(all@)).take(
            i + 1,
        ));
        hits.push(found.is_some());
        i = i + 1;
    }
    assert(hits@ == hits_of(pat, mode.is_ignore, texts(all@)));
    let output = select_lines(&all, &hits, mode.is_append);
    ShellResult::Output(join(&output, "\n"))
}

} // verus!

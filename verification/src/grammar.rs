//! The grammar of a command line, as functions on its characters.
//!
//! ```text
//! line       = stage ( "|" stage )*            blanks may stand around each stage
//! stage      = assignment | invocation         an assignment is tried first
//! assignment = name "=" value
//! value      = ident | "'" not-'* "'" | '"' not-"* '"'
//! invocation = word ( word )*                  blanks may stand between the words
//! word       = ident | variable+ | '"' ( variable | text )* '"' | "'" not-'* "'"
//! variable   = "$" name
//! name       = one or more ASCII letters, ASCII digits and _
//! ident      = one or more characters but blank, line feed, carriage return,
//!              and | $ ' " =
//! text       = one or more characters but " and $
//! blank      = space or tab
//! ```
//!
//! Each rule takes the longest run it can and never gives characters back, and
//! of the alternatives of a rule the first that fits is taken for good. A line
//! is accepted only as a whole.
use vstd::prelude::*;
use crate::parser::{
    CommandTypeView, ExportedEnvView, ExtendedNameView, NameView, SimpleCommandView,
};

verus! {

/// The kinds of character that the grammar tells apart.
#[derive(Clone, Copy, PartialEq, Eq, Debug)]
pub enum CharClass {
    /// Space and tab.
    Blank,
    /// What the name of a variable is made of.
    Name,
    /// What a bare word is made of.
    Ident,
    /// What may stand between single quotes.
    Single,
    /// What may stand between double quotes as literal text.
    Text,
    /// What may stand between the double quotes of an assigned value.
    Raw,
}

impl CharClass {
    /// Whether `c` belongs to the class.
    pub open spec fn holds(self, c: char) -> bool {
        match self {
            CharClass::Blank => c == ' ' || c == '\t',
            CharClass::Name => ('a' <= c && c <= 'z') || ('A' <= c && c <= 'Z') || ('0' <= c && c
                <= '9') || c == '_',
            CharClass::Ident => !(c == ' ' || c == '\t' || c == '\n' || c == '\r' || c == '|' || c
                == '$' || c == '\'' || c == '"' || c == '='),
            CharClass::Single => c != '\'',
            CharClass::Text => c != '"' && c != '$',
            CharClass::Raw => c != '"',
        }
    }

    /// Whether `c` belongs to the class.
    pub fn contains(self, c: char) -> (r: bool)
        ensures
            r == self.holds(c),
    {
        match self {
            CharClass::Blank => c == ' ' || c == '\t',
            CharClass::Name => ('a' <= c && c <= 'z') || ('A' <= c && c <= 'Z') || ('0' <= c && c
                <= '9') || c == '_',
            CharClass::Ident => !(c == ' ' || c == '\t' || c == '\n' || c == '\r' || c == '|' || c
                == '$' || c == '\'' || c == '"' || c == '='),
            CharClass::Single => c != '\'',
            CharClass::Text => c != '"' && c != '$',
            CharClass::Raw => c != '"',
        }
    }
}

/// What a rule found: a value, and the index behind the characters it took.
pub struct Found<T> {
    pub value: T,
    pub end: int,
}

/// Where the longest run of characters of `class` that starts at `i` ends.
pub open spec fn run_end(s: Seq<char>, i: int, class: CharClass) -> int
    decreases s.len() - i,
{
    if 0 <= i < s.len() && class.holds(s[i]) {
        run_end(s, i + 1, class)
    } else {
        i
    }
}

/// A run ends at or behind its start and within the line, holds only
/// characters of its class, and is followed by none.
pub proof fn lemma_run_end(s: Seq<char>, i: int, class: CharClass)
    ensures
        i <= run_end(s, i, class),
        0 <= i <= s.len() ==> run_end(s, i, class) <= s.len(),
        !(0 <= i < s.len()) ==> run_end(s, i, class) == i,
        forall|k: int| 0 <= i <= k < run_end(s, i, class) ==> class.holds(#[trigger] s[k]),
        0 <= i && run_end(s, i, class) < s.len() ==> !class.holds(s[run_end(s, i, class)]),
    decreases s.len() - i,
{
    if 0 <= i < s.len() && class.holds(s[i]) {
        lemma_run_end(s, i + 1, class);
    }
}

/// The variable that starts at `i`: a dollar sign and the name behind it.
pub open spec fn variable(s: Seq<char>, i: int) -> Option<Found<Seq<char>>> {
    let end = run_end(s, i + 1, CharClass::Name);
    if 0 <= i < s.len() && s[i] == '$' && end > i + 1 {
        Some(Found { value: s.subrange(i + 1, end), end })
    } else {
        None
    }
}

/// `first` before what `rest` found.
pub open spec fn prepend<T>(first: T, rest: Found<Seq<T>>) -> Found<Seq<T>> {
    Found { value: seq![first] + rest.value, end: rest.end }
}

/// The variables that stand one directly after the other from `i` on.
pub open spec fn variables(s: Seq<char>, i: int) -> Found<Seq<NameView>>
    decreases s.len() - i,
{
    match variable(s, i) {
        Some(v) => {
            proof {
                lemma_run_end(s, i + 1, CharClass::Name);
            }
            prepend(NameView::EnvVar(v.value), variables(s, v.end))
        },
        None => Found { value: Seq::empty(), end: i },
    }
}

/// The pieces of the body of a double quoted string that starts at `i`:
/// variables and the literal text between them, as far as they reach.
pub open spec fn segments(s: Seq<char>, i: int) -> Found<Seq<NameView>>
    decreases s.len() - i,
{
    let end = run_end(s, i, CharClass::Text);
    match variable(s, i) {
        Some(v) => {
            proof {
                lemma_run_end(s, i + 1, CharClass::Name);
            }
            prepend(NameView::EnvVar(v.value), segments(s, v.end))
        },
        None => if 0 <= i < s.len() && end > i {
            proof {
                lemma_run_end(s, i, CharClass::Text);
            }
            prepend(NameView::Plain(s.subrange(i, end)), segments(s, end))
        } else {
            Found { value: Seq::empty(), end: i }
        },
    }
}

/// The word that starts at `i`.
pub open spec fn word(s: Seq<char>, i: int) -> Option<Found<ExtendedNameView>> {
    if !(0 <= i < s.len()) {
        None
    } else if CharClass::Ident.holds(s[i]) {
        let end = run_end(s, i, CharClass::Ident);
        Some(Found { value: ExtendedNameView::Name(NameView::Plain(s.subrange(i, end))), end })
    } else if s[i] == '$' {
        let vars = variables(s, i);
        if vars.value.len() == 0 {
            None
        } else if vars.value.len() == 1 {
            Some(Found { value: ExtendedNameView::Name(vars.value[0]), end: vars.end })
        } else {
            Some(Found { value: ExtendedNameView::Extended(vars.value), end: vars.end })
        }
    } else if s[i] == '"' {
        let body = segments(s, i + 1);
        if 0 <= body.end < s.len() && s[body.end] == '"' {
            Some(Found { value: ExtendedNameView::Extended(body.value), end: body.end + 1 })
        } else {
            None
        }
    } else if s[i] == '\'' {
        let end = run_end(s, i + 1, CharClass::Single);
        if end < s.len() {
            Some(
                Found {
                    value: ExtendedNameView::Name(NameView::Plain(s.subrange(i + 1, end))),
                    end: end + 1,
                },
            )
        } else {
            None
        }
    } else {
        None
    }
}

/// Variables end within the line, and behind their start where there is
/// one.
pub proof fn lemma_variables_end(s: Seq<char>, i: int)
    requires
        0 <= i <= s.len(),
    ensures
        i <= variables(s, i).end <= s.len(),
        variables(s, i).value.len() > 0 ==> i < variables(s, i).end,
    decreases s.len() - i,
{
    lemma_run_end(s, i + 1, CharClass::Name);
    match variable(s, i) {
        Some(v) => {
            lemma_variables_end(s, v.end);
        },
        None => {},
    }
}

/// The pieces of a double quoted string end within the line.
pub proof fn lemma_segments_end(s: Seq<char>, i: int)
    requires
        0 <= i <= s.len(),
    ensures
        i <= segments(s, i).end <= s.len(),
    decreases s.len() - i,
{
    lemma_run_end(s, i + 1, CharClass::Name);
    lemma_run_end(s, i, CharClass::Text);
    match variable(s, i) {
        Some(v) => {
            lemma_segments_end(s, v.end);
        },
        None => {
            let end = run_end(s, i, CharClass::Text);
            if i < s.len() && end > i {
                lemma_segments_end(s, end);
            }
        },
    }
}

/// A word takes at least one character, and none from behind the line.
pub proof fn lemma_word_end(s: Seq<char>, i: int)
    ensures
        word(s, i) matches Some(w) ==> 0 <= i < w.end <= s.len(),
{
    if 0 <= i < s.len() {
        lemma_run_end(s, i, CharClass::Ident);
        lemma_run_end(s, i + 1, CharClass::Single);
        lemma_variables_end(s, i);
        lemma_segments_end(s, i + 1);
    }
}

/// The words from `i` on, with the blanks before each of them.
pub open spec fn words(s: Seq<char>, i: int) -> Found<Seq<ExtendedNameView>>
    decreases s.len() - i,
{
    let start = run_end(s, i, CharClass::Blank);
    match word(s, start) {
        Some(w) => {
            proof {
                lemma_run_end(s, i, CharClass::Blank);
                lemma_word_end(s, start);
            }
            prepend(w.value, words(s, w.end))
        },
        None => Found { value: Seq::empty(), end: i },
    }
}

/// The value of an assignment that starts at `i`: a bare word, or what
/// stands between two single or two double quotes, taken as it is.
pub open spec fn value(s: Seq<char>, i: int) -> Option<Found<Seq<char>>> {
    if !(0 <= i < s.len()) {
        None
    } else if CharClass::Ident.holds(s[i]) {
        let end = run_end(s, i, CharClass::Ident);
        Some(Found { value: s.subrange(i, end), end })
    } else if s[i] == '\'' {
        let end = run_end(s, i + 1, CharClass::Single);
        if end < s.len() {
            Some(Found { value: s.subrange(i + 1, end), end: end + 1 })
        } else {
            None
        }
    } else if s[i] == '"' {
        let end = run_end(s, i + 1, CharClass::Raw);
        if end < s.len() {
            Some(Found { value: s.subrange(i + 1, end), end: end + 1 })
        } else {
            None
        }
    } else {
        None
    }
}

/// The assignment that starts at `i`.
pub open spec fn assignment(s: Seq<char>, i: int) -> Option<Found<ExportedEnvView>> {
    let end = run_end(s, i, CharClass::Name);
    if 0 <= i < end && end < s.len() && s[end] == '=' {
        match value(s, end + 1) {
            Some(v) => Some(
                Found {
                    value: ExportedEnvView { name: s.subrange(i, end), value: v.value },
                    end: v.end,
                },
            ),
            None => None,
        }
    } else {
        None
    }
}

/// The stage that starts at `i`.
pub open spec fn stage(s: Seq<char>, i: int) -> Option<Found<CommandTypeView>> {
    match assignment(s, i) {
        Some(a) => Some(Found { value: CommandTypeView::Env(a.value), end: a.end }),
        None => match word(s, i) {
            Some(name) => {
                let args = words(s, name.end);
                Some(
                    Found {
                        value: CommandTypeView::Simple(
                            SimpleCommandView { name: name.value, args: args.value },
                        ),
                        end: args.end,
                    },
                )
            },
            None => None,
        },
    }
}

/// Words end within the line.
pub proof fn lemma_words_end(s: Seq<char>, i: int)
    requires
        0 <= i <= s.len(),
    ensures
        i <= words(s, i).end <= s.len(),
    decreases s.len() - i,
{
    let start = run_end(s, i, CharClass::Blank);
    lemma_run_end(s, i, CharClass::Blank);
    lemma_word_end(s, start);
    match word(s, start) {
        Some(w) => {
            lemma_words_end(s, w.end);
        },
        None => {},
    }
}

/// A stage takes at least one character, and none from behind the line.
pub proof fn lemma_stage_end(s: Seq<char>, i: int)
    ensures
        stage(s, i) matches Some(st) ==> 0 <= i < st.end <= s.len(),
{
    if 0 <= i < s.len() {
        lemma_run_end(s, i, CharClass::Name);
        let end = run_end(s, i, CharClass::Name);
        if end + 1 <= s.len() {
            lemma_run_end(s, end + 1, CharClass::Ident);
            lemma_run_end(s, end + 2, CharClass::Single);
            lemma_run_end(s, end + 2, CharClass::Raw);
        }
        lemma_word_end(s, i);
        match word(s, i) {
            Some(name) => {
                lemma_words_end(s, name.end);
            },
            None => {},
        }
    }
}

/// The stages of the pipeline that starts at `i` and ends with the line.
pub open spec fn pipeline(s: Seq<char>, i: int) -> Option<Seq<CommandTypeView>>
    decreases s.len() - i,
{
    let start = run_end(s, i, CharClass::Blank);
    match stage(s, start) {
        Some(st) => {
            let stop = run_end(s, st.end, CharClass::Blank);
            if stop >= s.len() {
                Some(seq![st.value])
            } else if s[stop] == '|' {
                proof {
                    lemma_run_end(s, i, CharClass::Blank);
                    lemma_stage_end(s, start);
                    lemma_run_end(s, st.end, CharClass::Blank);
                }
                match pipeline(s, stop + 1) {
                    Some(rest) => Some(seq![st.value] + rest),
                    None => None,
                }
            } else {
                None
            }
        },
        None => None,
    }
}

/// What a command line means: the stages of its pipeline, or nothing where
/// the line is not one of the grammar.
pub open spec fn parse(s: Seq<char>) -> Option<Seq<CommandTypeView>> {
    pipeline(s, 0)
}

/// A run ends where the characters of its class end.
pub proof fn lemma_run_exact(s: Seq<char>, i: int, j: int, class: CharClass)
    requires
        0 <= i <= j <= s.len(),
        forall|k: int| i <= k < j ==> class.holds(#[trigger] s[k]),
        j == s.len() || !class.holds(s[j]),
    ensures
        run_end(s, i, class) == j,
    decreases j - i,
{
    if i < j {
        lemma_run_exact(s, i + 1, j, class);
    }
}

/// What stands between two single quotes is one word of literal text,
/// whatever it holds: dollar signs, double quotes, blanks and bars are
/// characters like any other there.
pub proof fn lemma_single_quoted_word(s: Seq<char>, i: int, j: int)
    requires
        0 <= i < j < s.len(),
        s[i] == '\'',
        s[j] == '\'',
        forall|k: int| i < k < j ==> s[k] != '\'',
    ensures
        word(s, i) == Some(
            Found {
                value: ExtendedNameView::Name(NameView::Plain(s.subrange(i + 1, j))),
                end: j + 1,
            },
        ),
{
    lemma_run_exact(s, i + 1, j, CharClass::Single);
}

/// The line `echo '…'` is a call of `echo` with one argument: the text
/// between the quotes, as it is.
pub proof fn lemma_single_quotes_are_literal(body: Seq<char>)
    requires
        forall|k: int| 0 <= k < body.len() ==> body[k] != '\'',
    ensures
        parse("echo '"@ + body + "'"@) == Some(
            seq![
                CommandTypeView::Simple(
                    SimpleCommandView {
                        name: ExtendedNameView::Name(NameView::Plain("echo"@)),
                        args: seq![ExtendedNameView::Name(NameView::Plain(body))],
                    },
                ),
            ],
        ),
{
    reveal_strlit("echo '");
    reveal_strlit("echo");
    reveal_strlit("'");
    let s = "echo '"@ + body + "'"@;
    let n = s.len() as int;
    assert(n == body.len() + 7);
    assert(s[0] == 'e' && s[1] == 'c' && s[2] == 'h' && s[3] == 'o' && s[4] == ' ' && s[5] == '\'');
    assert(s[n - 1] == '\'');
    assert forall|k: int| 5 < k < n - 1 implies s[k] != '\'' by {
        assert(s[k] == body[k - 6]);
    }
    lemma_run_exact(s, 0, 0, CharClass::Blank);
    lemma_run_exact(s, 0, 4, CharClass::Name);
    lemma_run_exact(s, 0, 4, CharClass::Ident);
    assert(s.subrange(0, 4) == "echo"@);
    assert(assignment(s, 0) is None);
    lemma_run_exact(s, 4, 5, CharClass::Blank);
    lemma_single_quoted_word(s, 5, n - 1);
    assert(s.subrange(6, n - 1) == body);
    lemma_run_exact(s, n, n, CharClass::Blank);
    assert(word(s, n) is None);
    assert(words(s, n) == Found { value: Seq::<ExtendedNameView>::empty(), end: n });
    let quoted = ExtendedNameView::Name(NameView::Plain(body));
    assert(words(s, 4) == Found { value: seq![quoted], end: n }) by {
        assert(seq![quoted] + Seq::<ExtendedNameView>::empty() == seq![quoted]);
    }
}

/// A line that is parsed holds at least one stage.
pub proof fn lemma_parse_nonempty(s: Seq<char>)
    ensures
        parse(s) matches Some(stages) ==> stages.len() >= 1,
{
}

/// A double quote that is not closed starts no word: the pieces behind it
/// end at a double quote or never.
pub proof fn lemma_unclosed_double_quote(s: Seq<char>, i: int)
    requires
        0 <= i < s.len(),
        s[i] == '"',
        forall|k: int| i < k < s.len() ==> s[k] != '"',
    ensures
        word(s, i) is None,
{
    lemma_segments_end(s, i + 1);
}

/// A single quote that is not closed starts no word.
pub proof fn lemma_unclosed_single_quote(s: Seq<char>, i: int)
    requires
        0 <= i < s.len(),
        s[i] == '\'',
        forall|k: int| i < k < s.len() ==> s[k] != '\'',
    ensures
        word(s, i) is None,
{
    lemma_run_end(s, i + 1, CharClass::Single);
}

/// The line `echo "…` whose double quote is never closed is rejected as a
/// whole, whatever stands behind the quote.
pub proof fn lemma_unclosed_quote_is_rejected(body: Seq<char>)
    requires
        forall|k: int| 0 <= k < body.len() ==> body[k] != '"',
    ensures
        parse("echo \""@ + body) is None,
{
    reveal_strlit("echo \"");
    let s = "echo \""@ + body;
    assert(s[0] == 'e' && s[1] == 'c' && s[2] == 'h' && s[3] == 'o' && s[4] == ' ' && s[5] == '"');
    assert forall|k: int| 5 < k < s.len() implies s[k] != '"' by {
        assert(s[k] == body[k - 6]);
    }
    lemma_run_exact(s, 0, 0, CharClass::Blank);
    lemma_run_exact(s, 0, 4, CharClass::Name);
    lemma_run_exact(s, 0, 4, CharClass::Ident);
    assert(assignment(s, 0) is None);
    lemma_run_exact(s, 4, 5, CharClass::Blank);
    lemma_unclosed_double_quote(s, 5);
    assert(words(s, 4).end == 4);
}

} // verus!

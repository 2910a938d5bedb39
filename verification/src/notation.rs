//! How a pipeline is written down, and the law that parsing reads it back.
//!
//! Every pipeline that parsing can give has a plain way of being written:
//! one blank between the words of a stage, ` | ` between two stages, literal
//! text bare where it can be and between single quotes where it cannot,
//! pieces between double quotes. This module says which pipelines these are,
//! writes them, and proves that parsing gives no other pipelines and gives
//! each of them back for what was written.
use vstd::prelude::*;
use crate::grammar::{
    assignment, lemma_run_end, lemma_run_exact, pipeline, parse, run_end, segments, stage, value,
    variable, variables, word, words, CharClass, Found,
};
use crate::parser::{CommandTypeView, ExtendedNameView, NameView};

verus! {

/// Whether `text` holds characters of `class` only.
pub open spec fn all_in(class: CharClass, text: Seq<char>) -> bool {
    forall|k: int| 0 <= k < text.len() ==> class.holds(#[trigger] text[k])
}

/// Whether `text` can be written as a bare word.
pub open spec fn is_bare(text: Seq<char>) -> bool {
    text.len() > 0 && all_in(CharClass::Ident, text)
}

/// Whether `text` can be the name of a variable.
pub open spec fn is_name(text: Seq<char>) -> bool {
    text.len() > 0 && all_in(CharClass::Name, text)
}

/// Whether `piece` can stand between double quotes.
pub open spec fn piece_ok(piece: NameView) -> bool {
    match piece {
        NameView::Plain(text) => text.len() > 0 && all_in(CharClass::Text, text),
        NameView::EnvVar(id) => is_name(id),
    }
}

/// Whether `next` can follow `piece` between double quotes and stay apart
/// from it: literal text does not follow literal text, and what follows a
/// variable does not go on with its name.
pub open spec fn follows_ok(piece: NameView, next: NameView) -> bool {
    match (piece, next) {
        (NameView::Plain(_), NameView::Plain(_)) => false,
        (NameView::EnvVar(_), NameView::Plain(text)) => text.len() > 0 && !CharClass::Name.holds(
            text[0],
        ),
        _ => true,
    }
}

/// Whether `pieces` can be the pieces of one double quoted string.
pub open spec fn pieces_ok(pieces: Seq<NameView>) -> bool
    decreases pieces.len(),
{
    pieces.len() == 0 || {
        &&& piece_ok(pieces[0])
        &&& pieces.len() == 1 || follows_ok(pieces[0], pieces[1])
        &&& pieces_ok(pieces.skip(1))
    }
}

/// Whether parsing can give the word `w`.
pub open spec fn word_ok(w: ExtendedNameView) -> bool {
    match w {
        ExtendedNameView::Name(NameView::Plain(text)) => is_bare(text) || all_in(
            CharClass::Single,
            text,
        ),
        ExtendedNameView::Name(NameView::EnvVar(id)) => is_name(id),
        ExtendedNameView::Extended(pieces) => pieces_ok(pieces),
    }
}

/// Whether parsing can give the stage `st`.
pub open spec fn stage_ok(st: CommandTypeView) -> bool {
    match st {
        CommandTypeView::Simple(call) => word_ok(call.name) && forall|k: int|
            0 <= k < call.args.len() ==> word_ok(#[trigger] call.args[k]),
        CommandTypeView::Env(set) => is_name(set.name) && (is_bare(set.value) || all_in(
            CharClass::Single,
            set.value,
        ) || all_in(CharClass::Raw, set.value)),
    }
}

/// Whether parsing can give the pipeline `stages`.
pub open spec fn line_ok(stages: Seq<CommandTypeView>) -> bool {
    stages.len() >= 1 && forall|k: int| 0 <= k < stages.len() ==> stage_ok(#[trigger] stages[k])
}

/// A piece as it is written between double quotes.
pub open spec fn write_piece(piece: NameView) -> Seq<char> {
    match piece {
        NameView::Plain(text) => text,
        NameView::EnvVar(id) => seq!['$'] + id,
    }
}

/// Pieces as they are written between double quotes, one directly after
/// the other.
pub open spec fn write_pieces(pieces: Seq<NameView>) -> Seq<char>
    decreases pieces.len(),
{
    if pieces.len() == 0 {
        Seq::empty()
    } else {
        write_piece(pieces[0]) + write_pieces(pieces.skip(1))
    }
}

/// A word as it is written: literal text bare where that can be, else
/// between single quotes; a variable behind its dollar sign; pieces between
/// double quotes.
pub open spec fn write_word(w: ExtendedNameView) -> Seq<char> {
    match w {
        ExtendedNameView::Name(NameView::Plain(text)) => if is_bare(text) {
            text
        } else {
            seq!['\''] + text + seq!['\'']
        },
        ExtendedNameView::Name(NameView::EnvVar(id)) => seq!['$'] + id,
        ExtendedNameView::Extended(pieces) => seq!['"'] + write_pieces(pieces) + seq!['"'],
    }
}

/// Words as they are written as arguments: a blank before each.
pub open spec fn write_words(ws: Seq<ExtendedNameView>) -> Seq<char>
    decreases ws.len(),
{
    if ws.len() == 0 {
        Seq::empty()
    } else {
        seq![' '] + write_word(ws[0]) + write_words(ws.skip(1))
    }
}

/// An assigned value as it is written: bare where that can be, else between
/// single quotes where it holds none, else between double quotes.
pub open spec fn write_value(v: Seq<char>) -> Seq<char> {
    if is_bare(v) {
        v
    } else if all_in(CharClass::Single, v) {
        seq!['\''] + v + seq!['\'']
    } else {
        seq!['"'] + v + seq!['"']
    }
}

/// A stage as it is written.
pub open spec fn write_stage(st: CommandTypeView) -> Seq<char> {
    match st {
        CommandTypeView::Simple(call) => write_word(call.name) + write_words(call.args),
        CommandTypeView::Env(set) => set.name + seq!['='] + write_value(set.value),
    }
}

/// A pipeline as it is written: its stages with ` | ` between each two.
pub open spec fn write_line(stages: Seq<CommandTypeView>) -> Seq<char>
    decreases stages.len(),
{
    if stages.len() == 0 {
        Seq::empty()
    } else if stages.len() == 1 {
        write_stage(stages[0])
    } else {
        write_stage(stages[0]) + seq![' ', '|', ' '] + write_line(stages.skip(1))
    }
}

/// Whether `text` stands in `s` from index `i` on.
pub open spec fn has_at(s: Seq<char>, i: int, text: Seq<char>) -> bool {
    &&& 0 <= i
    &&& i + text.len() <= s.len()
    &&& s.subrange(i, i + text.len()) == text
}

/// Whether a stage can end at index `k` of `s`: the line ends there, or a
/// blank and a bar follow.
pub open spec fn stage_may_end(s: Seq<char>, k: int) -> bool {
    k == s.len() || (0 <= k && k + 1 < s.len() && s[k] == ' ' && s[k + 1] == '|')
}

/// Whether a word can end at index `k` of `s`: the line ends there, or a
/// blank follows.
pub open spec fn word_may_end(s: Seq<char>, k: int) -> bool {
    k == s.len() || (0 <= k < s.len() && s[k] == ' ')
}

proof fn lemma_has_at_split(s: Seq<char>, i: int, first: Seq<char>, second: Seq<char>)
    requires
        has_at(s, i, first + second),
    ensures
        has_at(s, i, first),
        has_at(s, i + first.len(), second),
{
    let whole = first + second;
    assert(s.subrange(i, i + first.len()) == first) by {
        assert forall|k: int| 0 <= k < first.len() implies s.subrange(i, i + first.len())[k]
            == first[k] by {
            assert(s.subrange(i, i + whole.len())[k] == whole[k]);
        }
    }
    assert(s.subrange(i + first.len(), i + first.len() + second.len()) == second) by {
        assert forall|k: int| 0 <= k < second.len() implies s.subrange(
            i + first.len(),
            i + first.len() + second.len(),
        )[k] == second[k] by {
            assert(s.subrange(i, i + whole.len())[first.len() + k] == whole[first.len() + k]);
        }
    }
}

proof fn lemma_has_at_char(s: Seq<char>, i: int, text: Seq<char>, k: int)
    requires
        has_at(s, i, text),
        0 <= k < text.len(),
    ensures
        s[i + k] == text[k],
{
    assert(s.subrange(i, i + text.len())[k] == text[k]);
}

/// A run of `class` that is written at `i` and followed by no character of
/// the class is the run that starts at `i`.
proof fn lemma_run_written(s: Seq<char>, i: int, text: Seq<char>, class: CharClass)
    requires
        has_at(s, i, text),
        all_in(class, text),
        i + text.len() == s.len() || !class.holds(s[i + text.len()]),
    ensures
        run_end(s, i, class) == i + text.len(),
{
    assert forall|k: int| i <= k < i + text.len() implies class.holds(#[trigger] s[k]) by {
        lemma_has_at_char(s, i, text, k - i);
    }
    lemma_run_exact(s, i, i + text.len(), class);
}

proof fn lemma_variable_written(s: Seq<char>, i: int, id: Seq<char>)
    requires
        is_name(id),
        has_at(s, i, seq!['$'] + id),
        i + 1 + id.len() == s.len() || !CharClass::Name.holds(s[i + 1 + id.len()]),
    ensures
        variable(s, i) == Some(Found { value: id, end: i + 1 + id.len() }),
{
    lemma_has_at_split(s, i, seq!['$'], id);
    lemma_has_at_char(s, i, seq!['$'], 0);
    lemma_run_written(s, i + 1, id, CharClass::Name);
}

/// The first character of what a piece is written as.
proof fn lemma_piece_starts(piece: NameView)
    requires
        piece_ok(piece),
    ensures
        write_piece(piece).len() > 0,
        write_piece(piece)[0] == match piece {
            NameView::Plain(text) => text[0],
            NameView::EnvVar(_) => '$',
        },
{
}

proof fn lemma_pieces_written(s: Seq<char>, i: int, pieces: Seq<NameView>)
    requires
        pieces_ok(pieces),
        has_at(s, i, write_pieces(pieces)),
        i + write_pieces(pieces).len() < s.len(),
        s[i + write_pieces(pieces).len()] == '"',
    ensures
        segments(s, i) == (Found { value: pieces, end: i + write_pieces(pieces).len() }),
    decreases pieces.len(),
{
    if pieces.len() == 0 {
        assert(variable(s, i) is None);
        lemma_run_exact(s, i, i, CharClass::Text);
        assert(segments(s, i).value == pieces);
    } else {
        let first = write_piece(pieces[0]);
        let rest = pieces.skip(1);
        let after = i + first.len();
        lemma_has_at_split(s, i, first, write_pieces(rest));
        lemma_piece_starts(pieces[0]);
        // what follows the first piece does not go on with it
        let next: char = s[after];
        if rest.len() == 0 {
            assert(write_pieces(rest).len() == 0);
        } else {
            assert(rest[0] == pieces[1]);
            assert(pieces_ok(rest));
            assert(piece_ok(rest[0]));
            lemma_piece_starts(rest[0]);
            assert(write_pieces(rest) == write_piece(rest[0]) + write_pieces(rest.skip(1)));
            lemma_has_at_split(s, after, write_piece(rest[0]), write_pieces(rest.skip(1)));
            lemma_has_at_char(s, after, write_piece(rest[0]), 0);
        }
        lemma_pieces_written(s, after, rest);
        match pieces[0] {
            NameView::EnvVar(id) => {
                assert(!CharClass::Name.holds(next));
                lemma_variable_written(s, i, id);
            },
            NameView::Plain(text) => {
                lemma_has_at_char(s, i, text, 0);
                assert(CharClass::Text.holds(text[0]));
                assert(variable(s, i) is None);
                assert(!CharClass::Text.holds(next));
                lemma_run_written(s, i, text, CharClass::Text);
                assert(s.subrange(i, after) == text);
            },
        }
        assert(seq![pieces[0]] + rest == pieces);
    }
}

/// A word that is written at `i` and can end behind its last character is
/// the word that the grammar finds at `i`.
pub proof fn lemma_word_written(s: Seq<char>, i: int, w: ExtendedNameView)
    requires
        word_ok(w),
        has_at(s, i, write_word(w)),
        word_may_end(s, i + write_word(w).len()),
    ensures
        word(s, i) == Some(Found { value: w, end: i + write_word(w).len() }),
        write_word(w).len() > 0,
        !CharClass::Blank.holds(s[i]),
        s[i] != '|',
{
    let text = write_word(w);
    let end = i + text.len();
    match w {
        ExtendedNameView::Name(NameView::Plain(t)) => {
            if is_bare(t) {
                lemma_has_at_char(s, i, t, 0);
                assert(CharClass::Ident.holds(t[0]));
                lemma_run_written(s, i, t, CharClass::Ident);
            } else {
                lemma_has_at_split(s, i, seq!['\''] + t, seq!['\'']);
                lemma_has_at_split(s, i, seq!['\''], t);
                lemma_has_at_char(s, i, seq!['\''], 0);
                lemma_has_at_char(s, i + 1 + t.len(), seq!['\''], 0);
                lemma_run_written(s, i + 1, t, CharClass::Single);
            }
        },
        ExtendedNameView::Name(NameView::EnvVar(id)) => {
            lemma_has_at_char(s, i, text, 0);
            lemma_variable_written(s, i, id);
            assert(variable(s, end) is None);
            assert(variables(s, end).value.len() == 0);
            assert(variables(s, i).value == seq![NameView::EnvVar(id)]);
        },
        ExtendedNameView::Extended(pieces) => {
            let body = write_pieces(pieces);
            lemma_has_at_split(s, i, seq!['"'] + body, seq!['"']);
            lemma_has_at_split(s, i, seq!['"'], body);
            lemma_has_at_char(s, i, seq!['"'], 0);
            lemma_has_at_char(s, i + 1 + body.len(), seq!['"'], 0);
            lemma_pieces_written(s, i + 1, pieces);
        },
    }
}

proof fn lemma_words_written(s: Seq<char>, i: int, ws: Seq<ExtendedNameView>)
    requires
        forall|k: int| 0 <= k < ws.len() ==> word_ok(#[trigger] ws[k]),
        has_at(s, i, write_words(ws)),
        stage_may_end(s, i + write_words(ws).len()),
    ensures
        words(s, i).value == ws,
        run_end(s, words(s, i).end, CharClass::Blank) == run_end(
            s,
            i + write_words(ws).len(),
            CharClass::Blank,
        ),
    decreases ws.len(),
{
    if ws.len() == 0 {
        lemma_run_end(s, i, CharClass::Blank);
        let start = run_end(s, i, CharClass::Blank);
        if i < s.len() {
            lemma_run_exact(s, i, i + 1, CharClass::Blank);
        }
        assert(word(s, start) is None);
        assert(words(s, i).value == ws);
    } else {
        let first = write_word(ws[0]);
        let rest = ws.skip(1);
        lemma_has_at_split(s, i, seq![' '] + first, write_words(rest));
        lemma_has_at_split(s, i, seq![' '], first);
        lemma_has_at_char(s, i, seq![' '], 0);
        let after = i + 1 + first.len();
        assert(word_may_end(s, after)) by {
            if rest.len() > 0 {
                assert(write_words(rest) == seq![' '] + write_word(rest[0]) + write_words(
                    rest.skip(1),
                ));
                lemma_has_at_char(s, after, write_words(rest), 0);
            }
        }
        lemma_word_written(s, i + 1, ws[0]);
        lemma_run_exact(s, i, i + 1, CharClass::Blank);
        assert forall|k: int| 0 <= k < rest.len() implies word_ok(#[trigger] rest[k]) by {
            assert(rest[k] == ws[k + 1]);
        }
        lemma_words_written(s, after, rest);
        assert(seq![ws[0]] + rest == ws);
    }
}

proof fn lemma_value_written(s: Seq<char>, i: int, v: Seq<char>)
    requires
        is_bare(v) || all_in(CharClass::Single, v) || all_in(CharClass::Raw, v),
        has_at(s, i, write_value(v)),
        word_may_end(s, i + write_value(v).len()),
    ensures
        value(s, i) == Some(Found { value: v, end: i + write_value(v).len() }),
{
    if is_bare(v) {
        lemma_has_at_char(s, i, v, 0);
        assert(CharClass::Ident.holds(v[0]));
        lemma_run_written(s, i, v, CharClass::Ident);
    } else {
        let quote = if all_in(CharClass::Single, v) {
            '\''
        } else {
            '"'
        };
        let class = if all_in(CharClass::Single, v) {
            CharClass::Single
        } else {
            CharClass::Raw
        };
        lemma_has_at_split(s, i, seq![quote] + v, seq![quote]);
        lemma_has_at_split(s, i, seq![quote], v);
        lemma_has_at_char(s, i, seq![quote], 0);
        lemma_has_at_char(s, i + 1 + v.len(), seq![quote], 0);
        lemma_run_written(s, i + 1, v, class);
    }
}

/// A run of name characters ends no later than the run of word characters
/// that starts with it.
proof fn lemma_name_within_ident(s: Seq<char>, i: int)
    ensures
        run_end(s, i, CharClass::Name) <= run_end(s, i, CharClass::Ident),
    decreases s.len() - i,
{
    if 0 <= i < s.len() && CharClass::Name.holds(s[i]) {
        lemma_name_within_ident(s, i + 1);
    } else {
        lemma_run_end(s, i, CharClass::Ident);
    }
}

/// A stage that is written at `i` and can end behind its last character is
/// the stage that the grammar finds at `i`.
pub proof fn lemma_stage_written(s: Seq<char>, i: int, st: CommandTypeView)
    requires
        stage_ok(st),
        has_at(s, i, write_stage(st)),
        stage_may_end(s, i + write_stage(st).len()),
    ensures
        stage(s, i) is Some,
        stage(s, i)->0.value == st,
        run_end(s, stage(s, i)->0.end, CharClass::Blank) == run_end(
            s,
            i + write_stage(st).len(),
            CharClass::Blank,
        ),
        write_stage(st).len() > 0,
        !CharClass::Blank.holds(s[i]),
{
    match st {
        CommandTypeView::Simple(call) => {
            let name = write_word(call.name);
            let after = i + name.len();
            lemma_has_at_split(s, i, name, write_words(call.args));
            assert(word_may_end(s, after)) by {
                if call.args.len() > 0 {
                    assert(write_words(call.args) == seq![' '] + write_word(call.args[0])
                        + write_words(call.args.skip(1)));
                    lemma_has_at_char(s, after, write_words(call.args), 0);
                } else {
                    assert(write_words(call.args).len() == 0);
                }
            }
            lemma_word_written(s, i, call.name);
            lemma_words_written(s, after, call.args);
            // the stage is no assignment
            assert(assignment(s, i) is None) by {
                let stop = run_end(s, i, CharClass::Name);
                lemma_run_end(s, i, CharClass::Name);
                lemma_run_end(s, i, CharClass::Ident);
                lemma_name_within_ident(s, i);
                if stop > i {
                    // a name character starts the word: the word is bare
                    assert(CharClass::Name.holds(s[i]));
                    assert(call.name matches ExtendedNameView::Name(NameView::Plain(t)) && is_bare(
                        t,
                    )) by {
                        lemma_has_at_char(s, i, name, 0);
                    }
                    assert(run_end(s, i, CharClass::Ident) == after);
                    if stop < after {
                        assert(CharClass::Ident.holds(s[stop]));
                    }
                }
            }
        },
        CommandTypeView::Env(set) => {
            let written = write_value(set.value);
            lemma_has_at_split(s, i, set.name + seq!['='], written);
            lemma_has_at_split(s, i, set.name, seq!['=']);
            lemma_has_at_char(s, i + set.name.len(), seq!['='], 0);
            lemma_has_at_char(s, i, set.name, 0);
            assert(CharClass::Name.holds(set.name[0]));
            lemma_run_written(s, i, set.name, CharClass::Name);
            lemma_value_written(s, i + set.name.len() + 1, set.value);
            assert(s.subrange(i, i + set.name.len()) == set.name);
        },
    }
}

proof fn lemma_line_written(s: Seq<char>, i: int, stages: Seq<CommandTypeView>)
    requires
        line_ok(stages),
        has_at(s, i, write_line(stages)),
        i + write_line(stages).len() == s.len(),
    ensures
        pipeline(s, i) == Some(stages),
    decreases stages.len(),
{
    let first = write_stage(stages[0]);
    let after = i + first.len();
    if stages.len() == 1 {
        lemma_stage_written(s, i, stages[0]);
        lemma_run_exact(s, i, i, CharClass::Blank);
        lemma_run_exact(s, after, after, CharClass::Blank);
        assert(seq![stages[0]] == stages);
    } else {
        let rest = stages.skip(1);
        let bar = seq![' ', '|', ' '];
        lemma_has_at_split(s, i, first + bar, write_line(rest));
        lemma_has_at_split(s, i, first, bar);
        lemma_has_at_char(s, after, bar, 0);
        lemma_has_at_char(s, after, bar, 1);
        lemma_has_at_char(s, after, bar, 2);
        lemma_stage_written(s, i, stages[0]);
        lemma_run_exact(s, i, i, CharClass::Blank);
        lemma_run_exact(s, after, after + 1, CharClass::Blank);
        assert forall|k: int| 0 <= k < rest.len() implies stage_ok(#[trigger] rest[k]) by {
            assert(rest[k] == stages[k + 1]);
        }
        lemma_line_written(s, after + 3, rest);
        // the blank behind the bar is skipped
        assert(pipeline(s, after + 2) == pipeline(s, after + 3)) by {
            let next = write_stage(rest[0]);
            if rest.len() == 1 {
                assert(write_line(rest) == next);
            } else {
                lemma_has_at_split(
                    s,
                    after + 3,
                    next + seq![' ', '|', ' '],
                    write_line(rest.skip(1)),
                );
                lemma_has_at_split(s, after + 3, next, seq![' ', '|', ' ']);
                lemma_has_at_char(s, after + 3 + next.len(), seq![' ', '|', ' '], 0);
                lemma_has_at_char(s, after + 3 + next.len(), seq![' ', '|', ' '], 1);
            }
            lemma_stage_written(s, after + 3, rest[0]);
            lemma_run_exact(s, after + 3, after + 3, CharClass::Blank);
            lemma_run_exact(s, after + 2, after + 3, CharClass::Blank);
        }
        assert(seq![stages[0]] + rest == stages);
    }
}

/// Parsing reads back what was written: the line that a pipeline is
/// written as is parsed into that pipeline.
pub proof fn lemma_written_line_is_parsed(stages: Seq<CommandTypeView>)
    requires
        line_ok(stages),
    ensures
        parse(write_line(stages)) == Some(stages),
{
    let s = write_line(stages);
    assert(s.subrange(0, s.len() as int) == s);
    lemma_line_written(s, 0, stages);
}

/// The characters of a run belong to its class.
proof fn lemma_run_all_in(s: Seq<char>, i: int, class: CharClass)
    requires
        0 <= i <= s.len(),
    ensures
        all_in(class, s.subrange(i, run_end(s, i, class))),
{
    lemma_run_end(s, i, class);
    let text = s.subrange(i, run_end(s, i, class));
    assert forall|k: int| 0 <= k < text.len() implies class.holds(#[trigger] text[k]) by {
        assert(text[k] == s[i + k]);
    }
}

proof fn lemma_variable_ok(s: Seq<char>, i: int)
    ensures
        variable(s, i) matches Some(v) ==> is_name(v.value) && i < v.end <= s.len() && (v.end
            == s.len() || !CharClass::Name.holds(s[v.end])),
{
    if 0 <= i < s.len() {
        lemma_run_end(s, i + 1, CharClass::Name);
        lemma_run_all_in(s, i + 1, CharClass::Name);
    }
}

proof fn lemma_variables_ok(s: Seq<char>, i: int)
    requires
        0 <= i <= s.len(),
    ensures
        pieces_ok(variables(s, i).value),
        forall|k: int|
            0 <= k < variables(s, i).value.len() ==> (#[trigger] variables(s, i).value[k])
                is EnvVar,
    decreases s.len() - i,
{
    lemma_variable_ok(s, i);
    match variable(s, i) {
        Some(v) => {
            lemma_variables_ok(s, v.end);
            let rest = variables(s, v.end).value;
            let all = variables(s, i).value;
            assert(all == seq![NameView::EnvVar(v.value)] + rest);
            assert(all.skip(1) == rest);
            if rest.len() > 0 {
                assert(all[1] == rest[0]);
            }
        },
        None => {},
    }
}

proof fn lemma_segments_ok(s: Seq<char>, i: int)
    requires
        0 <= i <= s.len(),
    ensures
        pieces_ok(segments(s, i).value),
        segments(s, i).value.len() > 0 ==> match segments(s, i).value[0] {
            NameView::Plain(text) => variable(s, i) is None && text.len() > 0 && text[0] == s[i],
            NameView::EnvVar(_) => variable(s, i) is Some,
        },
    decreases s.len() - i,
{
    lemma_variable_ok(s, i);
    lemma_run_end(s, i, CharClass::Text);
    lemma_run_all_in(s, i, CharClass::Text);
    let all = segments(s, i).value;
    match variable(s, i) {
        Some(v) => {
            lemma_segments_ok(s, v.end);
            let rest = segments(s, v.end).value;
            assert(all == seq![NameView::EnvVar(v.value)] + rest);
            assert(all.skip(1) == rest);
            if rest.len() > 0 {
                assert(all[1] == rest[0]);
            }
        },
        None => {
            let end = run_end(s, i, CharClass::Text);
            if i < s.len() && end > i {
                lemma_segments_ok(s, end);
                lemma_run_exact(s, end, end, CharClass::Text);
                let rest = segments(s, end).value;
                assert(all == seq![NameView::Plain(s.subrange(i, end))] + rest);
                assert(all.skip(1) == rest);
                if rest.len() > 0 {
                    assert(all[1] == rest[0]);
                }
            }
        },
    }
}

/// Every word that the grammar finds is one that can be written.
pub proof fn lemma_word_ok(s: Seq<char>, i: int)
    ensures
        word(s, i) matches Some(w) ==> word_ok(w.value),
{
    if 0 <= i < s.len() {
        lemma_run_end(s, i, CharClass::Ident);
        lemma_run_all_in(s, i, CharClass::Ident);
        lemma_run_end(s, i + 1, CharClass::Single);
        lemma_run_all_in(s, i + 1, CharClass::Single);
        lemma_variables_ok(s, i);
        lemma_segments_ok(s, i + 1);
        if s[i] == '$' {
            let vars = variables(s, i).value;
            if vars.len() == 1 {
                assert(piece_ok(vars[0]));
                assert(vars[0] is EnvVar);
            }
        }
    }
}

proof fn lemma_words_ok(s: Seq<char>, i: int)
    requires
        0 <= i <= s.len(),
    ensures
        forall|k: int| 0 <= k < words(s, i).value.len() ==> word_ok(#[trigger] words(s, i).value[k]),
    decreases s.len() - i,
{
    let start = run_end(s, i, CharClass::Blank);
    lemma_run_end(s, i, CharClass::Blank);
    crate::grammar::lemma_word_end(s, start);
    lemma_word_ok(s, start);
    match word(s, start) {
        Some(w) => {
            lemma_words_ok(s, w.end);
            let rest = words(s, w.end).value;
            let all = words(s, i).value;
            assert(all == seq![w.value] + rest);
            assert forall|k: int| 0 <= k < all.len() implies word_ok(#[trigger] all[k]) by {
                if k > 0 {
                    assert(all[k] == rest[k - 1]);
                }
            }
        },
        None => {},
    }
}

/// Every stage that the grammar finds is one that can be written.
pub proof fn lemma_stage_ok(s: Seq<char>, i: int)
    ensures
        stage(s, i) matches Some(st) ==> stage_ok(st.value),
{
    if 0 <= i < s.len() {
        lemma_run_end(s, i, CharClass::Name);
        lemma_run_all_in(s, i, CharClass::Name);
        let stop = run_end(s, i, CharClass::Name);
        if stop + 1 < s.len() {
            lemma_run_end(s, stop + 1, CharClass::Ident);
            lemma_run_all_in(s, stop + 1, CharClass::Ident);
            lemma_run_end(s, stop + 2, CharClass::Single);
            lemma_run_all_in(s, stop + 2, CharClass::Single);
            lemma_run_end(s, stop + 2, CharClass::Raw);
            lemma_run_all_in(s, stop + 2, CharClass::Raw);
        }
        lemma_word_ok(s, i);
        crate::grammar::lemma_word_end(s, i);
        match word(s, i) {
            Some(name) => {
                lemma_words_ok(s, name.end);
            },
            None => {},
        }
    }
}

proof fn lemma_pipeline_ok(s: Seq<char>, i: int)
    requires
        0 <= i <= s.len(),
    ensures
        pipeline(s, i) matches Some(stages) ==> line_ok(stages),
    decreases s.len() - i,
{
    let start = run_end(s, i, CharClass::Blank);
    lemma_run_end(s, i, CharClass::Blank);
    lemma_stage_ok(s, start);
    crate::grammar::lemma_stage_end(s, start);
    match stage(s, start) {
        Some(st) => {
            let stop = run_end(s, st.end, CharClass::Blank);
            lemma_run_end(s, st.end, CharClass::Blank);
            if stop < s.len() && s[stop] == '|' {
                lemma_pipeline_ok(s, stop + 1);
                match pipeline(s, stop + 1) {
                    Some(rest) => {
                        let all = seq![st.value] + rest;
                        assert forall|k: int| 0 <= k < all.len() implies stage_ok(
                            #[trigger] all[k],
                        ) by {
                            if k > 0 {
                                assert(all[k] == rest[k - 1]);
                            }
                        }
                    },
                    None => {},
                }
            }
        },
        None => {},
    }
}

/// Every pipeline that parsing gives is one that can be written; so it is
/// also what parsing gives for the line that it is written as.
pub proof fn lemma_parsed_is_written(s: Seq<char>)
    ensures
        parse(s) matches Some(stages) ==> line_ok(stages) && parse(write_line(stages)) == Some(
            stages,
        ),
{
    lemma_pipeline_ok(s, 0);
    if let Some(stages) = parse(s) {
        lemma_written_line_is_parsed(stages);
    }
}

} // verus!

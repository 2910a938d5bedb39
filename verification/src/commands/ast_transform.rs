//! From the parsed tree to the tree that is executed.
//!
//! The parsed tree may hold variables; the tree that is executed holds only
//! the strings they stand for. A variable that the environment does not hold
//! stands for the empty string.
use vstd::prelude::*;
use vstd::string::*;
use crate::commands as cmds;
use crate::environment::Env;
use crate::parser as prsr;
use crate::text::texts;

verus! {

/// What a piece of a word stands for: literal text for itself, a variable for
/// its value in `env`, or for nothing where `env` does not hold it.
pub open spec fn resolve_name(env: Map<Seq<char>, Seq<char>>, name: prsr::NameView) -> Seq<char> {
    match name {
        prsr::NameView::Plain(text) => text,
        prsr::NameView::EnvVar(id) => if env.contains_key(id) {
            env[id]
        } else {
            Seq::empty()
        },
    }
}

/// What the pieces of `names` stand for, one directly after the other.
pub open spec fn resolve_names(env: Map<Seq<char>, Seq<char>>, names: Seq<prsr::NameView>) -> Seq<
    char,
>
    decreases names.len(),
{
    if names.len() == 0 {
        Seq::empty()
    } else {
        resolve_names(env, names.drop_last()) + resolve_name(env, names.last())
    }
}

/// What a word stands for.
pub open spec fn resolve_word(env: Map<Seq<char>, Seq<char>>, word: prsr::ExtendedNameView) -> Seq<
    char,
> {
    match word {
        prsr::ExtendedNameView::Name(name) => resolve_name(env, name),
        prsr::ExtendedNameView::Extended(names) => resolve_names(env, names),
    }
}

/// What each word of `words` stands for, in order.
pub open spec fn resolve_words(
    env: Map<Seq<char>, Seq<char>>,
    words: Seq<prsr::ExtendedNameView>,
) -> Seq<Seq<char>> {
    Seq::new(words.len(), |i: int| resolve_word(env, words[i]))
}

/// The stage that is executed for a parsed stage: a call with its words
/// resolved, an assignment as it is.
pub open spec fn translate_stage(
    env: Map<Seq<char>, Seq<char>>,
    stage: prsr::CommandTypeView,
) -> cmds::CommandTypeView {
    match stage {
        prsr::CommandTypeView::Simple(call) => cmds::CommandTypeView::Simple(
            cmds::SimpleCommandView {
                name: resolve_word(env, call.name),
                args: resolve_words(env, call.args),
            },
        ),
        prsr::CommandTypeView::Env(set) => cmds::CommandTypeView::Env(
            cmds::ExportedEnvView { name: set.name, value: set.value },
        ),
    }
}

/// The pipeline that is executed for a parsed pipeline: stage by stage, as
/// many stages in the same order.
pub open spec fn translate(
    env: Map<Seq<char>, Seq<char>>,
    stages: Seq<prsr::CommandTypeView>,
) -> Seq<cmds::CommandTypeView> {
    Seq::new(stages.len(), |i: int| translate_stage(env, stages[i]))
}

/// Translate parsed AST to commands AST and interpolates
/// strings using environment.
pub fn ast_trans(env: &Env, parsed: &prsr::Command) -> (r: cmds::Command)
    ensures
        r@ == translate(env@, parsed@),
    decreases parsed@.len(), 0nat,
{
    let cmd = trans_cmd(env, parsed.get_cmd());
    let next = match parsed.get_next() {
        Some(bind) => Some(Box::new(trans_bind(env, bind))),
        None => None,
    };
    let r = cmds::Command::new(cmd, next);
    assert(r@ =~= translate(env@, parsed@));
    r
}

fn trans_bind(env: &Env, parsed: &prsr::Bind) -> (r: cmds::Bind)
    ensures
        r@ == translate(env@, parsed@),
    decreases parsed@.len(), 1nat,
{
    match parsed {
        prsr::Bind::Pipe(cmd) => cmds::Bind::Pipe(ast_trans(env, cmd)),
    }
}

fn trans_cmd(env: &Env, parsed: &prsr::CommandType) -> (r: cmds::CommandType)
    ensures
        r@ == translate_stage(env@, parsed@),
{
    match parsed {
        prsr::CommandType::Simple(cmd) => cmds::CommandType::Simple(trans_simpl(env, cmd)),
        prsr::CommandType::Env(exenv) => cmds::CommandType::Env(trans_env(exenv)),
    }
}

fn trans_env(parsed: &prsr::ExportedEnv) -> (r: cmds::ExportedEnv)
    ensures
        r@ == (cmds::ExportedEnvView { name: parsed@.name, value: parsed@.value }),
{
    cmds::ExportedEnv::new(parsed.get_name().clone(), parsed.get_value().clone())
}

fn trans_simpl(env: &Env, parsed: &prsr::SimpleCommand) -> (r: cmds::SimpleCommand)
    ensures
        r@ == (cmds::SimpleCommandView {
            name: resolve_word(env@, parsed@.name),
            args: resolve_words(env@, parsed@.args),
        }),
{
    let name = trans_ex_name(env, parsed.get_name());
    let words = parsed.get_args();
    let mut args: Vec<String> = Vec::new();
    let mut i: usize = 0;
    while i < words.len()
        invariant
            i <= words.len(),
            prsr::word_views(words@) == parsed@.args,
            texts(args@) == resolve_words(env@, parsed@.args).take(i as int),
        decreases words.len() - i,
    {
        let arg = trans_ex_name(env, &words[i]);
        proof {
            let all = resolve_words(env@, parsed@.args);
            assert(prsr::word_views(words@)[i as int] == words@[i as int]@);
            assert(texts(args@.push(arg)) == all.take(i as int).push(arg@));
            assert(all.take(i as int).push(all[i as int]) == all.take(i + 1));
        }
        args.push(arg);
        i = i + 1;
    }
    proof {
        let all = resolve_words(env@, parsed@.args);
        assert(all.take(words.len() as int) == all);
    }
    cmds::SimpleCommand::new(name, args)
}

fn trans_ex_name(env: &Env, parsed: &prsr::ExtendedName) -> (r: String)
    ensures
        r@ == resolve_word(env@, parsed@),
{
    match parsed {
        prsr::ExtendedName::Name(n) => trans_name(env, n),
        prsr::ExtendedName::Extended(v) => trans_ex(env, v),
    }
}

fn trans_name(env: &Env, parsed: &prsr::Name) -> (r: String)
    ensures
        r@ == resolve_name(env@, parsed@),
{
    match parsed {
        prsr::Name::Plain(n) => n.clone(),
        // A variable that is not there stands for nothing.
        prsr::Name::EnvVar(n) => match env.get(n) {
            Some(value) => value,
            None => String::new(),
        },
    }
}

fn trans_ex(env: &Env, parsed: &Vec<prsr::Name>) -> (r: String)
    ensures
        r@ == resolve_names(env@, prsr::name_views(parsed@)),
{
    let mut r = String::new();
    let mut i: usize = 0;
    while i < parsed.len()
        invariant
            i <= parsed.len(),
            r@ == resolve_names(env@, prsr::name_views(parsed@).take(i as int)),
        decreases parsed.len() - i,
    {
        let piece = trans_name(env, &parsed[i]);
        proof {
            let all = prsr::name_views(parsed@);
            assert(all.take(i + 1).drop_last() == all.take(i as int));
            assert(all.take(i + 1).last() == parsed@[i as int]@);
        }
        r.append(piece.as_str());
        i = i + 1;
    }
    proof {
        let all = prsr::name_views(parsed@);
        assert(all.take(parsed.len() as int) == all);
    }
    r
}

/// A variable that the environment does not hold stands for the empty
/// string, alone and among other pieces.
pub proof fn lemma_undefined_is_empty(env: Map<Seq<char>, Seq<char>>, id: Seq<char>)
    requires
        !env.contains_key(id),
    ensures
        resolve_name(env, prsr::NameView::EnvVar(id)) == Seq::<char>::empty(),
        resolve_word(env, prsr::ExtendedNameView::Name(prsr::NameView::EnvVar(id))) == Seq::<
            char,
        >::empty(),
{
}

/// Literal text stands for itself, whatever the environment holds.
pub proof fn lemma_plain_is_literal(
    env: Map<Seq<char>, Seq<char>>,
    other: Map<Seq<char>, Seq<char>>,
    text: Seq<char>,
)
    ensures
        resolve_word(env, prsr::ExtendedNameView::Name(prsr::NameView::Plain(text))) == text,
        resolve_word(other, prsr::ExtendedNameView::Name(prsr::NameView::Plain(text))) == text,
{
}

/// Pieces are resolved one by one and in order: what two runs of pieces
/// stand for together is what the first stands for, directly followed by
/// what the second stands for.
pub proof fn lemma_resolve_names_concat(
    env: Map<Seq<char>, Seq<char>>,
    first: Seq<prsr::NameView>,
    second: Seq<prsr::NameView>,
)
    ensures
        resolve_names(env, first + second) == resolve_names(env, first) + resolve_names(
            env,
            second,
        ),
    decreases second.len(),
{
    if second.len() == 0 {
        assert(first + second == first);
        assert(resolve_names(env, first) + Seq::<char>::empty() == resolve_names(env, first));
    } else {
        let whole = first + second;
        assert(whole.drop_last() == first + second.drop_last());
        assert(whole.last() == second.last());
        lemma_resolve_names_concat(env, first, second.drop_last());
        assert(resolve_names(env, first) + resolve_names(env, second.drop_last()) + resolve_name(
            env,
            second.last(),
        ) == resolve_names(env, first) + (resolve_names(env, second.drop_last()) + resolve_name(
            env,
            second.last(),
        )));
    }
}

/// A word of literal text, a variable and literal text again stands for
/// the first text, the value of the variable and the second text, with
/// nothing between them.
pub proof fn lemma_interpolation(
    env: Map<Seq<char>, Seq<char>>,
    before: Seq<char>,
    id: Seq<char>,
    after: Seq<char>,
)
    requires
        env.contains_key(id),
    ensures
        resolve_word(
            env,
            prsr::ExtendedNameView::Extended(
                seq![
                    prsr::NameView::Plain(before),
                    prsr::NameView::EnvVar(id),
                    prsr::NameView::Plain(after),
                ],
            ),
        ) == before + env[id] + after,
{
    let names = seq![
        prsr::NameView::Plain(before),
        prsr::NameView::EnvVar(id),
        prsr::NameView::Plain(after),
    ];
    let two = seq![prsr::NameView::Plain(before), prsr::NameView::EnvVar(id)];
    let one = seq![prsr::NameView::Plain(before)];
    assert(names.drop_last() == two);
    assert(two.drop_last() == one);
    assert(one.drop_last() == Seq::<prsr::NameView>::empty());
    assert(resolve_names(env, one) == before) by {
        assert(resolve_names(env, one.drop_last()) == Seq::<char>::empty());
        assert(Seq::<char>::empty() + before == before);
    }
    assert(resolve_names(env, two) == before + env[id]);
}

/// Translation keeps the shape of a pipeline: as many stages, a call for a
/// call and an assignment for an assignment, and an assignment as it was
/// written.
pub proof fn lemma_translate_keeps_shape(
    env: Map<Seq<char>, Seq<char>>,
    stages: Seq<prsr::CommandTypeView>,
)
    ensures
        translate(env, stages).len() == stages.len(),
        forall|i: int|
            0 <= i < stages.len() ==> match #[trigger] stages[i] {
                prsr::CommandTypeView::Simple(_) => translate(env, stages)[i] is Simple,
                prsr::CommandTypeView::Env(set) => translate(env, stages)[i]
                    == cmds::CommandTypeView::Env(
                    cmds::ExportedEnvView { name: set.name, value: set.value },
                ),
            },
{
}

/// What is written between single quotes reaches the command as it is,
/// whatever the environment holds: the line `echo '…'` is executed as a call
/// of `echo` with the text between the quotes as its one argument.
pub proof fn lemma_single_quotes_survive(env: Map<Seq<char>, Seq<char>>, body: Seq<char>)
    requires
        forall|k: int| 0 <= k < body.len() ==> body[k] != '\'',
    ensures
        crate::grammar::parse("echo '"@ + body + "'"@) matches Some(stages) && translate(
            env,
            stages,
        ) == seq![
            cmds::CommandTypeView::Simple(
                cmds::SimpleCommandView { name: "echo"@, args: seq![body] },
            ),
        ],
{
    crate::grammar::lemma_single_quotes_are_literal(body);
    let stages = crate::grammar::parse("echo '"@ + body + "'"@)->0;
    let call = stages[0]->Simple_0;
    assert(resolve_words(env, call.args) == seq![body]);
}

} // verus!

use minishell::commands;
use minishell::commands::ast_transform::ast_trans;
use minishell::environment::Env;
use minishell::parser::{
    parse_cmd, Command, CommandType, ExtendedName, Name, SimpleCommand,
};

fn one_word(word: ExtendedName, env: &Env) -> String {
    let parsed = Command::new(CommandType::Simple(SimpleCommand::new(word, vec![])), None);
    let cmd = ast_trans(env, &parsed);
    match cmd.get_cmd() {
        commands::CommandType::Simple(c) => c.get_name().clone(),
        _ => panic!("an invocation was expected"),
    }
}

#[test]
fn composite_is_resolved_in_order() {
    let mut env = Env::new();
    env.add("x".to_string(), "1".to_string());
    let word = ExtendedName::Extended(vec![
        Name::Plain("a".to_string()),
        Name::EnvVar("x".to_string()),
        Name::Plain("b".to_string()),
    ]);
    assert_eq!(one_word(word, &env), "a1b");
}

#[test]
fn undefined_variable_is_empty() {
    let env = Env::new();
    assert_eq!(one_word(ExtendedName::Name(Name::EnvVar("missing".to_string())), &env), "");
    let word = ExtendedName::Extended(vec![
        Name::Plain("<".to_string()),
        Name::EnvVar("missing".to_string()),
        Name::Plain(">".to_string()),
    ]);
    assert_eq!(one_word(word, &env), "<>");
}

#[test]
fn plain_text_ignores_the_environment() {
    let mut env = Env::new();
    env.add("x".to_string(), "1".to_string());
    assert_eq!(one_word(ExtendedName::Name(Name::Plain("$x".to_string())), &env), "$x");
    let parsed = parse_cmd("echo '$x'".to_string()).unwrap();
    let cmd = ast_trans(&env, &parsed);
    let expected = commands::Command::new(
        commands::CommandType::Simple(commands::SimpleCommand::new(
            "echo".to_string(),
            vec!["$x".to_string()],
        )),
        None,
    );
    assert_eq!(cmd, expected);
}

#[test]
fn empty_composite_is_empty() {
    let env = Env::new();
    assert_eq!(one_word(ExtendedName::Extended(vec![]), &env), "");
}

#[test]
fn topology_is_kept() {
    let mut env = Env::new();
    env.add("v".to_string(), "val".to_string());
    let parsed = parse_cmd("echo $v \"[$v]\" | x='$v' | wc".to_string()).unwrap();
    let cmd = ast_trans(&env, &parsed);
    let expected = commands::Command::new(
        commands::CommandType::Simple(commands::SimpleCommand::new(
            "echo".to_string(),
            vec!["val".to_string(), "[val]".to_string()],
        )),
        Some(Box::new(commands::Bind::Pipe(commands::Command::new(
            commands::CommandType::Env(commands::ExportedEnv::new(
                "x".to_string(),
                "$v".to_string(),
            )),
            Some(Box::new(commands::Bind::Pipe(commands::Command::new(
                commands::CommandType::Simple(commands::SimpleCommand::new(
                    "wc".to_string(),
                    vec![],
                )),
                None,
            )))),
        )))),
    );
    assert_eq!(cmd, expected);
}

#[test]
fn env_overwrites_and_finds() {
    let mut env = Env::new();
    assert_eq!(env.get(&"k".to_string()), None);
    env.add("k".to_string(), "1".to_string());
    env.add("k".to_string(), "2".to_string());
    env.add("other".to_string(), "3".to_string());
    assert_eq!(env.get(&"k".to_string()), Some("2".to_string()));
    assert_eq!(env.get(&"other".to_string()), Some("3".to_string()));
    assert_eq!(env.get(&"K".to_string()), None);
}

#[test]
fn getters_of_the_executed_tree() {
    let c = commands::SimpleCommand::new("n".to_string(), vec!["a".to_string()]);
    assert_eq!(c.get_name(), "n");
    assert_eq!(c.get_args(), &vec!["a".to_string()]);
    let e = commands::ExportedEnv::new("k".to_string(), "v".to_string());
    assert_eq!(e.get_name(), "k");
    assert_eq!(e.get_value(), "v");
    let cmd = commands::Command::new(commands::CommandType::Env(e), None);
    assert!(cmd.get_next().is_none());
    match cmd.get_cmd() {
        commands::CommandType::Env(e) => assert_eq!(e.get_value(), "v"),
        _ => panic!("an assignment was expected"),
    }
}

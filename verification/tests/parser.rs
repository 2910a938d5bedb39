use minishell::parser::{
    parse_cmd, Bind, Command, CommandType, ExportedEnv, ExtendedName, Name, SimpleCommand,
};

fn plain(s: &str) -> ExtendedName {
    ExtendedName::Name(Name::Plain(s.to_string()))
}

fn call(name: &str, args: Vec<ExtendedName>) -> CommandType {
    CommandType::Simple(SimpleCommand::new(plain(name), args))
}

#[test]
fn test_simple() {
    let tcmd = parse_cmd("echo 1 2".to_string()).unwrap();
    let dcmd = Command::new(
        CommandType::Simple(SimpleCommand::new(
            ExtendedName::Name(Name::Plain("echo".to_string())),
            vec![
                ExtendedName::Name(Name::Plain("1".to_string())),
                ExtendedName::Name(Name::Plain("2".to_string())),
            ],
        )),
        None,
    );
    assert_eq!(tcmd, dcmd);
}

#[test]
fn test_simple_env() {
    let tcmd = parse_cmd("echo $var".to_string()).unwrap();
    let dcmd = Command::new(
        CommandType::Simple(SimpleCommand::new(
            ExtendedName::Name(Name::Plain("echo".to_string())),
            vec![ExtendedName::Name(Name::EnvVar("var".to_string()))],
        )),
        None,
    );
    assert_eq!(tcmd, dcmd);
}

#[test]
fn test_simpl_sq() {
    let tcmd = parse_cmd("echo '$var'".to_string()).unwrap();
    let dcmd = Command::new(
        CommandType::Simple(SimpleCommand::new(
            ExtendedName::Name(Name::Plain("echo".to_string())),
            vec![ExtendedName::Name(Name::Plain("$var".to_string()))],
        )),
        None,
    );
    assert_eq!(tcmd, dcmd);
}

#[test]
fn test_simpl_dq() {
    let tcmd = parse_cmd("echo \"$var\"".to_string()).unwrap();
    let dcmd = Command::new(
        CommandType::Simple(SimpleCommand::new(
            ExtendedName::Name(Name::Plain("echo".to_string())),
            vec![ExtendedName::Extended(vec![Name::EnvVar("var".to_string())])],
        )),
        None,
    );
    assert_eq!(tcmd, dcmd);
}

#[test]
fn test_env() {
    let tcmd = parse_cmd("var=10".to_string()).unwrap();
    let dcmd = Command::new(
        CommandType::Env(ExportedEnv::new("var".to_string(), "10".to_string())),
        None,
    );
    assert_eq!(tcmd, dcmd);
}

#[test]
fn test_pipe() {
    let tcmd = parse_cmd("echo 1 2 | wc".to_string()).unwrap();
    let dcmd = Command::new(
        CommandType::Simple(SimpleCommand::new(
            ExtendedName::Name(Name::Plain("echo".to_string())),
            vec![
                ExtendedName::Name(Name::Plain("1".to_string())),
                ExtendedName::Name(Name::Plain("2".to_string())),
            ],
        )),
        Some(Box::new(Bind::Pipe(Command::new(
            CommandType::Simple(SimpleCommand::new(
                ExtendedName::Name(Name::Plain("wc".to_string())),
                vec![],
            )),
            None,
        )))),
    );
    assert_eq!(tcmd, dcmd);
}

#[test]
fn single_quotes_keep_the_dollar_sign() {
    let cmd = parse_cmd("echo '$x'".to_string()).unwrap();
    match cmd.get_cmd() {
        CommandType::Simple(c) => {
            assert_eq!(c.get_args(), &vec![plain("$x")]);
        }
        _ => panic!("an invocation was expected"),
    }
    assert!(cmd.get_next().is_none());
}

#[test]
fn unclosed_double_quote_is_rejected() {
    assert_eq!(parse_cmd("echo \"$unterminated".to_string()), None);
    assert_eq!(parse_cmd("echo \"abc".to_string()), None);
    assert_eq!(parse_cmd("echo 'abc".to_string()), None);
}

#[test]
fn lines_outside_the_grammar_are_rejected() {
    for line in ["", "   ", "|", "a |", "| a", "a || b", "a = b", "x=1 y", "x=", "echo $", "echo \"$\"", "=x", "echo a=b", "echo a\nb", "a.b=c", "é=1", "echo $é"] {
        assert_eq!(parse_cmd(line.to_string()), None, "line {:?}", line);
    }
}

#[test]
fn three_stages_lean_to_the_right() {
    let cmd = parse_cmd("a | b | c".to_string()).unwrap();
    let expected = Command::new(
        call("a", vec![]),
        Some(Box::new(Bind::Pipe(Command::new(
            call("b", vec![]),
            Some(Box::new(Bind::Pipe(Command::new(call("c", vec![]), None)))),
        )))),
    );
    assert_eq!(cmd, expected);
}

#[test]
fn blanks_around_stages_are_skipped() {
    let tight = parse_cmd("echo a|wc".to_string()).unwrap();
    let loose = parse_cmd(" \t echo \t a  |  wc \t ".to_string()).unwrap();
    assert_eq!(tight, loose);
}

#[test]
fn double_quotes_hold_text_and_variables_in_order() {
    let cmd = parse_cmd("echo \"a $x b$y\"".to_string()).unwrap();
    let expected = Command::new(
        call(
            "echo",
            vec![ExtendedName::Extended(vec![
                Name::Plain("a ".to_string()),
                Name::EnvVar("x".to_string()),
                Name::Plain(" b".to_string()),
                Name::EnvVar("y".to_string()),
            ])],
        ),
        None,
    );
    assert_eq!(cmd, expected);
}

#[test]
fn empty_double_quotes_are_a_word_without_pieces() {
    let cmd = parse_cmd("echo \"\"".to_string()).unwrap();
    let expected = Command::new(call("echo", vec![ExtendedName::Extended(vec![])]), None);
    assert_eq!(cmd, expected);
}

#[test]
fn variables_in_a_row_make_one_word() {
    let cmd = parse_cmd("echo $a$b $c".to_string()).unwrap();
    let expected = Command::new(
        call(
            "echo",
            vec![
                ExtendedName::Extended(vec![
                    Name::EnvVar("a".to_string()),
                    Name::EnvVar("b".to_string()),
                ]),
                ExtendedName::Name(Name::EnvVar("c".to_string())),
            ],
        ),
        None,
    );
    assert_eq!(cmd, expected);
}

#[test]
fn a_command_name_may_be_a_variable_or_quoted() {
    let cmd = parse_cmd("$tool 'a b'".to_string()).unwrap();
    let expected = Command::new(
        CommandType::Simple(SimpleCommand::new(
            ExtendedName::Name(Name::EnvVar("tool".to_string())),
            vec![plain("a b")],
        )),
        None,
    );
    assert_eq!(cmd, expected);
}

#[test]
fn assigned_values_are_literal() {
    let quoted = parse_cmd("x='a $b'".to_string()).unwrap();
    assert_eq!(
        quoted,
        Command::new(
            CommandType::Env(ExportedEnv::new("x".to_string(), "a $b".to_string())),
            None
        )
    );
    let double = parse_cmd("x=\"$y z\"".to_string()).unwrap();
    assert_eq!(
        double,
        Command::new(
            CommandType::Env(ExportedEnv::new("x".to_string(), "$y z".to_string())),
            None
        )
    );
}

#[test]
fn an_assignment_may_be_a_later_stage() {
    let cmd = parse_cmd("echo a | x=1".to_string()).unwrap();
    let expected = Command::new(
        call("echo", vec![plain("a")]),
        Some(Box::new(Bind::Pipe(Command::new(
            CommandType::Env(ExportedEnv::new("x".to_string(), "1".to_string())),
            None,
        )))),
    );
    assert_eq!(cmd, expected);
}

#[test]
fn words_need_no_blank_between_them() {
    let cmd = parse_cmd("echo'a'\"b\"".to_string()).unwrap();
    let expected = Command::new(
        call(
            "echo",
            vec![plain("a"), ExtendedName::Extended(vec![Name::Plain("b".to_string())])],
        ),
        None,
    );
    assert_eq!(cmd, expected);
}

#[test]
fn characters_beyond_ascii_are_kept() {
    let cmd = parse_cmd("echo héllo 'wörld ☃'".to_string()).unwrap();
    let expected = Command::new(call("echo", vec![plain("héllo"), plain("wörld ☃")]), None);
    assert_eq!(cmd, expected);
}

#[test]
fn getters_give_the_parts() {
    let cmd = parse_cmd("x=5".to_string()).unwrap();
    match cmd.get_cmd() {
        CommandType::Env(e) => {
            assert_eq!(e.get_name(), "x");
            assert_eq!(e.get_value(), "5");
        }
        _ => panic!("an assignment was expected"),
    }
    let cmd = parse_cmd("run it | next".to_string()).unwrap();
    match cmd.get_cmd() {
        CommandType::Simple(c) => {
            assert_eq!(c.get_name(), &plain("run"));
            assert_eq!(c.get_args(), &vec![plain("it")]);
        }
        _ => panic!("an invocation was expected"),
    }
    match cmd.get_next() {
        Some(bind) => match &**bind {
            Bind::Pipe(next) => assert_eq!(next, &Command::new(call("next", vec![]), None)),
        },
        None => panic!("a second stage was expected"),
    }
}

#[test]
fn a_variable_name_ends_at_the_first_other_character() {
    let cmd = parse_cmd("echo \"<$var_1>\" $a.b".to_string()).unwrap();
    let expected = Command::new(
        call(
            "echo",
            vec![
                ExtendedName::Extended(vec![
                    Name::Plain("<".to_string()),
                    Name::EnvVar("var_1".to_string()),
                    Name::Plain(">".to_string()),
                ]),
                ExtendedName::Name(Name::EnvVar("a".to_string())),
                plain(".b"),
            ],
        ),
        None,
    );
    assert_eq!(cmd, expected);
}

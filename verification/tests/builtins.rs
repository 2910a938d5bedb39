use minishell::builtins::cat::cat;
use minishell::builtins::cd::{cd, cd_changed};
use minishell::builtins::echo::echo;
use minishell::builtins::exit::exit;
use minishell::builtins::grep::GrepMode;
use minishell::builtins::ls::{ls, ls_listed};
use minishell::builtins::pwd::{pwd, pwd_told};
use minishell::builtins::wc::{wc, wc_inner, wc_read};
use minishell::builtins::{finish, Builtin, Builtins, Routine};
use minishell::error::{IOErr, ShellError};
use minishell::shell::{After, Reply, Request, ShellResult, Step};

fn strings(items: &[&str]) -> Vec<String> {
    items.iter().map(|s| s.to_string()).collect()
}

fn failure(text: &'static str) -> ShellResult<String> {
    ShellResult::Failure(ShellError::Error(text))
}

fn output(text: &str) -> ShellResult<String> {
    ShellResult::Output(text.to_string())
}

#[test]
fn test_content() {
    // the directory itself is read by the host: here its answers are given
    assert_eq!(
        ls(&vec![".".to_string()], Option::None),
        Step::Ask(Request::ListDir { dir: Some(".".to_string()) }, After::Ls)
    );
    match ls_listed(Some(strings(&["./src", "./tests"]))) {
        ShellResult::Output(res) => assert!(res.len() > 0),
        _ => assert!(false),
    };

    assert_eq!(ls(&vec![], Option::None), Step::Ask(Request::ListDir { dir: None }, After::Ls));
    match ls_listed(Some(strings(&["/work/src"]))) {
        ShellResult::Output(res) => assert!(res.len() > 0),
        _ => assert!(false),
    };

    assert_eq!(
        ls(&vec!["/%@$#lstestfoldernotexist@#@%)_/".to_string()], Option::None),
        Step::Ask(
            Request::ListDir { dir: Some("/%@$#lstestfoldernotexist@#@%)_/".to_string()) },
            After::Ls
        )
    );
    match ls_listed(Some(vec![])) {
        ShellResult::Output(res) => assert_eq!(0, res.len()),
        _ => assert!(false),
    };
}

#[test]
fn ls_lists_one_entry_on_each_line() {
    assert_eq!(ls_listed(Some(strings(&["a", "b", "c"]))), output("a\nb\nc"));
    assert_eq!(ls_listed(None), failure("ls: could not get current dirrectory"));
    assert_eq!(
        ls(&strings(&["a", "b"]), None),
        Step::Done(failure("ls: too many arguments"))
    );
}

#[test]
fn cd_wants_one_argument() {
    assert_eq!(cd(&strings(&[]), None), Step::Done(failure("cd: to few arguments")));
    assert_eq!(cd(&strings(&["a", "b"]), None), Step::Done(failure("cd: too many arguments")));
    assert_eq!(
        cd(&strings(&[".."]), Some("ignored".to_string())),
        Step::Ask(Request::ChangeDir { path: "..".to_string() }, After::Cd)
    );
    assert_eq!(cd_changed(true), output(""));
    assert_eq!(cd_changed(false), failure("cd: no such file or directory"));
}

#[test]
fn echo_joins_with_spaces() {
    assert_eq!(echo(&strings(&["1", "2"]), None), Step::Done(output("1 2")));
    assert_eq!(echo(&strings(&[]), Some("piped".to_string())), Step::Done(output("")));
    assert_eq!(echo(&strings(&["a b", "", "c"]), None), Step::Done(output("a b  c")));
}

#[test]
fn cat_takes_the_file_or_the_pipe() {
    assert_eq!(
        cat(&strings(&["f", "g"]), Some("piped".to_string())),
        Step::Ask(Request::ReadFile { path: "f".to_string() }, After::Cat)
    );
    assert_eq!(cat(&strings(&[]), Some("piped".to_string())), Step::Done(output("piped")));
    assert_eq!(cat(&strings(&[]), None), Step::Done(failure("No input file or stream")));
}

#[test]
fn wc_counts_lines_words_and_characters() {
    assert_eq!(wc_inner(&"".to_string()), "0 0 0");
    assert_eq!(wc_inner(&"1 2".to_string()), "1 2 3");
    assert_eq!(wc_inner(&"one two\nthree\n".to_string()), "2 3 14");
    assert_eq!(wc_inner(&"héllo\r\nwörld ☃".to_string()), "2 3 14");
    assert_eq!(wc(&strings(&[]), Some("a b c".to_string())), Step::Done(output("1 3 5")));
    assert_eq!(wc(&strings(&[]), None), Step::Done(failure("No input file or stream.")));
    assert_eq!(
        wc(&strings(&["f"]), Some("piped".to_string())),
        Step::Ask(Request::ReadFile { path: "f".to_string() }, After::Wc)
    );
    assert_eq!(wc_read(output("a\nb")), output("2 2 3"));
    assert_eq!(
        wc_read(ShellResult::Failure(ShellError::IOError(IOErr::Open))),
        ShellResult::Failure(ShellError::IOError(IOErr::Open))
    );
    assert_eq!(wc_read(ShellResult::Empty), ShellResult::Empty);
}

#[test]
fn pwd_asks_for_the_directory() {
    assert_eq!(
        pwd(&strings(&["ignored"]), Some("ignored".to_string())),
        Step::Ask(Request::WorkingDir, After::Pwd)
    );
    assert_eq!(pwd_told(Some("/home".to_string())), output("/home"));
    assert_eq!(pwd_told(None), failure("Unable to get current directory."));
}

#[test]
fn exit_quits() {
    assert_eq!(exit(&strings(&["1"]), Some("x".to_string())), Step::Quit);
}

#[test]
fn finish_hands_the_reply_to_the_command() {
    let open = ShellResult::Failure(ShellError::IOError(IOErr::Open));
    assert_eq!(finish(After::Spawned, Reply::Outcome(output("out"))), output("out"));
    assert_eq!(finish(After::Spawned, Reply::Outcome(ShellResult::Empty)), ShellResult::Empty);
    assert_eq!(finish(After::Cat, Reply::Outcome(output("text"))), output("text"));
    assert_eq!(
        finish(After::Cat, Reply::Outcome(ShellResult::Failure(ShellError::IOError(IOErr::Open)))),
        open
    );
    assert_eq!(finish(After::Wc, Reply::Outcome(output("a b"))), output("1 2 3"));
    let mode = GrepMode { is_ignore: true, is_word: false, is_append: None };
    assert_eq!(
        finish(
            After::Grep { pattern: "B".to_string(), mode },
            Reply::Outcome(output("abc\nxyz\nb"))
        ),
        output("abc\nb")
    );
    assert_eq!(
        finish(
            After::Grep { pattern: "B".to_string(), mode },
            Reply::Outcome(ShellResult::Failure(ShellError::IOError(IOErr::Read)))
        ),
        ShellResult::Failure(ShellError::IOError(IOErr::Read))
    );
    assert_eq!(finish(After::Pwd, Reply::Path(Some("/".to_string()))), output("/"));
    assert_eq!(finish(After::Ls, Reply::Entries(Some(strings(&["a", "b"])))), output("a\nb"));
    assert_eq!(finish(After::Cd, Reply::Changed(true)), output(""));
    // a reply of another kind than was asked for
    let unread = ShellResult::Failure(ShellError::IOError(IOErr::Read));
    assert_eq!(finish(After::Cd, Reply::Path(None)), unread);
    assert_eq!(finish(After::Cat, Reply::Changed(true)), unread);
    assert_eq!(finish(After::Pwd, Reply::Outcome(output("/"))), unread);
}

#[test]
fn the_table_finds_by_name() {
    let table = Builtins::init();
    for (name, routine) in [
        ("echo", Routine::Echo),
        ("wc", Routine::Wc),
        ("pwd", Routine::Pwd),
        ("exit", Routine::Exit),
        ("cat", Routine::Cat),
    ] {
        assert_eq!(table.get(name), Some(&Builtin::new(routine)), "name {}", name);
    }
    assert_eq!(table.get("grep"), None);
    assert_eq!(table.get("ECHO"), None);

    let mut table = Builtins::new();
    assert_eq!(table.get("echo"), None);
    table.add("grep", Builtin::new(Routine::Grep));
    table.add("say", Builtin::new(Routine::Cat));
    table.add("say", Builtin::new(Routine::Echo));
    assert_eq!(table.get("grep"), Some(&Builtin::new(Routine::Grep)));
    assert_eq!(
        table.get("say").unwrap().exec(&strings(&["hi", "there"]), None),
        Step::Done(output("hi there"))
    );
}

#[test]
fn a_builtin_runs_its_routine() {
    let args = strings(&["x"]);
    let piped = || Some("x\ny".to_string());
    assert_eq!(Builtin::new(Routine::Echo).exec(&args, piped()), Step::Done(output("x")));
    assert_eq!(
        Builtin::new(Routine::Wc).exec(&args, piped()),
        Step::Ask(Request::ReadFile { path: "x".to_string() }, After::Wc)
    );
    assert_eq!(
        Builtin::new(Routine::Cat).exec(&args, piped()),
        Step::Ask(Request::ReadFile { path: "x".to_string() }, After::Cat)
    );
    assert_eq!(
        Builtin::new(Routine::Pwd).exec(&args, piped()),
        Step::Ask(Request::WorkingDir, After::Pwd)
    );
    assert_eq!(Builtin::new(Routine::Exit).exec(&args, piped()), Step::Quit);
    assert_eq!(Builtin::new(Routine::Grep).exec(&args, piped()), Step::Done(output("x")));
    assert_eq!(
        Builtin::new(Routine::Ls).exec(&args, piped()),
        Step::Ask(Request::ListDir { dir: Some("x".to_string()) }, After::Ls)
    );
    assert_eq!(
        Builtin::new(Routine::Cd).exec(&args, piped()),
        Step::Ask(Request::ChangeDir { path: "x".to_string() }, After::Cd)
    );
}

use minishell::builtins::grep::{
    grep, grep_impl, grep_with, select_lines, GrepMode, GrepOptions,
};
use minishell::error::{IOErr, ShellError};
use minishell::shell::{After, Request, ShellResult, Step};

const TEST_STR: &str =
    "test string for testing\nbut it is not\nHe's not a Tesla\nThis Test for us\ntesting";

fn strings(items: &[&str]) -> Vec<String> {
    items.iter().map(|s| s.to_string()).collect()
}

fn done(step: Step) -> ShellResult<String> {
    match step {
        Step::Done(r) => r,
        other => panic!("the command should be over, not {:?}", other),
    }
}

fn failure(text: &'static str) -> Step {
    Step::Done(ShellResult::Failure(ShellError::Error(text)))
}

#[test]
fn test_grep_nothing() {
    let a = done(grep(&vec![], None));
    assert!(a.is_err());
}

#[test]
fn test_grep_no_match() {
    let a = done(grep(&vec!["x".to_string()], Some("y".to_string())));
    assert_eq!(a, ShellResult::Output("".to_string()));
}

#[test]
fn test_grep_ok() {
    let a = done(grep(
        &vec!["test".to_string()],
        Some("test string for testing".to_string()),
    ));
    assert!(a.is_ok());
}

#[test]
fn test_grep_impl_simpl() {
    let mode = GrepMode { is_ignore: false, is_word: false, is_append: None };
    let res = grep_impl(&TEST_STR.to_string(), "test".to_string(), &mode);
    match res {
        ShellResult::Output(s) => assert!(s == "test string for testing\ntesting"),
        _ => assert!(false),
    };
}

#[test]
fn test_grep_impl_append() {
    let mode = GrepMode { is_ignore: false, is_word: false, is_append: Some(1) };
    let res = grep_impl(&TEST_STR.to_string(), "test".to_string(), &mode);
    match res {
        ShellResult::Output(s) => {
            assert!(s == "test string for testing\nbut it is not\ntesting")
        }
        _ => assert!(false),
    };
}

#[test]
fn test_grep_impl_ignore() {
    let mode = GrepMode { is_ignore: true, is_word: false, is_append: None };
    let res = grep_impl(&TEST_STR.to_string(), "test".to_string(), &mode);
    match res {
        ShellResult::Output(s) => {
            assert!(s == "test string for testing\nThis Test for us\ntesting")
        }
        _ => assert!(false),
    };
}

#[test]
fn test_grep_impl_word() {
    let mode = GrepMode { is_ignore: false, is_word: true, is_append: None };
    let res = grep_impl(&TEST_STR.to_string(), "test".to_string(), &mode);
    match res {
        ShellResult::Output(s) => assert!(s == "test string for testing"),
        _ => assert!(false),
    };
}

#[test]
fn grep_without_a_pattern() {
    assert_eq!(grep(&vec![], Some("text".to_string())), failure("No pattern to grep."));
    assert_eq!(grep(&strings(&["-i"]), Some("text".to_string())), failure("No pattern to grep."));
}

#[test]
fn grep_with_an_unknown_option() {
    assert_eq!(
        grep(&strings(&["-z", "x"]), Some("x".to_string())),
        failure("Unable to parse command line arguments.")
    );
    // an option that wants a value and gets none
    assert_eq!(
        grep(&strings(&["x", "-A"]), Some("x".to_string())),
        failure("Unable to parse command line arguments.")
    );
    // an option given twice
    assert_eq!(
        grep(&strings(&["-i", "-i", "x"]), Some("x".to_string())),
        failure("Unable to parse command line arguments.")
    );
}

#[test]
fn grep_with_a_bad_count() {
    let wrong = failure("Option `A` needs a number as an argument.");
    assert_eq!(grep(&strings(&["-A", "many", "x"]), Some("x".to_string())), wrong);
    assert_eq!(grep(&strings(&["-A", "-1", "x"]), Some("x".to_string())), wrong);
    assert_eq!(
        grep(&strings(&["-A", "18446744073709551616", "x"]), Some("x".to_string())),
        wrong
    );
    assert_eq!(
        grep(&strings(&["-A", "18446744073709551615", "x"]), Some("x".to_string())),
        wrong
    );
}

#[test]
fn grep_without_input() {
    assert_eq!(
        grep(&strings(&["x"]), None),
        Step::Done(ShellResult::Failure(ShellError::IOError(IOErr::Read)))
    );
}

#[test]
fn grep_with_a_file_asks_for_it() {
    let step = grep(&strings(&["-w", "-A", "2", "pat", "file.txt", "more"]), None);
    assert_eq!(
        step,
        Step::Ask(
            Request::ReadFile { path: "file.txt".to_string() },
            After::Grep {
                pattern: "pat".to_string(),
                mode: GrepMode { is_ignore: false, is_word: true, is_append: Some(3) },
            }
        )
    );
}

#[test]
fn grep_options_reach_the_search() {
    let text = "Alpha\nbeta\nalphabet\ngamma\ndelta".to_string();
    let plain = done(grep(&strings(&["alpha"]), Some(text.clone())));
    assert_eq!(plain, ShellResult::Output("alphabet".to_string()));
    let ignore = done(grep(&strings(&["-i", "alpha"]), Some(text.clone())));
    assert_eq!(ignore, ShellResult::Output("Alpha\nalphabet".to_string()));
    let word = done(grep(&strings(&["-i", "-w", "alpha"]), Some(text.clone())));
    assert_eq!(word, ShellResult::Output("Alpha".to_string()));
    // `-A 0` takes one line after each match
    let after = done(grep(&strings(&["-A", "0", "alphabet"]), Some(text.clone())));
    assert_eq!(after, ShellResult::Output("alphabet\ngamma".to_string()));
    let joined = done(grep(&strings(&["-A1", "Alpha"]), Some(text.clone())));
    assert_eq!(joined, ShellResult::Output("Alpha\nbeta\nalphabet".to_string()));
    // options may follow the pattern
    let late = done(grep(&strings(&["alpha", "-i"]), Some(text)));
    assert_eq!(late, ShellResult::Output("Alpha\nalphabet".to_string()));
}

#[test]
fn grep_with_a_pattern_that_is_no_regex() {
    let a = done(grep(&strings(&["("]), Some("(".to_string())));
    assert_eq!(a, ShellResult::Failure(ShellError::Error("Unable to build regex.")));
}

#[test]
fn grep_pattern_is_a_regex() {
    let a = done(grep(&strings(&["^a.c$"]), Some("abc\nabcd\naxc".to_string())));
    assert_eq!(a, ShellResult::Output("abc\naxc".to_string()));
}

#[test]
fn grep_with_takes_what_was_parsed() {
    assert_eq!(
        grep_with(None, Some("x".to_string())),
        failure("Unable to parse command line arguments.")
    );
    let options = GrepOptions {
        free: strings(&["b"]),
        append_given: true,
        append_value: Some("+1".to_string()),
        ignore: false,
        word: false,
    };
    assert_eq!(
        grep_with(Some(options), Some("a\nb\nc\nd\ne".to_string())),
        Step::Done(ShellResult::Output("b\nc\nd".to_string()))
    );
    let options = GrepOptions {
        free: strings(&["b"]),
        append_given: true,
        append_value: None,
        ignore: false,
        word: false,
    };
    assert_eq!(
        grep_with(Some(options), Some("b".to_string())),
        failure("Option `A` needs a number as an argument.")
    );
    // a value without the option is not looked at
    let options = GrepOptions {
        free: strings(&["b"]),
        append_given: false,
        append_value: Some("junk".to_string()),
        ignore: false,
        word: false,
    };
    assert_eq!(
        grep_with(Some(options), Some("a\nb\nc".to_string())),
        Step::Done(ShellResult::Output("b".to_string()))
    );
    let options = GrepOptions {
        free: strings(&["b"]),
        append_given: false,
        append_value: Some("1".to_string()),
        ignore: false,
        word: false,
    };
    assert_eq!(
        grep_with(Some(options), Some("a\nb\nc".to_string())),
        Step::Done(ShellResult::Output("b".to_string()))
    );
}

#[test]
fn select_lines_counts_from_the_first_match() {
    let lines = strings(&["a", "b", "c", "d", "e", "f"]);
    let none: Vec<String> = vec![];
    assert_eq!(select_lines(&lines, &vec![false; 6], Some(3)), none);
    assert_eq!(
        select_lines(&lines, &vec![false, true, false, false, true, false], None),
        strings(&["b", "e"])
    );
    assert_eq!(
        select_lines(&lines, &vec![false, true, false, false, true, false], Some(1)),
        strings(&["b", "c", "e", "f"])
    );
    // a match among the lines taken after a match does not start the count again
    assert_eq!(
        select_lines(&lines, &vec![true, true, false, false, false, false], Some(2)),
        strings(&["a", "b", "c"])
    );
    assert_eq!(
        select_lines(&lines, &vec![true, false, false, true, false, false], Some(2)),
        strings(&["a", "b", "c", "d", "e", "f"])
    );
    // lines without a mark do not match
    assert_eq!(select_lines(&lines, &vec![true], Some(0)), strings(&["a"]));
    assert_eq!(select_lines(&lines, &vec![], Some(0)), none);
}

#[test]
fn grep_impl_on_empty_text() {
    let mode = GrepMode { is_ignore: false, is_word: false, is_append: None };
    assert_eq!(
        grep_impl(&"".to_string(), "x".to_string(), &mode),
        ShellResult::Output("".to_string())
    );
}

#[test]
fn grep_impl_strips_line_endings() {
    let mode = GrepMode { is_ignore: false, is_word: false, is_append: None };
    assert_eq!(
        grep_impl(&"ab\r\nac\nad\r\n".to_string(), "a".to_string(), &mode),
        ShellResult::Output("ab\nac\nad".to_string())
    );
}

use minishell::commands::{Output, Progress};
use minishell::environment::Env;
use minishell::error::{IOErr, ShellError};
use minishell::shell::{After, Reply, Request, Shell, ShellResult, Step};

/// What a run of one line gave: what was put out, whether the shell was
/// ended, and the requests that the host got.
#[derive(Debug, PartialEq)]
struct Run {
    output: Vec<Output>,
    quit: bool,
    requests: Vec<Request>,
}

fn strings(items: &[&str]) -> Vec<String> {
    items.iter().map(|s| s.to_string()).collect()
}

/// Runs `line` in `shell` with a host that answers by `answer`.
fn run_with(shell: &mut Shell, line: &str, answer: &dyn Fn(&Request) -> Reply) -> Option<Run> {
    let cmd = shell.handle(line.to_string())?;
    let mut run = Run { output: vec![], quit: false, requests: vec![] };
    let mut progress = cmd.execute(shell);
    loop {
        match progress {
            Progress::Finished { output } => {
                run.output.extend(output);
                return Some(run);
            }
            Progress::Quit { output } => {
                run.output.extend(output);
                run.quit = true;
                return Some(run);
            }
            Progress::Pending { output, request, job } => {
                run.output.extend(output);
                let reply = answer(&request);
                run.requests.push(request);
                progress = job.resume(shell, reply);
            }
        }
    }
}

/// A host whose programs put out their name and what they were given.
fn echoing(request: &Request) -> Reply {
    match request {
        Request::Spawn { name, args, input } => match name.as_str() {
            "silent" => Reply::Outcome(ShellResult::Empty),
            "broken" => Reply::Outcome(ShellResult::Failure(ShellError::IOError(IOErr::Exec))),
            _ => Reply::Outcome(ShellResult::Output(format!("{}{:?}{:?}", name, args, input))),
        },
        Request::ReadFile { path } => {
            if path == "missing" {
                Reply::Outcome(ShellResult::Failure(ShellError::IOError(IOErr::Open)))
            } else {
                Reply::Outcome(ShellResult::Output(format!("{} line\nsecond", path)))
            }
        }
        Request::WorkingDir => Reply::Path(Some("/here".to_string())),
        Request::ListDir { .. } => Reply::Entries(Some(strings(&["a", "b"]))),
        Request::ChangeDir { .. } => Reply::Changed(true),
    }
}

fn run(line: &str) -> Run {
    let mut shell = Shell::init(Env::new());
    run_with(&mut shell, line, &echoing).unwrap()
}

fn print(text: &str) -> Output {
    Output::Print(text.to_string())
}

fn spawn(name: &str, args: &[&str], input: Option<&str>) -> Request {
    Request::Spawn {
        name: name.to_string(),
        args: strings(args),
        input: input.map(|s| s.to_string()),
    }
}

#[test]
fn echo_piped_into_echo_prints_an_empty_line() {
    let mut shell = Shell::init(Env::new());
    let cmd = shell.handle("echo 1 2 | echo".to_string()).unwrap();
    // the first stage alone
    assert_eq!(
        shell.exec(&"echo".to_string(), &strings(&["1", "2"]), None),
        Step::Done(ShellResult::Output("1 2".to_string()))
    );
    // the second stage gets the output of the first and does not look at it
    assert_eq!(
        shell.exec(&"echo".to_string(), &strings(&[]), Some("1 2".to_string())),
        Step::Done(ShellResult::Output("".to_string()))
    );
    match cmd.execute(&mut shell) {
        Progress::Finished { output } => assert_eq!(output, vec![print("")]),
        _ => panic!("the pipeline needs no host"),
    }
}

#[test]
fn an_assignment_prints_nothing() {
    let mut shell = Shell::init(Env::new());
    let got = run_with(&mut shell, "var=10", &echoing).unwrap();
    assert_eq!(got, Run { output: vec![], quit: false, requests: vec![] });
    // the variable is there for the next line
    let got = run_with(&mut shell, "echo $var \"<$var>\" '$var'", &echoing).unwrap();
    assert_eq!(got.output, vec![print("10 <10> $var")]);
}

#[test]
fn a_malformed_line_runs_nothing() {
    let mut shell = Shell::init(Env::new());
    assert_eq!(run_with(&mut shell, "echo \"$unterminated", &echoing), None);
    assert_eq!(shell.handle("echo \"$unterminated".to_string()), None);
}

#[test]
fn assignments_stay_out_of_requests() {
    let mut shell = Shell::init(Env::new());
    run_with(&mut shell, "x=5", &echoing).unwrap();
    let got = run_with(&mut shell, "printenv x", &echoing).unwrap();
    // the host is handed the name, the arguments and the input, nothing of the variables
    assert_eq!(got.requests, vec![spawn("printenv", &["x"], None)]);
}

#[test]
fn each_stage_gets_the_output_of_the_one_before() {
    let got = run("a 1 | b 2 | c 3");
    let out_a = "a[\"1\"]None".to_string();
    let out_b = format!("b[\"2\"]{:?}", Some(out_a.clone()));
    let out_c = format!("c[\"3\"]{:?}", Some(out_b.clone()));
    assert_eq!(
        got.requests,
        vec![
            spawn("a", &["1"], None),
            spawn("b", &["2"], Some(&out_a)),
            spawn("c", &["3"], Some(&out_b)),
        ]
    );
    assert_eq!(got.output, vec![Output::Print(out_c)]);
}

#[test]
fn a_stage_without_output_hands_on_nothing() {
    let got = run("silent | b");
    assert_eq!(got.requests, vec![spawn("silent", &[], None), spawn("b", &[], None)]);
    assert_eq!(got.output, vec![print("b[]None")]);
    // an assignment hands on nothing either, and takes nothing
    let got = run("echo text | x=1 | b");
    assert_eq!(got.requests, vec![spawn("b", &[], None)]);
    // a silent last stage prints nothing
    assert_eq!(run("a | silent").output, vec![]);
}

#[test]
fn a_failing_stage_does_not_stop_the_pipeline() {
    let got = run("a | broken | c");
    assert_eq!(
        got.requests,
        vec![
            spawn("a", &[], None),
            spawn("broken", &[], Some("a[]None")),
            spawn("c", &[], None),
        ]
    );
    assert_eq!(
        got.output,
        vec![Output::Report(ShellError::IOError(IOErr::Exec)), print("c[]None")]
    );
    // a failing builtin in the middle
    let got = run("x=1 | cat | c");
    assert_eq!(
        got.output,
        vec![Output::Report(ShellError::Error("No input file or stream")), print("c[]None")]
    );
    // a failing last stage is reported, once
    let got = run("a | broken");
    assert_eq!(got.output, vec![Output::Report(ShellError::IOError(IOErr::Exec))]);
}

#[test]
fn a_builtin_shadows_a_program() {
    let got = run("echo hi");
    assert_eq!(got, Run { output: vec![print("hi")], quit: false, requests: vec![] });
    // no way back to a program where the builtin fails
    let got = run("cat");
    assert_eq!(
        got,
        Run {
            output: vec![Output::Report(ShellError::Error("No input file or stream"))],
            quit: false,
            requests: vec![]
        }
    );
}

#[test]
fn builtins_ask_the_host_for_files() {
    let got = run("cat notes | wc");
    assert_eq!(got.requests, vec![Request::ReadFile { path: "notes".to_string() }]);
    assert_eq!(got.output, vec![print("2 3 17")]);
    let got = run("wc missing | cat");
    assert_eq!(
        got.output,
        vec![
            Output::Report(ShellError::IOError(IOErr::Open)),
            Output::Report(ShellError::Error("No input file or stream")),
        ]
    );
    let got = run("pwd");
    assert_eq!(got.requests, vec![Request::WorkingDir]);
    assert_eq!(got.output, vec![print("/here")]);
}

#[test]
fn exit_ends_the_shell_at_once() {
    let got = run("broken | exit | c");
    assert_eq!(
        got,
        Run {
            output: vec![Output::Report(ShellError::IOError(IOErr::Exec))],
            quit: true,
            requests: vec![spawn("broken", &[], None)],
        }
    );
    assert!(run("exit").quit);
}

#[test]
fn export_is_seen_by_later_lines_only() {
    let mut shell = Shell::init(Env::new());
    // the line is resolved before any of its stages runs
    let got = run_with(&mut shell, "x=new | echo \"$x\"", &echoing).unwrap();
    assert_eq!(got.output, vec![print("")]);
    let got = run_with(&mut shell, "echo $x", &echoing).unwrap();
    assert_eq!(got.output, vec![print("new")]);
    shell.export("x".to_string(), "newer".to_string());
    let got = run_with(&mut shell, "echo $x", &echoing).unwrap();
    assert_eq!(got.output, vec![print("newer")]);
    // the environment a shell starts with is read too
    let mut env = Env::new();
    env.add("home".to_string(), "/root".to_string());
    let mut shell = Shell::init(env);
    let got = run_with(&mut shell, "echo $home", &echoing).unwrap();
    assert_eq!(got.output, vec![print("/root")]);
}

#[test]
fn transform_resolves_by_the_shell() {
    let mut shell = Shell::init(Env::new());
    shell.export("v".to_string(), "1".to_string());
    let parsed = minishell::parser::parse_cmd("echo $v".to_string()).unwrap();
    assert_eq!(Some(shell.transform(&parsed)), shell.handle("echo $v".to_string()));
}

#[test]
fn a_job_resumes_with_the_reply() {
    let mut shell = Shell::init(Env::new());
    let cmd = shell.handle("prog | wc".to_string()).unwrap();
    match cmd.execute(&mut shell) {
        Progress::Pending { output, request, job } => {
            assert_eq!(output, vec![]);
            assert_eq!(request, spawn("prog", &[], None));
            match job.resume(&mut shell, Reply::Outcome(ShellResult::Output("a b\nc".to_string())))
            {
                Progress::Finished { output } => assert_eq!(output, vec![print("2 3 5")]),
                _ => panic!("wc needs no host"),
            }
        }
        _ => panic!("the program has to be run by the host"),
    };
}

#[test]
fn shell_exec_asks_for_programs() {
    let shell = Shell::init(Env::new());
    assert_eq!(
        shell.exec(&"ls".to_string(), &strings(&["-l"]), Some("in".to_string())),
        Step::Ask(spawn("ls", &["-l"], Some("in")), After::Spawned)
    );
}

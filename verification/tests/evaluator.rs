use bumpalo::Bump;
use rsh::environment::Environment;
use rsh::errors::{ErrorKind, InterpreterError};
use rsh::evaluator::{Action, Evaluation, Handle, Reply};
use rsh::interpreter::Interpreter;
use rsh::physical::{CDProcess, CommandProcess, Process, Source, NOOP};
use rsh::physical::Output;
use rsh::statement::{RedirectType, Statement};

fn failed() -> Reply {
    Reply::Failed { detail: String::new() }
}

fn refused(detail: &str) -> Reply {
    Reply::Failed { detail: detail.to_string() }
}

fn compile<'a>(arena: &'a Bump, line: &[&str]) -> &'a Statement<'a> {
    let words: Vec<String> = line.iter().map(|w| w.to_string()).collect();
    let mut env = Environment::new();
    Interpreter::compile(arena, &words, &mut env).unwrap()
}

fn expect_spawn(action: &Action, program: &str, stdin: Source, stdout: Output) {
    match action {
        Action::Spawn { argv, stdin: from, stdout: to } => {
            assert_eq!(argv[0], program);
            assert_eq!(*from, stdin);
            assert_eq!(*to, stdout);
        },
        other => panic!("expected to start {}, got {:?}", program, other),
    }
}

fn expect_finish(action: &Action, success: bool) {
    match action {
        Action::Finish { outcome: Ok(value) } => assert_eq!(*value, success),
        other => panic!("expected the end, got {:?}", other),
    }
}

fn expect_report(action: &Action, kind: ErrorKind, message: &str) {
    match action {
        Action::Report { error } => {
            assert_eq!(error.kind, kind);
            assert_eq!(error.message(), message.to_string());
        },
        other => panic!("expected a report, got {:?}", other),
    }
}

fn expect_error(action: &Action, kind: ErrorKind, message: &str) {
    match action {
        Action::Finish { outcome: Err(error) } => {
            assert_eq!(error.kind, kind);
            assert_eq!(error.message(), message.to_string());
        },
        other => panic!("expected an error, got {:?}", other),
    }
}

#[test]
fn command_is_started_then_waited_for() {
    let arena = Bump::new();
    let (mut evaluation, action) = Evaluation::begin(compile(&arena, &["ls", "-l"]));
    match &action {
        Action::Spawn { argv, stdin, stdout } => {
            assert_eq!(**argv, vec!["ls".to_string(), "-l".to_string()]);
            assert_eq!(*stdin, Source::Inherit);
            assert_eq!(*stdout, Output::Inherit);
        },
        other => panic!("{:?}", other),
    }
    let action = evaluation.step(Reply::Succeeded);
    assert!(matches!(action, Action::Wait));
    let action = evaluation.step(Reply::Succeeded);
    expect_finish(&action, true);
}

#[test]
fn command_that_exits_with_failure_gives_false() {
    let arena = Bump::new();
    let (mut evaluation, _) = Evaluation::begin(compile(&arena, &["false"]));
    assert!(matches!(evaluation.step(Reply::Succeeded), Action::Wait));
    expect_finish(&evaluation.step(failed()), false);
}

#[test]
fn command_that_cannot_start_is_a_spawn_failure() {
    let arena = Bump::new();
    let (mut evaluation, _) = Evaluation::begin(compile(&arena, &["nonesuch"]));
    let action = evaluation.step(refused("No such file or directory"));
    expect_error(&action, ErrorKind::SpawnFailure, "No such file or directory");
}

#[test]
fn finish_is_repeated() {
    let arena = Bump::new();
    let (mut evaluation, _) = Evaluation::begin(compile(&arena, &["nonesuch"]));
    evaluation.step(refused("gone"));
    expect_error(&evaluation.step(Reply::Succeeded), ErrorKind::SpawnFailure, "gone");
    expect_error(&evaluation.step(failed()), ErrorKind::SpawnFailure, "gone");
    let (mut evaluation, action) = Evaluation::begin(compile(&arena, &["export", "A=1"]));
    expect_finish(&action, true);
    expect_finish(&evaluation.step(failed()), true);
}

#[test]
fn and_stops_when_the_left_side_fails() {
    let arena = Bump::new();
    let (mut evaluation, action) = Evaluation::begin(compile(&arena, &["false", "&&", "true"]));
    expect_spawn(&action, "false", Source::Inherit, Output::Inherit);
    assert!(matches!(evaluation.step(Reply::Succeeded), Action::Wait));
    let action = evaluation.step(failed());
    expect_error(&action, ErrorKind::ShortCircuited, "");
}

#[test]
fn and_runs_the_right_side_when_the_left_side_succeeds() {
    let arena = Bump::new();
    let (mut evaluation, action) = Evaluation::begin(compile(&arena, &["true", "&&", "ls"]));
    expect_spawn(&action, "true", Source::Inherit, Output::Inherit);
    assert!(matches!(evaluation.step(Reply::Succeeded), Action::Wait));
    let action = evaluation.step(Reply::Succeeded);
    expect_spawn(&action, "ls", Source::Inherit, Output::Inherit);
    assert!(matches!(evaluation.step(Reply::Succeeded), Action::Wait));
    expect_finish(&evaluation.step(failed()), false);
}

#[test]
fn and_stops_when_the_left_side_cannot_start() {
    let arena = Bump::new();
    let (mut evaluation, _) = Evaluation::begin(compile(&arena, &["nonesuch", "&&", "true"]));
    let action = evaluation.step(refused("not found"));
    expect_error(&action, ErrorKind::ShortCircuited, "not found");
}

#[test]
fn or_runs_the_right_side_when_the_left_side_fails() {
    let arena = Bump::new();
    let (mut evaluation, action) = Evaluation::begin(compile(&arena, &["false", "||", "true"]));
    expect_spawn(&action, "false", Source::Inherit, Output::Inherit);
    assert!(matches!(evaluation.step(Reply::Succeeded), Action::Wait));
    expect_report(&evaluation.step(failed()), ErrorKind::ShortCircuited, "");
    let action = evaluation.step(Reply::Succeeded);
    expect_spawn(&action, "true", Source::Inherit, Output::Inherit);
    assert!(matches!(evaluation.step(Reply::Succeeded), Action::Wait));
    expect_finish(&evaluation.step(Reply::Succeeded), true);
}

#[test]
fn or_keeps_the_left_side_when_it_succeeds() {
    let arena = Bump::new();
    let (mut evaluation, action) = Evaluation::begin(compile(&arena, &["true", "||", "false"]));
    expect_spawn(&action, "true", Source::Inherit, Output::Inherit);
    assert!(matches!(evaluation.step(Reply::Succeeded), Action::Wait));
    expect_finish(&evaluation.step(Reply::Succeeded), true);
}

#[test]
fn or_reports_an_error_and_goes_on() {
    let arena = Bump::new();
    let (mut evaluation, _) = Evaluation::begin(compile(&arena, &["nonesuch", "||", "true"]));
    expect_report(&evaluation.step(refused("not found")), ErrorKind::SpawnFailure, "not found");
    let action = evaluation.step(failed());
    expect_spawn(&action, "true", Source::Inherit, Output::Inherit);
    assert!(matches!(evaluation.step(Reply::Succeeded), Action::Wait));
    expect_finish(&evaluation.step(Reply::Succeeded), true);
}

#[test]
fn pipe_connects_the_two_sides_and_waits_for_the_right_one() {
    let arena = Bump::new();
    let (mut evaluation, action) = Evaluation::begin(compile(&arena, &["echo", "hi", "|", "wc", "-c"]));
    expect_spawn(&action, "echo", Source::Inherit, Output::Piped);
    let action = evaluation.step(Reply::Succeeded);
    expect_spawn(&action, "wc", Source::Previous, Output::Inherit);
    assert!(matches!(evaluation.step(Reply::Succeeded), Action::Wait));
    expect_finish(&evaluation.step(failed()), false);
}

#[test]
fn pipe_hands_on_an_error_of_the_left_side() {
    let arena = Bump::new();
    let (mut evaluation, _) = Evaluation::begin(compile(&arena, &["nonesuch", "|", "wc"]));
    expect_error(&evaluation.step(refused("not found")), ErrorKind::SpawnFailure, "not found");
}

#[test]
fn pipe_from_a_builtin_reads_nothing() {
    let arena = Bump::new();
    let (mut evaluation, action) = Evaluation::begin(compile(&arena, &["export", "A=1", "|", "cat"]));
    expect_spawn(&action, "cat", Source::Null, Output::Inherit);
    assert!(matches!(evaluation.step(Reply::Succeeded), Action::Wait));
    expect_finish(&evaluation.step(Reply::Succeeded), true);
}

#[test]
fn pipe_from_a_redirect_reads_nothing() {
    let arena = Bump::new();
    let (mut evaluation, action) = Evaluation::begin(compile(&arena, &["ls", ">", "f", "|", "cat"]));
    assert!(matches!(action, Action::Open { .. }));
    let action = evaluation.step(Reply::Succeeded);
    expect_spawn(&action, "ls", Source::Inherit, Output::File);
    let action = evaluation.step(Reply::Succeeded);
    expect_spawn(&action, "cat", Source::Null, Output::Inherit);
}

#[test]
fn pipeline_of_three() {
    let arena = Bump::new();
    let (mut evaluation, action) = Evaluation::begin(compile(&arena, &["a", "|", "b", "|", "c"]));
    expect_spawn(&action, "a", Source::Inherit, Output::Piped);
    let action = evaluation.step(Reply::Succeeded);
    expect_spawn(&action, "b", Source::Previous, Output::Piped);
    let action = evaluation.step(Reply::Succeeded);
    expect_spawn(&action, "c", Source::Previous, Output::Inherit);
    assert!(matches!(evaluation.step(Reply::Succeeded), Action::Wait));
    expect_finish(&evaluation.step(Reply::Succeeded), true);
}

#[test]
fn pipe_into_or_feeds_only_the_first() {
    let arena = Bump::new();
    let (mut evaluation, action) = Evaluation::begin(compile(&arena, &["a", "|", "b", "||", "c"]));
    expect_spawn(&action, "a", Source::Inherit, Output::Piped);
    let action = evaluation.step(Reply::Succeeded);
    expect_spawn(&action, "b", Source::Previous, Output::Inherit);
    assert!(matches!(evaluation.step(Reply::Succeeded), Action::Wait));
    expect_report(&evaluation.step(failed()), ErrorKind::ShortCircuited, "");
    let action = evaluation.step(Reply::Succeeded);
    expect_spawn(&action, "c", Source::Inherit, Output::Inherit);
}

#[test]
fn redirect_opens_the_file_first() {
    let arena = Bump::new();
    let (mut evaluation, action) = Evaluation::begin(compile(&arena, &["ls", ">", "out.txt"]));
    match &action {
        Action::Open { path, mode } => {
            assert_eq!(*path, "out.txt");
            assert_eq!(*mode, RedirectType::Truncate);
        },
        other => panic!("{:?}", other),
    }
    let action = evaluation.step(Reply::Succeeded);
    expect_spawn(&action, "ls", Source::Inherit, Output::File);
    assert!(matches!(evaluation.step(Reply::Succeeded), Action::Wait));
    expect_finish(&evaluation.step(Reply::Succeeded), true);
}

#[test]
fn redirect_that_appends_says_so() {
    let arena = Bump::new();
    let (_, action) = Evaluation::begin(compile(&arena, &["ls", ">>", "out.txt"]));
    match &action {
        Action::Open { path, mode } => {
            assert_eq!(*path, "out.txt");
            assert_eq!(*mode, RedirectType::Append);
        },
        other => panic!("{:?}", other),
    }
}

#[test]
fn redirect_to_a_file_that_cannot_be_opened_starts_nothing() {
    let arena = Bump::new();
    let (mut evaluation, _) = Evaluation::begin(compile(&arena, &["ls", ">", "/nonesuch/out"]));
    let action = evaluation.step(refused("No such file or directory"));
    expect_error(&action, ErrorKind::IoFailure, "No such file or directory");
}

#[test]
fn change_of_directory_gives_its_success() {
    let arena = Bump::new();
    let (mut evaluation, action) = Evaluation::begin(compile(&arena, &["cd", "/tmp"]));
    match &action {
        Action::ChangeDirectory { directory } => {
            assert_eq!(directory.target, Some("/tmp".to_string()));
            let process = directory.process();
            assert_eq!(process.target, Some("/tmp".to_string()));
            assert_eq!(process.result, None);
        },
        other => panic!("{:?}", other),
    }
    expect_finish(&evaluation.step(Reply::Succeeded), true);
    let (mut evaluation, action) = Evaluation::begin(compile(&arena, &["cd"]));
    match &action {
        Action::ChangeDirectory { directory } => assert_eq!(directory.target, None),
        other => panic!("{:?}", other),
    }
    expect_finish(&evaluation.step(failed()), false);
}

#[test]
fn failed_change_of_directory_cuts_an_and_short() {
    let arena = Bump::new();
    let (mut evaluation, _) = Evaluation::begin(compile(&arena, &["cd", "/nonesuch", "&&", "ls"]));
    expect_error(&evaluation.step(failed()), ErrorKind::ShortCircuited, "");
    let (mut evaluation, _) = Evaluation::begin(compile(&arena, &["cd", "/tmp", "&&", "ls"]));
    let action = evaluation.step(Reply::Succeeded);
    expect_spawn(&action, "ls", Source::Inherit, Output::Inherit);
}

#[test]
fn builtin_without_process_succeeds_at_once() {
    let arena = Bump::new();
    let (_, action) = Evaluation::begin(compile(&arena, &["export", "A=1"]));
    expect_finish(&action, true);
    let (mut evaluation, action) = Evaluation::begin(compile(&arena, &["export", "A=1", "&&", "ls"]));
    expect_spawn(&action, "ls", Source::Inherit, Output::Inherit);
    assert!(matches!(evaluation.step(Reply::Succeeded), Action::Wait));
    expect_finish(&evaluation.step(Reply::Succeeded), true);
}

#[test]
fn or_reports_a_failed_change_of_directory() {
    let arena = Bump::new();
    let (mut evaluation, _) = Evaluation::begin(compile(&arena, &["cd", "/nonesuch", "||", "ls"]));
    expect_report(&evaluation.step(failed()), ErrorKind::ShortCircuited, "");
    let action = evaluation.step(Reply::Succeeded);
    expect_spawn(&action, "ls", Source::Inherit, Output::Inherit);
}

#[test]
fn or_inside_and_hands_its_error_on() {
    let arena = Bump::new();
    let (mut evaluation, _) = Evaluation::begin(compile(&arena, &["a", "||", "b", "&&", "c"]));
    assert!(matches!(evaluation.step(Reply::Succeeded), Action::Wait));
    expect_report(&evaluation.step(failed()), ErrorKind::ShortCircuited, "");
    let action = evaluation.step(Reply::Succeeded);
    expect_spawn(&action, "b", Source::Inherit, Output::Inherit);
    assert!(matches!(evaluation.step(Reply::Succeeded), Action::Wait));
    expect_error(&evaluation.step(failed()), ErrorKind::ShortCircuited, "");
}

#[test]
fn nested_left_sides_are_run_inside_out() {
    let arena = Bump::new();
    let a = compile(&arena, &["a"]);
    let b = compile(&arena, &["b"]);
    let c = compile(&arena, &["c"]);
    let inner = Statement::Or { lhs: a, rhs: b };
    let outer = Statement::And { lhs: &inner, rhs: c };
    let (mut evaluation, action) = Evaluation::begin(&outer);
    expect_spawn(&action, "a", Source::Inherit, Output::Inherit);
    assert!(matches!(evaluation.step(Reply::Succeeded), Action::Wait));
    let action = evaluation.step(Reply::Succeeded);
    expect_spawn(&action, "c", Source::Inherit, Output::Inherit);
    assert!(matches!(evaluation.step(Reply::Succeeded), Action::Wait));
    expect_finish(&evaluation.step(Reply::Succeeded), true);
}

#[test]
fn nested_pipe_on_the_left_feeds_the_right() {
    let arena = Bump::new();
    let a = compile(&arena, &["a"]);
    let b = compile(&arena, &["b"]);
    let c = compile(&arena, &["c"]);
    let inner = Statement::And { lhs: a, rhs: b };
    let outer = Statement::Pipe { lhs: &inner, rhs: c };
    let (mut evaluation, action) = Evaluation::begin(&outer);
    expect_spawn(&action, "a", Source::Inherit, Output::Inherit);
    assert!(matches!(evaluation.step(Reply::Succeeded), Action::Wait));
    let action = evaluation.step(Reply::Succeeded);
    expect_spawn(&action, "b", Source::Inherit, Output::Piped);
    let action = evaluation.step(Reply::Succeeded);
    expect_spawn(&action, "c", Source::Previous, Output::Inherit);
}

#[test]
fn wait_keeps_the_first_result() {
    let mut process = CommandProcess { piped: true, result: None };
    assert_eq!(process.result(), None);
    assert!(!process.wait(false));
    assert_eq!(process.result(), Some(false));
    assert!(!process.wait(true));
    assert_eq!(process.result(), Some(false));
    assert_eq!(process.get_stdout(), Source::Previous);
    let mut process = CDProcess { target: None, result: None };
    assert!(process.wait(true));
    assert!(process.wait(false));
    assert_eq!(process.result(), Some(true));
    assert_eq!(process.get_stdout(), Source::Null);
    let mut process = NOOP {};
    assert_eq!(process.result(), Some(true));
    assert!(process.wait(false));
    assert_eq!(process.get_stdout(), Source::Null);
}

#[test]
fn handles_answer_for_what_they_hold() {
    let mut handle = Handle::Command(CommandProcess { piped: false, result: None });
    assert_eq!(handle.result(), None);
    assert!(handle.wait(true));
    assert_eq!(handle.result(), Some(true));
    assert_eq!(handle.get_stdout(), Source::Null);
    let handle = Handle::Command(CommandProcess { piped: true, result: Some(false) });
    assert_eq!(handle.result(), Some(false));
    assert_eq!(handle.get_stdout(), Source::Previous);
    let mut handle = Handle::Directory(CDProcess { target: None, result: Some(false) });
    assert!(!handle.wait(true));
    assert_eq!(handle.get_stdout(), Source::Null);
    let handle = Handle::Nothing(NOOP {});
    assert_eq!(handle.result(), Some(true));
}

#[test]
fn errors_say_what_they_are() {
    assert_eq!(InterpreterError::new(ErrorKind::UnexpectedEof).message(), "unexpected EOF");
    assert_eq!(InterpreterError::new(ErrorKind::BadSubstitution).message(), "bad substitution");
    assert_eq!(InterpreterError::new(ErrorKind::UnclosedDelimiter).message(), "unclosed delimiter");
    assert_eq!(InterpreterError::new(ErrorKind::ShortCircuited).message(), "");
    let error = InterpreterError::with_detail(ErrorKind::InvalidIdentifier, "=x".to_string());
    assert_eq!(error.message(), "export: '=x`: not a valid identifier");
    let error = InterpreterError::with_detail(ErrorKind::SpawnFailure, "no".to_string());
    assert_eq!(error.message(), "no");
    let error = InterpreterError::with_detail(ErrorKind::IoFailure, "denied".to_string());
    assert_eq!(error.message(), "denied");
    let copy = error.duplicate();
    assert_eq!(copy.kind, ErrorKind::IoFailure);
    assert_eq!(copy.detail, "denied");
}

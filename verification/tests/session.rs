use bumpalo::Bump;
use rsh::errors::ErrorKind;
use rsh::evaluator::{Action, Reply};
use rsh::interpreter::Interpreter;
use rsh::physical::{CDProcess, Source};
use rsh::physical::Output;

fn pairs(variables: &[(&str, &str)]) -> Vec<(String, String)> {
    variables.iter().map(|(name, value)| (name.to_string(), value.to_string())).collect()
}

#[test]
fn session_starts_with_the_given_variables() {
    let interpreter = Interpreter::new(pairs(&[("A", "1"), ("B", "2"), ("A", "3")]));
    assert_eq!(interpreter.environment().len(), 2);
    assert_eq!(interpreter.environment().get("A"), Some(&"3".to_string()));
    assert_eq!(interpreter.environment().get("B"), Some(&"2".to_string()));
}

#[test]
fn line_is_split_by_the_rules_of_the_shell() {
    let mut interpreter = Interpreter::new(Vec::new());
    let arena = Bump::new();
    let (_, action) = interpreter.interpret(&arena, "grep  'a b'   \"c d\" e\\ f # rest").unwrap();
    match action {
        Action::Spawn { argv, stdin, stdout } => {
            assert_eq!(*argv, vec!["grep".to_string(), "a b".to_string(), "c d".to_string(), "e f".to_string()]);
            assert_eq!(stdin, Source::Inherit);
            assert_eq!(stdout, Output::Inherit);
        },
        other => panic!("{:?}", other),
    }
}

#[test]
fn exported_variable_is_seen_by_the_next_line() {
    let mut interpreter = Interpreter::new(Vec::new());
    let arena = Bump::new();
    let (_, action) = interpreter.interpret(&arena, "export FOO=bar").unwrap();
    assert!(matches!(action, Action::Finish { outcome: Ok(true) }));
    let (_, action) = interpreter.interpret(&arena, "echo $FOO ${FOO}s").unwrap();
    match action {
        Action::Spawn { argv, .. } => {
            assert_eq!(*argv, vec!["echo".to_string(), "bar".to_string(), "bars".to_string()]);
        },
        other => panic!("{:?}", other),
    }
    assert_eq!(interpreter.environment().get("FOO"), Some(&"bar".to_string()));
}

#[test]
fn export_of_a_bad_operand_fails_the_line() {
    let mut interpreter = Interpreter::new(Vec::new());
    let arena = Bump::new();
    let error = interpreter.interpret(&arena, "export =bad").unwrap_err();
    assert_eq!(error.kind, ErrorKind::InvalidIdentifier);
    assert_eq!(error.message(), "export: '=bad`: not a valid identifier".to_string());
}

#[test]
fn empty_line_is_unexpected_eof() {
    let mut interpreter = Interpreter::new(Vec::new());
    let arena = Bump::new();
    for line in ["", "   ", "# only a remark", "ls &&", "ls >"] {
        let error = interpreter.interpret(&arena, line).unwrap_err();
        assert_eq!(error.kind, ErrorKind::UnexpectedEof, "{:?}", line);
    }
}

#[test]
fn cd_line_asks_for_a_change_of_directory() {
    let mut interpreter = Interpreter::new(pairs(&[("CWD", "derp")]));
    let arena = Bump::new();
    let (mut evaluation, action) = interpreter.interpret(&arena, "cd /tmp/${CWD} && ls").unwrap();
    match action {
        Action::ChangeDirectory { directory } => {
            assert_eq!(directory.target, Some("/tmp/derp".to_string()));
            assert_eq!(directory.process().expand(), Some("/tmp/derp".to_string()));
        },
        other => panic!("{:?}", other),
    }
    match evaluation.step(Reply::Succeeded) {
        Action::Spawn { argv, .. } => assert_eq!(*argv, vec!["ls".to_string()]),
        other => panic!("{:?}", other),
    }
}

#[test]
fn inline_assignment_stays_in_the_session() {
    let mut interpreter = Interpreter::new(Vec::new());
    let arena = Bump::new();
    let (_, action) = interpreter.interpret(&arena, "FOO=bar env").unwrap();
    match action {
        Action::Spawn { argv, .. } => assert_eq!(*argv, vec!["env".to_string()]),
        other => panic!("{:?}", other),
    }
    assert_eq!(interpreter.environment().get("FOO"), Some(&"bar".to_string()));
}

#[test]
fn home_is_put_for_a_leading_tilde() {
    let home = Some("/home/alice".to_string());
    let expand = |target: Option<&str>, home: Option<String>| {
        CDProcess { target: target.map(|t| t.to_string()), result: None }.expand_from(home)
    };
    assert_eq!(expand(None, home.clone()), Some("/home/alice".to_string()));
    assert_eq!(expand(Some("~"), home.clone()), Some("/home/alice".to_string()));
    assert_eq!(expand(Some("~/src/x"), home.clone()), Some("/home/alice/src/x".to_string()));
    assert_eq!(expand(Some("~alice"), home.clone()), Some("~alice".to_string()));
    assert_eq!(expand(Some("/tmp/~"), home.clone()), Some("/tmp/~".to_string()));
    assert_eq!(expand(Some("a/~/b"), home.clone()), Some("a/~/b".to_string()));
    assert_eq!(expand(Some(""), home.clone()), Some("".to_string()));
    assert_eq!(expand(Some("/tmp"), None), Some("/tmp".to_string()));
    assert_eq!(expand(None, None), None);
    assert_eq!(expand(Some("~/x"), None), None);
}

#[test]
fn home_is_asked_of_the_system() {
    let home = dirs::home_dir().and_then(|path| path.to_str().map(|text| text.to_string()));
    let process = CDProcess { target: None, result: None };
    assert_eq!(process.expand(), home);
    let process = CDProcess { target: Some("~/x".to_string()), result: None };
    assert_eq!(process.expand(), home.map(|dir| dir + "/x"));
    let process = CDProcess { target: Some("/tmp".to_string()), result: None };
    assert_eq!(process.expand(), Some("/tmp".to_string()));
}

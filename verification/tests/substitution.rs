use rsh::environment::Environment;
use rsh::errors::ErrorKind;
use rsh::stream::CharStream;
use rsh::substitution::{delimited, longest_match, substitution};

#[test]
fn test_longest() {
    let mut env = Environment::default();
    env.insert("abcd".to_string(), "bob".to_string());
    let sub = longest_match(&mut CharStream::new("abcd e"), &env);
    assert_eq!(sub, "bob".to_string())
}

#[test]
fn test_longest_no_match() {
    let mut env = Environment::default();
    env.insert("abcd".to_string(), "b".to_string());
    let sub = longest_match(&mut CharStream::new("nope"), &env);
    assert_eq!(sub, "".to_string())
}

#[test]
fn test_longest_single() {
    let mut env = Environment::default();
    env.insert("a".to_string(), "bob".to_string());
    let sub = longest_match(&mut CharStream::new("a bcd"), &env);
    assert_eq!(sub, "bob".to_string())
}

#[test]
fn test_longest_contains_single() {
    let mut env = Environment::default();
    env.insert("a".to_string(), "bob".to_string());
    let sub = longest_match(&mut CharStream::new("abcd a"), &env);
    assert_eq!(sub, "".to_string())
}

#[test]
fn test_longest_contains_longer() {
    let mut env = Environment::default();
    env.insert("abcd".to_string(), "bob".to_string());
    env.insert("a".to_string(), "alice".to_string());
    let sub = longest_match(&mut CharStream::new("abcd a"), &env);
    assert_eq!(sub, "bob".to_string())
}

#[test]
fn test_delimiter() {
    let mut env = Environment::default();
    env.insert("abcd".to_string(), "bob".to_string());
    let sub = delimited(&mut CharStream::new("abcd} e"), &env).unwrap();
    assert_eq!(sub, "bob".to_string())
}

#[test]
fn test_delimited_no_match() {
    let mut env = Environment::default();
    env.insert("abcd".to_string(), "b".to_string());
    let sub = delimited(&mut CharStream::new("nope}"), &env).unwrap();
    assert_eq!(sub, "".to_string())
}

#[test]
fn test_delimited_single() {
    let mut env = Environment::default();
    env.insert("a".to_string(), "bob".to_string());
    let sub = delimited(&mut CharStream::new("a} bcd"), &env).unwrap();
    assert_eq!(sub, "bob".to_string())
}

#[test]
fn test_delimited_contains_single() {
    let mut env = Environment::default();
    env.insert("a".to_string(), "bob".to_string());
    let sub = delimited(&mut CharStream::new("abcd} a"), &env).unwrap();
    assert_eq!(sub, "".to_string())
}

#[test]
fn test_delimited_contains_longer() {
    let mut env = Environment::default();
    env.insert("abcd".to_string(), "bob".to_string());
    env.insert("a".to_string(), "alice".to_string());
    let sub = delimited(&mut CharStream::new("abcd} a"), &env).unwrap();
    assert_eq!(sub, "bob".to_string())
}

#[test]
fn test_delimited_no_close() {
    let mut env = Environment::default();
    env.insert("abcd".to_string(), "bob".to_string());
    env.insert("a".to_string(), "alice".to_string());
    let sub = delimited(&mut CharStream::new("abcd"), &env);
    if sub.is_ok() {
        panic!("{}", sub.unwrap())
    }
    assert_eq!(sub.unwrap_err().kind, ErrorKind::UnclosedDelimiter);
}

#[test]
fn test_delimited_space() {
    let mut env = Environment::default();
    env.insert("abcd".to_string(), "bob".to_string());
    env.insert("a".to_string(), "alice".to_string());
    let sub = delimited(&mut CharStream::new("abc b}"), &env);
    if sub.is_ok() {
        panic!("{}", sub.unwrap())
    }
    assert_eq!(sub.unwrap_err().kind, ErrorKind::BadSubstitution);
}

#[test]
fn test_substitution() {
    let mut env = Environment::default();
    env.insert("abcd".to_string(), "bob".to_string());
    env.insert("a".to_string(), "alice".to_string());
    let got = substitution("hello ${abcd}, say hello to $a", &env).unwrap();
    assert_eq!("hello bob, say hello to alice".to_string(), got)
}

#[test]
fn test_substitution_inserted() {
    let mut env = Environment::default();
    env.insert("a".to_string(), "b".to_string());
    let got = substitution("a$a", &env).unwrap();
    assert_eq!("ab".to_string(), got)
}

#[test]
fn test_substitution_inserted_delimited() {
    let mut env = Environment::default();
    env.insert("a".to_string(), "b".to_string());
    let got = substitution("a${a}a", &env).unwrap();
    assert_eq!("aba".to_string(), got)
}

#[test]
fn aasdasd() {
    println!("{:?}", "a=b".split('=').map(str::to_string).collect::<Vec<String>>());
    println!("{:?}", "a".split('=').map(str::to_string).collect::<Vec<String>>());
    println!("{:?}", "a=".split('=').map(str::to_string).collect::<Vec<String>>());
    println!("{:?}", "=a".split('=').map(str::to_string).collect::<Vec<String>>());
    println!("{:?}", "=".split('=').map(str::to_string).collect::<Vec<String>>());
    println!("{:?}", "".split('=').map(str::to_string).collect::<Vec<String>>());
}

#[test]
fn text_without_dollar_is_unchanged() {
    let mut env = Environment::default();
    env.insert("a".to_string(), "alice".to_string());
    for word in ["", "a", "hello world", "{a}", "a\\b", "  spaced  ", "caf\u{e9} \u{4e16}\u{754c}"] {
        assert_eq!(substitution(word, &env).unwrap(), word.to_string());
    }
}

#[test]
fn delimited_reference_gives_the_value_or_nothing() {
    let mut env = Environment::default();
    env.insert("name".to_string(), "value".to_string());
    env.insert("".to_string(), "empty name".to_string());
    assert_eq!(substitution("${name}", &env).unwrap(), "value".to_string());
    assert_eq!(substitution("${other}", &env).unwrap(), "".to_string());
    assert_eq!(substitution("${}", &env).unwrap(), "empty name".to_string());
    assert_eq!(substitution("${na$me}", &env).unwrap(), "".to_string());
}

#[test]
fn bare_reference_takes_the_whole_run() {
    let mut env = Environment::default();
    env.insert("a".to_string(), "alice".to_string());
    assert_eq!(substitution("$abcd a", &env).unwrap(), " a".to_string());
    assert_eq!(substitution("$a a", &env).unwrap(), "alice a".to_string());
    assert_eq!(substitution("$a}", &env).unwrap(), "".to_string());
    assert_eq!(substitution("$a$a", &env).unwrap(), "".to_string());
}

#[test]
fn unclosed_reference_is_an_error() {
    let env = Environment::default();
    for word in ["${", "${abcd", "x${abcd", "hello ${a{b"] {
        let error = substitution(word, &env).unwrap_err();
        assert_eq!(error.kind, ErrorKind::UnclosedDelimiter);
        assert_eq!(error.message(), "unclosed delimiter".to_string());
    }
}

#[test]
fn space_in_reference_is_an_error() {
    let env = Environment::default();
    for word in ["${name with space}", "${ }", "x${a\tb}", "${a\n", "${a b"] {
        let error = substitution(word, &env).unwrap_err();
        assert_eq!(error.kind, ErrorKind::BadSubstitution);
        assert_eq!(error.message(), "bad substitution".to_string());
    }
}

#[test]
fn dollar_stands_for_itself() {
    let mut env = Environment::default();
    env.insert("a".to_string(), "alice".to_string());
    assert_eq!(substitution("$", &env).unwrap(), "$".to_string());
    assert_eq!(substitution("cost $ 5", &env).unwrap(), "cost $ 5".to_string());
    assert_eq!(substitution("a$", &env).unwrap(), "a$".to_string());
    assert_eq!(substitution("\\$a", &env).unwrap(), "$a".to_string());
    assert_eq!(substitution("\\${a}", &env).unwrap(), "${a}".to_string());
    assert_eq!(substitution("\\\\$a", &env).unwrap(), "\\$a".to_string());
}

#[test]
fn escape_looks_at_what_was_emitted() {
    let mut env = Environment::default();
    env.insert("slash".to_string(), "x\\".to_string());
    env.insert("b".to_string(), "bob".to_string());
    assert_eq!(substitution("${slash}$b", &env).unwrap(), "x$b".to_string());
}

#[test]
fn values_are_not_expanded_again() {
    let mut env = Environment::default();
    env.insert("a".to_string(), "$b".to_string());
    env.insert("b".to_string(), "bob".to_string());
    assert_eq!(substitution("${a} $a", &env).unwrap(), "$b $b".to_string());
}

#[test]
fn streams_stop_where_the_name_stops() {
    let mut env = Environment::default();
    env.insert("abcd".to_string(), "bob".to_string());
    let mut stream = CharStream::new("abcd e");
    assert_eq!(longest_match(&mut stream, &env), "bob".to_string());
    assert_eq!(stream.peek(), Some(' '));
    let mut stream = CharStream::new("abcd}e");
    assert_eq!(delimited(&mut stream, &env).unwrap(), "bob".to_string());
    assert_eq!(stream.next(), Some('e'));
    assert_eq!(stream.next(), None);
    let mut stream = CharStream::new("ab cd}");
    assert!(delimited(&mut stream, &env).is_err());
    assert_eq!(stream.peek(), Some(' '));
}

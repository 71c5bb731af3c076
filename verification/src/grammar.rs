//! What the compiler makes of a list of words, stated over sequences of
//! characters and maps.

use vstd::prelude::*;
use crate::errors::ErrorKind;
use crate::statement::{RedirectType, StatementView};
use crate::substitution::substituted;

verus! {

/// The outcome of compiling some words: the result, and the environment as
/// the words have left it. The environment counts also when the result is an
/// error: what was assigned before the error stays assigned.
pub struct Compiled<T> {
    pub result: Result<T, (ErrorKind, Seq<char>)>,
    pub env: Map<Seq<char>, Seq<char>>,
}

/// An error without detail, and the environment at which it arose.
pub open spec fn failed<T>(kind: ErrorKind, env: Map<Seq<char>, Seq<char>>) -> Compiled<T> {
    Compiled { result: Err((kind, Seq::empty())), env }
}

/// The place of the first `=` of `word` at or after `from`, or the length of
/// `word` if there is none.
pub open spec fn equals_at(word: Seq<char>, from: int) -> int
    decreases word.len() - from,
{
    if from < 0 || from >= word.len() {
        word.len() as int
    } else if word[from] == '=' {
        from
    } else {
        equals_at(word, from + 1)
    }
}

/// Whether `word` assigns a variable: it holds a `=`, and not in first place.
pub open spec fn is_assignment(word: Seq<char>) -> bool {
    0 < equals_at(word, 0) < word.len()
}

/// The name that an operand of the form `name=value` or `name` binds.
pub open spec fn assigned_name(word: Seq<char>) -> Seq<char> {
    word.take(equals_at(word, 0))
}

/// The text after the first `=` of `word`; empty if `word` holds no `=`.
pub open spec fn assigned_text(word: Seq<char>) -> Seq<char> {
    if equals_at(word, 0) < word.len() {
        word.skip(equals_at(word, 0) + 1)
    } else {
        Seq::empty()
    }
}

/// The effect of `export` with the operands `operands[from..]`: each operand
/// binds its name to the expansion of its text, from left to right. An operand
/// that begins with `=` stops the work, and so does a text that cannot be
/// expanded.
pub open spec fn exported(
    operands: Seq<Seq<char>>,
    env: Map<Seq<char>, Seq<char>>,
    from: int,
) -> Compiled<()>
    decreases operands.len() - from,
{
    if from < 0 || from >= operands.len() {
        Compiled { result: Ok(()), env }
    } else if operands[from].len() > 0 && operands[from][0] == '=' {
        Compiled { result: Err((ErrorKind::InvalidIdentifier, operands[from])), env }
    } else {
        match substituted(assigned_text(operands[from]), env) {
            Ok(value) => exported(operands, env.insert(assigned_name(operands[from]), value), from + 1),
            Err(kind) => failed(kind, env),
        }
    }
}

/// The expansions of `words[from..]` in `env`, after `done`; the error of the
/// first word that cannot be expanded.
pub open spec fn arguments(
    words: Seq<Seq<char>>,
    env: Map<Seq<char>, Seq<char>>,
    from: int,
    done: Seq<Seq<char>>,
) -> Result<Seq<Seq<char>>, ErrorKind>
    decreases words.len() - from,
{
    if from < 0 || from >= words.len() {
        Ok(done)
    } else {
        match substituted(words[from], env) {
            Ok(word) => arguments(words, env, from + 1, done.push(word)),
            Err(kind) => Err(kind),
        }
    }
}

/// The command that `words[from..]` spell: the leading assignments are
/// carried out one by one, then the program's name and its arguments are
/// expanded in the environment that the assignments have left. Words that
/// name no program are an error.
pub open spec fn command(words: Seq<Seq<char>>, env: Map<Seq<char>, Seq<char>>, from: int) -> Compiled<
    Seq<Seq<char>>,
>
    decreases words.len() - from,
{
    if from < 0 || from >= words.len() {
        failed(ErrorKind::UnexpectedEof, env)
    } else if is_assignment(words[from]) {
        match substituted(assigned_text(words[from]), env) {
            Ok(value) => command(words, env.insert(assigned_name(words[from]), value), from + 1),
            Err(kind) => failed(kind, env),
        }
    } else {
        match arguments(words, env, from, Seq::empty()) {
            Ok(argv) => Compiled { result: Ok(argv), env },
            Err(kind) => failed(kind, env),
        }
    }
}

/// The target of `cd`, expanded.
pub open spec fn directory(target: Option<Seq<char>>, env: Map<Seq<char>, Seq<char>>) -> Result<
    Option<Seq<char>>,
    (ErrorKind, Seq<char>),
> {
    match target {
        None => Ok(None),
        Some(path) => match substituted(path, env) {
            Ok(expanded) => Ok(Some(expanded)),
            Err(kind) => Err((kind, Seq::empty())),
        },
    }
}

/// A command whose output goes to the file `target`.
pub open spec fn redirected(
    head: Seq<Seq<char>>,
    target: Seq<char>,
    mode: RedirectType,
    env: Map<Seq<char>, Seq<char>>,
) -> Compiled<StatementView> {
    let inner = command(head, env, 0);
    match inner.result {
        Ok(argv) => match substituted(target, inner.env) {
            Ok(path) => Compiled {
                result: Ok(StatementView::Redirect { argv, target: path, mode }),
                env: inner.env,
            },
            Err(kind) => failed(kind, inner.env),
        },
        Err(error) => Compiled { result: Err(error), env: inner.env },
    }
}

/// The statement that words without `&&`, `||` and `|` spell.
pub open spec fn expression(words: Seq<Seq<char>>, env: Map<Seq<char>, Seq<char>>) -> Compiled<
    StatementView,
> {
    let n = words.len() as int;
    if n == 0 {
        failed(ErrorKind::UnexpectedEof, env)
    } else if words[n - 1] == ">"@ || words[n - 1] == ">>"@ {
        failed(ErrorKind::UnexpectedEof, env)
    } else if words[0] == "cd"@ && n <= 2 {
        match directory(if n == 1 { None } else { Some(words[1]) }, env) {
            Ok(target) => Compiled { result: Ok(StatementView::ChangeDirectory { target }), env },
            Err(error) => Compiled { result: Err(error), env },
        }
    } else if words[0] == "export"@ {
        let done = exported(words.skip(1), env, 0);
        match done.result {
            Ok(_) => Compiled { result: Ok(StatementView::NoOp), env: done.env },
            Err(error) => Compiled { result: Err(error), env: done.env },
        }
    } else if n >= 2 && words[n - 2] == ">"@ {
        redirected(words.take(n - 2), words[n - 1], RedirectType::Truncate, env)
    } else if n >= 2 && words[n - 2] == ">>"@ {
        redirected(words.take(n - 2), words[n - 1], RedirectType::Append, env)
    } else {
        let inner = command(words, env, 0);
        match inner.result {
            Ok(argv) => Compiled { result: Ok(StatementView::Command { argv }), env: inner.env },
            Err(error) => Compiled { result: Err(error), env: inner.env },
        }
    }
}

/// Whether `word` joins two statements.
pub open spec fn is_joint(word: Seq<char>) -> bool {
    word == "&&"@ || word == "||"@ || word == "|"@
}

/// The place of the first joint of `words` at or after `from`, or the length
/// of `words` if there is none.
pub open spec fn joint_at(words: Seq<Seq<char>>, from: int) -> int
    decreases words.len() - from,
{
    if from < 0 || from >= words.len() {
        words.len() as int
    } else if is_joint(words[from]) {
        from
    } else {
        joint_at(words, from + 1)
    }
}

/// The statement that joins `lhs` and `rhs` by the joint `word`.
pub open spec fn joined(word: Seq<char>, lhs: StatementView, rhs: StatementView) -> StatementView {
    if word == "&&"@ {
        StatementView::And { lhs: Box::new(lhs), rhs: Box::new(rhs) }
    } else if word == "||"@ {
        StatementView::Or { lhs: Box::new(lhs), rhs: Box::new(rhs) }
    } else {
        StatementView::Pipe { lhs: Box::new(lhs), rhs: Box::new(rhs) }
    }
}

/// The statement that `words` spell. The first joint splits the words: what
/// stands before it is the left side, an expression, and all that follows is
/// the right side, compiled in the same way in the environment that the left
/// side has left. So joints group to the right, and none binds tighter than
/// another.
pub open spec fn compiled(words: Seq<Seq<char>>, env: Map<Seq<char>, Seq<char>>) -> Compiled<
    StatementView,
>
    decreases words.len(),
{
    let split = joint_at(words, 0);
    if 0 <= split < words.len() {
        let lhs = expression(words.take(split), env);
        match lhs.result {
            Ok(left) => {
                let rhs = compiled(words.skip(split + 1), lhs.env);
                match rhs.result {
                    Ok(right) => Compiled {
                        result: Ok(joined(words[split], left, right)),
                        env: rhs.env,
                    },
                    Err(error) => Compiled { result: Err(error), env: rhs.env },
                }
            },
            Err(error) => Compiled { result: Err(error), env: lhs.env },
        }
    } else {
        expression(words, env)
    }
}

/// Where all the words from `from` on can be expanded, there is one
/// argument for each of them.
pub proof fn lemma_arguments_count(
    words: Seq<Seq<char>>,
    env: Map<Seq<char>, Seq<char>>,
    from: int,
    done: Seq<Seq<char>>,
)
    requires
        0 <= from <= words.len(),
    ensures
        arguments(words, env, from, done) is Ok ==> arguments(words, env, from, done)->Ok_0.len()
            == done.len() + words.len() - from,
    decreases words.len() - from,
{
    if from < words.len() {
        if let Ok(word) = substituted(words[from], env) {
            lemma_arguments_count(words, env, from + 1, done.push(word));
        }
    }
}

/// A command has a program to run: its first word, which is no assignment.
pub proof fn lemma_command_names_program(
    words: Seq<Seq<char>>,
    env: Map<Seq<char>, Seq<char>>,
    from: int,
)
    requires
        0 <= from,
    ensures
        command(words, env, from).result is Ok ==> command(words, env, from).result->Ok_0.len() >= 1,
    decreases words.len() - from,
{
    if from < words.len() {
        if is_assignment(words[from]) {
            if let Ok(value) = substituted(assigned_text(words[from]), env) {
                lemma_command_names_program(
                    words,
                    env.insert(assigned_name(words[from]), value),
                    from + 1,
                );
            }
        } else {
            lemma_arguments_count(words, env, from, Seq::empty());
        }
    }
}

/// Whether `tree` is a single node.
pub open spec fn is_leaf(tree: StatementView) -> bool {
    !(tree is And) && !(tree is Or) && !(tree is Pipe)
}

/// Whether every joint of `tree` has a single node on its left.
pub open spec fn groups_right(tree: StatementView) -> bool
    decreases tree,
{
    match tree {
        StatementView::And { lhs, rhs } => is_leaf(*lhs) && groups_right(*rhs),
        StatementView::Or { lhs, rhs } => is_leaf(*lhs) && groups_right(*rhs),
        StatementView::Pipe { lhs, rhs } => is_leaf(*lhs) && groups_right(*rhs),
        _ => true,
    }
}

/// Joints group to the right: in the statement that words compile to, the
/// left side of every joint is a single node.
pub proof fn lemma_compiled_groups_right(words: Seq<Seq<char>>, env: Map<Seq<char>, Seq<char>>)
    ensures
        compiled(words, env).result is Ok ==> groups_right(compiled(words, env).result->Ok_0),
    decreases words.len(),
{
    let split = joint_at(words, 0);
    if 0 <= split < words.len() {
        let lhs = expression(words.take(split), env);
        if lhs.result is Ok {
            lemma_compiled_groups_right(words.skip(split + 1), lhs.env);
        }
    }
}

} // verus!

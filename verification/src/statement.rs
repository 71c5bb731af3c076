//! The statements that a line compiles to, and the two of them that are built
//! from words directly: the command and the change of directory.

use vstd::prelude::*;
use crate::environment::Environment;
use crate::errors::{ErrorKind, InterpreterError, InterpreterResult};
use crate::physical::CDProcess;
use crate::grammar::{
    arguments, command, directory, equals_at, failed, is_assignment, lemma_command_names_program,
    Compiled,
};
use crate::substitution::substitution;
use crate::text::{chars_of, string_of, text_of, words_of};

verus! {

/// How a redirection opens its file.
#[derive(Clone, Copy, Debug, PartialEq, Eq, Structural)]
pub enum RedirectType {
    Append,
    Truncate,
}

impl RedirectType {
    /// Whether the file is emptied when it is opened.
    pub fn truncates(self) -> (t: bool)
        ensures
            t == (self == RedirectType::Truncate),
    {
        match self {
            RedirectType::Append => false,
            RedirectType::Truncate => true,
        }
    }
}

/// A program's name and its arguments, after expansion.
#[derive(Debug)]
pub struct Command {
    pub argv: Vec<String>,
}

impl View for Command {
    type V = Seq<Seq<char>>;

    open spec fn view(&self) -> Seq<Seq<char>> {
        words_of(self.argv@)
    }
}

/// The builtin that changes the working directory, to the home directory
/// where it has no target.
#[derive(Debug)]
pub struct CD {
    pub target: Option<String>,
}

impl View for CD {
    type V = Option<Seq<char>>;

    open spec fn view(&self) -> Option<Seq<char>> {
        text_of(self.target)
    }
}

/// A node of the tree that a line compiles to. The nodes of one line live in
/// one arena.
#[derive(Debug)]
pub enum Statement<'a> {
    Command(Command),
    Pipe { lhs: &'a Statement<'a>, rhs: &'a Statement<'a> },
    And { lhs: &'a Statement<'a>, rhs: &'a Statement<'a> },
    Or { lhs: &'a Statement<'a>, rhs: &'a Statement<'a> },
    Redirect { inner: Command, target: String, mode: RedirectType },
    ChangeDirectory(CD),
    NoOp,
}

/// A statement as a value: the tree without the arena.
#[allow(inconsistent_fields)]
pub enum StatementView {
    Command { argv: Seq<Seq<char>> },
    Pipe { lhs: Box<StatementView>, rhs: Box<StatementView> },
    And { lhs: Box<StatementView>, rhs: Box<StatementView> },
    Or { lhs: Box<StatementView>, rhs: Box<StatementView> },
    Redirect { argv: Seq<Seq<char>>, target: Seq<char>, mode: RedirectType },
    ChangeDirectory { target: Option<Seq<char>> },
    NoOp,
}

impl<'a> Statement<'a> {
    /// The tree below this node.
    pub open spec fn tree(&self) -> StatementView
        decreases self,
    {
        match self {
            Statement::Command(command) => StatementView::Command { argv: command@ },
            Statement::Pipe { lhs, rhs } => StatementView::Pipe {
                lhs: Box::new(lhs.tree()),
                rhs: Box::new(rhs.tree()),
            },
            Statement::And { lhs, rhs } => StatementView::And {
                lhs: Box::new(lhs.tree()),
                rhs: Box::new(rhs.tree()),
            },
            Statement::Or { lhs, rhs } => StatementView::Or {
                lhs: Box::new(lhs.tree()),
                rhs: Box::new(rhs.tree()),
            },
            Statement::Redirect { inner, target, mode } => StatementView::Redirect {
                argv: inner@,
                target: target@,
                mode: *mode,
            },
            Statement::ChangeDirectory(cd) => StatementView::ChangeDirectory { target: cd@ },
            Statement::NoOp => StatementView::NoOp,
        }
    }
}

impl<'a> View for Statement<'a> {
    type V = StatementView;

    open spec fn view(&self) -> StatementView {
        self.tree()
    }
}

/// The place of the first `=` in `chars`, or their number.
pub fn find_equals(chars: &Vec<char>) -> (place: usize)
    ensures
        place == equals_at(chars@, 0),
        place <= chars.len(),
{
    let mut i: usize = 0;
    while i < chars.len()
        invariant
            i <= chars.len(),
            equals_at(chars@, 0) == equals_at(chars@, i as int),
        decreases chars.len() - i,
    {
        if chars[i] == '=' {
            return i;
        }
        i += 1;
    }
    i
}

impl Command {
    /// Makes a command of `tokens`. Leading words of the form `name=value`
    /// are assignments: each binds its name in `env` to the expansion of its
    /// value. The first word of another form is the program's name; it and
    /// the words after it are expanded in the environment that the
    /// assignments have left.
    pub fn new(tokens: &[String], env: &mut Environment) -> (result: InterpreterResult<Command>)
        ensures
            final(env)@ == command(words_of(tokens@), old(env)@, 0).env,
            match command(words_of(tokens@), old(env)@, 0).result {
                Ok(argv) => result is Ok && result->Ok_0@ == argv,
                Err(error) => result is Err && result->Err_0@ == error,
            },
            result is Ok ==> result->Ok_0.argv@.len() >= 1,
    {
        let ghost words = words_of(tokens@);
        proof {
            lemma_command_names_program(words, env@, 0);
        }
        let mut i: usize = 0;
        loop
            invariant_except_break
                i <= tokens.len(),
                command(words, env@, i as int) == command(words, old(env)@, 0),
            invariant
                words == words_of(tokens@),
            ensures
                i < tokens.len(),
                !is_assignment(words[i as int]),
                command(words, env@, i as int) == command(words, old(env)@, 0),
            decreases tokens.len() - i,
        {
            if i >= tokens.len() {
                return Err(InterpreterError::new(ErrorKind::UnexpectedEof));
            }
            let chars = chars_of(tokens[i].as_str());
            let place = find_equals(&chars);
            assert(chars@ == words[i as int]);
            if place == 0 || place >= chars.len() {
                break ;
            }
            let name = string_of(&chars, 0, place);
            let text = string_of(&chars, place + 1, chars.len());
            match substitution(text.as_str(), env) {
                Ok(value) => {
                    env.insert(name, value);
                },
                Err(error) => {
                    return Err(error);
                },
            }
            i += 1;
        }
        let mut argv: Vec<String> = Vec::new();
        assert(words_of(argv@) =~= Seq::empty());
        while i < tokens.len()
            invariant
                i <= tokens.len(),
                words == words_of(tokens@),
                match arguments(words, env@, i as int, words_of(argv@)) {
                    Ok(expanded) => command(words, old(env)@, 0) == (Compiled {
                        result: Ok(expanded),
                        env: env@,
                    }),
                    Err(kind) => command(words, old(env)@, 0) == failed::<Seq<Seq<char>>>(
                        kind,
                        env@,
                    ),
                },
            decreases tokens.len() - i,
        {
            let ghost before = words_of(argv@);
            match substitution(tokens[i].as_str(), env) {
                Ok(word) => {
                    argv.push(word);
                    assert(words_of(argv@) =~= before.push(word@));
                },
                Err(error) => {
                    return Err(error);
                },
            }
            i += 1;
        }
        Ok(Command { argv })
    }
}

impl CD {
    /// The process that carries out this change. It has no result yet.
    pub fn process(&self) -> (process: CDProcess)
        ensures
            process.target_view() == self@,
            process.result is None,
    {
        let target = match &self.target {
            Some(path) => Some(path.clone()),
            None => None,
        };
        CDProcess { target, result: None }
    }

    /// Makes a change of directory to the expansion of `target`.
    pub fn new(target: Option<String>, env: &Environment) -> (result: InterpreterResult<CD>)
        ensures
            match directory(text_of(target), env@) {
                Ok(expanded) => result is Ok && result->Ok_0@ == expanded,
                Err(error) => result is Err && result->Err_0@ == error,
            },
    {
        match target {
            Some(path) => match substitution(path.as_str(), env) {
                Ok(expanded) => Ok(CD { target: Some(expanded) }),
                Err(error) => Err(error),
            },
            None => Ok(CD { target: None }),
        }
    }
}

} // verus!

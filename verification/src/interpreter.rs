//! The session and its compiler: from a line of text to the words, from the
//! words to a statement, and from the statement to the evaluator that runs it.

use vstd::prelude::*;
use vstd::slice::slice_subrange;
use crate::environment::Environment;
use crate::errors::{ErrorKind, InterpreterError, InterpreterResult};
use crate::evaluator::{begun, Action, Evaluation};
use crate::grammar::{compiled, exported, expression, joint_at};
use crate::statement::{Command, RedirectType, Statement, CD};
use crate::statement::find_equals;
use crate::substitution::substitution;
use crate::text::{chars_of, string_of, words_of};

verus! {

/// The arena of bumpalo: memory that is handed out piece by piece and given
/// back all at once.
#[verifier::external_type_specification]
#[verifier::external_body]
pub struct ExBump<const MIN_ALIGN: usize>(bumpalo::Bump<MIN_ALIGN>);

/// The words that shlex reads in a line, by the quoting rules of a POSIX
/// shell.
pub uninterp spec fn shell_words(line: Seq<char>) -> Seq<Seq<char>>;

/// `shlex::Shlex::new(line)`, read to its end. The words depend on the line
/// alone; a line that ends inside a quotation gives the words before it.
#[verifier::external_body]
fn tokenize(line: &str) -> (tokens: Vec<String>)
    ensures
        words_of(tokens@) == shell_words(line@),
{
    shlex::Shlex::new(line).collect()
}

/// `bumpalo::Bump::alloc`: moves `node` into the arena and returns a
/// reference to it that lives as long as the arena.
#[verifier::external_body]
fn allocate<'a>(arena: &'a bumpalo::Bump, node: Statement<'a>) -> (placed: &'a Statement<'a>)
    ensures
        *placed == node,
{
    arena.alloc(node)
}

/// A shell session: the variables that its lines read and assign.
pub struct Interpreter {
    environment: Environment,
}

/// The variables of a list of pairs of a name and a value. Where a name
/// comes twice, its last value counts.
pub open spec fn seeded(variables: Seq<(String, String)>) -> Map<Seq<char>, Seq<char>>
    decreases variables.len(),
{
    if variables.len() == 0 {
        Map::empty()
    } else {
        seeded(variables.drop_last()).insert(variables.last().0@, variables.last().1@)
    }
}

impl Interpreter {
    /// The variables of the session.
    pub closed spec fn variables(&self) -> Map<Seq<char>, Seq<char>> {
        self.environment@
    }

    /// A session that starts with the given variables, which are those of
    /// the process that runs the shell.
    pub fn new(variables: Vec<(String, String)>) -> (interpreter: Interpreter)
        ensures
            interpreter.variables() == seeded(variables@),
    {
        let mut environment = Environment::new();
        let mut i: usize = 0;
        while i < variables.len()
            invariant
                i <= variables.len(),
                environment@ == seeded(variables@.take(i as int)),
            decreases variables.len() - i,
        {
            assert(variables@.take(i + 1).drop_last() =~= variables@.take(i as int));
            environment.insert(variables[i].0.clone(), variables[i].1.clone());
            i += 1;
        }
        assert(variables@.take(i as int) =~= variables@);
        Interpreter { environment }
    }

    /// The variables of the session.
    pub fn environment(&self) -> (env: &Environment)
        ensures
            env@ == self.variables(),
    {
        &self.environment
    }

    /// Reads a line: splits it into words, compiles the words, and starts
    /// the evaluator on the statement. What the line assigns stays assigned,
    /// also where the line is in error. Returns the evaluator and the first
    /// action that it asks for; nothing has been run yet.
    pub fn interpret<'a>(&mut self, arena: &'a bumpalo::Bump, input: &str) -> (result:
        InterpreterResult<(Evaluation<'a>, Action<'a>)>)
        ensures
            final(self).variables() == compiled(shell_words(input@), old(self).variables()).env,
            match compiled(shell_words(input@), old(self).variables()).result {
                Ok(tree) => result is Ok && (result->Ok_0.0@, result->Ok_0.1@) == begun(tree),
                Err(error) => result is Err && result->Err_0@ == error,
            },
    {
        let tokens = tokenize(input);
        match Self::compile(arena, tokens.as_slice(), &mut self.environment) {
            Ok(statement) => Ok(Evaluation::begin(statement)),
            Err(error) => Err(error),
        }
    }

    /// Carries out `export` on its operands, from left to right. An operand
    /// `name=text` binds `name` to the expansion of `text`, an operand `name`
    /// binds it to the empty string, and an operand that begins with `=` is
    /// an error that leaves the operands after it untouched.
    pub fn update_env(pairs: &[String], env: &mut Environment) -> (result: InterpreterResult<()>)
        ensures
            final(env)@ == exported(words_of(pairs@), old(env)@, 0).env,
            match exported(words_of(pairs@), old(env)@, 0).result {
                Ok(_) => result is Ok,
                Err(error) => result is Err && result->Err_0@ == error,
            },
    {
        let ghost operands = words_of(pairs@);
        let mut i: usize = 0;
        while i < pairs.len()
            invariant
                i <= pairs.len(),
                operands == words_of(pairs@),
                exported(operands, env@, i as int) == exported(operands, old(env)@, 0),
            decreases pairs.len() - i,
        {
            let chars = chars_of(pairs[i].as_str());
            assert(chars@ == operands[i as int]);
            if chars.len() > 0 && chars[0] == '=' {
                return Err(
                    InterpreterError::with_detail(ErrorKind::InvalidIdentifier, pairs[i].clone()),
                );
            }
            let place = find_equals(&chars);
            let name = string_of(&chars, 0, place);
            let text = if place < chars.len() {
                string_of(&chars, place + 1, chars.len())
            } else {
                String::new()
            };
            match substitution(text.as_str(), env) {
                Ok(value) => {
                    env.insert(name, value);
                },
                Err(error) => {
                    return Err(error);
                },
            }
            i += 1;
        }
        Ok(())
    }

    /// Compiles words that hold no `&&`, `||` or `|`: a `cd`, an `export`, a
    /// command with its output sent to a file, or a plain command.
    pub fn compile_expression<'a>(
        arena: &'a bumpalo::Bump,
        env: &mut Environment,
        tokens: &[String],
    ) -> (result: InterpreterResult<&'a Statement<'a>>)
        ensures
            final(env)@ == expression(words_of(tokens@), old(env)@).env,
            match expression(words_of(tokens@), old(env)@).result {
                Ok(tree) => result is Ok && result->Ok_0@ == tree,
                Err(error) => result is Err && result->Err_0@ == error,
            },
    {
        let ghost words = words_of(tokens@);
        let n = tokens.len();
        if n == 0 {
            return Err(InterpreterError::new(ErrorKind::UnexpectedEof));
        }
        let last = tokens[n - 1].as_str();
        if last.eq(">") || last.eq(">>") {
            return Err(InterpreterError::new(ErrorKind::UnexpectedEof));
        }
        let first = tokens[0].as_str();
        if first.eq("cd") && n <= 2 {
            let target = if n == 1 {
                None
            } else {
                Some(tokens[1].clone())
            };
            return match CD::new(target, env) {
                Ok(cd) => Ok(allocate(arena, Statement::ChangeDirectory(cd))),
                Err(error) => Err(error),
            };
        }
        if first.eq("export") {
            let operands = slice_subrange(tokens, 1, n);
            assert(words_of(operands@) =~= words.skip(1));
            return match Self::update_env(operands, env) {
                Ok(_) => Ok(allocate(arena, Statement::NoOp)),
                Err(error) => Err(error),
            };
        }
        if n >= 2 {
            let mark = tokens[n - 2].as_str();
            let truncate = mark.eq(">");
            if truncate || mark.eq(">>") {
                let mode = if truncate {
                    RedirectType::Truncate
                } else {
                    RedirectType::Append
                };
                let head = slice_subrange(tokens, 0, n - 2);
                assert(words_of(head@) =~= words.take(n - 2));
                let inner = match Command::new(head, env) {
                    Ok(inner) => inner,
                    Err(error) => {
                        return Err(error);
                    },
                };
                return match substitution(tokens[n - 1].as_str(), env) {
                    Ok(target) => Ok(allocate(arena, Statement::Redirect { inner, target, mode })),
                    Err(error) => Err(error),
                };
            }
        }
        match Command::new(tokens, env) {
            Ok(command) => Ok(allocate(arena, Statement::Command(command))),
            Err(error) => Err(error),
        }
    }

    /// The place of the first `&&`, `||` or `|` among `tokens`, or their
    /// number.
    pub fn find_joint(tokens: &[String]) -> (split: usize)
        ensures
            split == joint_at(words_of(tokens@), 0),
            split <= tokens@.len(),
    {
        let ghost words = words_of(tokens@);
        let mut split: usize = 0;
        while split < tokens.len()
            invariant
                split <= tokens@.len(),
                words == words_of(tokens@),
                joint_at(words, 0) == joint_at(words, split as int),
            decreases tokens@.len() - split,
        {
            let word = tokens[split].as_str();
            if word.eq("&&") || word.eq("||") || word.eq("|") {
                return split;
            }
            split += 1;
        }
        split
    }

    /// Compiles the words of one line. The first `&&`, `||` or `|` splits
    /// them into a left side, which is an expression, and a right side, which
    /// is compiled in the same way.
    pub fn compile<'a>(
        arena: &'a bumpalo::Bump,
        tokens: &[String],
        env: &mut Environment,
    ) -> (result: InterpreterResult<&'a Statement<'a>>)
        ensures
            final(env)@ == compiled(words_of(tokens@), old(env)@).env,
            match compiled(words_of(tokens@), old(env)@).result {
                Ok(tree) => result is Ok && result->Ok_0@ == tree,
                Err(error) => result is Err && result->Err_0@ == error,
            },
        decreases tokens@.len(),
    {
        let ghost words = words_of(tokens@);
        let n = tokens.len();
        let split = Self::find_joint(tokens);
        if split >= n {
            return Self::compile_expression(arena, env, tokens);
        }
        let left = slice_subrange(tokens, 0, split);
        assert(words_of(left@) =~= words.take(split as int));
        let lhs = match Self::compile_expression(arena, env, left) {
            Ok(lhs) => lhs,
            Err(error) => {
                return Err(error);
            },
        };
        let right = slice_subrange(tokens, split + 1, n);
        assert(words_of(right@) =~= words.skip(split + 1));
        let rhs = match Self::compile(arena, right, env) {
            Ok(rhs) => rhs,
            Err(error) => {
                return Err(error);
            },
        };
        let word = tokens[split].as_str();
        let node = if word.eq("&&") {
            Statement::And { lhs, rhs }
        } else if word.eq("||") {
            Statement::Or { lhs, rhs }
        } else {
            Statement::Pipe { lhs, rhs }
        };
        Ok(allocate(arena, node))
    }
}

} // verus!

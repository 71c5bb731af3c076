//! Handles on what a statement has started: a child process, a change of
//! directory, or nothing. A handle remembers the first result that was
//! observed for it, and says whether it has an output stream to hand on.

use vstd::prelude::*;
use vstd::string::StringExecFns;
use crate::text::{chars_of, string_of, text_of};

verus! {

/// Where a new process reads from.
#[derive(Clone, Copy, Debug, PartialEq, Eq, Structural)]
pub enum Source {
    /// The shell's own input.
    Inherit,
    /// Nothing: a stream that is at its end.
    Null,
    /// The output of the process that was started last.
    Previous,
}

/// Where the processes of a statement are asked to write.
#[derive(Clone, Copy, Debug, PartialEq, Eq, Structural)]
pub enum Sink {
    /// The shell's own output.
    Inherit,
    /// A pipe that the next process reads.
    Piped,
}

/// Where a new process writes.
#[derive(Clone, Copy, Debug, PartialEq, Eq, Structural)]
pub enum Output {
    /// The shell's own output.
    Inherit,
    /// A pipe that the next process reads.
    Piped,
    /// The file that was opened last.
    File,
}

/// `dirs::home_dir()`, as text. Nothing is known of the answer: it depends on
/// the user and on the variable `HOME`. There is none where the system knows
/// no home directory, or where its path is not valid UTF-8.
#[verifier::external_body]
fn home_dir() -> (home: Option<String>) {
    match dirs::home_dir() {
        Some(path) => match path.to_str() {
            Some(text) => Some(text.to_string()),
            None => None,
        },
        None => None,
    }
}

/// Whether the first component of `path` is `~`.
pub open spec fn starts_at_home(path: Seq<char>) -> bool {
    path.len() >= 1 && path[0] == '~' && (path.len() == 1 || path[1] == '/')
}

/// The directory that `target` names for a user whose home directory is
/// `home`: the home directory where there is no target, the target with its
/// leading `~` replaced by the home directory where it has one, and else the
/// target as it is. There is none where the home directory is needed and
/// unknown.
pub open spec fn expanded(target: Option<Seq<char>>, home: Option<Seq<char>>) -> Option<Seq<char>> {
    match target {
        None => home,
        Some(path) => if starts_at_home(path) {
            match home {
                Some(dir) => Some(dir + path.skip(1)),
                None => None,
            }
        } else {
            Some(path)
        },
    }
}

/// What a statement has started.
pub trait Process: Sized {
    /// The result that was observed, once one was.
    spec fn known(&self) -> Option<bool>;

    /// Whether there is an output stream that a next process can read.
    spec fn streams(&self) -> bool;

    /// The result that was observed, once one was. Only where there is none
    /// does the caller have to wait for the process itself.
    fn result(&self) -> (r: Option<bool>)
        ensures
            r == self.known(),
    ;

    /// Gives up the handle for its output stream.
    fn get_stdout(self) -> (source: Source)
        ensures
            source == if self.streams() {
                Source::Previous
            } else {
                Source::Null
            },
    ;

    /// Records `observed` as the result unless one was recorded before, and
    /// returns the recorded result.
    fn wait(&mut self, observed: bool) -> (r: bool)
        ensures
            r == match old(self).known() {
                Some(before) => before,
                None => observed,
            },
            final(self).known() == Some(r),
            final(self).streams() == old(self).streams(),
    ;
}

/// A child process.
#[derive(Debug)]
pub struct CommandProcess {
    pub piped: bool,
    pub result: Option<bool>,
}

impl Process for CommandProcess {
    open spec fn known(&self) -> Option<bool> {
        self.result
    }

    open spec fn streams(&self) -> bool {
        self.piped
    }

    fn result(&self) -> (r: Option<bool>) {
        self.result
    }

    fn get_stdout(self) -> (source: Source) {
        if self.piped {
            Source::Previous
        } else {
            Source::Null
        }
    }

    fn wait(&mut self, observed: bool) -> (r: bool) {
        match self.result {
            Some(result) => result,
            None => {
                self.result = Some(observed);
                observed
            },
        }
    }
}

/// A change of the working directory.
#[derive(Debug)]
pub struct CDProcess {
    pub target: Option<String>,
    pub result: Option<bool>,
}

impl CDProcess {
    /// The target as a value.
    pub open spec fn target_view(&self) -> Option<Seq<char>> {
        text_of(self.target)
    }

    /// The directory to change to, for a user whose home directory is
    /// `home`.
    pub fn expand_from(&self, home: Option<String>) -> (path: Option<String>)
        ensures
            match expanded(self.target_view(), text_of(home)) {
                Some(expansion) => path is Some && path->Some_0@ == expansion,
                None => path is None,
            },
    {
        match &self.target {
            None => home,
            Some(target) => {
                let chars = chars_of(target.as_str());
                if chars.len() >= 1 && chars[0] == '~' && (chars.len() == 1 || chars[1] == '/') {
                    match home {
                        Some(dir) => {
                            let rest = string_of(&chars, 1, chars.len());
                            Some(dir.concat(rest.as_str()))
                        },
                        None => None,
                    }
                } else {
                    Some(target.clone())
                }
            },
        }
    }

    /// The directory to change to, for the user who runs the shell. Whatever
    /// the system says of the home directory, the result is the expansion of
    /// the target for some home directory, or for none; a target that does
    /// not begin at home is its own expansion.
    pub fn expand(&self) -> (path: Option<String>)
        ensures
            exists|home: Option<Seq<char>>|
                match #[trigger] expanded(self.target_view(), home) {
                    Some(expansion) => path is Some && path->Some_0@ == expansion,
                    None => path is None,
                },
            self.target is Some && !starts_at_home(self.target->Some_0@) ==> path is Some
                && path->Some_0@ == self.target->Some_0@,
    {
        let home = home_dir();
        let ghost witness = text_of(home);
        let path = self.expand_from(home);
        assert(match expanded(self.target_view(), witness) {
            Some(expansion) => path is Some && path->Some_0@ == expansion,
            None => path is None,
        });
        path
    }
}

impl Process for CDProcess {
    open spec fn known(&self) -> Option<bool> {
        self.result
    }

    open spec fn streams(&self) -> bool {
        false
    }

    fn result(&self) -> (r: Option<bool>) {
        self.result
    }

    fn get_stdout(self) -> (source: Source) {
        Source::Null
    }

    fn wait(&mut self, observed: bool) -> (r: bool)
        ensures
            final(self).target == old(self).target,
    {
        match self.result {
            Some(result) => result,
            None => {
                self.result = Some(observed);
                observed
            },
        }
    }
}

/// The handle of a statement that starts nothing: it has succeeded.
#[derive(Debug)]
pub struct NOOP {}

impl Process for NOOP {
    open spec fn known(&self) -> Option<bool> {
        Some(true)
    }

    open spec fn streams(&self) -> bool {
        false
    }

    fn result(&self) -> (r: Option<bool>) {
        Some(true)
    }

    fn get_stdout(self) -> (source: Source) {
        Source::Null
    }

    fn wait(&mut self, observed: bool) -> (r: bool) {
        true
    }
}

} // verus!

//! The errors of the interpreter, and the text that each is shown with.

use vstd::prelude::*;
use vstd::string::StringExecFns;

verus! {

/// What went wrong while a line was compiled or run.
#[derive(Clone, Copy, Debug, PartialEq, Eq, Structural)]
pub enum ErrorKind {
    /// The words ended where an operand was still expected.
    UnexpectedEof,
    /// An operand of `export` begins with `=`.
    InvalidIdentifier,
    /// A `${...}` reference holds whitespace.
    BadSubstitution,
    /// A `${` is never closed.
    UnclosedDelimiter,
    /// The left side of `&&` or of `||` has failed. After `&&` the right side
    /// is not run.
    ShortCircuited,
    /// A process could not be started.
    SpawnFailure,
    /// A file could not be opened.
    IoFailure,
}

/// An error of the interpreter: its kind, and the text that belongs to this
/// occurrence (the offending operand, or what the operating system said).
#[derive(Debug)]
pub struct InterpreterError {
    pub kind: ErrorKind,
    pub detail: String,
}

/// What the interpreter returns where it can fail.
pub type InterpreterResult<T> = Result<T, InterpreterError>;

/// The text shown for an error of the given kind and detail.
pub open spec fn message_text(kind: ErrorKind, detail: Seq<char>) -> Seq<char> {
    match kind {
        ErrorKind::UnexpectedEof => "unexpected EOF"@,
        ErrorKind::InvalidIdentifier => "export: '"@ + detail + "`: not a valid identifier"@,
        ErrorKind::BadSubstitution => "bad substitution"@,
        ErrorKind::UnclosedDelimiter => "unclosed delimiter"@,
        ErrorKind::ShortCircuited => detail,
        ErrorKind::SpawnFailure => detail,
        ErrorKind::IoFailure => detail,
    }
}

impl View for InterpreterError {
    type V = (ErrorKind, Seq<char>);

    open spec fn view(&self) -> (ErrorKind, Seq<char>) {
        (self.kind, self.detail@)
    }
}

impl InterpreterError {
    /// An error of the given kind with no detail.
    pub fn new(kind: ErrorKind) -> (e: InterpreterError)
        ensures
            e@ == (kind, Seq::<char>::empty()),
    {
        InterpreterError { kind, detail: String::new() }
    }

    /// An error of the given kind about the given text.
    pub fn with_detail(kind: ErrorKind, detail: String) -> (e: InterpreterError)
        ensures
            e@ == (kind, detail@),
    {
        InterpreterError { kind, detail }
    }

    /// A second error with the same kind and detail.
    pub fn duplicate(&self) -> (e: InterpreterError)
        ensures
            e@ == self@,
    {
        InterpreterError { kind: self.kind, detail: self.detail.clone() }
    }

    /// The text to show to the user.
    pub fn message(&self) -> (text: String)
        ensures
            text@ == message_text(self.kind, self.detail@),
    {
        match self.kind {
            ErrorKind::UnexpectedEof => String::from_str("unexpected EOF"),
            ErrorKind::InvalidIdentifier => {
                let mut text = String::from_str("export: '");
                text.append(self.detail.as_str());
                text.append("`: not a valid identifier");
                text
            },
            ErrorKind::BadSubstitution => String::from_str("bad substitution"),
            ErrorKind::UnclosedDelimiter => String::from_str("unclosed delimiter"),
            ErrorKind::ShortCircuited => self.detail.clone(),
            ErrorKind::SpawnFailure => self.detail.clone(),
            ErrorKind::IoFailure => self.detail.clone(),
        }
    }
}

} // verus!

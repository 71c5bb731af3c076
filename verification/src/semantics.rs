//! What it means to run a statement, stated over values. Running a
//! statement is a dialogue: the shell names an action, the system carries it
//! out and replies, and the reply decides what comes next. The meaning of a
//! statement is what it does with a given sequence of replies.

use vstd::prelude::*;
use crate::errors::{message_text, ErrorKind};
use crate::physical::{Output, Sink, Source};
use crate::statement::{RedirectType, StatementView};

verus! {

/// An error as a value: its kind and its detail.
pub type Fault = (ErrorKind, Seq<char>);

/// A handle as a value: whether it has an output stream, and the result that
/// was observed, once one was.
pub struct HandleView {
    pub streams: bool,
    pub known: Option<bool>,
}

/// What the system says of an action that it has carried out.
pub enum ReplyView {
    Succeeded,
    Failed { detail: Seq<char> },
}

/// What the shell asks the system to do.
pub enum ActionView {
    /// Start a process.
    Spawn { argv: Seq<Seq<char>>, stdin: Source, stdout: Output },
    /// Open a file for the process that is started next.
    Open { path: Seq<char>, mode: RedirectType },
    /// Wait for the process that was started last; the reply is its success.
    Wait,
    /// Change the working directory.
    ChangeDirectory { target: Option<Seq<char>> },
    /// Show an error that does not end the statement.
    Report { error: Fault },
    /// Nothing more: the statement has ended.
    Finish { outcome: Result<bool, Fault> },
}

/// The run of a statement, or of a part of one: the actions that it asked
/// for, the replies that it has left unread, and the handle or the error
/// that it ended with. Without a result the replies have run out before the
/// end.
pub struct Run {
    pub actions: Seq<ActionView>,
    pub rest: Seq<ReplyView>,
    pub result: Option<Result<HandleView, Fault>>,
}

/// The run of a whole line: its actions, the last of which says how it
/// ended, unless the replies have run out before.
pub struct Trace {
    pub actions: Seq<ActionView>,
    pub outcome: Option<Result<bool, Fault>>,
}

/// The output of a process that is asked to write to `sink`.
pub open spec fn output_of(sink: Sink) -> Output {
    match sink {
        Sink::Inherit => Output::Inherit,
        Sink::Piped => Output::Piped,
    }
}

/// What a handle gives a next process to read.
pub open spec fn stream_of(handle: HandleView) -> Source {
    if handle.streams {
        Source::Previous
    } else {
        Source::Null
    }
}

/// The handle or the error that the reply to a `Spawn` stands for.
pub open spec fn spawned(piped: bool, reply: ReplyView) -> Result<HandleView, Fault> {
    match reply {
        ReplyView::Succeeded => Ok(HandleView { streams: piped, known: None }),
        ReplyView::Failed { detail } => Err((ErrorKind::SpawnFailure, detail)),
    }
}

/// The handle of a change of directory that was answered by `reply`.
pub open spec fn changed(reply: ReplyView) -> HandleView {
    HandleView { streams: false, known: Some(reply is Succeeded) }
}

/// The handle after a wait that observed `reply`: the first result stays.
pub open spec fn settled(handle: HandleView, reply: ReplyView) -> HandleView {
    HandleView {
        streams: handle.streams,
        known: Some(
            match handle.known {
                Some(before) => before,
                None => reply is Succeeded,
            },
        ),
    }
}

/// The handle of a statement that starts nothing.
pub open spec fn nothing() -> HandleView {
    HandleView { streams: false, known: Some(true) }
}

/// The error of an `&&` whose left side ended with the error `cause`.
pub open spec fn short_circuit(cause: Fault) -> Fault {
    (ErrorKind::ShortCircuited, message_text(cause.0, cause.1))
}

/// The error of a left side that ran and did not succeed.
pub open spec fn cut_short() -> Fault {
    (ErrorKind::ShortCircuited, Seq::empty())
}

/// One action and the reply to it: the run ends with what `answer` makes of
/// the first reply, or it ends early for want of a reply.
pub open spec fn exchange(
    action: ActionView,
    replies: Seq<ReplyView>,
    answer: spec_fn(ReplyView) -> Result<HandleView, Fault>,
) -> Run {
    if replies.len() == 0 {
        Run { actions: seq![action], rest: replies, result: None }
    } else {
        Run { actions: seq![action], rest: replies.skip(1), result: Some(answer(replies[0])) }
    }
}

/// The run `run`, with `actions` before it.
pub open spec fn after(actions: Seq<ActionView>, run: Run) -> Run {
    Run { actions: actions + run.actions, rest: run.rest, result: run.result }
}

/// Learning the result of `handle`: nothing is asked where a result is
/// known, and else the system is asked to wait, once.
pub open spec fn awaited(handle: HandleView, replies: Seq<ReplyView>) -> Run {
    if handle.known is Some {
        Run { actions: Seq::empty(), rest: replies, result: Some(Ok(handle)) }
    } else {
        exchange(ActionView::Wait, replies, |reply: ReplyView| Ok(settled(handle, reply)))
    }
}

/// The run of a left side, and after it the wait for its handle, where it
/// has ended with one.
pub open spec fn tried(left: Run) -> Run {
    match left.result {
        Some(Ok(handle)) => after(left.actions, awaited(handle, left.rest)),
        _ => left,
    }
}

/// The failure of a left side that was run and waited for: the error that
/// it ended with, or that it ran and did not succeed. There is none where it
/// succeeded, nor where the replies have run out.
pub open spec fn failure_of(left: Run) -> Option<Fault> {
    match left.result {
        Some(Ok(done)) => if done.known == Some(true) {
            None
        } else {
            Some(cut_short())
        },
        Some(Err(cause)) => Some(cause),
        None => None,
    }
}

/// Showing `error` to the user, who need not answer anything in particular.
pub open spec fn reported(error: Fault, replies: Seq<ReplyView>) -> Run {
    exchange(ActionView::Report { error }, replies, |reply: ReplyView| Ok(nothing()))
}

/// The run of a command whose output goes to a file: the file is opened,
/// and only if that succeeds is the process started.
pub open spec fn redirection(
    argv: Seq<Seq<char>>,
    target: Seq<char>,
    mode: RedirectType,
    source: Source,
    replies: Seq<ReplyView>,
) -> Run {
    let open = ActionView::Open { path: target, mode };
    if replies.len() == 0 {
        Run { actions: seq![open], rest: replies, result: None }
    } else {
        match replies[0] {
            ReplyView::Succeeded => after(
                seq![open],
                exchange(
                    ActionView::Spawn { argv, stdin: source, stdout: Output::File },
                    replies.skip(1),
                    |reply: ReplyView| spawned(false, reply),
                ),
            ),
            ReplyView::Failed { detail } => Run {
                actions: seq![open],
                rest: replies.skip(1),
                result: Some(Err((ErrorKind::IoFailure, detail))),
            },
        }
    }
}

/// The run of `stmt` when its first process is to read from `source`, its
/// last is to write to `sink`, and the system answers with `replies`.
pub open spec fn run(stmt: StatementView, source: Source, sink: Sink, replies: Seq<ReplyView>) -> Run
    decreases stmt,
{
    match stmt {
        StatementView::Command { argv } => exchange(
            ActionView::Spawn { argv, stdin: source, stdout: output_of(sink) },
            replies,
            |reply: ReplyView| spawned(sink is Piped, reply),
        ),
        StatementView::Redirect { argv, target, mode } => redirection(
            argv,
            target,
            mode,
            source,
            replies,
        ),
        StatementView::ChangeDirectory { target } => exchange(
            ActionView::ChangeDirectory { target },
            replies,
            |reply: ReplyView| Ok(changed(reply)),
        ),
        StatementView::NoOp => Run { actions: Seq::empty(), rest: replies, result: Some(Ok(nothing())) },
        StatementView::And { lhs, rhs } => {
            let left = tried(run(*lhs, source, Sink::Inherit, replies));
            match left.result {
                Some(Ok(done)) => if done.known == Some(true) {
                    after(left.actions, run(*rhs, Source::Inherit, sink, left.rest))
                } else {
                    Run { actions: left.actions, rest: left.rest, result: Some(Err(cut_short())) }
                },
                Some(Err(cause)) => Run {
                    actions: left.actions,
                    rest: left.rest,
                    result: Some(Err(short_circuit(cause))),
                },
                None => left,
            }
        },
        StatementView::Or { lhs, rhs } => {
            let left = tried(run(*lhs, source, sink, replies));
            match failure_of(left) {
                Some(error) => {
                    let report = after(left.actions, reported(error, left.rest));
                    if report.result is Some {
                        after(report.actions, run(*rhs, Source::Inherit, sink, report.rest))
                    } else {
                        report
                    }
                },
                None => left,
            }
        },
        StatementView::Pipe { lhs, rhs } => {
            let left = run(*lhs, source, Sink::Piped, replies);
            match left.result {
                Some(Ok(handle)) => after(left.actions, run(*rhs, stream_of(handle), sink, left.rest)),
                _ => left,
            }
        },
    }
}

/// The end of a line after `run`, its last part: the handle that it ended
/// with is waited for, and its result is the line's.
pub open spec fn concluded(run: Run) -> Trace {
    let last = tried(run);
    match last.result {
        Some(Ok(done)) => {
            let outcome = Ok::<bool, Fault>(done.known == Some(true));
            Trace { actions: last.actions.push(ActionView::Finish { outcome }), outcome: Some(outcome) }
        },
        Some(Err(error)) => {
            let outcome = Err::<bool, Fault>(error);
            Trace { actions: last.actions.push(ActionView::Finish { outcome }), outcome: Some(outcome) }
        },
        None => Trace { actions: last.actions, outcome: None },
    }
}

/// The run of a line: the statement runs with the shell's own input and
/// output, and the line succeeds if the handle that the statement ends with
/// does.
pub open spec fn interpretation(stmt: StatementView, replies: Seq<ReplyView>) -> Trace {
    concluded(run(stmt, Source::Inherit, Sink::Inherit, replies))
}

} // verus!

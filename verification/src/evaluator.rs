//! The evaluator as a machine. It never touches the system itself: it names
//! one action at a time, and is told how the action went before it names the
//! next. Whoever drives it starts the processes, opens the files and waits.

use vstd::prelude::*;
use crate::errors::{ErrorKind, InterpreterError};
use crate::physical::{CDProcess, CommandProcess, Output, Process, Sink, Source, NOOP};
use crate::semantics::{
    changed, cut_short, nothing, output_of, settled, short_circuit, spawned, stream_of, ActionView,
    Fault, HandleView, ReplyView,
};
use crate::statement::{RedirectType, Statement, StatementView, CD};
use crate::text::words_of;

verus! {

/// What the system says of an action that it has carried out. To a `Wait`,
/// `Succeeded` says that the process has ended with success. To a `Report`
/// and to a `Finish` either reply will do.
#[derive(Debug)]
pub enum Reply {
    Succeeded,
    Failed { detail: String },
}

impl View for Reply {
    type V = ReplyView;

    open spec fn view(&self) -> ReplyView {
        match self {
            Reply::Succeeded => ReplyView::Succeeded,
            Reply::Failed { detail } => ReplyView::Failed { detail: detail@ },
        }
    }
}

/// What a statement has started.
#[derive(Debug)]
pub enum Handle {
    Command(CommandProcess),
    Directory(CDProcess),
    Nothing(NOOP),
}

impl View for Handle {
    type V = HandleView;

    open spec fn view(&self) -> HandleView {
        HandleView { streams: self.streams(), known: self.known() }
    }
}

impl Process for Handle {
    open spec fn known(&self) -> Option<bool> {
        match self {
            Handle::Command(process) => process.known(),
            Handle::Directory(process) => process.known(),
            Handle::Nothing(process) => process.known(),
        }
    }

    open spec fn streams(&self) -> bool {
        match self {
            Handle::Command(process) => process.streams(),
            Handle::Directory(process) => process.streams(),
            Handle::Nothing(process) => process.streams(),
        }
    }

    fn result(&self) -> (r: Option<bool>) {
        match self {
            Handle::Command(process) => process.result(),
            Handle::Directory(process) => process.result(),
            Handle::Nothing(process) => process.result(),
        }
    }

    fn get_stdout(self) -> (source: Source) {
        match self {
            Handle::Command(process) => process.get_stdout(),
            Handle::Directory(process) => process.get_stdout(),
            Handle::Nothing(process) => process.get_stdout(),
        }
    }

    fn wait(&mut self, observed: bool) -> (r: bool) {
        match self {
            Handle::Command(process) => process.wait(observed),
            Handle::Directory(process) => process.wait(observed),
            Handle::Nothing(process) => process.wait(observed),
        }
    }
}

/// What the evaluator asks its driver to do next.
#[derive(Debug)]
pub enum Action<'a> {
    /// Start the program `argv[0]` with the arguments `argv[1..]`.
    Spawn { argv: &'a Vec<String>, stdin: Source, stdout: Output },
    /// Open the file at `path`, and create it if it is missing.
    Open { path: &'a String, mode: RedirectType },
    /// Wait for the process that was started last.
    Wait,
    /// Change the working directory as `directory` says.
    ChangeDirectory { directory: &'a CD },
    /// Show `error` to the user.
    Report { error: InterpreterError },
    /// Stop: the line has ended with `outcome`.
    Finish { outcome: Result<bool, InterpreterError> },
}

/// The outcome of a line as a value.
pub open spec fn outcome_view(outcome: Result<bool, InterpreterError>) -> Result<bool, Fault> {
    match outcome {
        Ok(success) => Ok(success),
        Err(error) => Err(error@),
    }
}

impl<'a> View for Action<'a> {
    type V = ActionView;

    open spec fn view(&self) -> ActionView {
        match self {
            Action::Spawn { argv, stdin, stdout } => ActionView::Spawn {
                argv: words_of(argv@),
                stdin: *stdin,
                stdout: *stdout,
            },
            Action::Open { path, mode } => ActionView::Open { path: path@, mode: *mode },
            Action::Wait => ActionView::Wait,
            Action::ChangeDirectory { directory } => ActionView::ChangeDirectory {
                target: directory@,
            },
            Action::Report { error } => ActionView::Report { error: error@ },
            Action::Finish { outcome } => ActionView::Finish { outcome: outcome_view(*outcome) },
        }
    }
}

/// The right side of a joint whose left side is running, and where the
/// joint's output goes.
#[derive(Clone, Copy, Debug)]
pub enum Frame<'a> {
    And { rhs: &'a Statement<'a>, sink: Sink },
    Or { rhs: &'a Statement<'a>, sink: Sink },
    Pipe { rhs: &'a Statement<'a>, sink: Sink },
}

/// A frame as a value.
pub enum FrameView {
    And { rhs: StatementView, sink: Sink },
    Or { rhs: StatementView, sink: Sink },
    Pipe { rhs: StatementView, sink: Sink },
}

impl<'a> View for Frame<'a> {
    type V = FrameView;

    open spec fn view(&self) -> FrameView {
        match self {
            Frame::And { rhs, sink } => FrameView::And { rhs: rhs@, sink: *sink },
            Frame::Or { rhs, sink } => FrameView::Or { rhs: rhs@, sink: *sink },
            Frame::Pipe { rhs, sink } => FrameView::Pipe { rhs: rhs@, sink: *sink },
        }
    }
}

/// The frames as values, the innermost last.
pub open spec fn frames_of(stack: Seq<Frame>) -> Seq<FrameView> {
    Seq::new(stack.len(), |i: int| stack[i]@)
}

/// The action that the evaluator has asked for and not yet heard of.
#[derive(Debug)]
pub enum Pending<'a> {
    Spawn { piped: bool },
    Open { argv: &'a Vec<String>, stdin: Source },
    Wait { handle: Handle },
    Change { directory: &'a CD },
    Report { rhs: &'a Statement<'a>, sink: Sink },
    Finished { outcome: Result<bool, InterpreterError> },
}

/// A pending action as a value.
pub enum PendingView {
    Spawn { piped: bool },
    Open { argv: Seq<Seq<char>>, stdin: Source },
    Wait { handle: HandleView },
    Change,
    Report { rhs: StatementView, sink: Sink },
    Finished { outcome: Result<bool, Fault> },
}

impl<'a> View for Pending<'a> {
    type V = PendingView;

    open spec fn view(&self) -> PendingView {
        match self {
            Pending::Spawn { piped } => PendingView::Spawn { piped: *piped },
            Pending::Open { argv, stdin } => PendingView::Open {
                argv: words_of(argv@),
                stdin: *stdin,
            },
            Pending::Wait { handle } => PendingView::Wait { handle: handle@ },
            Pending::Change { directory } => PendingView::Change,
            Pending::Report { rhs, sink } => PendingView::Report { rhs: rhs@, sink: *sink },
            Pending::Finished { outcome } => PendingView::Finished {
                outcome: outcome_view(*outcome),
            },
        }
    }
}

/// The evaluator between two actions, as a value.
pub struct EvaluationView {
    pub stack: Seq<FrameView>,
    pub pending: PendingView,
}

/// What the evaluator does next when no action is pending: it runs a
/// statement, or it hands the result of one to the joint around it.
pub enum ControlView {
    Descend { stmt: StatementView, source: Source, sink: Sink },
    Deliver { result: Result<HandleView, Fault> },
}

/// The size of a statement: a bound on the steps that running it takes
/// between two actions.
pub open spec fn size(stmt: StatementView) -> nat
    decreases stmt,
{
    match stmt {
        StatementView::Pipe { lhs, rhs } => 2 + size(*lhs) + size(*rhs),
        StatementView::And { lhs, rhs } => 2 + size(*lhs) + size(*rhs),
        StatementView::Or { lhs, rhs } => 2 + size(*lhs) + size(*rhs),
        _ => 1,
    }
}

/// The right side of a frame.
pub open spec fn rhs_of(frame: FrameView) -> StatementView {
    match frame {
        FrameView::And { rhs, .. } => rhs,
        FrameView::Or { rhs, .. } => rhs,
        FrameView::Pipe { rhs, .. } => rhs,
    }
}

/// The size of the statements that wait on the stack.
pub open spec fn weight(stack: Seq<FrameView>) -> nat
    decreases stack.len(),
{
    if stack.len() == 0 {
        0
    } else {
        weight(stack.drop_last()) + size(rhs_of(stack.last())) + 1
    }
}

/// A bound on the steps up to the next action.
pub open spec fn effort(control: ControlView, stack: Seq<FrameView>) -> nat {
    weight(stack) + match control {
        ControlView::Descend { stmt, .. } => size(stmt),
        ControlView::Deliver { .. } => 0,
    }
}

/// The evaluator at rest with `pending`, and the action that it has asked
/// for.
pub open spec fn asking(stack: Seq<FrameView>, pending: PendingView, action: ActionView) -> (
    EvaluationView,
    ActionView,
) {
    (EvaluationView { stack, pending }, action)
}

/// Handing `result` to the innermost frame: what the evaluator does next.
pub open spec fn handed(result: Result<HandleView, Fault>, frame: FrameView) -> ControlView {
    match frame {
        FrameView::And { rhs, sink } => match result {
            Ok(handle) => if handle.known == Some(true) {
                ControlView::Descend { stmt: rhs, source: Source::Inherit, sink }
            } else {
                ControlView::Deliver { result: Err(cut_short()) }
            },
            Err(cause) => ControlView::Deliver { result: Err(short_circuit(cause)) },
        },
        FrameView::Or { rhs, sink } => ControlView::Deliver { result },
        FrameView::Pipe { rhs, sink } => match result {
            Ok(handle) => ControlView::Descend { stmt: rhs, source: stream_of(handle), sink },
            Err(cause) => ControlView::Deliver { result },
        },
    }
}

/// Whether the innermost frame has to know how `result` ended before it can
/// go on.
pub open spec fn must_wait(result: Result<HandleView, Fault>, frame: FrameView) -> bool {
    result is Ok && result->Ok_0.known is None && !(frame is Pipe)
}

/// Whether the innermost frame shows that `result` is a failure and goes on.
pub open spec fn must_report(result: Result<HandleView, Fault>, frame: FrameView) -> bool {
    frame is Or && !(result is Ok && result->Ok_0.known == Some(true))
}

/// The failure that `result` is.
pub open spec fn failure(result: Result<HandleView, Fault>) -> Fault {
    match result {
        Ok(handle) => cut_short(),
        Err(cause) => cause,
    }
}

/// The evaluator's way from `control` to its next action, and the state in
/// which it then rests.
pub open spec fn settle(control: ControlView, stack: Seq<FrameView>) -> (EvaluationView, ActionView)
    decreases effort(control, stack),
{
    match control {
        ControlView::Descend { stmt, source, sink } => match stmt {
            StatementView::Command { argv } => asking(
                stack,
                PendingView::Spawn { piped: sink is Piped },
                ActionView::Spawn { argv, stdin: source, stdout: output_of(sink) },
            ),
            StatementView::Redirect { argv, target, mode } => asking(
                stack,
                PendingView::Open { argv, stdin: source },
                ActionView::Open { path: target, mode },
            ),
            StatementView::ChangeDirectory { target } => asking(
                stack,
                PendingView::Change,
                ActionView::ChangeDirectory { target },
            ),
            StatementView::NoOp => settle(ControlView::Deliver { result: Ok(nothing()) }, stack),
            StatementView::And { lhs, rhs } => {
                proof {
                    lemma_push_weight(stack, FrameView::And { rhs: *rhs, sink });
                }
                settle(
                    ControlView::Descend { stmt: *lhs, source, sink: Sink::Inherit },
                    stack.push(FrameView::And { rhs: *rhs, sink }),
                )
            },
            StatementView::Or { lhs, rhs } => {
                proof {
                    lemma_push_weight(stack, FrameView::Or { rhs: *rhs, sink });
                }
                settle(
                    ControlView::Descend { stmt: *lhs, source, sink },
                    stack.push(FrameView::Or { rhs: *rhs, sink }),
                )
            },
            StatementView::Pipe { lhs, rhs } => {
                proof {
                    lemma_push_weight(stack, FrameView::Pipe { rhs: *rhs, sink });
                }
                settle(
                    ControlView::Descend { stmt: *lhs, source, sink: Sink::Piped },
                    stack.push(FrameView::Pipe { rhs: *rhs, sink }),
                )
            },
        },
        ControlView::Deliver { result } => if stack.len() == 0 {
            match result {
                Ok(handle) => match handle.known {
                    Some(success) => asking(
                        stack,
                        PendingView::Finished { outcome: Ok(success) },
                        ActionView::Finish { outcome: Ok(success) },
                    ),
                    None => asking(stack, PendingView::Wait { handle }, ActionView::Wait),
                },
                Err(error) => asking(
                    stack,
                    PendingView::Finished { outcome: Err(error) },
                    ActionView::Finish { outcome: Err(error) },
                ),
            }
        } else if must_wait(result, stack.last()) {
            asking(stack, PendingView::Wait { handle: result->Ok_0 }, ActionView::Wait)
        } else if must_report(result, stack.last()) {
            asking(
                stack.drop_last(),
                PendingView::Report { rhs: rhs_of(stack.last()), sink: stack.last()->Or_sink },
                ActionView::Report { error: failure(result) },
            )
        } else {
            settle(handed(result, stack.last()), stack.drop_last())
        },
    }
}

/// A frame on the stack weighs as much as its right side and one more.
pub proof fn lemma_push_weight(stack: Seq<FrameView>, frame: FrameView)
    ensures
        weight(stack.push(frame)) == weight(stack) + size(rhs_of(frame)) + 1,
{
    assert(stack.push(frame).drop_last() =~= stack);
}

/// The evaluator's first action for `stmt`, and the state in which it rests.
pub open spec fn begun(stmt: StatementView) -> (EvaluationView, ActionView) {
    settle(
        ControlView::Descend { stmt, source: Source::Inherit, sink: Sink::Inherit },
        Seq::empty(),
    )
}

/// The evaluator's next action when `reply` answers the pending one, and the
/// state in which it then rests.
pub open spec fn next(state: EvaluationView, reply: ReplyView) -> (EvaluationView, ActionView) {
    match state.pending {
        PendingView::Spawn { piped } => settle(
            ControlView::Deliver { result: spawned(piped, reply) },
            state.stack,
        ),
        PendingView::Open { argv, stdin } => match reply {
            ReplyView::Succeeded => asking(
                state.stack,
                PendingView::Spawn { piped: false },
                ActionView::Spawn { argv, stdin, stdout: Output::File },
            ),
            ReplyView::Failed { detail } => settle(
                ControlView::Deliver { result: Err((ErrorKind::IoFailure, detail)) },
                state.stack,
            ),
        },
        PendingView::Wait { handle } => settle(
            ControlView::Deliver { result: Ok(settled(handle, reply)) },
            state.stack,
        ),
        PendingView::Change => settle(
            ControlView::Deliver { result: Ok(changed(reply)) },
            state.stack,
        ),
        PendingView::Report { rhs, sink } => settle(
            ControlView::Descend { stmt: rhs, source: Source::Inherit, sink },
            state.stack,
        ),
        PendingView::Finished { outcome } => (state, ActionView::Finish { outcome }),
    }
}

/// What the evaluator does next when no action is pending.
enum Control<'a> {
    Descend { stmt: &'a Statement<'a>, source: Source, sink: Sink },
    Deliver { result: Result<Handle, InterpreterError> },
}

impl<'a> View for Control<'a> {
    type V = ControlView;

    closed spec fn view(&self) -> ControlView {
        match self {
            Control::Descend { stmt, source, sink } => ControlView::Descend {
                stmt: stmt@,
                source: *source,
                sink: *sink,
            },
            Control::Deliver { result } => ControlView::Deliver {
                result: match result {
                    Ok(handle) => Ok(handle@),
                    Err(error) => Err(error@),
                },
            },
        }
    }
}

/// The evaluator of one line, between two actions.
#[derive(Debug)]
pub struct Evaluation<'a> {
    stack: Vec<Frame<'a>>,
    pending: Pending<'a>,
}

impl<'a> View for Evaluation<'a> {
    type V = EvaluationView;

    closed spec fn view(&self) -> EvaluationView {
        EvaluationView { stack: frames_of(self.stack@), pending: self.pending@ }
    }
}

impl<'a> Evaluation<'a> {
    /// Goes on from `control` to the next action.
    fn settle(&mut self, control: Control<'a>) -> (action: Action<'a>)
        ensures
            (final(self)@, action@) == settle(control@, frames_of(old(self).stack@)),
    {
        let mut current = control;
        loop
            invariant
                settle(current@, frames_of(self.stack@)) == settle(
                    control@,
                    frames_of(old(self).stack@),
                ),
            decreases effort(current@, frames_of(self.stack@)),
        {
            let ghost stack = frames_of(self.stack@);
            match current {
                Control::Descend { stmt, source, sink } => match stmt {
                    Statement::Command(command) => {
                        self.pending = Pending::Spawn { piped: sink == Sink::Piped };
                        let stdout = match sink {
                            Sink::Inherit => Output::Inherit,
                            Sink::Piped => Output::Piped,
                        };
                        return Action::Spawn { argv: &command.argv, stdin: source, stdout };
                    },
                    Statement::Redirect { inner, target, mode } => {
                        self.pending = Pending::Open { argv: &inner.argv, stdin: source };
                        return Action::Open { path: target, mode: *mode };
                    },
                    Statement::ChangeDirectory(directory) => {
                        self.pending = Pending::Change { directory };
                        return Action::ChangeDirectory { directory };
                    },
                    Statement::NoOp => {
                        current = Control::Deliver { result: Ok(Handle::Nothing(NOOP {  })) };
                    },
                    Statement::And { lhs, rhs } => {
                        let frame = Frame::And { rhs: *rhs, sink };
                        proof {
                            lemma_push_weight(stack, frame@);
                            assert(frames_of(self.stack@.push(frame)) =~= stack.push(frame@));
                        }
                        self.stack.push(frame);
                        current = Control::Descend { stmt: *lhs, source, sink: Sink::Inherit };
                    },
                    Statement::Or { lhs, rhs } => {
                        let frame = Frame::Or { rhs: *rhs, sink };
                        proof {
                            lemma_push_weight(stack, frame@);
                            assert(frames_of(self.stack@.push(frame)) =~= stack.push(frame@));
                        }
                        self.stack.push(frame);
                        current = Control::Descend { stmt: *lhs, source, sink };
                    },
                    Statement::Pipe { lhs, rhs } => {
                        let frame = Frame::Pipe { rhs: *rhs, sink };
                        proof {
                            lemma_push_weight(stack, frame@);
                            assert(frames_of(self.stack@.push(frame)) =~= stack.push(frame@));
                        }
                        self.stack.push(frame);
                        current = Control::Descend { stmt: *lhs, source, sink: Sink::Piped };
                    },
                },
                Control::Deliver { result } => {
                    let depth = self.stack.len();
                    if depth == 0 {
                        match result {
                            Ok(handle) => match handle.result() {
                                Some(success) => {
                                    self.pending = Pending::Finished { outcome: Ok(success) };
                                    return Action::Finish { outcome: Ok(success) };
                                },
                                None => {
                                    self.pending = Pending::Wait { handle };
                                    return Action::Wait;
                                },
                            },
                            Err(error) => {
                                let outcome = Err(error.duplicate());
                                self.pending = Pending::Finished { outcome: Err(error) };
                                return Action::Finish { outcome };
                            },
                        }
                    }
                    let frame = self.stack[depth - 1];
                    assert(frame@ == stack.last());
                    match result {
                        Ok(handle) => {
                            let known = handle.result();
                            match frame {
                                Frame::Pipe { rhs, sink } => {
                                    self.stack.pop();
                                    assert(frames_of(self.stack@) =~= stack.drop_last());
                                    current = Control::Descend {
                                        stmt: rhs,
                                        source: handle.get_stdout(),
                                        sink,
                                    };
                                },
                                Frame::And { rhs, sink } => match known {
                                    None => {
                                        self.pending = Pending::Wait { handle };
                                        return Action::Wait;
                                    },
                                    Some(success) => {
                                        self.stack.pop();
                                        assert(frames_of(self.stack@) =~= stack.drop_last());
                                        if success {
                                            current = Control::Descend {
                                                stmt: rhs,
                                                source: Source::Inherit,
                                                sink,
                                            };
                                        } else {
                                            current = Control::Deliver {
                                                result: Err(
                                                    InterpreterError::new(ErrorKind::ShortCircuited),
                                                ),
                                            };
                                        }
                                    },
                                },
                                Frame::Or { rhs, sink } => match known {
                                    None => {
                                        self.pending = Pending::Wait { handle };
                                        return Action::Wait;
                                    },
                                    Some(success) => {
                                        self.stack.pop();
                                        assert(frames_of(self.stack@) =~= stack.drop_last());
                                        if success {
                                            current = Control::Deliver { result: Ok(handle) };
                                        } else {
                                            self.pending = Pending::Report { rhs, sink };
                                            return Action::Report {
                                                error: InterpreterError::new(
                                                    ErrorKind::ShortCircuited,
                                                ),
                                            };
                                        }
                                    },
                                },
                            }
                        },
                        Err(error) => {
                            self.stack.pop();
                            assert(frames_of(self.stack@) =~= stack.drop_last());
                            match frame {
                                Frame::Pipe { rhs, sink } => {
                                    current = Control::Deliver { result: Err(error) };
                                },
                                Frame::And { rhs, sink } => {
                                    current = Control::Deliver {
                                        result: Err(
                                            InterpreterError::with_detail(
                                                ErrorKind::ShortCircuited,
                                                error.message(),
                                            ),
                                        ),
                                    };
                                },
                                Frame::Or { rhs, sink } => {
                                    self.pending = Pending::Report { rhs, sink };
                                    return Action::Report { error };
                                },
                            }
                        },
                    }
                },
            }
        }
    }

    /// Starts on `stmt`: the evaluator, and the first action that it asks
    /// for.
    pub fn begin(stmt: &'a Statement<'a>) -> (started: (Evaluation<'a>, Action<'a>))
        ensures
            (started.0@, started.1@) == begun(stmt@),
    {
        let mut evaluation = Evaluation {
            stack: Vec::new(),
            pending: Pending::Spawn { piped: false },
        };
        assert(frames_of(evaluation.stack@) =~= Seq::empty());
        let action = evaluation.settle(
            Control::Descend { stmt, source: Source::Inherit, sink: Sink::Inherit },
        );
        (evaluation, action)
    }

    /// Takes the reply to the action that was asked for last, and asks for
    /// the next. After `Finish` every step asks for `Finish` again.
    pub fn step(&mut self, reply: Reply) -> (action: Action<'a>)
        ensures
            (final(self)@, action@) == next(old(self)@, reply@),
    {
        let mut pending = Pending::Spawn { piped: false };
        std::mem::swap(&mut pending, &mut self.pending);
        match pending {
            Pending::Spawn { piped } => {
                let result = match reply {
                    Reply::Succeeded => Ok(Handle::Command(CommandProcess { piped, result: None })),
                    Reply::Failed { detail } => Err(
                        InterpreterError::with_detail(ErrorKind::SpawnFailure, detail),
                    ),
                };
                self.settle(Control::Deliver { result })
            },
            Pending::Open { argv, stdin } => match reply {
                Reply::Succeeded => {
                    self.pending = Pending::Spawn { piped: false };
                    Action::Spawn { argv, stdin, stdout: Output::File }
                },
                Reply::Failed { detail } => self.settle(
                    Control::Deliver {
                        result: Err(InterpreterError::with_detail(ErrorKind::IoFailure, detail)),
                    },
                ),
            },
            Pending::Wait { handle } => {
                let mut handle = handle;
                let observed = match reply {
                    Reply::Succeeded => true,
                    Reply::Failed { detail } => false,
                };
                handle.wait(observed);
                self.settle(Control::Deliver { result: Ok(handle) })
            },
            Pending::Change { directory } => {
                let mut process = directory.process();
                let observed = match reply {
                    Reply::Succeeded => true,
                    Reply::Failed { detail } => false,
                };
                process.wait(observed);
                self.settle(Control::Deliver { result: Ok(Handle::Directory(process)) })
            },
            Pending::Report { rhs, sink } => self.settle(
                Control::Descend { stmt: rhs, source: Source::Inherit, sink },
            ),
            Pending::Finished { outcome } => {
                let again = match &outcome {
                    Ok(success) => Ok(*success),
                    Err(error) => Err(error.duplicate()),
                };
                self.pending = Pending::Finished { outcome };
                Action::Finish { outcome: again }
            },
        }
    }
}

} // verus!

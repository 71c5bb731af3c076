//! The evaluator does what the statement means: driven by any replies, it
//! asks for the actions of the statement's run, in their order, and ends as
//! the run ends.

use vstd::prelude::*;
use crate::evaluator::{
    begun, failure, handed, must_report, must_wait, next, rhs_of, settle, size, ControlView,
    EvaluationView, FrameView,
};
use crate::physical::{Output, Sink, Source};
use crate::semantics::{
    after, awaited, concluded, cut_short, exchange, failure_of, interpretation, nothing, reported,
    run, settled, short_circuit, spawned, stream_of, tried, ActionView, Fault, HandleView,
    ReplyView, Run, Trace,
};
use crate::statement::{RedirectType, StatementView};

verus! {

/// The trace `trace`, with `actions` before it.
pub open spec fn prepend(actions: Seq<ActionView>, trace: Trace) -> Trace {
    Trace { actions: actions + trace.actions, outcome: trace.outcome }
}

/// What the evaluator does from `state`, where it has asked for `action`,
/// when it is driven with `replies`: the actions that it asks for, up to
/// `Finish` or up to the action that no reply is left for.
pub open spec fn play(state: EvaluationView, action: ActionView, replies: Seq<ReplyView>) -> Trace
    decreases replies.len(),
{
    match action {
        ActionView::Finish { outcome } => Trace { actions: seq![action], outcome: Some(outcome) },
        _ => if replies.len() == 0 {
            Trace { actions: seq![action], outcome: None }
        } else {
            prepend(
                seq![action],
                play(next(state, replies[0]).0, next(state, replies[0]).1, replies.skip(1)),
            )
        },
    }
}

/// What the evaluator does from `control`.
pub open spec fn resume(control: ControlView, stack: Seq<FrameView>, replies: Seq<ReplyView>) -> Trace {
    play(settle(control, stack).0, settle(control, stack).1, replies)
}

/// The run `run`, and after it what the evaluator does with its result
/// below `stack`.
pub open spec fn continued(run: Run, stack: Seq<FrameView>) -> Trace {
    match run.result {
        Some(result) => prepend(run.actions, resume(ControlView::Deliver { result }, stack, run.rest)),
        None => Trace { actions: run.actions, outcome: None },
    }
}

/// The wait of a joint for the result of its left side. A pipe does not
/// wait, and there is nothing to wait for after an error.
pub open spec fn joint_wait(
    result: Result<HandleView, Fault>,
    frame: FrameView,
    replies: Seq<ReplyView>,
) -> Run {
    match result {
        Ok(handle) => if frame is Pipe {
            Run { actions: Seq::empty(), rest: replies, result: Some(result) }
        } else {
            awaited(handle, replies)
        },
        Err(cause) => Run { actions: Seq::empty(), rest: replies, result: Some(result) },
    }
}

/// The part of a joint's run that follows the wait for its left side.
pub open spec fn joint_end(wait: Run, frame: FrameView) -> Run {
    match frame {
        FrameView::And { rhs, sink } => match wait.result {
            Some(Ok(done)) => if done.known == Some(true) {
                after(wait.actions, run(rhs, Source::Inherit, sink, wait.rest))
            } else {
                Run { actions: wait.actions, rest: wait.rest, result: Some(Err(cut_short())) }
            },
            Some(Err(cause)) => Run {
                actions: wait.actions,
                rest: wait.rest,
                result: Some(Err(short_circuit(cause))),
            },
            None => wait,
        },
        FrameView::Or { rhs, sink } => match failure_of(wait) {
            Some(error) => {
                let report = after(wait.actions, reported(error, wait.rest));
                if report.result is Some {
                    after(report.actions, run(rhs, Source::Inherit, sink, report.rest))
                } else {
                    report
                }
            },
            None => wait,
        },
        FrameView::Pipe { rhs, sink } => match wait.result {
            Some(Ok(handle)) => after(
                wait.actions,
                run(rhs, stream_of(handle), sink, wait.rest),
            ),
            _ => wait,
        },
    }
}

/// The part of a joint's run that follows its left side, which has ended
/// with `result`.
pub open spec fn joint(result: Result<HandleView, Fault>, frame: FrameView, replies: Seq<ReplyView>) -> Run {
    joint_end(joint_wait(result, frame, replies), frame)
}

/// The run of a joint is the run of its left side and then the joint's own
/// part.
pub open spec fn left_then(left: Run, frame: FrameView) -> Run {
    match left.result {
        Some(result) => after(left.actions, joint(result, frame, left.rest)),
        None => left,
    }
}

proof fn lemma_after_after(first: Seq<ActionView>, second: Seq<ActionView>, run: Run)
    ensures
        after(first, after(second, run)) == after(first + second, run),
        after(Seq::empty(), run) == run,
{
    assert(first + (second + run.actions) =~= (first + second) + run.actions);
    assert(Seq::<ActionView>::empty() + run.actions =~= run.actions);
}

proof fn lemma_prepend(first: Seq<ActionView>, second: Seq<ActionView>, trace: Trace)
    ensures
        prepend(first, prepend(second, trace)) == prepend(first + second, trace),
        prepend(Seq::empty(), trace) == trace,
{
    assert(first + (second + trace.actions) =~= (first + second) + trace.actions);
    assert(Seq::<ActionView>::empty() + trace.actions =~= trace.actions);
}

proof fn lemma_continued_after(actions: Seq<ActionView>, run: Run, stack: Seq<FrameView>)
    ensures
        continued(after(actions, run), stack) == prepend(actions, continued(run, stack)),
{
    match run.result {
        Some(result) => {
            lemma_prepend(
                actions,
                run.actions,
                resume(ControlView::Deliver { result }, stack, run.rest),
            );
        },
        None => {},
    }
}

/// Putting `actions` before the wait of a joint puts them before the joint's
/// whole part.
proof fn lemma_joint_end_after(actions: Seq<ActionView>, wait: Run, frame: FrameView)
    ensures
        joint_end(after(actions, wait), frame) == after(actions, joint_end(wait, frame)),
{
    let rhs = rhs_of(frame);
    let moved = after(actions, wait);
    match frame {
        FrameView::And { rhs, sink } => {
            let right = run(rhs, Source::Inherit, sink, wait.rest);
            lemma_after_after(actions, wait.actions, right);
        },
        FrameView::Or { rhs, sink } => {
            match failure_of(wait) {
                Some(error) => {
                    let tell = reported(error, wait.rest);
                    lemma_after_after(actions, wait.actions, tell);
                    let right = run(rhs, Source::Inherit, sink, tell.rest);
                    lemma_after_after(actions, after(wait.actions, tell).actions, right);
                },
                None => {},
            }
        },
        FrameView::Pipe { rhs, sink } => {
            match wait.result {
                Some(Ok(handle)) => {
                    let right = run(rhs, stream_of(handle), sink, wait.rest);
                    lemma_after_after(actions, wait.actions, right);
                },
                _ => {},
            }
        },
    }
}

/// The runs of `&&`, `||` and `|` split at the end of their left sides.
proof fn lemma_run_splits(
    stmt: StatementView,
    lhs: StatementView,
    frame: FrameView,
    source: Source,
    sink: Sink,
    replies: Seq<ReplyView>,
)
    requires
        joins(stmt, lhs, frame, sink),
    ensures
        run(stmt, source, sink, replies) == left_then(
            run(lhs, source, left_sink(frame, sink), replies),
            frame,
        ),
{
    let left = run(lhs, source, left_sink(frame, sink), replies);
    match left.result {
        Some(result) => {
            let wait = joint_wait(result, frame, left.rest);
            lemma_joint_end_after(left.actions, wait, frame);
            lemma_after_after(left.actions, Seq::empty(), wait);
            assert(after(left.actions, wait) == if frame is Pipe {
                left
            } else {
                tried(left)
            }) by {
                assert(left.actions + Seq::<ActionView>::empty() =~= left.actions);
            }
            if frame is Pipe && result is Ok {
                let right = run(rhs_of(frame), stream_of(result->Ok_0), sink, left.rest);
                assert(left.actions + Seq::<ActionView>::empty() =~= left.actions);
            }
        },
        None => {},
    }
}

/// How much of a delivery is still to come: a handle without a result is
/// waited for first.
pub open spec fn unknown(result: Result<HandleView, Fault>) -> nat {
    if result is Ok && result->Ok_0.known is None {
        1
    } else {
        0
    }
}

/// Handing a result to a frame does what the joint's own part of the run
/// says, and then goes on below the frame.
proof fn lemma_deliver(
    result: Result<HandleView, Fault>,
    frame: FrameView,
    stack: Seq<FrameView>,
    replies: Seq<ReplyView>,
)
    ensures
        resume(ControlView::Deliver { result }, stack.push(frame), replies) == continued(
            joint(result, frame, replies),
            stack,
        ),
    decreases size(rhs_of(frame)), 2nat, unknown(result),
{
    let above = stack.push(frame);
    assert(above.drop_last() =~= stack);
    assert(above.last() == frame);
    let rhs = rhs_of(frame);
    let sink = match frame {
        FrameView::And { sink, .. } => sink,
        FrameView::Or { sink, .. } => sink,
        FrameView::Pipe { sink, .. } => sink,
    };
    let wait = joint_wait(result, frame, replies);
    let empty = Seq::<ActionView>::empty();
    if must_wait(result, frame) {
        let handle = result->Ok_0;
        if replies.len() > 0 {
            let done = settled(handle, replies[0]);
            lemma_deliver(Ok(done), frame, stack, replies.skip(1));
            let later = joint_wait(Ok(done), frame, replies.skip(1));
            assert(wait == after(seq![ActionView::Wait], later)) by {
                assert(seq![ActionView::Wait] + empty =~= seq![ActionView::Wait]);
            }
            lemma_joint_end_after(seq![ActionView::Wait], later, frame);
            lemma_continued_after(seq![ActionView::Wait], joint_end(later, frame), stack);
        }
    } else if must_report(result, frame) {
        let error = failure(result);
        assert(failure_of(wait) == Some(error));
        let tell = after(wait.actions, reported(error, wait.rest));
        assert(tell.actions =~= seq![ActionView::Report { error }]);
        if replies.len() > 0 {
            let right = run(rhs, Source::Inherit, sink, replies.skip(1));
            lemma_descend(rhs, Source::Inherit, sink, stack, replies.skip(1));
            lemma_continued_after(seq![ActionView::Report { error }], right, stack);
        }
    } else {
        let onward = handed(result, frame);
        match onward {
            ControlView::Descend { stmt, source, sink: below } => {
                let right = run(stmt, source, below, replies);
                lemma_descend(stmt, source, below, stack, replies);
                lemma_after_after(empty, empty, right);
            },
            ControlView::Deliver { result: ended } => {
                lemma_prepend(
                    empty,
                    empty,
                    resume(ControlView::Deliver { result: ended }, stack, replies),
                );
            },
        }
    }
}

/// A statement that is no joint asks for its own actions and hands on its
/// result.
proof fn lemma_descend_leaf(
    stmt: StatementView,
    source: Source,
    sink: Sink,
    stack: Seq<FrameView>,
    replies: Seq<ReplyView>,
)
    requires
        !(stmt is And),
        !(stmt is Or),
        !(stmt is Pipe),
    ensures
        resume(ControlView::Descend { stmt, source, sink }, stack, replies) == continued(
            run(stmt, source, sink, replies),
            stack,
        ),
{
    match stmt {
        StatementView::Redirect { argv, target, mode } => {
            lemma_descend_redirect(argv, target, mode, source, sink, stack, replies);
        },
        StatementView::NoOp => {
            lemma_prepend(
                Seq::empty(),
                Seq::empty(),
                resume(ControlView::Deliver { result: Ok(nothing()) }, stack, replies),
            );
        },
        _ => {},
    }
}

proof fn lemma_descend_redirect(
    argv: Seq<Seq<char>>,
    target: Seq<char>,
    mode: RedirectType,
    source: Source,
    sink: Sink,
    stack: Seq<FrameView>,
    replies: Seq<ReplyView>,
)
    ensures
        resume(
            ControlView::Descend {
                stmt: StatementView::Redirect { argv, target, mode },
                source,
                sink,
            },
            stack,
            replies,
        ) == continued(
            run(StatementView::Redirect { argv, target, mode }, source, sink, replies),
            stack,
        ),
{
    let stmt = StatementView::Redirect { argv, target, mode };
    let open = ActionView::Open { path: target, mode };
    let first = settle(ControlView::Descend { stmt, source, sink }, stack);
    assert(first.1 == open);
    if replies.len() > 0 && replies[0] is Succeeded {
        let start = ActionView::Spawn { argv, stdin: source, stdout: Output::File };
        let second = next(first.0, replies[0]);
        assert(second.1 == start);
        let spawn = exchange(start, replies.skip(1), |reply: ReplyView| spawned(false, reply));
        assert(play(second.0, second.1, replies.skip(1)) == continued(spawn, stack));
        lemma_continued_after(seq![open], spawn, stack);
    }
}

/// Running a statement below a stack asks for the actions of the statement's
/// run, and then goes on with its result.
proof fn lemma_descend(
    stmt: StatementView,
    source: Source,
    sink: Sink,
    stack: Seq<FrameView>,
    replies: Seq<ReplyView>,
)
    ensures
        resume(ControlView::Descend { stmt, source, sink }, stack, replies) == continued(
            run(stmt, source, sink, replies),
            stack,
        ),
    decreases size(stmt), 1nat, 0nat,
{
    match stmt {
        StatementView::And { lhs, rhs } => {
            lemma_descend_joint(
                stmt,
                *lhs,
                FrameView::And { rhs: *rhs, sink },
                source,
                Sink::Inherit,
                sink,
                stack,
                replies,
            );
        },
        StatementView::Or { lhs, rhs } => {
            lemma_descend_joint(
                stmt,
                *lhs,
                FrameView::Or { rhs: *rhs, sink },
                source,
                sink,
                sink,
                stack,
                replies,
            );
        },
        StatementView::Pipe { lhs, rhs } => {
            lemma_descend_joint(
                stmt,
                *lhs,
                FrameView::Pipe { rhs: *rhs, sink },
                source,
                Sink::Piped,
                sink,
                stack,
                replies,
            );
        },
        _ => {
            lemma_descend_leaf(stmt, source, sink, stack, replies);
        },
    }
}

/// Whether `stmt` is the joint of `lhs` with the right side of `frame`, and
/// `frame` is what the joint leaves on the stack when its output goes to
/// `sink`.
pub open spec fn joins(stmt: StatementView, lhs: StatementView, frame: FrameView, sink: Sink) -> bool {
    match frame {
        FrameView::And { rhs, sink: below } => below == sink && stmt == (StatementView::And {
            lhs: Box::new(lhs),
            rhs: Box::new(rhs),
        }),
        FrameView::Or { rhs, sink: below } => below == sink && stmt == (StatementView::Or {
            lhs: Box::new(lhs),
            rhs: Box::new(rhs),
        }),
        FrameView::Pipe { rhs, sink: below } => below == sink && stmt == (StatementView::Pipe {
            lhs: Box::new(lhs),
            rhs: Box::new(rhs),
        }),
    }
}

/// Where the left side of a joint writes.
pub open spec fn left_sink(frame: FrameView, sink: Sink) -> Sink {
    match frame {
        FrameView::And { .. } => Sink::Inherit,
        FrameView::Or { .. } => sink,
        FrameView::Pipe { .. } => Sink::Piped,
    }
}

proof fn lemma_descend_joint(
    stmt: StatementView,
    lhs: StatementView,
    frame: FrameView,
    source: Source,
    inner: Sink,
    sink: Sink,
    stack: Seq<FrameView>,
    replies: Seq<ReplyView>,
)
    requires
        joins(stmt, lhs, frame, sink),
        inner == left_sink(frame, sink),
    ensures
        resume(ControlView::Descend { stmt, source, sink }, stack, replies) == continued(
            run(stmt, source, sink, replies),
            stack,
        ),
    decreases size(stmt), 0nat, 0nat,
{
    lemma_run_splits(stmt, lhs, frame, source, sink, replies);
    let left = run(lhs, source, inner, replies);
    assert(run(stmt, source, sink, replies) == left_then(left, frame));
    assert(size(stmt) == 2 + size(lhs) + size(rhs_of(frame)));
    assert(settle(ControlView::Descend { stmt, source, sink }, stack) == settle(
        ControlView::Descend { stmt: lhs, source, sink: inner },
        stack.push(frame),
    ));
    lemma_descend(lhs, source, inner, stack.push(frame), replies);
    if left.result is Some {
        lemma_deliver(left.result->Some_0, frame, stack, left.rest);
        lemma_continued_after(left.actions, joint(left.result->Some_0, frame, left.rest), stack);
    }
}

/// At the end of the line the evaluator waits for the last handle, if its
/// result is not known, and finishes.
proof fn lemma_conclude(run: Run)
    ensures
        continued(run, Seq::empty()) == concluded(run),
{
    let stack = Seq::<FrameView>::empty();
    match run.result {
        Some(Ok(handle)) => {
            let first = settle(ControlView::Deliver { result: Ok(handle) }, stack);
            if handle.known is None {
                assert(first.1 == ActionView::Wait);
                if run.rest.len() > 0 {
                    let done = settled(handle, run.rest[0]);
                    let outcome = Ok::<bool, Fault>(done.known == Some(true));
                    let second = next(first.0, run.rest[0]);
                    assert(second.1 == ActionView::Finish { outcome });
                    let last = play(second.0, second.1, run.rest.skip(1));
                    assert(last.actions =~= seq![ActionView::Finish { outcome }]);
                    assert(play(first.0, first.1, run.rest) == prepend(seq![ActionView::Wait], last));
                    assert(run.actions + (seq![ActionView::Wait] + last.actions) =~= (run.actions
                        + seq![ActionView::Wait]).push(ActionView::Finish { outcome }));
                } else {
                    assert(continued(run, stack).actions =~= concluded(run).actions);
                }
            } else {
                let outcome = Ok::<bool, Fault>(handle.known == Some(true));
                assert(first.1 == ActionView::Finish { outcome });
                assert(run.actions + seq![first.1] =~= (run.actions + Seq::empty()).push(first.1));
            }
        },
        Some(Err(error)) => {
            let first = settle(ControlView::Deliver { result: Err(error) }, stack);
            assert(run.actions + seq![first.1] =~= run.actions.push(first.1));
        },
        None => {},
    }
}

/// The evaluator, started on a statement and driven with any replies, asks
/// for exactly the actions of the statement's run, in their order, and
/// finishes with the run's outcome; where the replies run out, it has asked
/// for the actions of the run up to there.
pub proof fn lemma_evaluator_runs_statement(stmt: StatementView, replies: Seq<ReplyView>)
    ensures
        play(begun(stmt).0, begun(stmt).1, replies) == interpretation(stmt, replies),
{
    lemma_descend(stmt, Source::Inherit, Sink::Inherit, Seq::empty(), replies);
    lemma_conclude(run(stmt, Source::Inherit, Sink::Inherit, replies));
}

} // verus!

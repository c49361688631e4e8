//! Why a run of the bundler ends: every step that does not end the run
//! lowers a measure that cannot fall for ever, as long as the references
//! to bundle are finitely many.
use crate::macos::bundle::{is_system_path, Action, Event, Frame, SelfContained, Stage};
use vstd::prelude::*;

verus! {

/// What is left to do, in the order in which it counts.
pub struct Effort {
    /// The references that can still be bundled, counting one that is
    /// recorded but not yet walked.
    pub unbundled: int,
    /// The executables that are not yet walked.
    pub executables: int,
    /// The dependencies left to look at and the modules left to close.
    pub work: int,
    /// How far the bundler is from the end of what it does for the entry
    /// in hand.
    pub stage: int,
}

/// The dependencies that a module has yet to look at.
pub open spec fn left_in(frame: Frame) -> int {
    frame.dependencies@.len() - frame.next
}

/// For every module on the stack, its dependencies left and one more for
/// closing it.
pub open spec fn work(stack: Seq<Frame>) -> int
    decreases stack.len(),
{
    if stack.len() == 0 {
        0
    } else {
        work(stack.drop_last()) + left_in(stack.last()) + 1
    }
}

/// How many steps a stage is from the end of what is done without looking
/// at a further dependency.
pub open spec fn rank(stage: Stage) -> int {
    match stage {
        Stage::Walking => 5,
        Stage::AwaitExistence => 4,
        Stage::AwaitComparison { .. } => 3,
        Stage::AwaitLibrary { .. } => 3,
        Stage::Idle => 3,
        Stage::AwaitCopy { .. } => 2,
        Stage::Closing => 2,
        Stage::AwaitCanonical { .. } => 2,
        Stage::Sealing => 1,
        Stage::AwaitExecutable { .. } => 1,
        Stage::Finished => 0,
        Stage::Failed => 0,
    }
}

/// What is left to do in `state`, where no more than `bound` references
/// can be bundled.
pub open spec fn effort(state: SelfContained, bound: nat) -> Effort {
    Effort {
        unbundled: bound - state.processed_libraries.entries@.len() + (if state.stage is AwaitCopy {
            1int
        } else {
            0int
        }),
        executables: state.executables@.len() - state.next_executable + (if state.stage is AwaitCanonical
            || state.stage is AwaitExecutable {
            1int
        } else {
            0int
        }),
        work: work(state.stack@),
        stage: rank(state.stage),
    }
}

/// No part of the effort is negative.
pub open spec fn is_effort(e: Effort) -> bool {
    e.unbundled >= 0 && e.executables >= 0 && e.work >= 0 && e.stage >= 0
}

/// `after` is less than `before`: the first part in which they differ is
/// smaller.
pub open spec fn less(after: Effort, before: Effort) -> bool {
    ||| after.unbundled < before.unbundled
    ||| (after.unbundled == before.unbundled && after.executables < before.executables)
    ||| (after.unbundled == before.unbundled && after.executables == before.executables
        && after.work < before.work)
    ||| (after.unbundled == before.unbundled && after.executables == before.executables
        && after.work == before.work && after.stage < before.stage)
}

/// The work on a stack of modules that are within bounds is not negative.
pub proof fn lemma_work_is_natural(stack: Seq<Frame>)
    requires
        forall|i: int| 0 <= i < stack.len() ==> (#[trigger] stack[i]).wf(),
    ensures
        work(stack) >= 0,
    decreases stack.len(),
{
    if stack.len() > 0 {
        let rest = stack.drop_last();
        assert forall|i: int| 0 <= i < rest.len() implies (#[trigger] rest[i]).wf() by {
            assert(rest[i] == stack[i]);
        }
        lemma_work_is_natural(rest);
        assert(stack.last() == stack[stack.len() - 1]);
    }
}

/// A run ends, where the references to bundle are finitely many. Every
/// step that neither finishes nor fails the run leaves less to do: fewer
/// references that can still be bundled, else fewer executables to walk,
/// else fewer dependencies to look at and modules to close, else fewer
/// steps for the entry in hand. No part of this falls below zero, so a run
/// cannot go on for ever: a dependency that leads back to a module that is
/// being walked is found in the record and is not walked again.
pub proof fn lemma_step_leaves_less_to_do(
    pre: SelfContained,
    event: Event,
    post: SelfContained,
    action: Action,
    bound: nat,
)
    requires
        pre.wf(),
        post.wf(),
        pre.transition(event, post, action),
        !(action is Finished),
        !(action is Failed),
        post.processed_libraries.entries@.len() <= bound,
    ensures
        less(effort(post, bound), effort(pre, bound)),
        is_effort(effort(pre, bound)),
        is_effort(effort(post, bound)),
{
    lemma_work_is_natural(pre.stack@);
    lemma_work_is_natural(post.stack@);
    let before = pre.stack@;
    let after = post.stack@;
    match pre.stage {
        Stage::Idle => {
            assert(pre.executables.len() == pre.executables@.len());
        },
        Stage::Walking => {
            if pre.top().next < pre.top().dependencies@.len() && is_system_path(pre.top().current()) {
                assert(work(after) == work(after.drop_last()) + left_in(after.last()) + 1);
                assert(work(before) == work(before.drop_last()) + left_in(before.last()) + 1);
            }
        },
        Stage::AwaitComparison { .. } => {
            assert(work(after) == work(after.drop_last()) + left_in(after.last()) + 1);
            assert(work(before) == work(before.drop_last()) + left_in(before.last()) + 1);
        },
        Stage::Sealing => {
            let rest = before.drop_last();
            assert(work(before) == work(rest) + left_in(before.last()) + 1);
            assert(before.last() == before[before.len() - 1]);
            assert(before.last().wf());
            if pre.top().owner is Library {
                assert(before.len() >= 2);
                assert(rest.last() == before[before.len() - 2]);
                assert(rest.last().waiting());
                assert(work(rest) == work(rest.drop_last()) + left_in(rest.last()) + 1);
                assert(work(after) == work(after.drop_last()) + left_in(after.last()) + 1);
            }
        },
        _ => {},
    }
}

} // verus!

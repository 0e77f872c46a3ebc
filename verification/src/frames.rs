//! The frame markers of a run, as a mathematical stack, and the law that
//! calls and returns keep it balanced.

use vstd::prelude::*;

verus! {

/// What the interpreter tells the tracer of a control transfer.
pub enum FrameStep {
    /// A call is entered while the event counter is `eid`.
    Enter { eid: u32 },
    /// The innermost call returns.
    Leave,
}

/// The frame markers are in the order of the run: none is larger than a
/// later one, nor than the event counter `latest`.
pub open spec fn frames_ordered(frames: Seq<u32>, latest: u32) -> bool {
    &&& forall|i: int, j: int| 0 <= i <= j < frames.len() ==> frames[i] <= frames[j]
    &&& forall|i: int| 0 <= i < frames.len() ==> frames[i] <= latest
}

/// The frame markers after one step; none where a return finds no frame.
pub open spec fn step_frames(frames: Seq<u32>, step: FrameStep) -> Option<Seq<u32>> {
    match step {
        FrameStep::Enter { eid } => Some(frames.push(eid)),
        FrameStep::Leave => if frames.len() > 0 {
            Some(frames.drop_last())
        } else {
            None
        },
    }
}

/// The frame markers after the steps, taken in order; none where one of
/// them is a return that finds no frame.
pub open spec fn run_frames(frames: Seq<u32>, steps: Seq<FrameStep>) -> Option<Seq<u32>>
    decreases steps.len(),
{
    if steps.len() == 0 {
        Some(frames)
    } else {
        match run_frames(frames, steps.drop_last()) {
            Some(before) => step_frames(before, steps.last()),
            None => None,
        }
    }
}

/// The number of calls among the steps less the number of returns.
pub open spec fn depth_change(steps: Seq<FrameStep>) -> int
    decreases steps.len(),
{
    if steps.len() == 0 {
        0
    } else {
        depth_change(steps.drop_last()) + match steps.last() {
            FrameStep::Enter { .. } => 1int,
            FrameStep::Leave => -1int,
        }
    }
}

/// The steps are those of a well-formed run: at no point have more calls
/// returned than were entered.
pub open spec fn well_nested(steps: Seq<FrameStep>) -> bool {
    forall|k: int| 0 <= k <= steps.len() ==> depth_change(#[trigger] steps.subrange(0, k)) >= 0
}

/// Calls and returns are balanced. Over the steps of a well-formed run no
/// return finds the stack empty, the frames that were there before stay
/// where they are, and the depth grows by the number of calls that have not
/// returned. Once every call has returned the stack is what it was.
pub proof fn lemma_frames_balanced(frames: Seq<u32>, steps: Seq<FrameStep>)
    requires
        well_nested(steps),
    ensures
        run_frames(frames, steps) matches Some(after) && after.len() == frames.len()
            + depth_change(steps) && frames.is_prefix_of(after),
        depth_change(steps) == 0 ==> run_frames(frames, steps) == Some(frames),
    decreases steps.len(),
{
    if steps.len() > 0 {
        let earlier = steps.drop_last();
        assert(steps.subrange(0, steps.len() as int) == steps);
        assert(well_nested(earlier)) by {
            assert forall|k: int| 0 <= k <= earlier.len() implies depth_change(
                #[trigger] earlier.subrange(0, k),
            ) >= 0 by {
                assert(earlier.subrange(0, k) == steps.subrange(0, k));
            }
        }
        assert(depth_change(earlier) >= 0) by {
            assert(steps.subrange(0, earlier.len() as int) == earlier);
        }
        lemma_frames_balanced(frames, earlier);
        let before = run_frames(frames, earlier)->0;
        let after = run_frames(frames, steps)->0;
        assert(frames.is_prefix_of(after));
        if depth_change(steps) == 0 {
            assert(after == frames);
        }
    } else {
        assert(frames.is_prefix_of(frames));
    }
}

/// A return that finds no frame fails: after a well-formed run in which
/// every call has returned, one more return on an empty stack has no result.
pub proof fn lemma_return_without_call_fails(steps: Seq<FrameStep>)
    requires
        well_nested(steps),
        depth_change(steps) == 0,
    ensures
        run_frames(Seq::empty(), steps.push(FrameStep::Leave)) is None,
{
    lemma_frames_balanced(Seq::empty(), steps);
    assert(steps.push(FrameStep::Leave).drop_last() == steps);
}

} // verus!

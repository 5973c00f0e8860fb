//! The frame loop's state transition, decoupled from any window.
//!
//! One frame runs the physics step, then drains the events that arrived
//! during the frame (the draw that the driver issues between the two
//! reads the position but changes nothing).  `run_script` folds a whole
//! pre-recorded sequence of frames, stopping at the first close request
//! or the first unrepresentable value, and is how the loop's behaviour
//! is stated and tested without a display.

use crate::input::{spec_drain, drain_events, Keys, WindowEvent};
use crate::physics::{spec_step_physics, state_wf, step_physics, SimState};
use vstd::prelude::*;

verus! {

/// What one frame decided.
#[derive(Clone, Copy, Debug, PartialEq, Eq, Structural)]
pub enum FrameOutcome {
    /// The frame ran; the loop goes on with this state.
    Continue(SimState),
    /// The frame ran and a close request was drained; the loop stops.
    CloseRequested(SimState),
    /// A scalar of the stepped state is no longer representable.
    OutOfRange,
}

/// Why a scripted run stopped.
#[derive(Clone, Copy, Debug, PartialEq, Eq, Structural)]
pub enum StopReason {
    CloseRequested,
    OutOfRange,
    ScriptEnded,
}

/// One whole frame: the physics step on the old key state, then the event
/// drain updating the keys and possibly requesting a close.
pub open spec fn spec_run_frame(s: SimState, evs: Seq<WindowEvent>) -> FrameOutcome {
    match spec_step_physics(s) {
        None => FrameOutcome::OutOfRange,
        Some(t) => {
            let (keys, closed) = spec_drain(t.keys, evs);
            let u = SimState { keys, ..t };
            if closed {
                FrameOutcome::CloseRequested(u)
            } else {
                FrameOutcome::Continue(u)
            }
        },
    }
}

/// Run one frame: physics, then the drain of this frame's events.
pub fn run_frame(s: SimState, evs: &Vec<WindowEvent>) -> (r: FrameOutcome)
    requires
        state_wf(s),
    ensures
        r == spec_run_frame(s, evs@),
        r matches FrameOutcome::Continue(t) ==> state_wf(t),
        r matches FrameOutcome::CloseRequested(t) ==> state_wf(t),
{
    match step_physics(s) {
        None => FrameOutcome::OutOfRange,
        Some(t) => {
            let (keys, closed) = drain_events(t.keys, evs);
            let u = SimState { keys, ..t };
            if closed {
                FrameOutcome::CloseRequested(u)
            } else {
                FrameOutcome::Continue(u)
            }
        },
    }
}

/// The view of a recorded script: one sequence of events per frame.
pub open spec fn frames_view(frames: Vec<Vec<WindowEvent>>) -> Seq<Seq<WindowEvent>> {
    frames@.map_values(|evs: Vec<WindowEvent>| evs@)
}

/// Folding `spec_run_frame` over a script, frame by frame: the final
/// state, how many frames ran (a frame that stops on a close request
/// counts; one that stops out of range does not), and why the run
/// stopped.
pub open spec fn spec_run_script(s: SimState, frames: Seq<Seq<WindowEvent>>) -> (
    SimState,
    int,
    StopReason,
)
    decreases frames.len(),
{
    if frames.len() == 0 {
        (s, 0, StopReason::ScriptEnded)
    } else {
        match spec_run_frame(s, frames[0]) {
            FrameOutcome::OutOfRange => (s, 0, StopReason::OutOfRange),
            FrameOutcome::CloseRequested(t) => (t, 1, StopReason::CloseRequested),
            FrameOutcome::Continue(t) => {
                let rest = spec_run_script(t, frames.drop_first());
                (rest.0, rest.1 + 1, rest.2)
            },
        }
    }
}

/// Run a recorded script of frames until a close request, an
/// unrepresentable value, or the end of the script.  Returns the final
/// state, the number of frames that ran, and the reason the run stopped.
pub fn run_script(s: SimState, frames: &Vec<Vec<WindowEvent>>) -> (r: (
    SimState,
    usize,
    StopReason,
))
    requires
        state_wf(s),
    ensures
        ({
            let m = spec_run_script(s, frames_view(*frames));
            r.0 == m.0 && r.1 == m.1 && r.2 == m.2 && state_wf(r.0)
        }),
{
    let mut state = s;
    let mut i: usize = 0;
    proof {
        assert(frames_view(*frames).skip(0) =~= frames_view(*frames));
    }
    while i < frames.len()
        invariant
            i <= frames.len(),
            state_wf(state),
            ({
                let m = spec_run_script(s, frames_view(*frames));
                let rest = spec_run_script(state, frames_view(*frames).skip(i as int));
                m.0 == rest.0 && m.1 == i + rest.1 && m.2 == rest.2
            }),
        decreases frames.len() - i,
    {
        proof {
            assert(frames_view(*frames).skip(i as int)[0] == frames_view(*frames)[i as int]);
            assert(frames_view(*frames)[i as int] == frames@[i as int]@);
            assert(frames_view(*frames).skip(i as int).drop_first() =~= frames_view(*frames).skip(
                i as int + 1,
            ));
        }
        match run_frame(state, &frames[i]) {
            FrameOutcome::OutOfRange => {
                return (state, i, StopReason::OutOfRange);
            },
            FrameOutcome::CloseRequested(t) => {
                return (t, i + 1, StopReason::CloseRequested);
            },
            FrameOutcome::Continue(t) => {
                state = t;
            },
        }
        i += 1;
    }
    (state, i, StopReason::ScriptEnded)
}

/// Whether some event of a frame is a close request.
pub open spec fn has_close(evs: Seq<WindowEvent>) -> bool {
    exists|i: int| 0 <= i < evs.len() && evs[i] is Closed
}

/// A scripted run never runs more frames than the script holds, and a
/// run that stops for the script's end has run every frame of it.
pub proof fn lemma_script_run_bounds(s: SimState, frames: Seq<Seq<WindowEvent>>)
    ensures
        0 <= spec_run_script(s, frames).1 <= frames.len(),
        spec_run_script(s, frames).2 is ScriptEnded ==> spec_run_script(s, frames).1
            == frames.len(),
    decreases frames.len(),
{
    if frames.len() == 0 {
    } else {
        match spec_run_frame(s, frames[0]) {
            FrameOutcome::OutOfRange => {},
            FrameOutcome::CloseRequested(t) => {},
            FrameOutcome::Continue(t) => {
                lemma_script_run_bounds(t, frames.drop_first());
            },
        }
    }
}

/// Once a frame's events hold a close request, the loop halts with that
/// frame: no later frame — in particular no later physics update — ever
/// runs, whatever the events of the later frames are.
pub proof fn lemma_no_frame_after_close(s: SimState, frames: Seq<Seq<WindowEvent>>, j: int)
    requires
        0 <= j < frames.len(),
        has_close(frames[j]),
    ensures
        spec_run_script(s, frames).1 <= j + 1,
    decreases frames.len(),
{
    match spec_run_frame(s, frames[0]) {
        FrameOutcome::OutOfRange => {},
        FrameOutcome::CloseRequested(t) => {},
        FrameOutcome::Continue(t) => {
            if j == 0 {
                if let Some(u) = spec_step_physics(s) {
                    crate::input::lemma_close_halts(u.keys, frames[0]);
                }
                assert(false);
            } else {
                assert(frames.drop_first()[j - 1] == frames[j]);
                lemma_no_frame_after_close(t, frames.drop_first(), j - 1);
            }
        },
    }
}

} // verus!

use vstd::prelude::*;

use crate::types::AnimationState;

verus! {

/// Simulation frames each animation frame stays on screen.
pub const FRAME_PERIOD: usize = 6;

impl AnimationState {
    /// Whether `current_frame` is due to show the next frame.
    pub open spec fn is_due(&self, current_frame: int) -> bool {
        current_frame >= self.start_time + FRAME_PERIOD
    }

    /// The frame index after one due step: wrapping when repeating, else held on the last frame.
    pub open spec fn next_index(&self) -> int {
        if self.repeat {
            (self.current_index + 1) % (self.frames@.len() as int)
        } else if self.current_index + 1 == self.frames@.len() {
            self.current_index as int
        } else {
            self.current_index + 1
        }
    }

    /// `self` after one call of `advance(current_frame)` on `before`.
    pub open spec fn advanced_from(&self, before: &AnimationState, current_frame: int) -> bool {
        &&& self.frames == before.frames
        &&& self.repeat == before.repeat
        &&& if before.is_due(current_frame) {
            self.start_time == current_frame && self.current_index == before.next_index()
        } else {
            self.start_time == before.start_time && self.current_index == before.current_index
        }
    }

    /// Moves to the next frame once `FRAME_PERIOD` frames have passed since `start_time`.
    pub fn advance(&mut self, current_frame: usize)
        requires
            old(self).wf(),
        ensures
            final(self).wf(),
            final(self).advanced_from(old(self), current_frame as int),
            (final(self).current_index as int, final(self).start_time as int) == frame_step(
                old(self).current_index as int,
                old(self).start_time as int,
                old(self).frames@.len() as int,
                old(self).repeat,
                current_frame as int,
            ),
    {
        let n = self.frames.len();
        if current_frame >= FRAME_PERIOD && current_frame - FRAME_PERIOD >= self.start_time {
            self.start_time = current_frame;
            self.current_index = self.current_index + 1;
            if self.repeat {
                self.current_index = self.current_index % n;
            } else if self.current_index == n {
                self.current_index = self.current_index - 1;
            }
        }
    }
}

/// One call of `advance(f)` on frame index `ci` started at `start`, in a state of `len` frames:
/// the new frame index and start time.
pub open spec fn frame_step(ci: int, start: int, len: int, repeat: bool, f: int) -> (int, int) {
    if f >= start + FRAME_PERIOD {
        let next = if repeat {
            (ci + 1) % len
        } else if ci + 1 == len {
            ci
        } else {
            ci + 1
        };
        (next, f)
    } else {
        (ci, start)
    }
}

/// Frame index and start time after `advance` is called for frames `from`, `from + 1`, ...,
/// `from + n - 1`, in order.
pub open spec fn frame_run(ci: int, start: int, len: int, repeat: bool, from: int, n: nat) -> (int, int)
    decreases n,
{
    if n == 0 {
        (ci, start)
    } else {
        let p = frame_run(ci, start, len, repeat, from, (n - 1) as nat);
        frame_step(p.0, p.1, len, repeat, from + n - 1)
    }
}

/// What `advance` does is one `frame_step`.
pub proof fn lemma_advanced_is_step(after: &AnimationState, before: &AnimationState, f: int)
    requires
        before.wf(),
        after.advanced_from(before, f),
    ensures
        (after.current_index as int, after.start_time as int) == frame_step(
            before.current_index as int,
            before.start_time as int,
            before.frames@.len() as int,
            before.repeat,
            f,
        ),
{
}

/// A non-repeating state never passes its last frame over any run of calls.
pub proof fn lemma_one_shot_run_bounded(ci: int, start: int, len: int, from: int, n: nat)
    requires
        0 <= ci < len,
    ensures
        0 <= frame_run(ci, start, len, false, from, n).0 < len,
    decreases n,
{
    if n > 0 {
        lemma_one_shot_run_bounded(ci, start, len, from, (n - 1) as nat);
    }
}

/// A two-frame non-repeating state entered at frame `t` and advanced at every frame from `t`
/// on shows its first frame up to frame `t + 5`, then its second frame from `t + 6` on, for good.
pub proof fn lemma_two_frame_one_shot_freezes(t: int, n: nat)
    ensures
        n <= FRAME_PERIOD ==> frame_run(0, t, 2, false, t, n) == (0int, t),
        n > FRAME_PERIOD ==> frame_run(0, t, 2, false, t, n).0 == 1,
    decreases n,
{
    if n > 0 {
        lemma_two_frame_one_shot_freezes(t, (n - 1) as nat);
    }
}

/// A non-repeating state never moves past its last frame, and once there it stays there.
pub proof fn lemma_one_shot_holds_last(st: &AnimationState)
    requires
        st.wf(),
        !st.repeat,
    ensures
        st.next_index() < st.frames@.len(),
        st.current_index == st.frames@.len() - 1 ==> st.next_index() == st.current_index,
{
}

/// A set of states, one of which is active.
pub struct Animation {
    pub states: Vec<AnimationState>,
    pub index: usize,
}

impl Animation {
    /// The active state exists and every state is well formed.
    pub open spec fn wf(&self) -> bool {
        &&& self.index < self.states@.len()
        &&& forall|i: int| 0 <= i < self.states@.len() ==> (#[trigger] self.states@[i]).wf()
    }

    /// Starts in state 0.
    pub fn new(states: Vec<AnimationState>) -> (r: Animation)
        requires
            states@.len() > 0,
            forall|i: int| 0 <= i < states@.len() ==> (#[trigger] states@[i]).wf(),
        ensures
            r.wf(),
            r.states == states,
            r.index == 0,
    {
        Animation { states, index: 0 }
    }

    /// `self` after one call of `animate(current_frame)` on `before`: only the active state moves.
    pub open spec fn animated_from(&self, before: &Animation, current_frame: int) -> bool {
        &&& self.index == before.index
        &&& self.states@.len() == before.states@.len()
        &&& self.states@[self.index as int].advanced_from(&before.states@[before.index as int], current_frame)
        &&& forall|i: int|
            0 <= i < self.states@.len() && i != self.index ==> #[trigger] self.states@[i]
                == before.states@[i]
    }

    /// Advances the active state.
    pub fn animate(&mut self, current_frame: usize)
        requires
            old(self).wf(),
        ensures
            final(self).wf(),
            final(self).animated_from(old(self), current_frame as int),
    {
        let i = self.index;
        self.states[i].advance(current_frame);
        proof {
            assert forall|k: int| 0 <= k < self.states@.len() implies (#[trigger] self.states@[k]).wf() by {
                if k != i {
                    assert(self.states@[k] == old(self).states@[k]);
                }
            }
        }
    }

    /// `self` after `set_state(state, current_frame)` on `before`: the state is entered at that
    /// frame and keeps its frame offset.
    pub open spec fn entered_from(&self, before: &Animation, state: int, current_frame: int) -> bool {
        &&& self.index == state
        &&& self.states@.len() == before.states@.len()
        &&& self.states@[state].start_time == current_frame
        &&& self.states@[state].current_index == before.states@[state].current_index
        &&& self.states@[state].frames == before.states@[state].frames
        &&& self.states@[state].repeat == before.states@[state].repeat
        &&& forall|i: int|
            0 <= i < self.states@.len() && i != state ==> #[trigger] self.states@[i] == before.states@[i]
    }
}

/// Switching the active state of an animation.
pub trait StartAnim {
    /// Whether `state` names a state that can be entered.
    spec fn can_enter(&self, state: usize) -> bool;

    /// `self` after `set_state(state, current_frame)` on `before`.
    spec fn entered(&self, before: &Self, state: usize, current_frame: usize) -> bool;

    /// Makes `state` active, restarting its timer at `current_frame`.
    fn set_state(&mut self, state: usize, current_frame: usize)
        requires
            old(self).can_enter(state),
        ensures
            final(self).entered(old(self), state, current_frame),
    ;
}

impl StartAnim for Animation {
    open spec fn can_enter(&self, state: usize) -> bool {
        self.wf() && state < self.states@.len()
    }

    open spec fn entered(&self, before: &Self, state: usize, current_frame: usize) -> bool {
        self.wf() && self.entered_from(before, state as int, current_frame as int)
    }

    fn set_state(&mut self, state: usize, current_frame: usize) {
        self.index = state;
        self.states[state].start_time = current_frame;
        proof {
            assert forall|k: int| 0 <= k < self.states@.len() implies (#[trigger] self.states@[k]).wf() by {
                if k != state {
                    assert(self.states@[k] == old(self).states@[k]);
                }
            }
        }
    }
}

} // verus!

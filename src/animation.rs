//! An animation component: the frames of one sprite, the frame to show next
//! and a repeating timer that decides when to move on.

use crate::cycle::AnimationView;
use vstd::prelude::*;

verus! {

/// Why an animation could not be created.
#[derive(Debug, Clone, Copy, PartialEq, Eq, Structural)]
pub enum AnimationError {
    /// The frame sequence is empty: there is nothing to cycle through.
    NoFrames,
    /// The period is zero: the cursor would have no cadence to follow.
    ZeroPeriod,
    /// The initial cursor does not name a frame of the sequence.
    FrameOutOfRange,
}

/// The frames of a sprite animation over image handles of type `H`, the index
/// of the frame to show next, the period between advances in nanoseconds and
/// the time accumulated since the last advance.
#[derive(Debug)]
pub struct Animation<H> {
    frames: Vec<H>,
    frame: usize,
    period: u64,
    elapsed: u64,
}

impl<H> View for Animation<H> {
    type V = AnimationView<H>;

    closed spec fn view(&self) -> AnimationView<H> {
        AnimationView {
            frames: self.frames@,
            cursor: self.frame as nat,
            period: self.period as nat,
            elapsed: self.elapsed as nat,
        }
    }
}

impl<H> Animation<H> {
    #[verifier::type_invariant]
    closed spec fn inv(self) -> bool {
        self@.wf()
    }

    /// Creates an animation over `frames` that shows `frame` next and advances
    /// once every `period` nanoseconds, with no time accumulated yet.
    pub fn new(frames: Vec<H>, frame: usize, period: u64) -> (r: Result<Self, AnimationError>)
        ensures
            frames@.len() == 0 <==> r == Err::<Self, AnimationError>(AnimationError::NoFrames),
            frames@.len() > 0 && period == 0 <==> r == Err::<Self, AnimationError>(
                AnimationError::ZeroPeriod,
            ),
            frames@.len() > 0 && period > 0 && frame >= frames@.len() <==> r == Err::<
                Self,
                AnimationError,
            >(AnimationError::FrameOutOfRange),
            r is Ok ==> r->Ok_0@ == (AnimationView {
                frames: frames@,
                cursor: frame as nat,
                period: period as nat,
                elapsed: 0,
            }),
    {
        if frames.len() == 0 {
            Err(AnimationError::NoFrames)
        } else if period == 0 {
            Err(AnimationError::ZeroPeriod)
        } else if frame >= frames.len() {
            Err(AnimationError::FrameOutOfRange)
        } else {
            Ok(Animation { frames, frame, period, elapsed: 0 })
        }
    }

    /// The index of the frame to show next.
    pub fn frame(&self) -> (r: usize)
        ensures
            r == self@.cursor,
            r < self@.frames.len(),
    {
        proof {
            use_type_invariant(self);
        }
        self.frame
    }

    /// The frames cycled through, in order.
    pub fn frames(&self) -> (r: &[H])
        ensures
            r@ == self@.frames,
            r@.len() > 0,
    {
        proof {
            use_type_invariant(self);
        }
        self.frames.as_slice()
    }

    /// The time between advances, in nanoseconds.
    pub fn period(&self) -> (r: u64)
        ensures
            r == self@.period,
            r > 0,
    {
        proof {
            use_type_invariant(self);
        }
        self.period
    }

    /// The time accumulated since the last advance, in nanoseconds.
    pub fn elapsed(&self) -> (r: u64)
        ensures
            r == self@.elapsed,
            r < self@.period,
    {
        proof {
            use_type_invariant(self);
        }
        self.elapsed
    }
}

impl<H: Clone> Animation<H> {
    /// Adds `delta` nanoseconds to the accumulated time. For every whole period
    /// that lapses the cursor moves one frame on, wrapping around at the end,
    /// and the remainder stays accumulated. When at least one period lapsed,
    /// `displayed` receives a clone of the last frame stepped over; otherwise
    /// it is left as it was.
    pub fn tick(&mut self, delta: u64, displayed: &mut H)
        ensures
            final(self)@ == old(self)@.advance(delta as nat),
            final(self)@.wf(),
            old(self)@.shown(delta as nat) is None ==> *final(displayed) == *old(displayed),
            old(self)@.shown(delta as nat) is Some ==> cloned::<H>(
                old(self)@.frames[old(self)@.shown(delta as nat)->Some_0 as int],
                *final(displayed),
            ),
    {
        proof {
            use_type_invariant(&*self);
        }
        let period = self.period as u128;
        let len = self.frames.len() as u128;
        let total: u128 = self.elapsed as u128 + delta as u128;
        let steps: u128 = total / period;
        let pos: u128 = self.frame as u128 + steps;
        let next = (pos % len) as usize;
        let rest = (total % period) as u64;
        if steps > 0 {
            let last = ((pos - 1) % len) as usize;
            *displayed = self.frames[last].clone();
        }
        self.frame = next;
        self.elapsed = rest;
    }
}


} // verus!

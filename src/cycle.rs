//! The mathematical model of an animation: a frame sequence, a cursor into it,
//! a fixed period and the time accumulated since the last advance. Time is
//! counted in nanoseconds.

use vstd::arithmetic::div_mod::{
    lemma_add_mod_noop_right, lemma_fundamental_div_mod, lemma_fundamental_div_mod_converse,
};
use vstd::prelude::*;

verus! {

/// Abstract state of an animation.
pub struct AnimationView<H> {
    pub frames: Seq<H>,
    pub cursor: nat,
    pub period: nat,
    pub elapsed: nat,
}

impl<H> AnimationView<H> {
    /// A state reachable between ticks: at least one frame, a positive period,
    /// the cursor on a frame and less than one period accumulated.
    pub open spec fn wf(self) -> bool {
        &&& self.frames.len() > 0
        &&& self.period > 0
        &&& self.cursor < self.frames.len()
        &&& self.elapsed < self.period
    }

    /// How many whole periods have lapsed once `delta` more time is added.
    pub open spec fn steps(self, delta: nat) -> nat {
        (self.elapsed + delta) / self.period
    }

    /// The state after `delta` more time: the cursor moves one frame per
    /// lapsed period and the remainder of the time stays accumulated.
    pub open spec fn advance(self, delta: nat) -> AnimationView<H> {
        AnimationView {
            frames: self.frames,
            cursor: (self.cursor + self.steps(delta)) % self.frames.len(),
            period: self.period,
            elapsed: (self.elapsed + delta) % self.period,
        }
    }

    /// The index of the frame put on display while advancing by `delta`:
    /// the last one stepped over, or none when no period lapsed.
    pub open spec fn shown(self, delta: nat) -> Option<nat> {
        if self.steps(delta) > 0 {
            Some(((self.cursor + self.steps(delta) - 1) as nat) % self.frames.len())
        } else {
            None
        }
    }

    /// The state after a sequence of ticks, one for each delta, in order.
    pub open spec fn run(self, deltas: Seq<u64>) -> AnimationView<H>
        decreases deltas.len(),
    {
        if deltas.len() == 0 {
            self
        } else {
            self.run(deltas.drop_last()).advance(deltas.last() as nat)
        }
    }

    /// The index of the frame last put on display over a sequence of ticks,
    /// or none when none of them advanced.
    pub open spec fn last_shown(self, deltas: Seq<u64>) -> Option<nat>
        decreases deltas.len(),
    {
        if deltas.len() == 0 {
            None
        } else {
            match self.run(deltas.drop_last()).shown(deltas.last() as nat) {
                Some(i) => Some(i),
                None => self.last_shown(deltas.drop_last()),
            }
        }
    }
}

/// The time a sequence of ticks adds up to.
pub open spec fn total(deltas: Seq<u64>) -> nat
    decreases deltas.len(),
{
    if deltas.len() == 0 {
        0
    } else {
        total(deltas.drop_last()) + deltas.last() as nat
    }
}

/// Advancing by `a` and then by `b` is advancing by `a + b`; the frame shown
/// by the second advance, if any, is the one shown by the combined advance.
pub proof fn lemma_advance_compose<H>(s: AnimationView<H>, a: nat, b: nat)
    requires
        s.wf(),
    ensures
        s.advance(a).wf(),
        s.advance(a).advance(b) == s.advance(a + b),
        s.advance(a).shown(b) is Some ==> s.advance(a).shown(b) == s.shown(a + b),
        s.advance(a).shown(b) is None ==> s.shown(a) == s.shown(a + b),
{
    let p = s.period as int;
    let len = s.frames.len() as int;
    let c = s.cursor as int;
    let e = s.elapsed as int;
    let x = a as int;
    let y = b as int;
    let t = s.advance(a);
    let q1 = (e + x) / p;
    let r1 = (e + x) % p;
    let q2 = (r1 + y) / p;
    let r2 = (r1 + y) % p;
    lemma_fundamental_div_mod(e + x, p);
    lemma_fundamental_div_mod(r1 + y, p);
    assert(e + x + y == (q1 + q2) * p + r2) by (nonlinear_arith)
        requires
            e + x == p * q1 + r1,
            r1 + y == p * q2 + r2,
    ;
    lemma_fundamental_div_mod_converse(e + x + y, p, q1 + q2, r2);
    assert(q1 >= 0 && q2 >= 0);
    assert(s.steps(a + b) == q1 + q2);
    assert(t.steps(b) == q2);
    assert(t.cursor == (c + q1) % len);
    lemma_add_mod_noop_right(q2, c + q1, len);
    assert(((c + q1) % len + q2) % len == (c + q1 + q2) % len);
    if q2 > 0 {
        lemma_add_mod_noop_right(q2 - 1, c + q1, len);
        assert(((c + q1) % len + q2 - 1) % len == (c + q1 + q2 - 1) % len);
    }
}


/// Advancing by no time changes nothing and shows nothing.
pub proof fn lemma_advance_zero<H>(s: AnimationView<H>)
    requires
        s.wf(),
    ensures
        s.advance(0) == s,
        s.shown(0) is None,
{
    lemma_no_advance_before_period(s, 0);
}

/// A sequence of ticks ends in the state that one tick by their total time
/// reaches, and the frame it last shows is the one that tick would show.
pub proof fn lemma_run_is_advance_by_total<H>(s: AnimationView<H>, deltas: Seq<u64>)
    requires
        s.wf(),
    ensures
        s.run(deltas) == s.advance(total(deltas)),
        s.last_shown(deltas) == s.shown(total(deltas)),
        s.run(deltas).wf(),
    decreases deltas.len(),
{
    if deltas.len() == 0 {
        lemma_advance_zero(s);
    } else {
        let pre = deltas.drop_last();
        lemma_run_is_advance_by_total(s, pre);
        lemma_advance_compose(s, total(pre), deltas.last() as nat);
    }
}

/// Starting from the first frame with no time accumulated, once ticks adding
/// up to `n` whole periods have elapsed the cursor is on frame `n` modulo the
/// frame count, no time is left over, and for `n >= 1` the frame last shown
/// is frame `n - 1` modulo the frame count.
pub proof fn lemma_cycling<H>(s: AnimationView<H>, deltas: Seq<u64>, n: nat)
    requires
        s.wf(),
        s.cursor == 0,
        s.elapsed == 0,
        total(deltas) == n * s.period,
    ensures
        s.run(deltas).cursor == n % s.frames.len(),
        s.run(deltas).elapsed == 0,
        n >= 1 ==> s.last_shown(deltas) == Some(((n - 1) as nat) % s.frames.len()),
{
    lemma_run_is_advance_by_total(s, deltas);
    lemma_fundamental_div_mod_converse((n * s.period) as int, s.period as int, n as int, 0);
    assert(s.steps(total(deltas)) == n);
}

/// Ticks that add no time, however many, change neither the state nor the
/// frame on display.
pub proof fn lemma_idle_ticks<H>(s: AnimationView<H>, deltas: Seq<u64>)
    requires
        s.wf(),
        forall|i: int| 0 <= i < deltas.len() ==> deltas[i] == 0,
    ensures
        s.run(deltas) == s,
        s.last_shown(deltas) is None,
{
    lemma_total_of_zeros(deltas);
    lemma_run_is_advance_by_total(s, deltas);
    lemma_advance_zero(s);
}

proof fn lemma_total_of_zeros(deltas: Seq<u64>)
    requires
        forall|i: int| 0 <= i < deltas.len() ==> deltas[i] == 0,
    ensures
        total(deltas) == 0,
    decreases deltas.len(),
{
    if deltas.len() > 0 {
        lemma_total_of_zeros(deltas.drop_last());
    }
}

/// While the accumulated time stays under one period, a tick keeps the cursor,
/// shows no frame, and only accumulates the time.
pub proof fn lemma_no_advance_before_period<H>(s: AnimationView<H>, delta: nat)
    requires
        s.wf(),
        s.elapsed + delta < s.period,
    ensures
        s.advance(delta).cursor == s.cursor,
        s.advance(delta).elapsed == s.elapsed + delta,
        s.shown(delta) is None,
{
    let x = (s.elapsed + delta) as int;
    lemma_fundamental_div_mod_converse(x, s.period as int, 0, x);
    lemma_fundamental_div_mod_converse(s.cursor as int, s.frames.len() as int, 0, s.cursor as int);
}

} // verus!

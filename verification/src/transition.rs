//! The timed cross-fade from one renderer to the next.

use vstd::prelude::*;
use crate::fixed::{clamp_i32, div_bits, Fixed, ONE_BITS};
use crate::render::Renderer;

verus! {

/// A cross-fade under way: where it leads, how long it takes, how long it has run.
#[derive(Clone, Copy, Debug, PartialEq, Eq, Structural)]
pub struct Transition {
    pub renderer: Renderer,
    pub duration: Fixed,
    pub current: Fixed,
}

/// The fraction of a cross-fade that has passed, as raw bits: zero once the
/// elapsed time has reached the duration, and zero for a duration of zero.
pub open spec fn progress_bits(elapsed: int, duration: int) -> int {
    if elapsed >= duration || duration == 0 {
        0
    } else {
        clamp_i32(div_bits(elapsed, duration))
    }
}

impl Transition {
    /// Whether the elapsed time has reached the duration, in specifications.
    pub open spec fn spec_is_done(&self) -> bool {
        self.current.raw() >= self.duration.raw()
    }

    /// The fraction that has passed, in specifications.
    pub open spec fn spec_progress(&self) -> Fixed {
        Fixed { bits: progress_bits(self.current.raw(), self.duration.raw()) as i32 }
    }

    /// The transition after `dt` more has passed, in specifications.
    pub open spec fn spec_step(&self, dt: Fixed) -> Transition {
        Transition {
            renderer: self.renderer,
            duration: self.duration,
            current: Fixed { bits: clamp_i32(self.current.raw() + dt.raw()) as i32 },
        }
    }

    /// A cross-fade towards `renderer` that takes `duration` and has not begun.
    pub fn new(renderer: Renderer, duration: Fixed) -> (t: Transition)
        ensures
            t == (Transition { renderer, duration, current: Fixed::spec_zero() }),
    {
        Self { renderer, duration, current: Fixed::zero() }
    }

    /// Lets `dt` more time pass; the elapsed time saturates at the end of the range.
    pub fn step(&mut self, dt: Fixed)
        ensures
            *final(self) == old(self).spec_step(dt),
    {
        self.current = self.current.saturating_add(dt);
    }

    /// Whether the elapsed time has reached the duration.
    #[verifier::when_used_as_spec(spec_is_done)]
    pub fn is_done(&self) -> (done: bool)
        ensures
            done == self.spec_is_done(),
    {
        self.current.bits >= self.duration.bits
    }

    /// The fraction of the cross-fade that has passed: elapsed time over
    /// duration, and zero once it is done or where the duration is zero.
    #[verifier::when_used_as_spec(spec_progress)]
    pub fn progress(&self) -> (p: Fixed)
        ensures
            p == self.spec_progress(),
            self.spec_is_done() ==> p == Fixed::spec_zero(),
            self.duration == Fixed::spec_zero() ==> p == Fixed::spec_zero(),
    {
        if self.current.bits >= self.duration.bits {
            Fixed::zero()
        } else {
            match self.current.checked_div(self.duration) {
                Some(q) => q,
                None => Fixed::zero(),
            }
        }
    }
}

/// For a positive divisor the quotient grows with a dividend that is not
/// negative, and stays below one while the dividend stays below the divisor.
pub proof fn lemma_div_bits_monotone(a: int, b: int, d: int)
    requires
        0 <= a <= b < d,
    ensures
        0 <= div_bits(a, d) <= div_bits(b, d) < ONE_BITS,
{
    let k = ONE_BITS as int;
    assert(0 <= a * k <= b * k < d * k) by (nonlinear_arith)
        requires
            0 <= a <= b < d,
            k == 0x0100_0000,
    ;
    assert(0 <= (a * k) / d <= (b * k) / d < k) by (nonlinear_arith)
        requires
            0 <= a * k <= b * k < d * k,
            d > 0,
            k > 0,
    ;
}

/// While time does not run backwards and the cross-fade is not done after a
/// step, its progress after the step is no less than before, and lies between
/// zero and one. Once the elapsed time has reached the duration the progress
/// is zero, and a cross-fade that is done stays done.
pub proof fn lemma_progress_monotone(t: Transition, dt: Fixed)
    requires
        t.current.raw() >= 0,
        dt.raw() >= 0,
    ensures
        !t.spec_step(dt).spec_is_done() ==> 0 <= t.spec_progress().raw() <= t.spec_step(
            dt,
        ).spec_progress().raw() < ONE_BITS,
        t.spec_step(dt).spec_is_done() ==> t.spec_step(dt).spec_progress() == Fixed::spec_zero(),
        t.spec_is_done() ==> t.spec_step(dt).spec_is_done(),
{
    let e0 = t.current.raw();
    let e1 = t.spec_step(dt).current.raw();
    let d = t.duration.raw();
    assert(e0 <= e1);
    if e1 < d {
        lemma_div_bits_monotone(e0, e1, d);
    }
}

} // verus!

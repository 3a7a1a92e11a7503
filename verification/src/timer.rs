//! The fixed-step gate: real time is added to an accumulator, and the flock
//! is updated when a whole step has gathered.

use vstd::prelude::*;

verus! {

/// A repeating timer over nanoseconds.
#[derive(Clone, Copy, Debug, PartialEq, Eq, Structural)]
pub struct GameTimer {
    /// Length of one step.
    pub step: u64,
    /// Time gathered since the last completed step.
    pub elapsed: u64,
}

impl GameTimer {
    /// The step is not zero and less than one step has gathered.
    pub open spec fn wf(self) -> bool {
        self.step > 0 && self.elapsed < self.step
    }

    /// How many whole steps are complete once `delta` more has passed.
    pub open spec fn steps_after(self, delta: int) -> int {
        (self.elapsed + delta) / (self.step as int)
    }

    /// What is left in the accumulator once `delta` more has passed and the
    /// whole steps are taken out.
    pub open spec fn left_after(self, delta: int) -> int {
        (self.elapsed + delta) % (self.step as int)
    }

    /// A timer with nothing gathered. A step of zero is taken as one
    /// nanosecond.
    pub fn new(step: u64) -> (timer: GameTimer)
        ensures
            timer.wf(),
            timer.elapsed == 0,
            timer.step == if step == 0 { 1 } else { step },
    {
        GameTimer { step: if step == 0 { 1 } else { step }, elapsed: 0 }
    }

    /// Adds `delta` nanoseconds and returns the number of steps that this
    /// completed; what is left over stays in the accumulator.
    pub fn tick(&mut self, delta: u64) -> (steps: u64)
        requires
            old(self).wf(),
        ensures
            final(self).wf(),
            final(self).step == old(self).step,
            steps == old(self).steps_after(delta as int),
            final(self).elapsed == old(self).left_after(delta as int),
            steps >= 1 <==> old(self).elapsed + delta >= old(self).step,
    {
        let total: u128 = self.elapsed as u128 + delta as u128;
        let step: u128 = self.step as u128;
        let steps: u128 = total / step;
        let left: u128 = total % step;
        assert(steps <= u64::MAX && (steps >= 1 <==> total >= step)) by (nonlinear_arith)
            requires
                steps == total / step,
                0 < step,
                total <= (step - 1) + u64::MAX,
                total >= 0,
        ;
        self.elapsed = left as u64;
        steps as u64
    }
}

} // verus!

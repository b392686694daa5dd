//! The decision core of the host loop: a fixed-timestep accumulator that
//! turns elapsed real time into a number of uniform simulation steps plus a
//! leftover lag. The loop itself — polling events, ticking a clock, calling
//! update and draw — is the host's, outside this crate; it asks the clock
//! each frame how many steps to run and renders with interpolation factor
//! `lag / step`, which the clock keeps in `[0, 1)`.

use vstd::prelude::*;

verus! {

/// Fixed-timestep accumulator over a monotonic millisecond clock.
pub struct FrameClock {
    step: u64,
    previous: u64,
    lag: u64,
}

impl FrameClock {
    /// Milliseconds of one simulation step.
    pub closed spec fn spec_step(self) -> u64 {
        self.step
    }

    /// Clock reading of the last frame.
    pub closed spec fn spec_previous(self) -> u64 {
        self.previous
    }

    /// Milliseconds accumulated but not yet consumed by a step.
    pub closed spec fn spec_lag(self) -> u64 {
        self.lag
    }

    /// The step is positive and the leftover lag is always short of one
    /// step, so `lag / step` lies in `[0, 1)`.
    pub open spec fn wf(self) -> bool {
        0 < self.spec_step() && self.spec_lag() < self.spec_step()
    }

    /// A clock stepping `1000 / fps` milliseconds (whole milliseconds, so
    /// sixty frames per second steps 16 ms), starting at reading `now` with
    /// no lag. Rates above a step per millisecond would make the step zero
    /// and the accumulator spin forever, so they are excluded.
    pub fn new(fps: i32, now: u64) -> (r: FrameClock)
        requires
            0 < fps <= 1000,
        ensures
            r.wf(),
            r.spec_step() == 1000int / (fps as int),
            r.spec_previous() == now,
            r.spec_lag() == 0,
    {
        let step = 1000 / fps;
        proof {
            assert(step >= 1) by (nonlinear_arith)
                requires
                    0 < fps <= 1000,
                    step == 1000int / (fps as int),
            {
            }
        }
        FrameClock { step: step as u64, previous: now, lag: 0 }
    }

    /// Accumulates the time elapsed up to the reading `now` and consumes it
    /// in whole steps: returns how many simulation steps to run and keeps
    /// the remainder as lag for the next frame. A reading earlier than the
    /// previous one counts as no elapsed time, and an accumulation beyond
    /// the clock's range saturates rather than wraps.
    pub fn advance(&mut self, now: u64) -> (steps: u64)
        requires
            old(self).wf(),
        ensures
            final(self).wf(),
            final(self).spec_step() == old(self).spec_step(),
            final(self).spec_previous() == now,
            ({
                let elapsed: int = if now >= old(self).spec_previous() {
                    now - old(self).spec_previous()
                } else {
                    0
                };
                let total: int = if old(self).spec_lag() + elapsed <= u64::MAX {
                    old(self).spec_lag() + elapsed
                } else {
                    u64::MAX as int
                };
                &&& steps == total / (old(self).spec_step() as int)
                &&& final(self).spec_lag() == total % (old(self).spec_step() as int)
            }),
    {
        let elapsed = if now >= self.previous {
            now - self.previous
        } else {
            0
        };
        self.previous = now;
        let total = if self.lag <= u64::MAX - elapsed {
            self.lag + elapsed
        } else {
            u64::MAX
        };
        let steps = total / self.step;
        self.lag = total % self.step;
        steps
    }

    /// Milliseconds of one simulation step.
    pub fn step(&self) -> (s: u64)
        ensures
            s == self.spec_step(),
    {
        self.step
    }

    /// The leftover lag; with `wf` it is strictly below the step, so the
    /// host's interpolation factor `lag / step` lies in `[0, 1)`.
    pub fn lag(&self) -> (l: u64)
        ensures
            l == self.spec_lag(),
    {
        self.lag
    }
}

} // verus!


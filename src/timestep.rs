//! A fixed-step clock: frame times go in, whole simulation steps come out,
//! and the remainder carries over to the next frame. A single long frame is
//! cut to a maximum so that a stall does not demand a burst of steps.
use vstd::prelude::*;

verus! {

/// A fixed-step accumulator, in nanoseconds.
pub struct FixedTimestep {
    step_ns: u64,
    max_frame_ns: u64,
    accumulator_ns: u64,
}

impl FixedTimestep {
    pub closed spec fn step(&self) -> u64 {
        self.step_ns
    }

    pub closed spec fn max_frame(&self) -> u64 {
        self.max_frame_ns
    }

    /// Time taken in but not yet simulated.
    pub closed spec fn accumulated(&self) -> u64 {
        self.accumulator_ns
    }

    pub closed spec fn wf(&self) -> bool {
        &&& self.step_ns > 0
        &&& self.accumulator_ns < self.step_ns
        &&& self.step_ns as int + self.max_frame_ns as int <= u64::MAX
    }

    /// A clock with steps of `step_ns` and frames cut to `max_frame_ns`.
    pub fn new(step_ns: u64, max_frame_ns: u64) -> (r: FixedTimestep)
        requires
            step_ns > 0,
            step_ns as int + max_frame_ns as int <= u64::MAX,
        ensures
            r.wf(),
            r.step() == step_ns,
            r.max_frame() == max_frame_ns,
            r.accumulated() == 0,
    {
        FixedTimestep { step_ns, max_frame_ns, accumulator_ns: 0 }
    }

    /// Takes in a frame that lasted `frame_ns` and returns how many steps to
    /// simulate for it.
    pub fn advance(&mut self, frame_ns: u64) -> (steps: u64)
        requires
            old(self).wf(),
        ensures
            final(self).wf(),
            final(self).step() == old(self).step(),
            final(self).max_frame() == old(self).max_frame(),
            ({
                let f = if frame_ns > old(self).max_frame() {
                    old(self).max_frame()
                } else {
                    frame_ns
                };
                let total = old(self).accumulated() + f;
                &&& steps == total / (old(self).step() as int)
                &&& final(self).accumulated() == total % (old(self).step() as int)
            }),
    {
        let frame = if frame_ns > self.max_frame_ns {
            self.max_frame_ns
        } else {
            frame_ns
        };
        let total = self.accumulator_ns + frame;
        self.accumulator_ns = total % self.step_ns;
        total / self.step_ns
    }
}

} // verus!

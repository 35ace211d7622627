//! An accumulator of normalized frame times.
use vstd::prelude::*;

use crate::buffer::{DURATION_MAX_NS, NANOS_PER_SEC};

verus! {

/// A count of frames and the sum of their normalized durations (nanoseconds).
#[derive(Debug, Clone, Copy)]
pub struct Acc {
    len: u32,
    dur: u128,
}

impl Acc {
    /// Frames counted.
    pub closed spec fn count(&self) -> u32 {
        self.len
    }

    /// Sum of the frames' durations, in nanoseconds.
    pub closed spec fn total(&self) -> u128 {
        self.dur
    }

    pub closed spec fn wf(&self) -> bool {
        self.dur <= DURATION_MAX_NS
    }

    /// Nothing counted.
    pub fn new() -> (r: Self)
        ensures
            r.wf(),
            r.count() == 0,
            r.total() == 0,
    {
        Acc { len: 0, dur: 0 }
    }

    /// The mean excess of a frame over one second: the total less one second
    /// per frame (never below zero), divided by the count.
    pub fn timeout_dur(&self) -> (r: u128)
        requires
            self.count() > 0,
        ensures
            r == (if self.total() >= self.count() * NANOS_PER_SEC {
                (self.total() - self.count() * NANOS_PER_SEC) as nat
            } else {
                0nat
            }) / (self.count() as nat),
    {
        let secs = self.len as u128 * NANOS_PER_SEC as u128;
        let rest = if self.dur >= secs {
            self.dur - secs
        } else {
            0
        };
        rest / self.len as u128
    }

    /// Counts one more frame of `normalized_frame` nanoseconds.
    pub fn acc(&mut self, normalized_frame: u64)
        requires
            old(self).wf(),
            old(self).count() < u32::MAX,
            old(self).total() + normalized_frame <= DURATION_MAX_NS,
        ensures
            final(self).wf(),
            final(self).count() == old(self).count() + 1,
            final(self).total() == old(self).total() + normalized_frame,
    {
        self.len = self.len + 1;
        self.dur = self.dur + normalized_frame as u128;
    }

    /// Back to nothing counted.
    pub fn reset(&mut self)
        ensures
            final(self).wf(),
            final(self).count() == 0,
            final(self).total() == 0,
    {
        self.dur = 0;
        self.len = 0;
    }
}

} // verus!

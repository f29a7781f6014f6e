//! What the program around the simulation keeps and calls: the state its loop
//! carries from frame to frame.

use vstd::prelude::*;
use crate::clock::SimulationClock;

verus! {

/// Counts the frames shown and publishes the count once per window of time.
#[derive(Clone, Copy, Debug, PartialEq, Eq, Structural)]
pub struct FrameCounter {
    /// The length of the measuring window, in the unit time is counted in.
    pub window: u64,
    /// Time passed since the last count was published.
    pub age: u64,
    /// Frames shown since the last count was published.
    pub frames: u32,
    /// The count published last: the frames shown in the last full window.
    pub reading: u32,
}

/// `a + b`, held at `limit` where the sum would go beyond it.
pub open spec fn capped_sum(a: int, b: int, limit: int) -> int {
    if a + b > limit {
        limit
    } else {
        a + b
    }
}

impl FrameCounter {
    /// The counter after one more frame, shown `elapsed` after the frame
    /// before: the frame is counted, and if the window is full with it, the
    /// count is published and counting starts over.
    pub open spec fn counted(self, elapsed: u64) -> FrameCounter {
        let frames = capped_sum(self.frames as int, 1, u32::MAX as int) as u32;
        let age = capped_sum(self.age as int, elapsed as int, u64::MAX as int) as u64;
        if age >= self.window {
            FrameCounter { window: self.window, age: 0, frames: 0, reading: frames }
        } else {
            FrameCounter { window: self.window, age, frames, reading: self.reading }
        }
    }

    /// A counter with nothing counted that publishes once per `window`.
    pub fn new(window: u64) -> (c: FrameCounter)
        ensures
            c == (FrameCounter { window, age: 0, frames: 0, reading: 0 }),
    {
        FrameCounter { window, age: 0, frames: 0, reading: 0 }
    }

    /// Counts one frame, shown `elapsed` after the frame before.
    pub fn count(&mut self, elapsed: u64)
        ensures
            *final(self) == old(self).counted(elapsed),
    {
        let frames: u32 = if self.frames == u32::MAX {
            u32::MAX
        } else {
            self.frames + 1
        };
        let age: u64 = if elapsed > u64::MAX - self.age {
            u64::MAX
        } else {
            self.age + elapsed
        };
        if age >= self.window {
            self.reading = frames;
            self.frames = 0;
            self.age = 0;
        } else {
            self.frames = frames;
            self.age = age;
        }
    }
}

/// What the host loop carries from one frame to the next: the simulation
/// clock and the frame counter.
pub struct WorldState {
    pub clock: SimulationClock,
    pub frames: FrameCounter,
}

impl WorldState {
    /// Ends a frame that was shown `elapsed` after the frame before: takes
    /// the ticks that have fallen due off the clock, counts the frame, and
    /// returns how many ticks the caller is to run before the next frame.
    pub fn frame(&mut self, elapsed: u64) -> (ticks: u32)
        ensures
            ticks == old(self).clock@.due(elapsed as nat),
            final(self).clock@ == old(self).clock@.advanced(elapsed as nat),
            final(self).frames == old(self).frames.counted(elapsed),
    {
        let ticks: u32 = self.clock.take_due(elapsed);
        self.frames.count(elapsed);
        ticks
    }
}

/// The hook the host loop calls once per frame before it paints. The
/// simulation needs nothing done here, and nothing is done.
pub fn game_logic(_world: &mut WorldState)
    ensures
        *final(_world) == *old(_world),
{
}

} // verus!

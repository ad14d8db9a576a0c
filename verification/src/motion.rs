use vstd::prelude::*;

verus! {

/// Frame clock of the layered motion: the time-based drifts and offsets are all
/// functions of the frame count (60 frames per second).
pub struct MotionSystem {
    frame_count: u64,
}

impl MotionSystem {
    /// The frame count.
    pub closed spec fn frames(&self) -> u64 {
        self.frame_count
    }

    /// A motion system at frame 0.
    pub fn new() -> (r: Self)
        ensures
            r.frames() == 0,
    {
        MotionSystem { frame_count: 0 }
    }

    /// Advances the animation by one frame (wrapping around at `u64::MAX`).
    pub fn step(&mut self)
        ensures
            final(self).frames() == vstd::wrapping::u64_specs::wrapping_add(old(self).frames(), 1),
            old(self).frames() < u64::MAX ==> final(self).frames() == old(self).frames() + 1,
            old(self).frames() == u64::MAX ==> final(self).frames() == 0,
    {
        self.frame_count = self.frame_count.wrapping_add(1);
    }

    /// Number of frames stepped so far.
    pub fn frame_count(&self) -> (r: u64)
        ensures
            r == self.frames(),
    {
        self.frame_count
    }

    /// Per-region hash seeds for the desynchronised region motion: for region
    /// `(x, y)`, `x * 73856093 ^ y * 19349663` and `x * 83492791 ^ y * 29387091`,
    /// each product wrapping at 2^32.
    pub fn region_seeds(region_x: u32, region_y: u32) -> (r: (u32, u32))
        ensures
            r.0 == vstd::wrapping::u32_specs::wrapping_mul(region_x, 73856093)
                ^ vstd::wrapping::u32_specs::wrapping_mul(region_y, 19349663),
            r.1 == vstd::wrapping::u32_specs::wrapping_mul(region_x, 83492791)
                ^ vstd::wrapping::u32_specs::wrapping_mul(region_y, 29387091),
    {
        let seed_x = region_x.wrapping_mul(73856093) ^ region_y.wrapping_mul(19349663);
        let seed_y = region_x.wrapping_mul(83492791) ^ region_y.wrapping_mul(29387091);
        (seed_x, seed_y)
    }
}

impl Default for MotionSystem {
    fn default() -> (r: Self)
        ensures
            r.frames() == 0,
    {
        Self::new()
    }
}

} // verus!

use vstd::prelude::*;
use crate::ascii_bank::CHARSET_LEN;

verus! {

/// Short visual events layered over the animation.
#[derive(Clone, Copy, Debug, PartialEq, Eq, Structural)]
pub enum Moment {
    FreezeCut,
    GlitchBloom,
    LockIn,
    PhaseWave,
    Collapse,
    Afterglow,
    UserAccent,
}

/// Frames an afterglow lasts.
pub const AFTERGLOW_FRAMES: u32 = 45;

/// Frames of reduced moment probability after a moment ends.
pub const RECOVERY_FRAMES: u32 = 90;

/// Cooldown after `m` ends. Lock-in and phase-wave cooldowns are given in frames by the
/// caller (they follow the tempo).
pub open spec fn cooldown_spec(m: Moment, lockin_cd: u32, phasewave_cd: u32) -> u32 {
    match m {
        Moment::FreezeCut => 55,
        Moment::GlitchBloom => 70,
        Moment::LockIn => lockin_cd,
        Moment::PhaseWave => phasewave_cd,
        Moment::Collapse => 150,
        Moment::UserAccent => 12,
        Moment::Afterglow => 30,
    }
}

/// Cooldown in frames after moment `m` ends (see [`cooldown_spec`]).
pub fn cooldown_after(m: Moment, lockin_cd: u32, phasewave_cd: u32) -> (r: u32)
    ensures
        r == cooldown_spec(m, lockin_cd, phasewave_cd),
{
    match m {
        Moment::FreezeCut => 55,
        Moment::GlitchBloom => 70,
        Moment::LockIn => lockin_cd,
        Moment::PhaseWave => phasewave_cd,
        Moment::Collapse => 150,
        Moment::UserAccent => 12,
        Moment::Afterglow => 30,
    }
}

/// Whether an afterglow follows `m` when it ends.
pub open spec fn leaves_afterglow(m: Moment) -> bool {
    m is FreezeCut || m is GlitchBloom
}

/// The moment currently playing, its progress, and the cooldown before the next one.
#[derive(Clone, Copy, Debug)]
pub struct MomentState {
    pub active: Option<Moment>,
    /// Frames the active moment has played.
    pub timer: u32,
    /// Frames the active moment lasts.
    pub duration: u32,
    /// Frames left before a new moment may start.
    pub cooldown: u32,
    /// Seed of the active moment's effects.
    pub seed: u32,
    /// Centre cell of a glitch bloom.
    pub bloom_center: (usize, usize),
}

/// The state after one frame: the cooldown counts down; an active moment advances, and
/// when its timer reaches its duration it ends, leaving its cooldown, or, after a freeze
/// cut or a glitch bloom, an afterglow with no cooldown.
pub open spec fn tick_spec(s: MomentState, lockin_cd: u32, phasewave_cd: u32) -> MomentState {
    let cd = if s.cooldown > 0 {
        (s.cooldown - 1) as u32
    } else {
        0u32
    };
    match s.active {
        None => MomentState { cooldown: cd, ..s },
        Some(m) => {
            let t = (s.timer + 1) as u32;
            if t < s.duration {
                MomentState { timer: t, cooldown: cd, ..s }
            } else if leaves_afterglow(m) {
                MomentState {
                    active: Some(Moment::Afterglow),
                    timer: 0,
                    duration: AFTERGLOW_FRAMES,
                    cooldown: 0,
                    ..s
                }
            } else {
                MomentState {
                    active: None,
                    timer: t,
                    cooldown: cooldown_spec(m, lockin_cd, phasewave_cd),
                    ..s
                }
            }
        },
    }
}

/// `n` frames of [`tick_spec`].
pub open spec fn ticks(s: MomentState, lockin_cd: u32, phasewave_cd: u32, n: nat) -> MomentState
    decreases n,
{
    if n == 0 {
        s
    } else {
        tick_spec(ticks(s, lockin_cd, phasewave_cd, (n - 1) as nat), lockin_cd, phasewave_cd)
    }
}

impl MomentState {
    /// An active moment's timer can still advance.
    pub open spec fn wf(&self) -> bool {
        self.active is Some ==> self.timer < u32::MAX
    }

    /// No moment, no cooldown.
    pub fn new() -> (r: Self)
        ensures
            r.wf(),
            r.active is None,
            r.cooldown == 0,
            r.timer == 0,
            r.duration == 0,
            r.seed == 0,
            r.bloom_center == (0usize, 0usize),
    {
        MomentState { active: None, timer: 0, duration: 0, cooldown: 0, seed: 0, bloom_center: (0, 0) }
    }

    /// Whether a new moment may start: none is playing and the cooldown has run out.
    pub fn can_trigger(&self) -> (r: bool)
        ensures
            r == (self.active is None && self.cooldown == 0),
    {
        self.active.is_none() && self.cooldown == 0
    }

    /// Starts moment `m` for `duration` frames with effect seed `seed`.
    pub fn start(&mut self, m: Moment, duration: u32, seed: u32)
        ensures
            *final(self) == (MomentState { active: Some(m), timer: 0, duration, seed, ..*old(self) }),
            final(self).wf(),
    {
        self.active = Some(m);
        self.timer = 0;
        self.duration = duration;
        self.seed = seed;
    }

    /// Advances one frame (see [`tick_spec`]); returns whether a moment ended.
    pub fn tick(&mut self, lockin_cd: u32, phasewave_cd: u32) -> (ended: bool)
        requires
            old(self).wf(),
        ensures
            *final(self) == tick_spec(*old(self), lockin_cd, phasewave_cd),
            final(self).wf(),
            ended == (old(self).active is Some && old(self).timer + 1 >= old(self).duration),
            (ended && (old(self).active == Some(Moment::FreezeCut) || old(self).active == Some(Moment::GlitchBloom)))
                ==> {
                &&& final(self).active == Some(Moment::Afterglow)
                &&& final(self).timer == 0
                &&& final(self).duration == AFTERGLOW_FRAMES
                &&& final(self).cooldown == 0
            },
    {
        if self.cooldown > 0 {
            self.cooldown = self.cooldown - 1;
        }
        match self.active {
            None => false,
            Some(m) => {
                self.timer = self.timer + 1;
                if self.timer < self.duration {
                    false
                } else {
                    if m == Moment::FreezeCut || m == Moment::GlitchBloom {
                        self.active = Some(Moment::Afterglow);
                        self.timer = 0;
                        self.duration = AFTERGLOW_FRAMES;
                        self.cooldown = 0;
                    } else {
                        self.active = None;
                        self.cooldown = cooldown_after(m, lockin_cd, phasewave_cd);
                    }
                    true
                }
            },
        }
    }
}

/// A moment started for `d >= 1` frames plays through frames `1..d` and ends on frame
/// `d`; the cooldown it ends with is its own, or it hands over to an afterglow.
pub proof fn law_moment_lasts_its_duration(s: MomentState, m: Moment, d: u32, k: nat, lockin_cd: u32, phasewave_cd: u32)
    requires
        s.active == Some(m),
        s.timer == 0,
        s.duration == d,
        1 <= k < d,
    ensures
        ticks(s, lockin_cd, phasewave_cd, k).active == Some(m),
        ticks(s, lockin_cd, phasewave_cd, k).timer == k,
        ticks(s, lockin_cd, phasewave_cd, k).duration == d,
        tick_spec(ticks(s, lockin_cd, phasewave_cd, (d - 1) as nat), lockin_cd, phasewave_cd).active == if leaves_afterglow(m) {
            Some(Moment::Afterglow)
        } else {
            None::<Moment>
        },
        !leaves_afterglow(m) ==> tick_spec(ticks(s, lockin_cd, phasewave_cd, (d - 1) as nat), lockin_cd, phasewave_cd).cooldown
            == cooldown_spec(m, lockin_cd, phasewave_cd),
{
    lemma_ticks_progress(s, m, d, k, lockin_cd, phasewave_cd);
    lemma_ticks_progress(s, m, d, (d - 1) as nat, lockin_cd, phasewave_cd);
}

proof fn lemma_ticks_progress(s: MomentState, m: Moment, d: u32, k: nat, lockin_cd: u32, phasewave_cd: u32)
    requires
        s.active == Some(m),
        s.timer == 0,
        s.duration == d,
        k < d,
    ensures
        ticks(s, lockin_cd, phasewave_cd, k).active == Some(m),
        ticks(s, lockin_cd, phasewave_cd, k).timer == k,
        ticks(s, lockin_cd, phasewave_cd, k).duration == d,
    decreases k,
{
    if k > 0 {
        lemma_ticks_progress(s, m, d, (k - 1) as nat, lockin_cd, phasewave_cd);
    }
}

/// When a moment's last frame passes, a freeze cut or a glitch bloom hands over to an
/// afterglow of `AFTERGLOW_FRAMES` frames with no cooldown; any other moment ends, leaving
/// its own cooldown: collapse 150 frames, user accent 12, afterglow 30, lock-in and phase
/// wave the cooldowns given for them. The effect seed and bloom centre are kept.
pub proof fn law_moment_endings(s: MomentState, lockin_cd: u32, phasewave_cd: u32)
    requires
        s.active is Some,
        s.timer + 1 >= s.duration,
        s.timer < u32::MAX,
    ensures
        ({
            let n = tick_spec(s, lockin_cd, phasewave_cd);
            &&& (s.active == Some(Moment::FreezeCut) || s.active == Some(Moment::GlitchBloom)) ==> {
                &&& n.active == Some(Moment::Afterglow)
                &&& n.timer == 0
                &&& n.duration == AFTERGLOW_FRAMES
                &&& n.cooldown == 0
            }
            &&& s.active == Some(Moment::LockIn) ==> n.active is None && n.cooldown == lockin_cd
            &&& s.active == Some(Moment::PhaseWave) ==> n.active is None && n.cooldown == phasewave_cd
            &&& s.active == Some(Moment::Collapse) ==> n.active is None && n.cooldown == 150
            &&& s.active == Some(Moment::UserAccent) ==> n.active is None && n.cooldown == 12
            &&& s.active == Some(Moment::Afterglow) ==> n.active is None && n.cooldown == 30
            &&& n.seed == s.seed
            &&& n.bloom_center == s.bloom_center
        }),
{
}

/// While no moment plays, the cooldown counts down one frame at a time and a new moment
/// may start exactly when it reaches zero.
pub proof fn law_cooldown_counts_down(s: MomentState, k: nat, lockin_cd: u32, phasewave_cd: u32)
    requires
        s.active is None,
        k <= s.cooldown,
    ensures
        ticks(s, lockin_cd, phasewave_cd, k).active is None,
        ticks(s, lockin_cd, phasewave_cd, k).cooldown == s.cooldown - k,
    decreases k,
{
    if k > 0 {
        law_cooldown_counts_down(s, (k - 1) as nat, lockin_cd, phasewave_cd);
    }
}

/// The intent that dominates when a moment is chosen.
#[derive(Clone, Copy, Debug, PartialEq, Eq, Structural)]
pub enum Intent {
    Tension,
    Release,
    Chaos,
}

/// The moment chosen for a dominant intent: bit 20 of the trigger hash picks one of the
/// intent's two moments (tension: freeze cut or lock-in; release: afterglow or collapse;
/// chaos: glitch bloom or phase wave), and a lock-in outside the peak state (3) becomes a
/// freeze cut.
pub open spec fn chosen_moment(intent: Intent, trigger_hash: u32, visual_state: u8) -> Moment {
    let first = (trigger_hash / 0x10_0000) % 2 == 0;
    let m = match intent {
        Intent::Tension => if first {
            Moment::FreezeCut
        } else {
            Moment::LockIn
        },
        Intent::Release => if first {
            Moment::Afterglow
        } else {
            Moment::Collapse
        },
        Intent::Chaos => if first {
            Moment::GlitchBloom
        } else {
            Moment::PhaseWave
        },
    };
    if m is LockIn && visual_state != 3 {
        Moment::FreezeCut
    } else {
        m
    }
}

/// Chooses the moment for a dominant intent (see [`chosen_moment`]).
pub fn pick_moment(intent: Intent, trigger_hash: u32, visual_state: u8) -> (r: Moment)
    ensures
        r == chosen_moment(intent, trigger_hash, visual_state),
        r is LockIn ==> visual_state == 3,
{
    let bit = (trigger_hash >> 20) & 1;
    assert(bit == (trigger_hash / 0x10_0000) % 2) by (bit_vector)
        requires
            bit == (trigger_hash >> 20) & 1,
    ;
    let first = bit == 0;
    let m = match intent {
        Intent::Tension => if first {
            Moment::FreezeCut
        } else {
            Moment::LockIn
        },
        Intent::Release => if first {
            Moment::Afterglow
        } else {
            Moment::Collapse
        },
        Intent::Chaos => if first {
            Moment::GlitchBloom
        } else {
            Moment::PhaseWave
        },
    };
    if m == Moment::LockIn && visual_state != 3 {
        Moment::FreezeCut
    } else {
        m
    }
}

/// Centre of a glitch bloom on a `cols × rows` grid from the trigger hash: bits from 4 on
/// pick the column, bits from 14 on the row.
pub fn bloom_center(trigger_hash: u32, cols: usize, rows: usize) -> (r: (usize, usize))
    requires
        cols >= 1,
        rows >= 1,
    ensures
        r.0 == (trigger_hash / 0x10) as usize % cols,
        r.1 == (trigger_hash / 0x4000) as usize % rows,
        r.0 < cols,
        r.1 < rows,
{
    let a: u32 = trigger_hash >> 4;
    let b: u32 = trigger_hash >> 14;
    assert(a == trigger_hash / 0x10) by (bit_vector)
        requires
            a == trigger_hash >> 4,
    ;
    assert(b == trigger_hash / 0x4000) by (bit_vector)
        requires
            b == trigger_hash >> 14,
    ;
    (a as usize % cols, b as usize % rows)
}

/// Duration of a user accent: 4 to 6 frames, from bits 12 on of the trigger hash.
pub fn accent_duration(trigger_hash: u32) -> (r: u32)
    ensures
        r == 4 + (trigger_hash / 0x1000) % 3,
        4 <= r <= 6,
{
    let a: u32 = trigger_hash >> 12;
    assert(a == trigger_hash / 0x1000) by (bit_vector)
        requires
            a == trigger_hash >> 12,
    ;
    4 + a % 3
}

/// Row jitter of a jagged bloom edge at row offset `dy`: two bits of `dy * 7919` (wrapping)
/// mixed with the moment seed.
pub open spec fn bloom_jag(dy: i32, seed: u32) -> int {
    ((vstd::wrapping::i32_specs::wrapping_mul(dy, 7919) ^ (seed as i32)) & 3) as int
}

/// Whether the cell at offset (dx, dy) from a glitch bloom's centre lies in a bloom of
/// radius `radius` of the given shape: 1 a horizontal scanline three rows high and twice
/// as wide, 2 a disc, 3 a square with jagged left and right edges, any other a square.
pub open spec fn in_bloom_spec(shape: u8, dx: int, dy: int, radius: int, seed: u32) -> bool {
    let adx = if dx >= 0 {
        dx
    } else {
        -dx
    };
    let ady = if dy >= 0 {
        dy
    } else {
        -dy
    };
    if shape == 1 {
        ady <= 1 && adx <= radius * 2
    } else if shape == 2 {
        dx * dx + dy * dy <= radius * radius
    } else if shape == 3 {
        adx <= radius + bloom_jag(dy as i32, seed) && ady <= radius
    } else {
        adx <= radius && ady <= radius
    }
}

/// Whether deciding bloom membership stays within `i32`, evaluating as [`in_bloom`]
/// does: absolute values of offsets other than `i32::MIN`, and no overflowing radius,
/// square or sum, each only where the shape's test reaches it.
pub open spec fn bloom_defined(shape: u8, dx: int, dy: int, radius: int, seed: u32) -> bool {
    let fits = |v: int| i32::MIN <= v <= i32::MAX;
    let adx = if dx >= 0 {
        dx
    } else {
        -dx
    };
    let ady = if dy >= 0 {
        dy
    } else {
        -dy
    };
    if shape == 1 {
        dy > i32::MIN && (ady <= 1 ==> dx > i32::MIN && fits(radius * 2))
    } else if shape == 2 {
        fits(dx * dx) && fits(dy * dy) && fits(dx * dx + dy * dy) && fits(radius * radius)
    } else if shape == 3 {
        dx > i32::MIN && fits(radius + bloom_jag(dy as i32, seed)) && (adx <= radius + bloom_jag(
            dy as i32,
            seed,
        ) ==> dy > i32::MIN)
    } else {
        dx > i32::MIN && (adx <= radius ==> dy > i32::MIN)
    }
}

/// Membership of a cell in a glitch bloom (see [`in_bloom_spec`]).
pub fn in_bloom(shape: u8, dx: i32, dy: i32, radius: i32, seed: u32) -> (r: bool)
    requires
        bloom_defined(shape, dx as int, dy as int, radius as int, seed),
    ensures
        r == in_bloom_spec(shape, dx as int, dy as int, radius as int, seed),
{
    if shape == 1 {
        abs_i32(dy) <= 1 && abs_i32(dx) <= radius * 2
    } else if shape == 2 {
        dx * dx + dy * dy <= radius * radius
    } else if shape == 3 {
        let jag = (dy.wrapping_mul(7919) ^ (seed as i32)) & 3;
        abs_i32(dx) <= radius + jag && abs_i32(dy) <= radius
    } else {
        abs_i32(dx) <= radius && abs_i32(dy) <= radius
    }
}

fn abs_i32(v: i32) -> (r: i32)
    requires
        v > i32::MIN,
    ensures
        r == if v >= 0 {
            v as int
        } else {
            -v
        },
{
    if v >= 0 {
        v
    } else {
        -v
    }
}

/// Hash of a bloom cell: `col * 31337 + row * 7919 + seed`, wrapping at 2^32.
pub open spec fn bloom_hash(col: u32, row: u32, seed: u32) -> int {
    (col * 31337 + row * 7919 + seed) % 0x1_0000_0000
}

/// Glyph and colour of a cell inside a glitch bloom: a heavy block or box-drawing glyph
/// (charset indices from 87 on) from bits 4 on of the cell hash, and a colour pick in
/// `0..5` (primary, then the four secondaries) from bits 8 on.
pub fn bloom_cell(col: u32, row: u32, seed: u32) -> (r: (usize, usize))
    ensures
        r.0 == 87 + (bloom_hash(col, row, seed) / 0x10) % (CHARSET_LEN - 87),
        r.1 == (bloom_hash(col, row, seed) / 0x100) % 5,
        87 <= r.0 < CHARSET_LEN,
        r.1 < 5,
{
    let h: u32 = col.wrapping_mul(31337).wrapping_add(row.wrapping_mul(7919)).wrapping_add(seed);
    proof {
        let m: int = 0x1_0000_0000;
        let a = vstd::wrapping::u32_specs::wrapping_mul(col, 31337);
        let b = vstd::wrapping::u32_specs::wrapping_mul(row, 7919);
        lemma_wrap_add(a, b);
        lemma_wrap_add(vstd::wrapping::u32_specs::wrapping_add(a, b), seed);
        vstd::arithmetic::div_mod::lemma_add_mod_noop(col * 31337, row * 7919, m);
        vstd::arithmetic::div_mod::lemma_add_mod_noop(col * 31337 + row * 7919, seed as int, m);
        vstd::arithmetic::div_mod::lemma_mod_twice(col * 31337 + row * 7919, m);
        vstd::arithmetic::div_mod::lemma_add_mod_noop((col * 31337 + row * 7919) % m, seed as int, m);
        vstd::arithmetic::div_mod::lemma_small_mod(seed as nat, m as nat);
    }
    let hi: u32 = h >> 4;
    let mid: u32 = h >> 8;
    assert(hi == h / 0x10) by (bit_vector)
        requires
            hi == h >> 4,
    ;
    assert(mid == h / 0x100) by (bit_vector)
        requires
            mid == h >> 8,
    ;
    (87 + (hi as usize) % (CHARSET_LEN - 87), (mid % 5) as usize)
}

/// Wrapping `a + b` on `u32` equals the sum modulo 2^32.
proof fn lemma_wrap_add(a: u32, b: u32)
    ensures
        vstd::wrapping::u32_specs::wrapping_add(a, b) as int == (a + b) % 0x1_0000_0000,
{
    let m: int = 0x1_0000_0000;
    if a + b >= m {
        vstd::arithmetic::div_mod::lemma_mod_sub_multiples_vanish(a + b, m);
        vstd::arithmetic::div_mod::lemma_small_mod((a + b - m) as nat, m as nat);
    } else {
        vstd::arithmetic::div_mod::lemma_small_mod((a + b) as nat, m as nat);
    }
}

} // verus!

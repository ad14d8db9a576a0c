use vstd::prelude::*;
use crate::ascii_bank::CHARSET_LEN;

verus! {

/// Energy states of the animation.
pub const IDLE: u8 = 0;
pub const FLOW: u8 = 1;
pub const BUILD: u8 = 2;
pub const PEAK: u8 = 3;

/// Where the smoothed energy lies among the state thresholds 0.18, 0.22, 0.50, 0.55,
/// 0.75 and 0.82: `Band(b)` when exactly the `b` lowest thresholds are at or below it;
/// `Unordered` when it compares with none (a NaN).
#[derive(Clone, Copy, Debug, PartialEq, Eq, Structural)]
pub enum EnergyReading {
    Band(u8),
    Unordered,
}

/// The state after reading `r` in state `prev`, with hysteresis: IDLE rises to FLOW at
/// 0.22; FLOW falls to IDLE below 0.18 and rises to BUILD at 0.55; BUILD falls to FLOW
/// below 0.50 and rises to PEAK at 0.82; PEAK falls to BUILD below 0.75. An unordered
/// reading keeps the state, and an unknown state resets to IDLE.
pub open spec fn next_state_spec(prev: u8, r: EnergyReading) -> u8 {
    match r {
        EnergyReading::Unordered => if prev <= PEAK {
            prev
        } else {
            IDLE
        },
        EnergyReading::Band(b) => if prev == IDLE {
            if b >= 2 {
                FLOW
            } else {
                IDLE
            }
        } else if prev == FLOW {
            if b == 0 {
                IDLE
            } else if b >= 4 {
                BUILD
            } else {
                FLOW
            }
        } else if prev == BUILD {
            if b <= 2 {
                FLOW
            } else if b >= 6 {
                PEAK
            } else {
                BUILD
            }
        } else if prev == PEAK {
            if b <= 4 {
                BUILD
            } else {
                PEAK
            }
        } else {
            IDLE
        },
    }
}

/// Advances the energy state by one frame (see [`next_state_spec`]).
pub fn next_visual_state(prev: u8, r: EnergyReading) -> (s: u8)
    ensures
        s == next_state_spec(prev, r),
        s <= PEAK,
{
    match r {
        EnergyReading::Unordered => if prev <= PEAK {
            prev
        } else {
            IDLE
        },
        EnergyReading::Band(b) => match prev {
            0 => if b >= 2 {
                FLOW
            } else {
                IDLE
            },
            1 => if b == 0 {
                IDLE
            } else if b >= 4 {
                BUILD
            } else {
                FLOW
            },
            2 => if b <= 2 {
                FLOW
            } else if b >= 6 {
                PEAK
            } else {
                BUILD
            },
            3 => if b <= 4 {
                BUILD
            } else {
                PEAK
            },
            _ => IDLE,
        },
    }
}

/// The state moves by at most one level per frame, and the thresholds overlap so that
/// the state never flips back: if a reading moves the state up, the same reading on the
/// next frame does not move it down, and if it moves the state down, the same reading
/// does not move it up.
pub proof fn law_visual_state_hysteresis(prev: u8, r: EnergyReading)
    requires
        prev <= PEAK,
    ensures
        next_state_spec(prev, r) <= prev + 1,
        prev <= next_state_spec(prev, r) + 1,
        next_state_spec(prev, r) > prev ==> next_state_spec(next_state_spec(prev, r), r) >= next_state_spec(
            prev,
            r,
        ),
        next_state_spec(prev, r) < prev ==> next_state_spec(next_state_spec(prev, r), r) <= next_state_spec(
            prev,
            r,
        ),
{
}

/// Glyph of a glitched cell: a glyph range chosen by the glitch style (1 horizontal lines,
/// 2 warped, 3 minimal, any other mixed) and the corruption tier (1 point, 2 cluster,
/// otherwise structural heavy blocks), indexed by bits from 4 on of the glitch seed.
pub open spec fn glitch_glyph_spec(style: u8, tier: u8, seed: u32) -> int {
    let (pt_base, pt_range, cl_base, cl_range) = if style == 1 {
        (94int, 12int, 94int, 12int)
    } else if style == 2 {
        (84int, 30int, 87int, 37int)
    } else if style == 3 {
        (1int, 10int, 94int, 6int)
    } else {
        (1int, CHARSET_LEN - 1, 87int, 22int)
    };
    let x = seed as int / 0x10;
    let gi = if tier == 1 {
        pt_base + x % pt_range
    } else if tier == 2 {
        cl_base + x % cl_range
    } else {
        87 + x % (CHARSET_LEN - 87)
    };
    if gi < CHARSET_LEN {
        gi
    } else {
        CHARSET_LEN - 1
    }
}

/// Chooses the glyph of a glitched cell (see [`glitch_glyph_spec`]); it is always a
/// charset index.
pub fn glitch_glyph(style: u8, tier: u8, seed: u32) -> (r: usize)
    ensures
        r == glitch_glyph_spec(style, tier, seed),
        r < CHARSET_LEN,
{
    let (pt_base, pt_range, cl_base, cl_range): (usize, usize, usize, usize) = if style == 1 {
        (94, 12, 94, 12)
    } else if style == 2 {
        (84, 30, 87, 37)
    } else if style == 3 {
        (1, 10, 94, 6)
    } else {
        (1, CHARSET_LEN - 1, 87, 22)
    };
    let shifted: u32 = seed >> 4;
    assert(shifted == seed / 0x10) by (bit_vector)
        requires
            shifted == seed >> 4,
    ;
    let x = shifted as usize;
    let gi = if tier == 1 {
        pt_base + x % pt_range
    } else if tier == 2 {
        cl_base + x % cl_range
    } else {
        87 + x % (CHARSET_LEN - 87)
    };
    if gi < CHARSET_LEN {
        gi
    } else {
        CHARSET_LEN - 1
    }
}

} // verus!

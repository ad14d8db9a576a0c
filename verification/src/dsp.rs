use vstd::prelude::*;
use crate::layer_engine::{lcg_next, lemma_lcg_step, LCG_INC, LCG_MUL};

verus! {

/// Seed of the audio noise generator after a reset.
pub const NOISE_SEED: u64 = 0x123456789ABCDEF;

/// Bit pattern of the `f32` in `[1, 2)` whose 23 mantissa bits are bits 41..64 of `s`.
pub open spec fn noise_pattern(s: u64) -> u32 {
    (0x3F80_0000 + (s as int / 0x200_0000_0000) % 0x80_0000) as u32
}

/// Advances the audio noise generator (the layer engine's generator) one step and returns
/// the bit pattern of a float in `[1, 2)` taken from the top bits of the new state.
pub fn noise_bits(state: &mut u64) -> (r: u32)
    ensures
        *final(state) == lcg_next(*old(state)),
        r == noise_pattern(*final(state)),
{
    let next = state.wrapping_mul(LCG_MUL).wrapping_add(LCG_INC);
    proof {
        lemma_lcg_step(*state);
    }
    *state = next;
    let hi: u64 = next >> 41;
    assert(hi == next / 0x200_0000_0000) by (bit_vector)
        requires
            hi == next >> 41,
    ;
    let top: u32 = hi as u32;
    let m: u32 = top & 0x7F_FFFF;
    assert(m == top % 0x80_0000) by (bit_vector)
        requires
            m == top & 0x7F_FFFF,
    ;
    let r: u32 = 0x3F80_0000u32 | m;
    assert(r == 0x3F80_0000u32 + m) by (bit_vector)
        requires
            r == 0x3F80_0000u32 | m,
            m < 0x80_0000,
    ;
    r
}

/// Filter cascade modelled for a pole-count setting.
#[derive(Clone, Copy, Debug, PartialEq, Eq, Structural)]
pub enum FilterTopology {
    /// One biquad, 12 dB/oct (SP-1200 style), with the strongest converter saturation.
    TwoPole,
    /// Two cascaded biquads, 24 dB/oct (MPC / SP-303 style).
    FourPole,
    /// Three cascaded biquads, 36 dB/oct (S950 style), with the cleanest converter.
    SixPole,
}

/// The topology for `poles`: six or more poles give the 6-pole cascade, four or five the
/// 4-pole cascade, anything fewer the single 2-pole stage.
pub open spec fn topology_for(poles: i32) -> FilterTopology {
    if poles >= 6 {
        FilterTopology::SixPole
    } else if poles >= 4 {
        FilterTopology::FourPole
    } else {
        FilterTopology::TwoPole
    }
}

/// Chooses the filter cascade for a pole-count setting (see [`topology_for`]).
pub fn filter_topology(poles: i32) -> (r: FilterTopology)
    ensures
        r == topology_for(poles),
{
    if poles >= 6 {
        FilterTopology::SixPole
    } else if poles >= 4 {
        FilterTopology::FourPole
    } else {
        FilterTopology::TwoPole
    }
}

/// Number of biquad stages of a topology.
pub fn stage_count(t: FilterTopology) -> (r: u8)
    ensures
        r == match t {
            FilterTopology::TwoPole => 1u8,
            FilterTopology::FourPole => 2u8,
            FilterTopology::SixPole => 3u8,
        },
{
    match t {
        FilterTopology::TwoPole => 1,
        FilterTopology::FourPole => 2,
        FilterTopology::SixPole => 3,
    }
}

} // verus!

//! The moment state machine and moment choice.

use sssssssssampler::ascii_bank::CHARSET_LEN;
use sssssssssampler::visual_state::{glitch_glyph, next_visual_state, EnergyReading, BUILD, FLOW, IDLE, PEAK};
use sssssssssampler::moments::{
    accent_duration, bloom_cell, bloom_center, cooldown_after, in_bloom, pick_moment, Intent, Moment, MomentState, AFTERGLOW_FRAMES,
};

#[test]
fn moment_plays_for_its_duration_then_cools_down() {
    let mut s = MomentState::new();
    assert!(s.can_trigger());
    s.start(Moment::Collapse, 3, 99);
    assert!(!s.can_trigger());
    assert!(!s.tick(10, 20));
    assert!(!s.tick(10, 20));
    assert_eq!(s.timer, 2);
    assert!(s.tick(10, 20));
    assert_eq!(s.active, None);
    assert_eq!(s.cooldown, 150);
    for k in 1..=150u32 {
        assert!(!s.can_trigger());
        assert!(!s.tick(10, 20));
        assert_eq!(s.cooldown, 150 - k);
    }
    assert!(s.can_trigger());
}

#[test]
fn bloom_hands_over_to_afterglow() {
    let mut s = MomentState::new();
    s.start(Moment::GlitchBloom, 1, 7);
    assert!(s.tick(0, 0));
    assert_eq!(s.active, Some(Moment::Afterglow));
    assert_eq!(s.duration, AFTERGLOW_FRAMES);
    assert_eq!(s.timer, 0);
    assert_eq!(s.cooldown, 0);
    for _ in 0..(AFTERGLOW_FRAMES - 1) {
        assert!(!s.tick(0, 0));
    }
    assert!(s.tick(0, 0));
    assert_eq!(s.active, None);
    assert_eq!(s.cooldown, 30);
}

#[test]
fn tempo_cooldowns_come_from_the_caller() {
    assert_eq!(cooldown_after(Moment::LockIn, 17, 23), 17);
    assert_eq!(cooldown_after(Moment::PhaseWave, 17, 23), 23);
    assert_eq!(cooldown_after(Moment::FreezeCut, 17, 23), 55);
    assert_eq!(cooldown_after(Moment::UserAccent, 17, 23), 12);
    let mut s = MomentState::new();
    s.start(Moment::PhaseWave, 0, 0);
    assert!(s.tick(17, 23));
    assert_eq!(s.cooldown, 23);
}

#[test]
fn moment_choice() {
    let bit = 1u32 << 20;
    assert_eq!(pick_moment(Intent::Tension, 0, 3), Moment::FreezeCut);
    assert_eq!(pick_moment(Intent::Tension, bit, 3), Moment::LockIn);
    assert_eq!(pick_moment(Intent::Tension, bit, 2), Moment::FreezeCut);
    assert_eq!(pick_moment(Intent::Release, 0, 0), Moment::Afterglow);
    assert_eq!(pick_moment(Intent::Release, bit, 0), Moment::Collapse);
    assert_eq!(pick_moment(Intent::Chaos, 0, 1), Moment::GlitchBloom);
    assert_eq!(pick_moment(Intent::Chaos, bit | 5, 1), Moment::PhaseWave);
}

#[test]
fn bloom_centre_and_accent_length() {
    let h = 0xDEAD_BEEFu32;
    assert_eq!(bloom_center(h, 54, 42), (((h >> 4) as usize) % 54, ((h >> 14) as usize) % 42));
    assert_eq!(accent_duration(0), 4);
    assert_eq!(accent_duration(0x2000), 6);
    assert_eq!(accent_duration(h), 4 + (h >> 12) % 3);
}

#[test]
fn energy_states_with_hysteresis() {
    assert_eq!(next_visual_state(IDLE, EnergyReading::Band(1)), IDLE);
    assert_eq!(next_visual_state(IDLE, EnergyReading::Band(2)), FLOW);
    assert_eq!(next_visual_state(IDLE, EnergyReading::Band(6)), FLOW);
    assert_eq!(next_visual_state(FLOW, EnergyReading::Band(0)), IDLE);
    assert_eq!(next_visual_state(FLOW, EnergyReading::Band(1)), FLOW);
    assert_eq!(next_visual_state(FLOW, EnergyReading::Band(4)), BUILD);
    assert_eq!(next_visual_state(BUILD, EnergyReading::Band(2)), FLOW);
    assert_eq!(next_visual_state(BUILD, EnergyReading::Band(3)), BUILD);
    assert_eq!(next_visual_state(BUILD, EnergyReading::Band(6)), PEAK);
    assert_eq!(next_visual_state(PEAK, EnergyReading::Band(4)), BUILD);
    assert_eq!(next_visual_state(PEAK, EnergyReading::Band(5)), PEAK);
    assert_eq!(next_visual_state(PEAK, EnergyReading::Unordered), PEAK);
    assert_eq!(next_visual_state(9, EnergyReading::Unordered), IDLE);
    assert_eq!(next_visual_state(9, EnergyReading::Band(6)), IDLE);
    // Between the falling and rising thresholds the state holds in both directions.
    for s in [IDLE, FLOW, BUILD, PEAK] {
        for b in 0..=6u8 {
            let n = next_visual_state(s, EnergyReading::Band(b));
            assert!(n as i32 - s as i32 <= 1 && s as i32 - n as i32 <= 1);
            let n2 = next_visual_state(n, EnergyReading::Band(b));
            if n > s {
                assert!(n2 >= n);
            }
            if n < s {
                assert!(n2 <= n);
            }
        }
    }
}

#[test]
fn glitch_glyphs_by_style_and_tier() {
    let seed = 0x1234_5678u32;
    let x = (seed >> 4) as usize;
    assert_eq!(glitch_glyph(1, 1, seed), 94 + x % 12);
    assert_eq!(glitch_glyph(2, 2, seed), 87 + x % 37);
    assert_eq!(glitch_glyph(3, 1, seed), 1 + x % 10);
    assert_eq!(glitch_glyph(0, 1, seed), 1 + x % (CHARSET_LEN - 1));
    assert_eq!(glitch_glyph(0, 3, seed), 87 + x % (CHARSET_LEN - 87));
    for style in 0..5u8 {
        for tier in 0..5u8 {
            for s in [0u32, 15, 16, 0xFFFF_FFFF, seed] {
                assert!(glitch_glyph(style, tier, s) < CHARSET_LEN);
            }
        }
    }
}

#[test]
fn bloom_shapes() {
    // square
    assert!(in_bloom(0, 2, -2, 2, 0));
    assert!(!in_bloom(0, 3, 0, 2, 0));
    // scanline: three rows, twice as wide
    assert!(in_bloom(1, 4, 1, 2, 0));
    assert!(!in_bloom(1, 0, 2, 2, 0));
    assert!(!in_bloom(1, 5, 0, 2, 0));
    // disc
    assert!(in_bloom(2, 3, 4, 5, 0));
    assert!(!in_bloom(2, 4, 4, 5, 0));
    // jagged: the edge moves by up to three cells per row
    let jag = ((0i32.wrapping_mul(7919) ^ 2) & 3) as i32;
    assert_eq!(jag, 2);
    assert!(in_bloom(3, 4, 0, 2, 2));
    assert!(!in_bloom(3, 5, 0, 2, 2));
    assert!(!in_bloom(3, 0, 3, 2, 2));
}

#[test]
fn bloom_cells_use_heavy_glyphs() {
    let h = 3u32.wrapping_mul(31337).wrapping_add(4u32.wrapping_mul(7919)).wrapping_add(0xABCD);
    assert_eq!(bloom_cell(3, 4, 0xABCD), (87 + ((h >> 4) as usize) % (CHARSET_LEN - 87), ((h >> 8) % 5) as usize));
    let (g, c) = bloom_cell(u32::MAX, u32::MAX, u32::MAX);
    assert!(g >= 87 && g < CHARSET_LEN && c < 5);
}

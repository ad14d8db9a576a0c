//! Unit checks of glyph indices and the motion clock.

use sssssssssampler::instancing::char_to_glyph_idx;
use sssssssssampler::motion::MotionSystem;

#[test]
fn test_char_to_glyph_idx() {
    assert_eq!(char_to_glyph_idx(' '), 32);
    assert_eq!(char_to_glyph_idx('A'), 65);
    assert_eq!(char_to_glyph_idx('0'), 48);
}

#[test]
fn test_motion_system_creation() {
    let motion = MotionSystem::new();
    assert_eq!(motion.frame_count(), 0);
}

#[test]
fn test_step_increments_frame_count() {
    let mut motion = MotionSystem::new();
    motion.step();
    assert_eq!(motion.frame_count(), 1);

    motion.step();
    assert_eq!(motion.frame_count(), 2);
}

#[test]
fn non_ascii_maps_to_space_glyph() {
    assert_eq!(char_to_glyph_idx('█'), 32);
    assert_eq!(char_to_glyph_idx('\u{7f}'), 127);
}

#[test]
fn motion_default_starts_at_frame_zero() {
    let motion = MotionSystem::default();
    assert_eq!(motion.frame_count(), 0);
}

#[test]
fn region_seeds_mix_coordinates() {
    assert_eq!(MotionSystem::region_seeds(0, 0), (0, 0));
    assert_eq!(MotionSystem::region_seeds(1, 0), (73856093, 83492791));
    assert_eq!(MotionSystem::region_seeds(0, 1), (19349663, 29387091));
    let (sx, sy) = MotionSystem::region_seeds(10, 20);
    assert_eq!(sx, 10u32.wrapping_mul(73856093) ^ 20u32.wrapping_mul(19349663));
    assert_eq!(sy, 10u32.wrapping_mul(83492791) ^ 20u32.wrapping_mul(29387091));
}

//! Glyph atlas texture, the checkerboard test frame, the audio noise generator and the
//! composition helpers.

use sssssssssampler::composition::{
    anchor_index, biased_candidates, composition_anchors, frame_core_offset, is_rebel_cycle, micro_freeze_frames,
    noise_byte, overlay_slot_image, phrase_choice,
};
use sssssssssampler::dsp::{filter_topology, noise_bits, stage_count, FilterTopology, NOISE_SEED};
use sssssssssampler::glyph_atlas::{atlas_dimensions, atlas_texture, rasterize_glyph};
use sssssssssampler::layer_engine::{LCG_INC, LCG_MUL};
use sssssssssampler::ui_sync::UiRenderer;

#[test]
fn atlas_dimensions_round_rows_up() {
    assert_eq!(atlas_dimensions(127), (160, 208));
    assert_eq!(atlas_dimensions(10), (160, 16));
    assert_eq!(atlas_dimensions(11), (160, 32));
    assert_eq!(atlas_dimensions(0), (160, 0));
}

#[test]
fn glyph_cell_brightness() {
    let t = atlas_texture(1);
    assert_eq!(t.len(), 160 * 16 * 4);
    let px = |x: usize, y: usize| &t[(y * 160 + x) * 4..(y * 160 + x) * 4 + 4];
    assert_eq!(px(8, 8), &[255, 255, 255, 255]);
    assert_eq!(px(0, 0), &[127, 127, 127, 255]);
    assert_eq!(px(9, 8), &[254, 254, 254, 255]);
    assert_eq!(px(16, 0), &[0, 0, 0, 0]);
    assert_eq!(px(159, 15), &[0, 0, 0, 0]);
}

#[test]
fn glyph_cells_repeat() {
    let t = atlas_texture(12);
    let w = 160;
    for (gx, gy) in [(0usize, 0usize), (16, 0), (144, 0), (0, 16), (16, 16)] {
        for (dx, dy) in [(0, 0), (8, 8), (3, 11), (15, 15)] {
            let a = ((dy * w) + dx) * 4;
            let b = (((gy + dy) * w) + gx + dx) * 4;
            assert_eq!(t[a..a + 4], t[b..b + 4]);
        }
    }
    let c = ((16 * w) + 32) * 4;
    assert_eq!(&t[c..c + 4], &[0, 0, 0, 0]);
}

#[test]
fn rasterize_skips_pixels_past_the_end() {
    let mut data = vec![9u8; 4 * 4 * 2];
    rasterize_glyph(&mut data, 4, 0, 0, 4);
    // Two rows fit: centre (2, 2) is past the end; pixel (2, 1) has d = 1.
    assert_eq!(&data[(1 * 4 + 2) * 4..(1 * 4 + 2) * 4 + 4], &[239, 239, 239, 255]);
    assert_eq!(&data[0..4], &[127, 127, 127, 255]);
    assert_eq!(data.len(), 32);
}

#[test]
fn checkerboard_frame() {
    let r = UiRenderer::new();
    assert!(!r.is_ready());
    let p = r.render_frame_pixels([1, 2, 3], [4, 5, 6]);
    assert_eq!(p.len(), 36 * 46 * 4);
    assert_eq!(&p[0..4], &[1, 2, 3, 255]);
    assert_eq!(&p[4..8], &[4, 5, 6, 255]);
    assert_eq!(&p[36 * 4..36 * 4 + 4], &[4, 5, 6, 255]);
    assert_eq!(&p[37 * 4..37 * 4 + 4], &[1, 2, 3, 255]);
    let mut r2 = UiRenderer::new();
    r2.mark_initialized();
    assert!(r2.is_ready());
}

#[test]
fn noise_bits_take_the_top_mantissa() {
    let mut s = NOISE_SEED;
    let b = noise_bits(&mut s);
    let next = NOISE_SEED.wrapping_mul(LCG_MUL).wrapping_add(LCG_INC);
    assert_eq!(s, next);
    assert_eq!(b, 0x3F80_0000 | ((next >> 41) as u32 & 0x7F_FFFF));
    let f = f32::from_bits(b);
    assert!(f >= 1.0 && f < 2.0);
    let b2 = noise_bits(&mut s);
    assert_ne!(b, b2);
}

#[test]
fn anchors_of_each_mode() {
    assert_eq!(composition_anchors(0), [(27, 21), (27, 21), (20, 15), (27, 10), (27, 21)]);
    assert_eq!(composition_anchors(1)[1], (34, 27));
    assert_eq!(composition_anchors(2), [(13, 21), (41, 21), (27, 21), (27, 10), (27, 32)]);
    assert_eq!(composition_anchors(3), [(27, 21); 5]);
    assert_eq!(composition_anchors(200), [(27, 21); 5]);
}

#[test]
fn hashes() {
    assert_eq!(noise_byte(0, 0, 111), 0);
    assert_eq!(noise_byte(1, 0, 0), 0xEB);
    assert_eq!(noise_byte(0, 1, 0), ((1664525u32 >> 16) & 0xFF) as u8);
    let s = 7u32.wrapping_mul(2246822507).wrapping_add(3u32.wrapping_mul(1664525)).wrapping_add(333);
    assert_eq!(noise_byte(7, 3, 333), ((s >> 16) & 0xFF) as u8);
    let c = biased_candidates(7, 5);
    assert_eq!(c[0], 2);
    assert_eq!(c[1], (7u32.wrapping_mul(2u32.wrapping_mul(2654435761)) as usize) % 5);
    assert_eq!(c[2], (7u32.wrapping_mul(3u32.wrapping_mul(2654435761)) as usize) % 5);
    assert!(is_rebel_cycle(0));
    assert!(!is_rebel_cycle(1));
}

#[test]
fn overlays_avoid_the_core_image() {
    for cycle in 0..200usize {
        for slot in 0..4u32 {
            for core in 0..3usize {
                let img = overlay_slot_image(cycle, slot, core, 3, false);
                assert!(img < 3);
                assert_ne!(img, core);
                assert_eq!(overlay_slot_image(cycle, slot, core, 3, true), core);
            }
        }
    }
    let h = 5u32.wrapping_mul(2654435761).wrapping_add(2 * 1013904223);
    let base = (h as usize) % 4;
    let want = if base == 1 { 2 } else { base };
    assert_eq!(overlay_slot_image(5, 2, 1, 4, false), want);
}

#[test]
fn core_framing() {
    assert_eq!(frame_core_offset(60, 50, 10, -3, false), (6, 0));
    assert_eq!(frame_core_offset(20, 10, 100, -100, false), (38, -2));
    assert_eq!(frame_core_offset(20, 10, 100, -100, true), (100, -100));
    assert_eq!(frame_core_offset(60, 10, -20, 0, false), (-12, 0));
    assert_eq!(frame_core_offset(0, 0, 5, 5, false), (5, 5));
}

#[test]
fn filter_topology_by_poles() {
    assert_eq!(filter_topology(2), FilterTopology::TwoPole);
    assert_eq!(filter_topology(-3), FilterTopology::TwoPole);
    assert_eq!(filter_topology(4), FilterTopology::FourPole);
    assert_eq!(filter_topology(5), FilterTopology::FourPole);
    assert_eq!(filter_topology(6), FilterTopology::SixPole);
    assert_eq!(filter_topology(60), FilterTopology::SixPole);
    assert_eq!(stage_count(FilterTopology::TwoPole), 1);
    assert_eq!(stage_count(FilterTopology::FourPole), 2);
    assert_eq!(stage_count(FilterTopology::SixPole), 3);
}

#[test]
fn rasterize_wraps_and_overwrites_in_drawing_order() {
    // A cell wider than what is left of its row wraps into the next row.
    let mut data = vec![7u8; 5 * 4];
    rasterize_glyph(&mut data, 2, 1, 0, 2);
    assert_eq!(&data[0..4], &[7, 7, 7, 7]);
    assert_eq!(&data[4..8], &[127, 127, 127, 255]);
    assert_eq!(&data[8..12], &[191, 191, 191, 255]);
    assert_eq!(&data[12..16], &[191, 191, 191, 255]);
    assert_eq!(&data[16..20], &[255, 255, 255, 255]);
    // With a zero-width atlas every row lands on the same pixels; the last row wins.
    let mut flat = vec![0u8; 8];
    rasterize_glyph(&mut flat, 0, 0, 0, 2);
    assert_eq!(flat, vec![191, 191, 191, 255, 255, 255, 255, 255]);
}

#[test]
fn phrase_freeze_and_anchor_hashes() {
    let tick = 123_456_789u64;
    let h = (tick as u32).wrapping_mul(48271);
    assert_eq!(phrase_choice(tick), ((h % 4) as u8, ((h >> 10) % 6) as u8));
    assert_eq!(phrase_choice(0), (0, 0));
    let f = micro_freeze_frames(tick, 255);
    if ((h >> 12) & 0xFF) < 255 {
        assert_eq!(f, 3 + h % 5);
    } else {
        assert_eq!(f, 0);
    }
    assert_eq!(micro_freeze_frames(tick, 0), 0);
    assert_eq!(anchor_index(0xFFFF_FFFF, 0), (0xFFFF_FFFFu32 as usize) % 9);
    assert_eq!(anchor_index(0x0000_0E00, 9), 7);
    assert!(anchor_index(12345, 31) < 9);
}

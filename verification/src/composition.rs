use vstd::prelude::*;

verus! {

/// Columns of the display grid.
pub const VIEW_COLS: i32 = 54;

/// Rows of the display grid.
pub const VIEW_ROWS: i32 = 42;

/// Multiplier of the frame hashes (Knuth's multiplicative constant).
pub const GOLDEN_HASH: u32 = 2654435761;

/// Per-slot increment of the overlay image hash.
pub const SLOT_HASH: u32 = 1013904223;

/// `v` reduced modulo 2^32.
pub open spec fn wrap32(v: int) -> int {
    v % 0x1_0000_0000
}

/// Wrapping `a + b` on `u32` equals the sum modulo 2^32.
proof fn lemma_wrap_add32(a: u32, b: u32)
    ensures
        vstd::wrapping::u32_specs::wrapping_add(a, b) as int == wrap32(a + b),
{
    let m: int = 0x1_0000_0000;
    if a + b >= m {
        vstd::arithmetic::div_mod::lemma_mod_sub_multiples_vanish(a + b, m);
        vstd::arithmetic::div_mod::lemma_small_mod((a + b - m) as nat, m as nat);
    } else {
        vstd::arithmetic::div_mod::lemma_small_mod((a + b) as nat, m as nat);
    }
}

/// Reducing the first term of a sum modulo 2^32 does not change the sum modulo 2^32.
proof fn lemma_wrap_sum(p: int, q: int)
    ensures
        wrap32(wrap32(p) + q) == wrap32(p + q),
{
    vstd::arithmetic::div_mod::lemma_add_mod_noop(p, q, 0x1_0000_0000);
    vstd::arithmetic::div_mod::lemma_add_mod_noop(wrap32(p), q, 0x1_0000_0000);
    vstd::arithmetic::div_mod::lemma_mod_twice(p, 0x1_0000_0000);
}

/// Anchor cells `(column, row)` of composition `mode`, in the order core, pulse, accent,
/// drift, ghost. Modes other than 0..=2 centre every layer.
pub open spec fn anchor_cells(mode: u8) -> [(u8, u8); 5] {
    if mode == 0 {
        [(27, 21), (27, 21), (20, 15), (27, 10), (27, 21)]
    } else if mode == 1 {
        [(20, 15), (34, 27), (27, 21), (34, 15), (20, 27)]
    } else if mode == 2 {
        [(13, 21), (41, 21), (27, 21), (27, 10), (27, 32)]
    } else {
        [(27, 21), (27, 21), (27, 21), (27, 21), (27, 21)]
    }
}

/// Anchor cells of composition `mode` (see [`anchor_cells`]): mode 0 centres the core
/// with the accent on the upper-left golden point, mode 1 spreads the layers over the
/// golden points, mode 2 places them left, right, centre, up and down, and every other
/// mode (including the orbiting mode 3) centres them all.
pub fn composition_anchors(mode: u8) -> (r: [(u8, u8); 5])
    ensures
        r == anchor_cells(mode),
{
    let center: (u8, u8) = (27, 21);
    let upper: (u8, u8) = (27, 10);
    let lower: (u8, u8) = (27, 32);
    let left: (u8, u8) = (13, 21);
    let right: (u8, u8) = (41, 21);
    let golden_tl: (u8, u8) = (20, 15);
    let golden_br: (u8, u8) = (34, 27);
    let golden_tr: (u8, u8) = (34, 15);
    let golden_bl: (u8, u8) = (20, 27);
    if mode == 0 {
        [center, center, golden_tl, upper, center]
    } else if mode == 1 {
        [golden_tl, golden_br, center, golden_tr, golden_bl]
    } else if mode == 2 {
        [left, right, center, upper, lower]
    } else {
        [center, center, center, center, center]
    }
}

/// Hash of lattice point (ix, iy) with `seed`: `ix * 2246822507 + iy * 1664525 + seed`
/// modulo 2^32.
pub open spec fn lattice_hash(ix: u32, iy: u32, seed: u32) -> int {
    wrap32(ix * 2246822507 + iy * 1664525 + seed)
}

/// Noise byte of lattice point (ix, iy): bits 16..24 of [`lattice_hash`].
pub fn noise_byte(ix: u32, iy: u32, seed: u32) -> (r: u8)
    ensures
        r as int == (lattice_hash(ix, iy, seed) / 0x1_0000) % 0x100,
{
    let a = ix.wrapping_mul(2246822507);
    let b = iy.wrapping_mul(1664525);
    let s = a.wrapping_add(b).wrapping_add(seed);
    proof {
        lemma_wrap_add32(a, b);
        lemma_wrap_add32(vstd::wrapping::u32_specs::wrapping_add(a, b), seed);
        lemma_wrap_sum(ix * 2246822507, iy * 1664525);
        vstd::arithmetic::div_mod::lemma_add_mod_noop(
            ix * 2246822507,
            wrap32(iy * 1664525),
            0x1_0000_0000,
        );
        vstd::arithmetic::div_mod::lemma_mod_twice(ix * 2246822507, 0x1_0000_0000);
        vstd::arithmetic::div_mod::lemma_add_mod_noop(
            ix * 2246822507,
            iy * 1664525,
            0x1_0000_0000,
        );
        lemma_wrap_sum(ix * 2246822507 + iy * 1664525, seed as int);
    }
    let v: u32 = (s >> 16) & 0xFF;
    assert(v == (s / 0x1_0000) % 0x100) by (bit_vector)
        requires
            v == (s >> 16) & 0xFF,
    ;
    v as u8
}

/// Candidate `k` (0, 1 or 2) of the density-biased image choice among `count` images.
pub open spec fn biased_candidate(hash: u32, k: int, count: int) -> int {
    if k == 0 {
        hash as int % count
    } else {
        wrap32(hash * wrap32((k + 1) * GOLDEN_HASH)) % count
    }
}

/// The three images a density-biased choice compares for frame hash `hash`: `hash % count`,
/// then `hash * (2 * 2654435761)` and `hash * (3 * 2654435761)` (wrapping) modulo `count`.
pub fn biased_candidates(hash: u32, count: usize) -> (r: [usize; 3])
    requires
        count >= 1,
    ensures
        forall|k: int| 0 <= k < 3 ==> r@[k] as int == #[trigger] biased_candidate(hash, k, count as int),
        forall|k: int| 0 <= k < 3 ==> r@[k] < count,
{
    let c0 = (hash as usize) % count;
    let m1: u32 = 2u32.wrapping_mul(GOLDEN_HASH);
    let m2: u32 = 3u32.wrapping_mul(GOLDEN_HASH);
    let c1 = (hash.wrapping_mul(m1) as usize) % count;
    let c2 = (hash.wrapping_mul(m2) as usize) % count;
    let r = [c0, c1, c2];
    assert(r@[0] == c0 && r@[1] == c1 && r@[2] == c2);
    r
}

/// Whether the core cycle `core_cycle` breaks the framing rules: the top byte of
/// `core_cycle * 2654435761` (wrapping, on the low 32 bits) is at most 12, about 5% of cycles.
pub open spec fn rebel_cycle(core_cycle: usize) -> bool {
    wrap32((core_cycle as u32) * GOLDEN_HASH) / 0x100_0000 <= 12
}

/// Whether the core cycle `core_cycle` is one whose framing is left unclamped.
pub fn is_rebel_cycle(core_cycle: usize) -> (r: bool)
    ensures
        r == rebel_cycle(core_cycle),
{
    let h: u32 = (core_cycle as u32).wrapping_mul(GOLDEN_HASH);
    let top: u32 = h >> 24;
    assert(top == h / 0x100_0000) by (bit_vector)
        requires
            top == h >> 24,
    ;
    top <= 12
}

/// Image of overlay slot `slot` in cycle `cycle` with `count` images: the hash
/// `cycle * 2654435761 + slot * 1013904223` (on the low 32 bits, wrapping) modulo `count`,
/// moved on by one when it would repeat the core image; while locked in, the core image.
pub open spec fn slot_image(cycle: usize, slot: u32, core_img: int, count: int, lockin: bool) -> int {
    let base = wrap32((cycle as u32) * GOLDEN_HASH + slot * SLOT_HASH) % count;
    if lockin {
        core_img
    } else if base == core_img {
        (base + 1) % count
    } else {
        base
    }
}

/// Picks the image of an overlay slot (see [`slot_image`]). Unless locked in, the overlay
/// never shows the core image when there are at least two images.
pub fn overlay_slot_image(cycle: usize, slot: u32, core_img: usize, count: usize, lockin: bool) -> (r: usize)
    requires
        count >= 1,
        slot <= 4,
    ensures
        r as int == slot_image(cycle, slot, core_img as int, count as int, lockin),
        !lockin ==> r < count,
        !lockin && count >= 2 && core_img < count ==> r != core_img,
{
    let h: u32 = (cycle as u32).wrapping_mul(GOLDEN_HASH).wrapping_add(slot * SLOT_HASH);
    proof {
        lemma_wrap_add32(vstd::wrapping::u32_specs::wrapping_mul(cycle as u32, GOLDEN_HASH), (slot * SLOT_HASH) as u32);
        lemma_wrap_sum((cycle as u32) * GOLDEN_HASH, slot * SLOT_HASH);
    }
    if lockin {
        return core_img;
    }
    let base = (h as usize) % count;
    if base == core_img {
        proof {
            if base + 1 < count {
                vstd::arithmetic::div_mod::lemma_small_mod((base + 1) as nat, count as nat);
            } else {
                vstd::arithmetic::div_mod::lemma_mod_self_0(count as int);
            }
        }
        (base + 1) % count
    } else {
        base
    }
}

/// Columns (or rows) of a span `size` long placed at offset `off` (source index =
/// display index - `off`) that land inside a viewport `view` long.
pub open spec fn visible_span(off: int, size: int, view: int) -> int {
    let lo = if off > 0 {
        off
    } else {
        0
    };
    let hi = if off + size < view {
        off + size
    } else {
        view
    };
    hi - lo
}

/// Part of an image side that must stay visible: 80% of `size`, at least one cell.
pub open spec fn min_visible(size: int) -> int {
    if size * 80 / 100 > 1 {
        size * 80 / 100
    } else {
        1
    }
}

/// `v` clamped to `lo..=hi`.
pub open spec fn clamp_to(v: int, lo: int, hi: int) -> int {
    if v < lo {
        lo
    } else if v > hi {
        hi
    } else {
        v
    }
}

/// Whether an image is at least as large as the viewport in both directions.
pub open spec fn covers_view(core_w: int, core_h: int) -> bool {
    core_w >= VIEW_COLS && core_h >= VIEW_ROWS
}

/// Offset of the core image of size `core_w × core_h` from its raw offset: unchanged on a
/// rebel cycle; for an image at least as large as the viewport, each coordinate clamped to
/// `0..=size - view`; otherwise clamped so that at least 80% of each side stays visible.
pub open spec fn framed_offset(core_w: int, core_h: int, raw_c: int, raw_r: int, rebel: bool) -> (int, int) {
    if rebel {
        (raw_c, raw_r)
    } else if covers_view(core_w, core_h) {
        (clamp_to(raw_c, 0, core_w - VIEW_COLS), clamp_to(raw_r, 0, core_h - VIEW_ROWS))
    } else {
        (
            clamp_to(raw_c, -(core_w - min_visible(core_w)), VIEW_COLS - min_visible(core_w)),
            clamp_to(raw_r, -(core_h - min_visible(core_h)), VIEW_ROWS - min_visible(core_h)),
        )
    }
}

/// Whether framing an image of `core_w × core_h` can be computed: an image covering the
/// viewport always can; for a smaller one, 80% of each side must fit in an `i32`
/// computation and the clamping ranges must be non-empty (wide but short images, or tall
/// but narrow ones, leave no offset that keeps 80% of both sides visible).
pub open spec fn framing_defined(core_w: int, core_h: int) -> bool {
    covers_view(core_w, core_h) || (core_w * 80 <= i32::MAX && core_h * 80 <= i32::MAX && 2 * min_visible(
        core_w,
    ) - core_w <= VIEW_COLS && 2 * min_visible(core_h) - core_h <= VIEW_ROWS)
}

fn clamp_i32(v: i32, lo: i32, hi: i32) -> (r: i32)
    requires
        lo <= hi,
    ensures
        r as int == clamp_to(v as int, lo as int, hi as int),
{
    if v < lo {
        lo
    } else if v > hi {
        hi
    } else {
        v
    }
}

fn min_visible_i32(size: i32) -> (r: i32)
    requires
        0 <= size,
        size * 80 <= i32::MAX,
    ensures
        r as int == min_visible(size as int),
        1 <= r,
        r <= size || size == 0,
{
    let v = size * 80 / 100;
    if v > 1 {
        v
    } else {
        1
    }
}

/// The smaller of `a` and `b`.
pub open spec fn at_most(a: int, b: int) -> int {
    if a < b {
        a
    } else {
        b
    }
}

proof fn lemma_visible(off: int, size: int, view: int, mv: int)
    requires
        1 <= mv <= size,
        0 < view,
        -(size - mv) <= off <= view - mv,
    ensures
        visible_span(off, size, view) >= at_most(mv, view),
{
}

/// Frames the core image (see [`framed_offset`]). Outside rebel cycles, an image at least
/// as large as the viewport is clamped to offsets `0..=size - view`, and otherwise at least
/// 80% of each non-empty side (one cell at least), or the whole viewport along that side,
/// stays in view.
pub fn frame_core_offset(core_w: i32, core_h: i32, raw_c: i32, raw_r: i32, rebel: bool) -> (r: (i32, i32))
    requires
        0 <= core_w,
        0 <= core_h,
        !rebel ==> framing_defined(core_w as int, core_h as int),
    ensures
        (r.0 as int, r.1 as int) == framed_offset(core_w as int, core_h as int, raw_c as int, raw_r as int, rebel),
        !rebel && covers_view(core_w as int, core_h as int) ==> {
            &&& 0 <= r.0 && r.0 + VIEW_COLS <= core_w
            &&& 0 <= r.1 && r.1 + VIEW_ROWS <= core_h
        },
        !rebel && !covers_view(core_w as int, core_h as int) ==> {
            &&& core_w >= 1 ==> visible_span(r.0 as int, core_w as int, VIEW_COLS as int) >= at_most(
                min_visible(core_w as int),
                VIEW_COLS as int,
            )
            &&& core_h >= 1 ==> visible_span(r.1 as int, core_h as int, VIEW_ROWS as int) >= at_most(
                min_visible(core_h as int),
                VIEW_ROWS as int,
            )
        },
{
    if rebel {
        (raw_c, raw_r)
    } else if core_w >= VIEW_COLS && core_h >= VIEW_ROWS {
        (clamp_i32(raw_c, 0, core_w - VIEW_COLS), clamp_i32(raw_r, 0, core_h - VIEW_ROWS))
    } else {
        let min_vis_c = min_visible_i32(core_w);
        let min_vis_r = min_visible_i32(core_h);
        proof {
            let oc = clamp_to(raw_c as int, -(core_w - min_vis_c), VIEW_COLS - min_vis_c);
            let orow = clamp_to(raw_r as int, -(core_h - min_vis_r), VIEW_ROWS - min_vis_r);
            if core_w >= 1 {
                lemma_visible(oc, core_w as int, VIEW_COLS as int, min_vis_c as int);
            }
            if core_h >= 1 {
                lemma_visible(orow, core_h as int, VIEW_ROWS as int, min_vis_r as int);
            }
        }
        (
            clamp_i32(raw_c, -(core_w - min_vis_c), VIEW_COLS - min_vis_c),
            clamp_i32(raw_r, -(core_h - min_vis_r), VIEW_ROWS - min_vis_r),
        )
    }
}

/// Number of anchor points a layer can be sent to.
pub const ANCHOR_COUNT: usize = 9;

/// Composition mode (0..4) and breath variant (0..6) chosen at a phrase boundary from
/// the animation tick: `h = tick * 48271` on the low 32 bits; the mode is `h % 4` and the
/// variant `(h >> 10) % 6`.
pub open spec fn phrase_choice_spec(anim_tick: u64) -> (int, int) {
    let h = wrap32((anim_tick as u32) * 48271);
    (h % 4, (h / 0x400) % 6)
}

/// Chooses the composition mode and breath variant for a phrase boundary (see
/// [`phrase_choice_spec`]).
pub fn phrase_choice(anim_tick: u64) -> (r: (u8, u8))
    ensures
        (r.0 as int, r.1 as int) == phrase_choice_spec(anim_tick),
        r.0 < 4,
        r.1 < 6,
{
    let h: u32 = (anim_tick as u32).wrapping_mul(48271);
    let hi: u32 = h >> 10;
    assert(hi == h / 0x400) by (bit_vector)
        requires
            hi == h >> 10,
    ;
    ((h % 4) as u8, (hi % 6) as u8)
}

/// Frames of a micro-freeze started at `anim_tick`: with `h = tick * 48271` on the low 32
/// bits, a freeze of `3 + h % 5` frames when bits 12..20 of `h` are below `threshold`,
/// else none (0).
pub open spec fn micro_freeze_spec(anim_tick: u64, threshold: u8) -> int {
    let h = wrap32((anim_tick as u32) * 48271);
    if (h / 0x1000) % 0x100 < threshold {
        3 + h % 5
    } else {
        0
    }
}

/// Length of the micro-freeze a transient starts (see [`micro_freeze_spec`]).
pub fn micro_freeze_frames(anim_tick: u64, threshold: u8) -> (r: u32)
    ensures
        r == micro_freeze_spec(anim_tick, threshold),
        r == 0 || 3 <= r <= 7,
{
    let h: u32 = (anim_tick as u32).wrapping_mul(48271);
    let b: u32 = (h >> 12) & 0xFF;
    assert(b == (h / 0x1000) % 0x100) by (bit_vector)
        requires
            b == (h >> 12) & 0xFF,
    ;
    if b < threshold as u32 {
        3 + h % 5
    } else {
        0
    }
}

/// Anchor a layer is sent to from a hash: `(hash >> shift) % 9`.
pub fn anchor_index(hash: u32, shift: u32) -> (r: usize)
    requires
        shift < 32,
    ensures
        r == (hash as int / vstd::arithmetic::power2::pow2(shift as nat) as int) % ANCHOR_COUNT as int,
        r < ANCHOR_COUNT,
{
    let v: u32 = hash >> shift;
    proof {
        vstd::bits::lemma_u32_shr_is_div(hash, shift);
    }
    (v as usize) % ANCHOR_COUNT
}

} // verus!

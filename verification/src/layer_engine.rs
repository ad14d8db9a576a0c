use vstd::prelude::*;
use crate::ascii_bank::AsciiBank;

verus! {

/// Multiplier of the layer engine's linear congruential generator.
pub const LCG_MUL: u64 = 6_364_136_223_846_793_005;
/// Increment of the layer engine's linear congruential generator.
pub const LCG_INC: u64 = 1_442_695_040_888_963_407;
/// Seed of a fresh layer engine.
pub const LAYER_RNG_SEED: u64 = 0x123456789ABCDEF;
/// Number of layers the engine manages (layer 0 is the anchor).
pub const LAYER_COUNT: usize = 5;

/// One step of the generator: `s * LCG_MUL + LCG_INC` modulo 2^64.
pub open spec fn lcg_next(s: u64) -> u64 {
    ((s as int * LCG_MUL as int + LCG_INC as int) % 0x1_0000_0000_0000_0000) as u64
}

/// `n` steps of the generator from state `s`.
pub open spec fn lcg_iter(s: u64, n: nat) -> u64
    decreases n,
{
    if n == 0 {
        s
    } else {
        lcg_next(lcg_iter(s, (n - 1) as nat))
    }
}

/// The low 32 bits of `r` read as a two's complement `i32`.
pub open spec fn low_i32(r: u64) -> int {
    let l = (r % 0x1_0000_0000) as int;
    if l >= 0x8000_0000 {
        l - 0x1_0000_0000
    } else {
        l
    }
}

/// Overlay image chosen from a random draw: never the anchor image 0.
pub open spec fn overlay_image(r: u64, bank_len: int) -> int {
    (r as usize) as int % (bank_len - 1) + 1
}

/// Spatial offset component chosen from a random draw: the low 32 bits, read as an
/// `i32`, taken modulo 10 (a non-negative remainder) and shifted to `-5..=4`.
pub open spec fn overlay_offset(r: u64) -> int {
    low_i32(r) % 10 - 5
}

/// A single rendered layer.
#[derive(Clone, Copy, Debug)]
pub struct LayerState {
    /// Index into the bank's images (0 is the anchor image).
    pub image_idx: usize,
    /// Blend weight, stored as the reciprocal `1 / weight_den`; 0 means weight 0
    /// (the layer is inactive).
    pub weight_den: u32,
    /// Time offset in frames.
    pub time_offset: i32,
    /// Spatial offset `(x, y)` in grid cells.
    pub spatial_offset: (i32, i32),
    /// Render with the pop effect.
    pub pop_highlight: bool,
}

/// The anchor layer: image 0 at full weight, no offset, no pop.
pub open spec fn anchor_layer() -> LayerState {
    LayerState { image_idx: 0, weight_den: 1, time_offset: 0, spatial_offset: (0, 0), pop_highlight: false }
}

/// Number of active layers for a layer-count ceiling: clamped to `1..=5`.
pub open spec fn active_count(layer_ceil: int) -> int {
    if layer_ceil > 5 {
        5
    } else if layer_ceil < 1 {
        1
    } else {
        layer_ceil
    }
}

/// Whether an update spawns the extra transient layer at slot `a`.
pub open spec fn spawns_transient(a: int, transient_active: bool) -> bool {
    transient_active && a < 5
}

/// Layer `i` after an update with `a` active layers, starting from generator state `s0`.
/// Overlay `i` draws its image, x offset and y offset in that order.
pub open spec fn updated_layer(
    old: LayerState,
    i: int,
    a: int,
    transient_active: bool,
    s0: u64,
    bank_len: int,
) -> LayerState {
    if i == 0 {
        anchor_layer()
    } else if i < a {
        LayerState {
            image_idx: overlay_image(lcg_iter(s0, (3 * i - 2) as nat), bank_len) as usize,
            weight_den: (2 * a) as u32,
            time_offset: (5 * i) as i32,
            spatial_offset: (
                overlay_offset(lcg_iter(s0, (3 * i - 1) as nat)) as i32,
                overlay_offset(lcg_iter(s0, (3 * i) as nat)) as i32,
            ),
            pop_highlight: true,
        }
    } else if i == a && spawns_transient(a, transient_active) {
        LayerState {
            image_idx: overlay_image(lcg_iter(s0, (3 * a - 2) as nat), bank_len) as usize,
            weight_den: 2,
            time_offset: 0,
            spatial_offset: old.spatial_offset,
            pop_highlight: true,
        }
    } else {
        LayerState { weight_den: 0, pop_highlight: false, ..old }
    }
}

/// Number of generator steps an update takes.
pub open spec fn update_draws(a: int, transient_active: bool) -> nat {
    (3 * (a - 1) + if spawns_transient(a, transient_active) { 1int } else { 0int }) as nat
}

/// Layer engine: manages the anchor layer and up to four overlay layers.
pub struct LayerEngine {
    layers: Vec<LayerState>,
    rng_state: u64,
}

impl LayerEngine {
    /// The layers, anchor first.
    pub closed spec fn layer_seq(&self) -> Seq<LayerState> {
        self.layers@
    }

    /// The generator state.
    pub closed spec fn rng(&self) -> u64 {
        self.rng_state
    }

    /// The engine always holds exactly five layers.
    pub open spec fn wf(&self) -> bool {
        self.layer_seq().len() == LAYER_COUNT
    }

    /// Five layers, all showing the anchor image at full weight; the generator seeded.
    pub fn new() -> (r: Self)
        ensures
            r.wf(),
            r.rng() == LAYER_RNG_SEED,
            forall|i: int| 0 <= i < LAYER_COUNT ==> #[trigger] r.layer_seq()[i] == anchor_layer(),
    {
        let mut layers: Vec<LayerState> = Vec::new();
        let mut i: usize = 0;
        while i < LAYER_COUNT
            invariant
                i <= LAYER_COUNT,
                layers@.len() == i,
                forall|j: int| 0 <= j < i ==> #[trigger] layers@[j] == anchor_layer(),
            decreases LAYER_COUNT - i,
        {
            layers.push(
                LayerState { image_idx: 0, weight_den: 1, time_offset: 0, spatial_offset: (0, 0), pop_highlight: false },
            );
            i = i + 1;
        }
        LayerEngine { layers, rng_state: LAYER_RNG_SEED }
    }

    /// Updates the layers for a frame. `layer_ceil` is the ceiling of the layer-count
    /// parameter; it is clamped to `1..=5` active layers. Layer 0 is always the anchor.
    /// Each active overlay `i` gets a random non-anchor image, weight `1 / (2 * active)`,
    /// time offset `5 * i`, a random spatial offset and the pop effect. Inactive layers
    /// get weight 0 and no pop. On a transient with fewer than five active layers, the
    /// first inactive layer is respawned with a random image, weight 1/2 and pop.
    #[verifier::rlimit(40)]
    pub fn update(&mut self, layer_ceil: usize, transient_active: bool, ascii_bank: &AsciiBank)
        requires
            old(self).wf(),
            (active_count(layer_ceil as int) > 1 || transient_active) ==> ascii_bank.images@.len() >= 2,
        ensures
            final(self).wf(),
            final(self).rng() == lcg_iter(
                old(self).rng(),
                update_draws(active_count(layer_ceil as int), transient_active),
            ),
            forall|i: int|
                0 <= i < LAYER_COUNT ==> #[trigger] final(self).layer_seq()[i] == updated_layer(
                    old(self).layer_seq()[i],
                    i,
                    active_count(layer_ceil as int),
                    transient_active,
                    old(self).rng(),
                    ascii_bank.images@.len() as int,
                ),
    {
        let ghost s0 = self.rng_state;
        let ghost old_layers = self.layers@;
        let ghost bank_len = ascii_bank.images@.len() as int;
        let active: usize = if layer_ceil > 5 {
            5
        } else if layer_ceil < 1 {
            1
        } else {
            layer_ceil
        };
        let ghost a = active as int;

        self.layers.set(
            0,
            LayerState { image_idx: 0, weight_den: 1, time_offset: 0, spatial_offset: (0, 0), pop_highlight: false },
        );

        let mut i: usize = 1;
        while i < active
            invariant
                1 <= i <= active,
                active == a,
                a == active_count(layer_ceil as int),
                1 <= a <= 5,
                a > 1 ==> ascii_bank.images@.len() >= 2,
                bank_len == ascii_bank.images@.len(),
                self.layers@.len() == LAYER_COUNT,
                self.rng_state == lcg_iter(s0, (3 * (i - 1)) as nat),
                forall|j: int| 0 <= j < i ==> #[trigger] self.layers@[j] == updated_layer(
                    old_layers[j], j, a, transient_active, s0, bank_len),
                forall|j: int| i <= j < LAYER_COUNT ==> #[trigger] self.layers@[j] == old_layers[j],
            decreases active - i,
        {
            let image_idx = self.select_overlay_image(ascii_bank);
            proof {
                assert(self.rng_state == lcg_iter(s0, (3 * i - 2) as nat));
            }
            let rx = self.lcg_rand();
            let offset_x = offset_from_draw(rx);
            proof {
                assert(self.rng_state == lcg_iter(s0, (3 * i - 1) as nat));
            }
            let ry = self.lcg_rand();
            let offset_y = offset_from_draw(ry);
            proof {
                assert(self.rng_state == lcg_iter(s0, (3 * i) as nat));
            }
            let layer = LayerState {
                image_idx,
                weight_den: 2 * active as u32,
                time_offset: i as i32 * 5,
                spatial_offset: (offset_x, offset_y),
                pop_highlight: true,
            };
            self.layers.set(i, layer);
            proof {
                assert(self.layers@[i as int] == updated_layer(old_layers[i as int], i as int, a, transient_active, s0, bank_len));
            }
            i = i + 1;
        }

        let mut k: usize = active;
        while k < LAYER_COUNT
            invariant
                active <= k <= LAYER_COUNT,
                active == a,
                self.rng_state == lcg_iter(s0, (3 * (a - 1)) as nat),
                self.layers@.len() == LAYER_COUNT,
                forall|j: int| 0 <= j < a ==> #[trigger] self.layers@[j] == updated_layer(
                    old_layers[j], j, a, transient_active, s0, bank_len),
                forall|j: int| a <= j < k ==> #[trigger] self.layers@[j] == (LayerState {
                    weight_den: 0, pop_highlight: false, ..old_layers[j] }),
                forall|j: int| k <= j < LAYER_COUNT ==> #[trigger] self.layers@[j] == old_layers[j],
            decreases LAYER_COUNT - k,
        {
            let cur = self.layers[k];
            self.layers.set(k, LayerState { weight_den: 0, pop_highlight: false, ..cur });
            k = k + 1;
        }

        if transient_active && active < 5 {
            let temp_idx = active;
            let image_idx = self.select_overlay_image(ascii_bank);
            proof {
                assert(self.rng_state == lcg_iter(s0, (3 * a - 2) as nat));
            }
            let cur = self.layers[temp_idx];
            self.layers.set(
                temp_idx,
                LayerState { image_idx, weight_den: 2, time_offset: 0, pop_highlight: true, ..cur },
            );
        }
    }

    /// The layers, anchor first.
    pub fn layers(&self) -> (r: &[LayerState])
        ensures
            r@ == self.layer_seq(),
    {
        self.layers.as_slice()
    }

    /// Draws an overlay image: uniformly placed among the non-anchor images.
    fn select_overlay_image(&mut self, ascii_bank: &AsciiBank) -> (r: usize)
        requires
            ascii_bank.images@.len() >= 2,
        ensures
            final(self).layers@ == old(self).layers@,
            final(self).rng_state == lcg_next(old(self).rng_state),
            r as int == overlay_image(final(self).rng_state, ascii_bank.images@.len() as int),
            1 <= r < ascii_bank.images@.len(),
    {
        let rand_val = self.lcg_rand();
        let n = ascii_bank.len();
        let idx = ((rand_val as usize) % (n - 1)) + 1;
        if idx < n - 1 {
            idx
        } else {
            n - 1
        }
    }

    /// Advances the generator and returns its new state.
    fn lcg_rand(&mut self) -> (r: u64)
        ensures
            final(self).layers@ == old(self).layers@,
            final(self).rng_state == lcg_next(old(self).rng_state),
            r == final(self).rng_state,
    {
        let next = self.rng_state.wrapping_mul(LCG_MUL).wrapping_add(LCG_INC);
        proof {
            lemma_lcg_step(self.rng_state);
        }
        self.rng_state = next;
        next
    }
}

/// The wrapping multiply-add computes one generator step.
pub(crate) proof fn lemma_lcg_step(s: u64)
    ensures
        vstd::wrapping::u64_specs::wrapping_add(vstd::wrapping::u64_specs::wrapping_mul(s, LCG_MUL), LCG_INC)
            == lcg_next(s),
{
    let m: int = 0x1_0000_0000_0000_0000;
    let p = (s as int * LCG_MUL as int) % m;
    vstd::arithmetic::div_mod::lemma_add_mod_noop(s as int * LCG_MUL as int, LCG_INC as int, m);
    vstd::arithmetic::div_mod::lemma_small_mod(LCG_INC as nat, m as nat);
    vstd::arithmetic::div_mod::lemma_mod_bound(s as int * LCG_MUL as int, m);
    if p + LCG_INC as int >= m {
        vstd::arithmetic::div_mod::lemma_mod_sub_multiples_vanish(p + LCG_INC as int, m);
        vstd::arithmetic::div_mod::lemma_small_mod((p + LCG_INC as int - m) as nat, m as nat);
    } else {
        vstd::arithmetic::div_mod::lemma_small_mod((p + LCG_INC as int) as nat, m as nat);
    }
}

/// Overlay images never repeat the anchor: a draw lands in `1..bank_len`.
proof fn lemma_overlay_image_range(r: u64, bank_len: int)
    requires
        bank_len >= 2,
    ensures
        1 <= overlay_image(r, bank_len) < bank_len,
{
    let v = (r as usize) as int;
    vstd::arithmetic::div_mod::lemma_mod_bound(v, bank_len - 1);
}

/// Offsets drawn for overlays lie in `-5..=4`.
proof fn lemma_overlay_offset_range(r: u64)
    ensures
        -5 <= overlay_offset(r) <= 4,
{
    vstd::arithmetic::div_mod::lemma_mod_bound(low_i32(r), 10);
}

/// After an update, layer 0 is the anchor; every popping layer shows an image of the
/// bank other than the anchor image; every active overlay is offset by `-5..=4` cells
/// on each axis and weighs `1 / (2 * active)`; every layer beyond the active ones has
/// weight 0, except the one a transient respawns at weight 1/2.
pub proof fn law_updated_layers(
    old_layer: LayerState,
    i: int,
    a: int,
    transient_active: bool,
    s0: u64,
    bank_len: int,
)
    requires
        0 <= i < LAYER_COUNT,
        1 <= a <= 5,
        2 <= bank_len <= usize::MAX,
    ensures
        ({
            let l = updated_layer(old_layer, i, a, transient_active, s0, bank_len);
            &&& i == 0 ==> l == anchor_layer()
            &&& l.pop_highlight ==> 1 <= l.image_idx < bank_len
            &&& 1 <= i < a ==> {
                &&& -5 <= l.spatial_offset.0 <= 4
                &&& -5 <= l.spatial_offset.1 <= 4
                &&& l.weight_den == 2 * a
                &&& l.pop_highlight
            }
            &&& i >= a ==> (l.weight_den == 0 || (i == a && spawns_transient(a, transient_active)
                && l.weight_den == 2))
        }),
{
    if 1 <= i < a {
        lemma_overlay_image_range(lcg_iter(s0, (3 * i - 2) as nat), bank_len);
        lemma_overlay_offset_range(lcg_iter(s0, (3 * i - 1) as nat));
        lemma_overlay_offset_range(lcg_iter(s0, (3 * i) as nat));
    } else if i == a && spawns_transient(a, transient_active) {
        lemma_overlay_image_range(lcg_iter(s0, (3 * a - 2) as nat), bank_len);
    }
}

/// A transient with fewer than five active layers respawns the first inactive layer
/// (slot `a`, for `a` active layers) at weight 1/2 with the pop effect, no time offset
/// and a non-anchor image; without a transient every layer from `a` on is inactive.
pub proof fn law_transient_respawns_first_inactive_layer(old_layer: LayerState, a: int, s0: u64, bank_len: int)
    requires
        1 <= a < 5,
        2 <= bank_len <= usize::MAX,
    ensures
        updated_layer(old_layer, a, a, true, s0, bank_len).weight_den == 2,
        updated_layer(old_layer, a, a, true, s0, bank_len).pop_highlight,
        updated_layer(old_layer, a, a, true, s0, bank_len).time_offset == 0,
        1 <= updated_layer(old_layer, a, a, true, s0, bank_len).image_idx < bank_len,
        forall|i: int|
            a <= i < 5 ==> (#[trigger] updated_layer(old_layer, i, a, false, s0, bank_len)).weight_den == 0
                && !updated_layer(old_layer, i, a, false, s0, bank_len).pop_highlight,
        forall|i: int|
            a < i < 5 ==> (#[trigger] updated_layer(old_layer, i, a, true, s0, bank_len)).weight_den == 0,
{
    lemma_overlay_image_range(lcg_iter(s0, (3 * a - 2) as nat), bank_len);
}

/// Casting a draw to `i32` keeps its low 32 bits as a signed value.
proof fn lemma_u64_as_i32(r: u64)
    ensures
        (r as i32) as int == low_i32(r),
{
    let l = r % 0x1_0000_0000;
    assert(l >= 0x8000_0000 ==> (r as i32) as int == l - 0x1_0000_0000) by (bit_vector)
        requires
            l == r % 0x1_0000_0000,
    ;
    assert(l < 0x8000_0000 ==> (r as i32) as int == l) by (bit_vector)
        requires
            l == r % 0x1_0000_0000,
    ;
}

/// Spatial offset from a draw (see [`overlay_offset`]), in `-5..=4`.
fn offset_from_draw(r: u64) -> (o: i32)
    ensures
        o as int == overlay_offset(r),
        -5 <= o <= 4,
{
    proof {
        lemma_u64_as_i32(r);
    }
    let s = r as i32;
    let m = s % 10;
    let e = if m < 0 {
        m + 10
    } else {
        m
    };
    proof {
        let a = s as int;
        if a >= 0 {
            assert(m as int == a % 10);
        } else {
            let k = (-a) % 10;
            vstd::arithmetic::div_mod::lemma_fundamental_div_mod(-a, 10);
            vstd::arithmetic::div_mod::lemma_mod_bound(-a, 10);
            assert(m as int == -k);
            if k == 0 {
                vstd::arithmetic::div_mod::lemma_fundamental_div_mod_converse(a, 10, -((-a) / 10), 0);
            } else {
                vstd::arithmetic::div_mod::lemma_fundamental_div_mod_converse(a, 10, -((-a) / 10) - 1, 10 - k);
            }
        }
        vstd::arithmetic::div_mod::lemma_mod_bound(a, 10);
    }
    e - 5
}

} // verus!

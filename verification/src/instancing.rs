use vstd::prelude::*;
use crate::ascii_bank::{AsciiBank, CHARSET, CHARSET_LEN};
use crate::layer_engine::{active_count, anchor_layer, updated_layer, LayerEngine, LayerState, LAYER_COUNT};

verus! {

/// How a placed glyph is drawn.
#[derive(Clone, Copy, Debug, PartialEq, Eq, Structural)]
pub enum Emphasis {
    /// Normal scale at full opacity (the anchor layer).
    Full,
    /// The pop effect: enlarged and slightly transparent.
    Pop,
    /// Normal scale at the layer's opacity `1 / weight_den`.
    Faded(u32),
}

/// One glyph to draw: grid cell, glyph index, emphasis and animation offset.
#[derive(Clone, Copy, Debug)]
pub struct GlyphPlacement {
    /// Grid cell `(x, y)`.
    pub position: (i32, i32),
    /// Glyph index (the character code for ASCII, 32 otherwise).
    pub glyph_idx: u32,
    /// How the glyph is drawn.
    pub emphasis: Emphasis,
    /// Time offset of the layer the glyph comes from.
    pub time_offset: i32,
}

/// Glyph index of a character: its code when it is ASCII, else 32 (space).
pub open spec fn glyph_index(c: char) -> u32 {
    if (c as u32) < 128 {
        c as u32
    } else {
        32
    }
}

/// Maps a character to its glyph index: printable ASCII maps to its own code, anything
/// else to the space glyph.
pub fn char_to_glyph_idx(c: char) -> (r: u32)
    ensures
        r == glyph_index(c),
        r < 128,
{
    let code = c as u32;
    if code < 128 {
        code
    } else {
        32
    }
}

/// Character shown at grid cell `(grid_x, grid_y)` by an image shifted by `spatial_offset`:
/// `None` for an unknown image, a cell outside the grid, or a source cell outside the
/// bank's images; else the charset character of the source cell (space for an index
/// beyond the charset).
pub open spec fn grid_char(
    image_idx: int,
    grid_x: int,
    grid_y: int,
    spatial_offset: (i32, i32),
    bank: AsciiBank,
    grid_width: u32,
    grid_height: u32,
) -> Option<char> {
    if image_idx >= bank.images@.len() {
        None
    } else if grid_x < 0 || grid_y < 0 || grid_x >= (grid_width as i32) as int || grid_y >= (grid_height
        as i32) as int {
        None
    } else {
        let src_x = grid_x + spatial_offset.0;
        let src_y = grid_y + spatial_offset.1;
        if src_x < 0 || src_y < 0 || src_x >= (bank.width as i32) as int || src_y >= (bank.height as i32) as int {
            None
        } else {
            let d = bank.cell(image_idx, src_x, src_y) as int;
            if d < CHARSET_LEN {
                Some(CHARSET@[d])
            } else {
                Some(' ')
            }
        }
    }
}

/// Shifting a visible cell by the offset stays within `i32`.
pub open spec fn shift_fits(grid_x: int, grid_y: int, spatial_offset: (i32, i32)) -> bool {
    &&& grid_x + spatial_offset.0 <= i32::MAX
    &&& grid_y + spatial_offset.1 <= i32::MAX
}

/// Character at a grid position from an image of the bank, after applying the spatial
/// offset and clipping to the grid and to the image.
pub fn get_grid_char(
    image_idx: usize,
    grid_x: i32,
    grid_y: i32,
    spatial_offset: (i32, i32),
    ascii_bank: &AsciiBank,
    grid_width: u32,
    grid_height: u32,
) -> (r: Option<char>)
    requires
        ascii_bank.wf(),
        (image_idx < ascii_bank.images@.len() && 0 <= grid_x < (grid_width as i32) && 0 <= grid_y < (
        grid_height as i32)) ==> shift_fits(grid_x as int, grid_y as int, spatial_offset),
    ensures
        r == grid_char(
            image_idx as int,
            grid_x as int,
            grid_y as int,
            spatial_offset,
            *ascii_bank,
            grid_width,
            grid_height,
        ),
{
    if image_idx >= ascii_bank.len() {
        return None;
    }
    if grid_x < 0 || grid_y < 0 || grid_x >= grid_width as i32 || grid_y >= grid_height as i32 {
        return None;
    }
    let src_x = grid_x + spatial_offset.0;
    let src_y = grid_y + spatial_offset.1;
    if src_x < 0 || src_y < 0 || src_x >= ascii_bank.width as i32 || src_y >= ascii_bank.height as i32 {
        return None;
    }
    let density_idx = ascii_bank.get_cell(image_idx, src_x as usize, src_y as usize) as usize;
    if density_idx < CHARSET_LEN {
        Some(CHARSET[density_idx])
    } else {
        Some(' ')
    }
}


/// A placement at grid cell `(x, y)` for character `c`.
pub open spec fn placement(x: int, y: int, c: char, emphasis: Emphasis, time_offset: i32) -> GlyphPlacement {
    GlyphPlacement { position: (x as i32, y as i32), glyph_idx: glyph_index(c), emphasis, time_offset }
}

/// The glyph the anchor layer contributes at grid cell `(x, y)`: one at full emphasis
/// wherever the anchor image shows a character.
pub open spec fn anchor_instances(layer: LayerState, x: int, y: int, bank: AsciiBank, gw: u32, gh: u32) -> Seq<
    GlyphPlacement,
> {
    let gx = (x as i32) as int;
    let gy = (y as i32) as int;
    match grid_char(layer.image_idx as int, gx, gy, layer.spatial_offset, bank, gw, gh) {
        Some(c) => seq![placement(gx, gy, c, Emphasis::Full, layer.time_offset)],
        None => seq![],
    }
}

/// The glyph an overlay layer contributes at grid cell `(x, y)`: nothing when the layer
/// is inactive (weight 0) or shows nothing there, nothing for a space unless the layer
/// pops; else one glyph, popped or at the layer's weight.
pub open spec fn layer_instances(layer: LayerState, x: int, y: int, bank: AsciiBank, gw: u32, gh: u32) -> Seq<
    GlyphPlacement,
> {
    let gx = (x as i32) as int;
    let gy = (y as i32) as int;
    if layer.weight_den == 0 {
        seq![]
    } else {
        match grid_char(layer.image_idx as int, gx, gy, layer.spatial_offset, bank, gw, gh) {
            Some(c) => if c == ' ' && !layer.pop_highlight {
                seq![]
            } else {
                let e = if layer.pop_highlight {
                    Emphasis::Pop
                } else {
                    Emphasis::Faded(layer.weight_den)
                };
                seq![placement(gx, gy, c, e, layer.time_offset)]
            },
            None => seq![],
        }
    }
}

/// Glyphs of overlay layers `1..upto` at grid cell `(x, y)`, in layer order.
pub open spec fn overlay_instances(
    layers: Seq<LayerState>,
    x: int,
    y: int,
    bank: AsciiBank,
    gw: u32,
    gh: u32,
    upto: int,
) -> Seq<GlyphPlacement>
    decreases upto,
{
    if upto <= 1 {
        seq![]
    } else {
        overlay_instances(layers, x, y, bank, gw, gh, upto - 1) + layer_instances(
            layers[upto - 1],
            x,
            y,
            bank,
            gw,
            gh,
        )
    }
}

/// All glyphs at grid cell `(x, y)`: the anchor's, then each overlay's.
pub open spec fn cell_instances(layers: Seq<LayerState>, x: int, y: int, bank: AsciiBank, gw: u32, gh: u32) -> Seq<
    GlyphPlacement,
> {
    anchor_instances(layers[0], x, y, bank, gw, gh) + overlay_instances(layers, x, y, bank, gw, gh, layers.len() as int)
}

/// Glyphs of cells `0..upto` of row `y`, left to right.
pub open spec fn row_instances(layers: Seq<LayerState>, y: int, upto: int, bank: AsciiBank, gw: u32, gh: u32) -> Seq<
    GlyphPlacement,
>
    decreases upto,
{
    if upto <= 0 {
        seq![]
    } else {
        row_instances(layers, y, upto - 1, bank, gw, gh) + cell_instances(layers, upto - 1, y, bank, gw, gh)
    }
}

/// Glyphs of rows `0..upto`, top to bottom.
pub open spec fn frame_instances(layers: Seq<LayerState>, upto: int, bank: AsciiBank, gw: u32, gh: u32) -> Seq<
    GlyphPlacement,
>
    decreases upto,
{
    if upto <= 0 {
        seq![]
    } else {
        frame_instances(layers, upto - 1, bank, gw, gh) + row_instances(layers, upto - 1, gw as int, bank, gw, gh)
    }
}

/// A layer that is read while drawing can be shifted from every visible cell without
/// leaving `i32`.
pub open spec fn layer_fits(layer: LayerState, bank_len: int, gw: u32, gh: u32) -> bool {
    (layer.image_idx < bank_len && 0 < (gw as i32) && 0 < (gh as i32)) ==> shift_fits(
        (gw as i32) - 1,
        (gh as i32) - 1,
        layer.spatial_offset,
    )
}

/// Every layer that drawing reads (the anchor, and each overlay of nonzero weight) fits.
pub open spec fn layers_fit(layers: Seq<LayerState>, bank_len: int, gw: u32, gh: u32) -> bool {
    forall|i: int|
        0 <= i < layers.len() && (i == 0 || layers[i].weight_den != 0) ==> #[trigger] layer_fits(
            layers[i],
            bank_len,
            gw,
            gh,
        )
}

/// A placement lies on the visible grid and uses an ASCII glyph.
pub open spec fn placement_in_grid(p: GlyphPlacement, gw: u32, gh: u32) -> bool {
    &&& 0 <= p.position.0 < (gw as i32)
    &&& 0 <= p.position.1 < (gh as i32)
    &&& p.glyph_idx < 128
}

proof fn lemma_glyph_index_ascii(c: char)
    ensures
        glyph_index(c) < 128,
{
}

proof fn lemma_overlay_bounds(
    layers: Seq<LayerState>,
    x: int,
    y: int,
    bank: AsciiBank,
    gw: u32,
    gh: u32,
    upto: int,
)
    ensures
        overlay_instances(layers, x, y, bank, gw, gh, upto).len() <= if upto > 1 { upto - 1 } else { 0 },
        forall|k: int|
            0 <= k < overlay_instances(layers, x, y, bank, gw, gh, upto).len() ==> placement_in_grid(
                #[trigger] overlay_instances(layers, x, y, bank, gw, gh, upto)[k],
                gw,
                gh,
            ),
    decreases upto,
{
    if upto > 1 {
        lemma_overlay_bounds(layers, x, y, bank, gw, gh, upto - 1);
        let prev = overlay_instances(layers, x, y, bank, gw, gh, upto - 1);
        let last = layer_instances(layers[upto - 1], x, y, bank, gw, gh);
        assert(overlay_instances(layers, x, y, bank, gw, gh, upto) == prev + last);
        assert forall|k: int| 0 <= k < last.len() implies placement_in_grid(#[trigger] last[k], gw, gh) by {
            let c = grid_char(
                layers[upto - 1].image_idx as int,
                (x as i32) as int,
                (y as i32) as int,
                layers[upto - 1].spatial_offset,
                bank,
                gw,
                gh,
            )->Some_0;
            lemma_glyph_index_ascii(c);
        }
        assert forall|k: int| 0 <= k < (prev + last).len() implies placement_in_grid(#[trigger] (prev + last)[k], gw, gh) by {
            if k < prev.len() {
                assert((prev + last)[k] == prev[k]);
            } else {
                assert((prev + last)[k] == last[k - prev.len()]);
            }
        }
    }
}

/// Every glyph placed at a cell lies on the grid and is ASCII, and a cell holds at
/// most one glyph per layer.
pub proof fn law_cell_instances_bounded(layers: Seq<LayerState>, x: int, y: int, bank: AsciiBank, gw: u32, gh: u32)
    requires
        layers.len() >= 1,
    ensures
        cell_instances(layers, x, y, bank, gw, gh).len() <= layers.len(),
        forall|k: int|
            0 <= k < cell_instances(layers, x, y, bank, gw, gh).len() ==> placement_in_grid(
                #[trigger] cell_instances(layers, x, y, bank, gw, gh)[k],
                gw,
                gh,
            ),
{
    let a = anchor_instances(layers[0], x, y, bank, gw, gh);
    let o = overlay_instances(layers, x, y, bank, gw, gh, layers.len() as int);
    lemma_overlay_bounds(layers, x, y, bank, gw, gh, layers.len() as int);
    assert forall|k: int| 0 <= k < a.len() implies placement_in_grid(#[trigger] a[k], gw, gh) by {
        let c = grid_char(
            layers[0].image_idx as int,
            (x as i32) as int,
            (y as i32) as int,
            layers[0].spatial_offset,
            bank,
            gw,
            gh,
        )->Some_0;
        lemma_glyph_index_ascii(c);
    }
    assert forall|k: int| 0 <= k < (a + o).len() implies placement_in_grid(#[trigger] (a + o)[k], gw, gh) by {
        if k < a.len() {
            assert((a + o)[k] == a[k]);
        } else {
            assert((a + o)[k] == o[k - a.len()]);
        }
    }
}

proof fn lemma_row_bounds(layers: Seq<LayerState>, y: int, upto: int, bank: AsciiBank, gw: u32, gh: u32)
    requires
        layers.len() >= 1,
        upto >= 0,
    ensures
        row_instances(layers, y, upto, bank, gw, gh).len() <= upto * layers.len(),
        forall|k: int|
            0 <= k < row_instances(layers, y, upto, bank, gw, gh).len() ==> placement_in_grid(
                #[trigger] row_instances(layers, y, upto, bank, gw, gh)[k],
                gw,
                gh,
            ),
    decreases upto,
{
    if upto > 0 {
        lemma_row_bounds(layers, y, upto - 1, bank, gw, gh);
        law_cell_instances_bounded(layers, upto - 1, y, bank, gw, gh);
        let prev = row_instances(layers, y, upto - 1, bank, gw, gh);
        let last = cell_instances(layers, upto - 1, y, bank, gw, gh);
        assert((upto - 1) * layers.len() + layers.len() == upto * layers.len()) by (nonlinear_arith);
        assert forall|k: int| 0 <= k < (prev + last).len() implies placement_in_grid(#[trigger] (prev + last)[k], gw, gh) by {
            if k < prev.len() {
                assert((prev + last)[k] == prev[k]);
            } else {
                assert((prev + last)[k] == last[k - prev.len()]);
            }
        }
    }
}

proof fn lemma_frame_bounds(layers: Seq<LayerState>, upto: int, bank: AsciiBank, gw: u32, gh: u32)
    requires
        layers.len() >= 1,
        upto >= 0,
    ensures
        frame_instances(layers, upto, bank, gw, gh).len() <= upto * (gw * layers.len()),
        forall|k: int|
            0 <= k < frame_instances(layers, upto, bank, gw, gh).len() ==> placement_in_grid(
                #[trigger] frame_instances(layers, upto, bank, gw, gh)[k],
                gw,
                gh,
            ),
    decreases upto,
{
    if upto > 0 {
        lemma_frame_bounds(layers, upto - 1, bank, gw, gh);
        lemma_row_bounds(layers, upto - 1, gw as int, bank, gw, gh);
        let prev = frame_instances(layers, upto - 1, bank, gw, gh);
        let last = row_instances(layers, upto - 1, gw as int, bank, gw, gh);
        assert((upto - 1) * (gw * layers.len()) + gw * layers.len() == upto * (gw * layers.len())) by (nonlinear_arith);
        assert forall|k: int| 0 <= k < (prev + last).len() implies placement_in_grid(#[trigger] (prev + last)[k], gw, gh) by {
            if k < prev.len() {
                assert((prev + last)[k] == prev[k]);
            } else {
                assert((prev + last)[k] == last[k - prev.len()]);
            }
        }
    }
}

/// A frame holds at most one glyph per layer per grid cell, every glyph lies on the
/// grid, and every glyph is ASCII.
pub proof fn law_frame_instances_bounded(layers: Seq<LayerState>, bank: AsciiBank, gw: u32, gh: u32)
    requires
        layers.len() >= 1,
    ensures
        frame_instances(layers, gh as int, bank, gw, gh).len() <= gw * gh * layers.len(),
        forall|k: int|
            0 <= k < frame_instances(layers, gh as int, bank, gw, gh).len() ==> placement_in_grid(
                #[trigger] frame_instances(layers, gh as int, bank, gw, gh)[k],
                gw,
                gh,
            ),
{
    lemma_frame_bounds(layers, gh as int, bank, gw, gh);
    assert(gh * (gw * layers.len()) == gw * gh * layers.len()) by (nonlinear_arith);
}

proof fn lemma_inactive_overlays_empty(
    layers: Seq<LayerState>,
    x: int,
    y: int,
    bank: AsciiBank,
    gw: u32,
    gh: u32,
    upto: int,
)
    requires
        upto <= layers.len(),
        forall|i: int| 1 <= i < layers.len() ==> (#[trigger] layers[i]).weight_den == 0,
    ensures
        overlay_instances(layers, x, y, bank, gw, gh, upto) == Seq::<GlyphPlacement>::empty(),
    decreases upto,
{
    if upto > 1 {
        lemma_inactive_overlays_empty(layers, x, y, bank, gw, gh, upto - 1);
        assert(layers[upto - 1].weight_den == 0);
        assert(overlay_instances(layers, x, y, bank, gw, gh, upto) =~= Seq::<GlyphPlacement>::empty());
    }
}

/// Overlays of weight 0 contribute nothing: when every overlay is inactive, the glyphs
/// at a cell are exactly the anchor's.
pub proof fn law_inactive_overlays_add_nothing(
    layers: Seq<LayerState>,
    x: int,
    y: int,
    bank: AsciiBank,
    gw: u32,
    gh: u32,
)
    requires
        layers.len() >= 1,
        forall|i: int| 1 <= i < layers.len() ==> (#[trigger] layers[i]).weight_den == 0,
    ensures
        cell_instances(layers, x, y, bank, gw, gh) == anchor_instances(layers[0], x, y, bank, gw, gh),
{
    lemma_inactive_overlays_empty(layers, x, y, bank, gw, gh, layers.len() as int);
    assert(cell_instances(layers, x, y, bank, gw, gh) =~= anchor_instances(layers[0], x, y, bank, gw, gh));
}

/// A quiet update (one active layer, no transient) leaves a frame that shows only the
/// anchor image: every cell holds exactly the anchor layer's glyph, whatever the layers
/// held before.
pub proof fn law_quiet_update_shows_only_the_anchor(
    old_layers: Seq<LayerState>,
    layer_ceil: int,
    s0: u64,
    bank: AsciiBank,
    x: int,
    y: int,
    gw: u32,
    gh: u32,
)
    requires
        old_layers.len() == LAYER_COUNT,
        layer_ceil <= 1,
    ensures
        ({
            let layers = Seq::new(
                LAYER_COUNT as nat,
                |i: int|
                    updated_layer(
                        old_layers[i],
                        i,
                        active_count(layer_ceil),
                        false,
                        s0,
                        bank.images@.len() as int,
                    ),
            );
            cell_instances(layers, x, y, bank, gw, gh) == anchor_instances(anchor_layer(), x, y, bank, gw, gh)
        }),
{
    let layers = Seq::new(
        LAYER_COUNT as nat,
        |i: int| updated_layer(old_layers[i], i, active_count(layer_ceil), false, s0, bank.images@.len() as int),
    );
    assert forall|i: int| 1 <= i < layers.len() implies (#[trigger] layers[i]).weight_den == 0 by {}
    law_inactive_overlays_add_nothing(layers, x, y, bank, gw, gh);
}

/// Placement `p` comes no later than `q` in row-major order: on an earlier row, or on the
/// same row at the same or an earlier column.
pub open spec fn row_major_before(p: GlyphPlacement, q: GlyphPlacement) -> bool {
    p.position.1 < q.position.1 || (p.position.1 == q.position.1 && p.position.0 <= q.position.0)
}

proof fn lemma_overlay_positions(
    layers: Seq<LayerState>,
    x: int,
    y: int,
    bank: AsciiBank,
    gw: u32,
    gh: u32,
    upto: int,
)
    requires
        0 <= x <= i32::MAX,
        0 <= y <= i32::MAX,
    ensures
        forall|k: int|
            0 <= k < overlay_instances(layers, x, y, bank, gw, gh, upto).len() ==> (#[trigger] overlay_instances(
                layers,
                x,
                y,
                bank,
                gw,
                gh,
                upto,
            )[k]).position == (x as i32, y as i32),
    decreases upto,
{
    if upto > 1 {
        lemma_overlay_positions(layers, x, y, bank, gw, gh, upto - 1);
        let prev = overlay_instances(layers, x, y, bank, gw, gh, upto - 1);
        let last = layer_instances(layers[upto - 1], x, y, bank, gw, gh);
        assert forall|k: int| 0 <= k < (prev + last).len() implies (#[trigger] (prev + last)[k]).position == (
        x as i32, y as i32) by {
            if k < prev.len() {
                assert((prev + last)[k] == prev[k]);
            } else {
                assert((prev + last)[k] == last[k - prev.len()]);
            }
        }
    }
}

/// Every glyph placed at cell `(x, y)` sits at `(x, y)`.
proof fn lemma_cell_positions(layers: Seq<LayerState>, x: int, y: int, bank: AsciiBank, gw: u32, gh: u32)
    requires
        layers.len() >= 1,
        0 <= x <= i32::MAX,
        0 <= y <= i32::MAX,
    ensures
        forall|k: int|
            0 <= k < cell_instances(layers, x, y, bank, gw, gh).len() ==> (#[trigger] cell_instances(
                layers,
                x,
                y,
                bank,
                gw,
                gh,
            )[k]).position == (x as i32, y as i32),
{
    let a = anchor_instances(layers[0], x, y, bank, gw, gh);
    let o = overlay_instances(layers, x, y, bank, gw, gh, layers.len() as int);
    lemma_overlay_positions(layers, x, y, bank, gw, gh, layers.len() as int);
    assert forall|k: int| 0 <= k < (a + o).len() implies (#[trigger] (a + o)[k]).position == (x as i32, y as i32) by {
        if k < a.len() {
            assert((a + o)[k] == a[k]);
        } else {
            assert((a + o)[k] == o[k - a.len()]);
        }
    }
}

proof fn lemma_row_order(layers: Seq<LayerState>, y: int, upto: int, bank: AsciiBank, gw: u32, gh: u32)
    requires
        layers.len() >= 1,
        0 <= y <= i32::MAX,
        0 <= upto <= i32::MAX + 1,
    ensures
        forall|k: int|
            0 <= k < row_instances(layers, y, upto, bank, gw, gh).len() ==> {
                &&& (#[trigger] row_instances(layers, y, upto, bank, gw, gh)[k]).position.1 == y
                &&& 0 <= row_instances(layers, y, upto, bank, gw, gh)[k].position.0 < upto
            },
        forall|i: int, j: int|
            0 <= i < j < row_instances(layers, y, upto, bank, gw, gh).len() ==> (#[trigger] row_instances(
                layers,
                y,
                upto,
                bank,
                gw,
                gh,
            )[i]).position.0 <= (#[trigger] row_instances(layers, y, upto, bank, gw, gh)[j]).position.0,
    decreases upto,
{
    if upto > 0 {
        lemma_row_order(layers, y, upto - 1, bank, gw, gh);
        lemma_cell_positions(layers, upto - 1, y, bank, gw, gh);
        let prev = row_instances(layers, y, upto - 1, bank, gw, gh);
        let last = cell_instances(layers, upto - 1, y, bank, gw, gh);
        let all = prev + last;
        assert(row_instances(layers, y, upto, bank, gw, gh) == all);
        assert forall|k: int| 0 <= k < all.len() implies (#[trigger] all[k]).position.1 == y && 0 <= all[k].position.0
            < upto by {
            if k < prev.len() {
                assert(all[k] == prev[k]);
            } else {
                assert(all[k] == last[k - prev.len()]);
            }
        }
        assert forall|i: int, j: int| 0 <= i < j < all.len() implies (#[trigger] all[i]).position.0 <= (
        #[trigger] all[j]).position.0 by {
            if j < prev.len() {
                assert(all[i] == prev[i]);
                assert(all[j] == prev[j]);
            } else if i < prev.len() {
                assert(all[i] == prev[i]);
                assert(all[j] == last[j - prev.len()]);
            } else {
                assert(all[i] == last[i - prev.len()]);
                assert(all[j] == last[j - prev.len()]);
            }
        }
    }
}

proof fn lemma_frame_order(layers: Seq<LayerState>, upto: int, bank: AsciiBank, gw: u32, gh: u32)
    requires
        layers.len() >= 1,
        gw <= i32::MAX,
        0 <= upto <= i32::MAX + 1,
    ensures
        forall|k: int|
            0 <= k < frame_instances(layers, upto, bank, gw, gh).len() ==> 0 <= (#[trigger] frame_instances(
                layers,
                upto,
                bank,
                gw,
                gh,
            )[k]).position.1 < upto,
        forall|i: int, j: int|
            0 <= i < j < frame_instances(layers, upto, bank, gw, gh).len() ==> row_major_before(
                #[trigger] frame_instances(layers, upto, bank, gw, gh)[i],
                #[trigger] frame_instances(layers, upto, bank, gw, gh)[j],
            ),
    decreases upto,
{
    if upto > 0 {
        lemma_frame_order(layers, upto - 1, bank, gw, gh);
        lemma_row_order(layers, upto - 1, gw as int, bank, gw, gh);
        let prev = frame_instances(layers, upto - 1, bank, gw, gh);
        let last = row_instances(layers, upto - 1, gw as int, bank, gw, gh);
        let all = prev + last;
        assert(frame_instances(layers, upto, bank, gw, gh) == all);
        assert forall|k: int| 0 <= k < all.len() implies 0 <= (#[trigger] all[k]).position.1 < upto by {
            if k < prev.len() {
                assert(all[k] == prev[k]);
            } else {
                assert(all[k] == last[k - prev.len()]);
            }
        }
        assert forall|i: int, j: int| 0 <= i < j < all.len() implies row_major_before(
            #[trigger] all[i],
            #[trigger] all[j],
        ) by {
            if j < prev.len() {
                assert(all[i] == prev[i]);
                assert(all[j] == prev[j]);
            } else if i < prev.len() {
                assert(all[i] == prev[i]);
                assert(all[j] == last[j - prev.len()]);
            } else {
                assert(all[i] == last[i - prev.len()]);
                assert(all[j] == last[j - prev.len()]);
            }
        }
    }
}

/// A frame's glyphs come out in row-major order: row by row from the top, and within a
/// row cell by cell from the left (a grid wider or taller than `i32::MAX` wraps its cell
/// coordinates and is left out).
pub proof fn law_frame_instances_row_major(layers: Seq<LayerState>, bank: AsciiBank, gw: u32, gh: u32)
    requires
        layers.len() >= 1,
        gw <= i32::MAX,
        gh <= i32::MAX,
    ensures
        forall|i: int, j: int|
            0 <= i < j < frame_instances(layers, gh as int, bank, gw, gh).len() ==> row_major_before(
                #[trigger] frame_instances(layers, gh as int, bank, gw, gh)[i],
                #[trigger] frame_instances(layers, gh as int, bank, gw, gh)[j],
            ),
{
    lemma_frame_order(layers, gh as int, bank, gw, gh);
}

/// What an active overlay layer (nonzero weight) shows at a visible cell: a layer with
/// the pop effect draws every glyph it places popped, spaces included; a layer without it
/// draws every glyph faded to its own weight and places no spaces.
pub proof fn law_overlay_emphasis(layer: LayerState, x: int, y: int, c: char, bank: AsciiBank, gw: u32, gh: u32)
    requires
        layer.weight_den != 0,
        0 <= x <= i32::MAX,
        0 <= y <= i32::MAX,
    ensures
        layer.pop_highlight ==> forall|k: int|
            0 <= k < layer_instances(layer, x, y, bank, gw, gh).len() ==> (#[trigger] layer_instances(
                layer,
                x,
                y,
                bank,
                gw,
                gh,
            )[k]).emphasis == Emphasis::Pop,
        !layer.pop_highlight ==> forall|k: int|
            0 <= k < layer_instances(layer, x, y, bank, gw, gh).len() ==> (#[trigger] layer_instances(
                layer,
                x,
                y,
                bank,
                gw,
                gh,
            )[k]).emphasis == Emphasis::Faded(layer.weight_den),
        (grid_char(layer.image_idx as int, x, y, layer.spatial_offset, bank, gw, gh) == Some(c)
            && layer.pop_highlight) ==> layer_instances(layer, x, y, bank, gw, gh) == seq![
            GlyphPlacement {
                position: (x as i32, y as i32),
                glyph_idx: glyph_index(c),
                emphasis: Emphasis::Pop,
                time_offset: layer.time_offset,
            },
        ],
        (grid_char(layer.image_idx as int, x, y, layer.spatial_offset, bank, gw, gh) == Some(c)
            && !layer.pop_highlight && c != ' ') ==> layer_instances(layer, x, y, bank, gw, gh) == seq![
            GlyphPlacement {
                position: (x as i32, y as i32),
                glyph_idx: glyph_index(c),
                emphasis: Emphasis::Faded(layer.weight_den),
                time_offset: layer.time_offset,
            },
        ],
        (grid_char(layer.image_idx as int, x, y, layer.spatial_offset, bank, gw, gh) == Some(' ')
            && !layer.pop_highlight) ==> layer_instances(layer, x, y, bank, gw, gh).len() == 0,
{
    assert((x as i32) as int == x);
    assert((y as i32) as int == y);
}

proof fn lemma_overlay_contains(
    layers: Seq<LayerState>,
    x: int,
    y: int,
    bank: AsciiBank,
    gw: u32,
    gh: u32,
    upto: int,
    i: int,
    k: int,
)
    requires
        1 <= i < upto <= layers.len(),
        0 <= k < layer_instances(layers[i], x, y, bank, gw, gh).len(),
    ensures
        overlay_instances(layers, x, y, bank, gw, gh, upto).contains(
            layer_instances(layers[i], x, y, bank, gw, gh)[k],
        ),
    decreases upto,
{
    let prev = overlay_instances(layers, x, y, bank, gw, gh, upto - 1);
    let last = layer_instances(layers[upto - 1], x, y, bank, gw, gh);
    let all = prev + last;
    assert(overlay_instances(layers, x, y, bank, gw, gh, upto) == all);
    if i == upto - 1 {
        assert(all[prev.len() + k] == last[k]);
    } else {
        lemma_overlay_contains(layers, x, y, bank, gw, gh, upto - 1, i, k);
        let j = choose|j: int| 0 <= j < prev.len() && prev[j] == layer_instances(layers[i], x, y, bank, gw, gh)[k];
        assert(all[j] == prev[j]);
    }
}

proof fn lemma_row_contains(
    layers: Seq<LayerState>,
    y: int,
    upto: int,
    bank: AsciiBank,
    gw: u32,
    gh: u32,
    x: int,
    v: GlyphPlacement,
)
    requires
        0 <= x < upto,
        cell_instances(layers, x, y, bank, gw, gh).contains(v),
    ensures
        row_instances(layers, y, upto, bank, gw, gh).contains(v),
    decreases upto,
{
    let prev = row_instances(layers, y, upto - 1, bank, gw, gh);
    let last = cell_instances(layers, upto - 1, y, bank, gw, gh);
    let all = prev + last;
    assert(row_instances(layers, y, upto, bank, gw, gh) == all);
    if x == upto - 1 {
        let j = choose|j: int| 0 <= j < last.len() && last[j] == v;
        assert(all[prev.len() + j] == last[j]);
    } else {
        lemma_row_contains(layers, y, upto - 1, bank, gw, gh, x, v);
        let j = choose|j: int| 0 <= j < prev.len() && prev[j] == v;
        assert(all[j] == prev[j]);
    }
}

proof fn lemma_frame_contains(
    layers: Seq<LayerState>,
    upto: int,
    bank: AsciiBank,
    gw: u32,
    gh: u32,
    y: int,
    v: GlyphPlacement,
)
    requires
        0 <= y < upto,
        row_instances(layers, y, gw as int, bank, gw, gh).contains(v),
    ensures
        frame_instances(layers, upto, bank, gw, gh).contains(v),
    decreases upto,
{
    let prev = frame_instances(layers, upto - 1, bank, gw, gh);
    let last = row_instances(layers, upto - 1, gw as int, bank, gw, gh);
    let all = prev + last;
    assert(frame_instances(layers, upto, bank, gw, gh) == all);
    if y == upto - 1 {
        let j = choose|j: int| 0 <= j < last.len() && last[j] == v;
        assert(all[prev.len() + j] == last[j]);
    } else {
        lemma_frame_contains(layers, upto - 1, bank, gw, gh, y, v);
        let j = choose|j: int| 0 <= j < prev.len() && prev[j] == v;
        assert(all[j] == prev[j]);
    }
}

/// A frame shows every visible glyph of every layer at its cell: the anchor's glyph at
/// full emphasis; the glyph of an active overlay (nonzero weight) with the pop effect
/// popped, spaces included; the non-space glyph of an active overlay without it faded to
/// the overlay's weight. Each keeps its layer's time offset.
pub proof fn law_frame_shows_every_layer(
    layers: Seq<LayerState>,
    i: int,
    x: int,
    y: int,
    c: char,
    bank: AsciiBank,
    gw: u32,
    gh: u32,
)
    requires
        1 <= layers.len(),
        0 <= i < layers.len(),
        0 <= x < gw,
        0 <= y < gh,
        gw <= i32::MAX,
        gh <= i32::MAX,
        grid_char(layers[i].image_idx as int, x, y, layers[i].spatial_offset, bank, gw, gh) == Some(c),
    ensures
        i == 0 ==> frame_instances(layers, gh as int, bank, gw, gh).contains(
            GlyphPlacement {
                position: (x as i32, y as i32),
                glyph_idx: glyph_index(c),
                emphasis: Emphasis::Full,
                time_offset: layers[0].time_offset,
            },
        ),
        (i >= 1 && layers[i].weight_den != 0 && layers[i].pop_highlight) ==> frame_instances(
            layers,
            gh as int,
            bank,
            gw,
            gh,
        ).contains(
            GlyphPlacement {
                position: (x as i32, y as i32),
                glyph_idx: glyph_index(c),
                emphasis: Emphasis::Pop,
                time_offset: layers[i].time_offset,
            },
        ),
        (i >= 1 && layers[i].weight_den != 0 && !layers[i].pop_highlight && c != ' ') ==> frame_instances(
            layers,
            gh as int,
            bank,
            gw,
            gh,
        ).contains(
            GlyphPlacement {
                position: (x as i32, y as i32),
                glyph_idx: glyph_index(c),
                emphasis: Emphasis::Faded(layers[i].weight_den),
                time_offset: layers[i].time_offset,
            },
        ),
{
    assert((x as i32) as int == x);
    assert((y as i32) as int == y);
    let a = anchor_instances(layers[0], x, y, bank, gw, gh);
    let o = overlay_instances(layers, x, y, bank, gw, gh, layers.len() as int);
    let cell = cell_instances(layers, x, y, bank, gw, gh);
    assert(cell == a + o);
    if i == 0 {
        let v = a[0];
        assert(cell[0] == v);
        lemma_row_contains(layers, y, gw as int, bank, gw, gh, x, v);
        lemma_frame_contains(layers, gh as int, bank, gw, gh, y, v);
    } else if layers[i].weight_den != 0 && (layers[i].pop_highlight || c != ' ') {
        let li = layer_instances(layers[i], x, y, bank, gw, gh);
        assert(li.len() == 1);
        let v = li[0];
        lemma_overlay_contains(layers, x, y, bank, gw, gh, layers.len() as int, i, 0);
        let j = choose|j: int| 0 <= j < o.len() && o[j] == v;
        assert(cell[a.len() + j] == o[j]);
        lemma_row_contains(layers, y, gw as int, bank, gw, gh, x, v);
        lemma_frame_contains(layers, gh as int, bank, gw, gh, y, v);
    }
}

/// Glyph placements for one frame, row by row and cell by cell: at every cell the
/// anchor layer's glyph, then each active overlay's non-space glyph (or any glyph
/// when the overlay pops).
pub fn generate_instances(grid_width: u32, grid_height: u32, layer_engine: &LayerEngine, ascii_bank: &AsciiBank) -> (r:
    Vec<GlyphPlacement>)
    requires
        layer_engine.wf(),
        ascii_bank.wf(),
        layers_fit(layer_engine.layer_seq(), ascii_bank.images@.len() as int, grid_width, grid_height),
    ensures
        r@ == frame_instances(layer_engine.layer_seq(), grid_height as int, *ascii_bank, grid_width, grid_height),
{
    let ghost layers = layer_engine.layer_seq();
    let ghost bank = *ascii_bank;
    let all = layer_engine.layers();
    let n = all.len();
    let mut instances: Vec<GlyphPlacement> = Vec::new();
    let mut y: u32 = 0;
    while y < grid_height
        invariant
            all@ == layers,
            n == layers.len(),
            n == 5,
            bank == *ascii_bank,
            ascii_bank.wf(),
            layers_fit(layers, ascii_bank.images@.len() as int, grid_width, grid_height),
            y <= grid_height,
            instances@ == frame_instances(layers, y as int, bank, grid_width, grid_height),
        decreases grid_height - y,
    {
        let mut x: u32 = 0;
        while x < grid_width
            invariant
                all@ == layers,
                n == layers.len(),
                n == 5,
                bank == *ascii_bank,
                ascii_bank.wf(),
                layers_fit(layers, ascii_bank.images@.len() as int, grid_width, grid_height),
                y < grid_height,
                x <= grid_width,
                instances@ == frame_instances(layers, y as int, bank, grid_width, grid_height) + row_instances(
                    layers,
                    y as int,
                    x as int,
                    bank,
                    grid_width,
                    grid_height,
                ),
            decreases grid_width - x,
        {
            let ghost prefix = instances@;
            let anchor = all[0];
            proof {
                assert(layer_fits(layers[0], ascii_bank.images@.len() as int, grid_width, grid_height));
            }
            let a = get_grid_char(
                anchor.image_idx,
                x as i32,
                y as i32,
                anchor.spatial_offset,
                ascii_bank,
                grid_width,
                grid_height,
            );
            match a {
                Some(glyph_char) => {
                    let glyph_idx = char_to_glyph_idx(glyph_char);
                    instances.push(
                        GlyphPlacement {
                            position: (x as i32, y as i32),
                            glyph_idx,
                            emphasis: Emphasis::Full,
                            time_offset: anchor.time_offset,
                        },
                    );
                },
                None => {},
            }
            proof {
                assert(instances@ =~= prefix + anchor_instances(layers[0], x as int, y as int, bank, grid_width, grid_height));
            }
            let mut li: usize = 1;
            while li < n
                invariant
                    all@ == layers,
                    n == layers.len(),
                    n == 5,
                    bank == *ascii_bank,
                    ascii_bank.wf(),
                    layers_fit(layers, ascii_bank.images@.len() as int, grid_width, grid_height),
                    y < grid_height,
                    x < grid_width,
                    1 <= li <= n,
                    instances@ == prefix + anchor_instances(layers[0], x as int, y as int, bank, grid_width, grid_height)
                        + overlay_instances(layers, x as int, y as int, bank, grid_width, grid_height, li as int),
                decreases n - li,
            {
                let ghost before = instances@;
                let layer = all[li];
                if layer.weight_den != 0 {
                    proof {
                        assert(layer_fits(layers[li as int], ascii_bank.images@.len() as int, grid_width, grid_height));
                    }
                    let g = get_grid_char(
                        layer.image_idx,
                        x as i32,
                        y as i32,
                        layer.spatial_offset,
                        ascii_bank,
                        grid_width,
                        grid_height,
                    );
                    match g {
                        Some(glyph_char) => {
                            if glyph_char != ' ' || layer.pop_highlight {
                                let glyph_idx = char_to_glyph_idx(glyph_char);
                                let emphasis = if layer.pop_highlight {
                                    Emphasis::Pop
                                } else {
                                    Emphasis::Faded(layer.weight_den)
                                };
                                instances.push(
                                    GlyphPlacement {
                                        position: (x as i32, y as i32),
                                        glyph_idx,
                                        emphasis,
                                        time_offset: layer.time_offset,
                                    },
                                );
                            }
                        },
                        None => {},
                    }
                }
                proof {
                    assert(instances@ =~= before + layer_instances(layers[li as int], x as int, y as int, bank, grid_width, grid_height));
                }
                li = li + 1;
            }
            proof {
                assert(instances@ =~= frame_instances(layers, y as int, bank, grid_width, grid_height) + row_instances(
                    layers, y as int, x + 1, bank, grid_width, grid_height));
            }
            x = x + 1;
        }
        proof {
            assert(instances@ =~= frame_instances(layers, y + 1, bank, grid_width, grid_height));
        }
        y = y + 1;
    }
    instances
}

} // verus!

use vstd::prelude::*;

verus! {

/// Glyph cells per atlas row.
pub const GLYPHS_PER_ROW: u32 = 10;

/// Side of a glyph cell, in pixels.
pub const GLYPH_SIZE: u32 = 16;

/// Cell sides that [`rasterize_glyph`] draws: the powers of two up to 256.
pub open spec fn supported_glyph_size(size: int) -> bool {
    ||| size == 1
    ||| size == 2
    ||| size == 4
    ||| size == 8
    ||| size == 16
    ||| size == 32
    ||| size == 64
    ||| size == 128
    ||| size == 256
}

/// Distance of pixel coordinate `p` from the cell centre `size / 2` along one axis.
pub open spec fn axis_dist(p: int, size: int) -> int {
    let c = size / 2;
    if p >= c {
        p - c
    } else {
        c - p
    }
}

/// Brightness of pixel (px, py) of a `size`-sided glyph cell: 255 at the centre,
/// falling with the squared distance `d` from it, `floor(255 * (size² - d) / size²)`.
pub open spec fn glyph_brightness(px: int, py: int, size: int) -> int {
    let d = axis_dist(px, size) * axis_dist(px, size) + axis_dist(py, size) * axis_dist(
        py,
        size,
    );
    let m = size * size;
    (255 * (m - d)) / m
}

/// Whether pixel `p` of an atlas `atlas_w` pixels wide lies in the `size`-sided cell whose
/// top-left corner is (x, y).
pub open spec fn pixel_in_cell(p: int, atlas_w: int, x: int, y: int, size: int) -> bool {
    &&& y <= p / atlas_w < y + size
    &&& x <= p % atlas_w < x + size
}

/// Column offset at which row offset `py` of a cell drawn at (x, y) reaches pixel `p`:
/// pixel `(y + py) * atlas_w + x + px` is written for column offset `px`.
pub open spec fn column_for(p: int, atlas_w: int, x: int, y: int, py: int) -> int {
    p - (y + py) * atlas_w - x
}

/// Whether row offset `py` of a `size`-sided cell drawn at (x, y) writes pixel `p`.
pub open spec fn row_writes(p: int, atlas_w: int, x: int, y: int, size: int, py: int) -> bool {
    0 <= column_for(p, atlas_w, x, y, py) < size
}

/// The last of the row offsets `0..k` that writes pixel `p` (-1 when none does). Rows are
/// drawn in order, so this row's value is what the pixel ends up with.
pub open spec fn last_writer_row(p: int, atlas_w: int, x: int, y: int, size: int, k: int) -> int
    decreases k,
{
    if k <= 0 {
        -1
    } else if row_writes(p, atlas_w, x, y, size, k - 1) {
        k - 1
    } else {
        last_writer_row(p, atlas_w, x, y, size, k - 1)
    }
}

/// Byte `j` of an RGBA buffer after the cell at (x, y) was drawn into `old` row by row
/// (pixel index `(y + py) * atlas_w + x + px`, four bytes each): a pixel written by the
/// cell and lying wholly inside the buffer gets the brightness of the last cell position
/// that wrote it in R, G and B and an opaque alpha; every other byte keeps its value.
pub open spec fn rasterized_byte(
    old: Seq<u8>,
    atlas_w: int,
    x: int,
    y: int,
    size: int,
    j: int,
) -> u8 {
    drawn_byte(old, atlas_w, x, y, size, size, 0, j)
}

/// Byte `j` while the cell is being drawn: rows before `row` and, in `row`, the columns
/// before `col` are drawn.
pub open spec fn drawn_byte(
    old: Seq<u8>,
    atlas_w: int,
    x: int,
    y: int,
    size: int,
    row: int,
    col: int,
    j: int,
) -> u8 {
    let p = j / 4;
    let w = if row_writes(p, atlas_w, x, y, size, row) && column_for(p, atlas_w, x, y, row) < col {
        row
    } else {
        last_writer_row(p, atlas_w, x, y, size, row)
    };
    if w >= 0 && 4 * p + 3 < old.len() {
        if j % 4 == 3 {
            255
        } else {
            glyph_brightness(column_for(p, atlas_w, x, y, w), w, size) as u8
        }
    } else {
        old[j]
    }
}

proof fn lemma_brightness_bounds(px: int, py: int, size: int)
    requires
        supported_glyph_size(size),
        0 <= px < size,
        0 <= py < size,
    ensures
        0 <= axis_dist(px, size) <= size / 2,
        0 <= axis_dist(py, size) <= size / 2,
        0 <= glyph_brightness(px, py, size) <= 255,
        2 * (axis_dist(px, size) * axis_dist(px, size) + axis_dist(py, size) * axis_dist(
            py,
            size,
        )) <= size * size,
{
    let c = size / 2;
    let dx = axis_dist(px, size);
    let dy = axis_dist(py, size);
    assert(2 * c <= size);
    assert(dx * dx <= c * c) by (nonlinear_arith)
        requires
            0 <= dx <= c,
    ;
    assert(dy * dy <= c * c) by (nonlinear_arith)
        requires
            0 <= dy <= c,
    ;
    assert(4 * (c * c) <= size * size) by (nonlinear_arith)
        requires
            0 <= 2 * c <= size,
    ;
    let d = dx * dx + dy * dy;
    let m = size * size;
    assert(0 <= d) by (nonlinear_arith)
        requires
            d == dx * dx + dy * dy,
    ;
    assert(0 <= (255 * (m - d)) / m <= 255) by (nonlinear_arith)
        requires
            0 <= d,
            2 * d <= m,
            m > 0,
    ;
}

/// Brightness of pixel (px, py) of a glyph cell, as [`glyph_brightness`] defines it.
fn pixel_brightness(px: u32, py: u32, size: u32) -> (r: u8)
    requires
        supported_glyph_size(size as int),
        px < size,
        py < size,
    ensures
        r as int == glyph_brightness(px as int, py as int, size as int),
{
    proof {
        lemma_brightness_bounds(px as int, py as int, size as int);
    }
    let c = size / 2;
    let dx: u64 = if px >= c {
        (px - c) as u64
    } else {
        (c - px) as u64
    };
    let dy: u64 = if py >= c {
        (py - c) as u64
    } else {
        (c - py) as u64
    };
    let m: u64 = size as u64 * size as u64;
    assert(m <= 65536) by (nonlinear_arith)
        requires
            m == size * size,
            size <= 256,
    ;
    assert(m >= 1) by (nonlinear_arith)
        requires
            m == size * size,
            size >= 1,
    ;
    let d: u64 = dx * dx + dy * dy;
    let v: u64 = (255 * (m - d)) / m;
    v as u8
}

/// Draws the `size`-sided glyph cell whose top-left corner is (x, y) into `data`, an RGBA
/// texture `atlas_w` pixels wide, row by row: every pixel of the cell that lies wholly
/// inside `data` gets the cell brightness in R, G and B and an opaque alpha (see
/// [`rasterized_byte`]; a cell wider than the space left in its row wraps into the next).
///
/// The cell side is limited to the powers of two up to 256 ([`supported_glyph_size`]). The
/// integer formula [`glyph_brightness`] equals the `f32` computation
/// `(1 - d / size²) * 255` truncated to a byte exactly for these sides: every step of it is
/// exact in `f32` (the divisor is a power of two and every intermediate value has fewer than
/// 24 significant bits). For other sides the `f32` rounding can differ from the integer
/// formula (a side of 17 is one example), so this function does not draw them. The atlas
/// uses 16.
pub fn rasterize_glyph(data: &mut [u8], atlas_w: u32, x: u32, y: u32, size: u32)
    requires
        supported_glyph_size(size as int),
        x + size - 1 <= u32::MAX,
        y + size - 1 <= u32::MAX,
        (y + size - 1) * atlas_w + x + size - 1 <= u32::MAX,
    ensures
        final(data)@.len() == old(data)@.len(),
        forall|j: int|
            0 <= j < old(data)@.len() ==> #[trigger] final(data)@[j] == rasterized_byte(
                old(data)@,
                atlas_w as int,
                x as int,
                y as int,
                size as int,
                j,
            ),
{
    let ghost orig = data@;
    let ghost w = atlas_w as int;
    let mut py: u32 = 0;
    while py < size
        invariant
            supported_glyph_size(size as int),
            x + size - 1 <= u32::MAX,
            y + size - 1 <= u32::MAX,
            (y + size - 1) * atlas_w + x + size - 1 <= u32::MAX,
            orig == old(data)@,
            w == atlas_w,
            py <= size,
            data@.len() == orig.len(),
            forall|j: int|
                0 <= j < orig.len() ==> #[trigger] data@[j] == drawn_byte(
                    orig,
                    w,
                    x as int,
                    y as int,
                    size as int,
                    py as int,
                    0,
                    j,
                ),
        decreases size - py,
    {
        let mut px: u32 = 0;
        while px < size
            invariant
                supported_glyph_size(size as int),
                x + size - 1 <= u32::MAX,
                y + size - 1 <= u32::MAX,
                (y + size - 1) * atlas_w + x + size - 1 <= u32::MAX,
                orig == old(data)@,
                w == atlas_w,
                py < size,
                px <= size,
                data@.len() == orig.len(),
                forall|j: int|
                    0 <= j < orig.len() ==> #[trigger] data@[j] == drawn_byte(
                        orig,
                        w,
                        x as int,
                        y as int,
                        size as int,
                        py as int,
                        px as int,
                        j,
                    ),
            decreases size - px,
        {
            proof {
                lemma_pixel_index_fits(x as int, y as int, px as int, py as int, w, size as int);
            }
            let pos: u32 = (y + py) * atlas_w + (x + px);
            let p4: u64 = pos as u64 * 4;
            let ghost before = data@;
            if p4 + 3 < data.len() as u64 {
                let b = pixel_brightness(px, py, size);
                let i = p4 as usize;
                data[i] = b;
                data[i + 1] = b;
                data[i + 2] = b;
                data[i + 3] = 255;
            }
            proof {
                lemma_draw_step(orig, before, data@, w, x as int, y as int, size as int, py as int, px as int);
            }
            px = px + 1;
        }
        proof {
            assert forall|j: int| 0 <= j < orig.len() implies drawn_byte(
                orig,
                w,
                x as int,
                y as int,
                size as int,
                py as int,
                size as int,
                j,
            ) == drawn_byte(orig, w, x as int, y as int, size as int, py + 1, 0, j) by {}
        }
        py = py + 1;
    }
}

proof fn lemma_pixel_index_fits(x: int, y: int, px: int, py: int, w: int, size: int)
    requires
        0 <= x,
        0 <= y,
        0 <= w,
        0 <= px < size,
        0 <= py < size,
        x + size - 1 <= u32::MAX,
        y + size - 1 <= u32::MAX,
        (y + size - 1) * w + x + size - 1 <= u32::MAX,
    ensures
        0 <= (y + py) * w + (x + px) <= u32::MAX,
        (y + py) * w <= u32::MAX,
        y + py <= u32::MAX,
        x + px <= u32::MAX,
{
    assert((y + py) * w <= (y + size - 1) * w) by (nonlinear_arith)
        requires
            y + py <= y + size - 1,
            0 <= w,
    ;
    assert(0 <= (y + py) * w) by (nonlinear_arith)
        requires
            0 <= y + py,
            0 <= w,
    ;
}

proof fn lemma_draw_step(
    orig: Seq<u8>,
    before: Seq<u8>,
    after: Seq<u8>,
    w: int,
    x: int,
    y: int,
    size: int,
    py: int,
    px: int,
)
    requires
        supported_glyph_size(size),
        0 <= x,
        0 <= y,
        0 <= w,
        0 <= px < size,
        0 <= py < size,
        before.len() == orig.len(),
        forall|j: int|
            0 <= j < orig.len() ==> #[trigger] before[j] == drawn_byte(
                orig,
                w,
                x,
                y,
                size,
                py,
                px,
                j,
            ),
        ({
            let p0 = (y + py) * w + (x + px);
            if 4 * p0 + 3 < before.len() {
                after == before.update(4 * p0, glyph_brightness(px, py, size) as u8).update(
                    4 * p0 + 1,
                    glyph_brightness(px, py, size) as u8,
                ).update(4 * p0 + 2, glyph_brightness(px, py, size) as u8).update(4 * p0 + 3, 255)
            } else {
                after == before
            }
        }),
    ensures
        after.len() == orig.len(),
        forall|j: int|
            0 <= j < orig.len() ==> #[trigger] after[j] == drawn_byte(
                orig,
                w,
                x,
                y,
                size,
                py,
                px + 1,
                j,
            ),
{
    let p0 = (y + py) * w + (x + px);
    assert forall|j: int| 0 <= j < orig.len() implies #[trigger] after[j] == drawn_byte(
        orig,
        w,
        x,
        y,
        size,
        py,
        px + 1,
        j,
    ) by {
        let p = j / 4;
        assert(column_for(p, w, x, y, py) == p - (y + py) * w - x);
        if p == p0 {
            assert(column_for(p, w, x, y, py) == px);
            assert(4 * p0 <= j < 4 * p0 + 4);
        } else {
            assert(column_for(p, w, x, y, py) != px);
            assert(before[j] == drawn_byte(orig, w, x, y, size, py, px, j));
            if 4 * p0 + 3 < before.len() {
                assert(!(4 * p0 <= j < 4 * p0 + 4));
            }
        }
    }
}

/// When a cell fits in its atlas row, the pixels it writes are exactly those of the cell
/// (see [`pixel_in_cell`]), each written once, at the column and row offsets of the
/// pixel within the cell.
proof fn lemma_last_writer_in_row(p: int, w: int, x: int, y: int, size: int, k: int)
    requires
        0 <= p,
        0 <= x,
        0 <= y,
        1 <= size,
        x + size <= w,
        0 <= k <= size,
    ensures
        last_writer_row(p, w, x, y, size, k) == if pixel_in_cell(p, w, x, y, size) && p / w - y < k {
            p / w - y
        } else {
            -1
        },
        pixel_in_cell(p, w, x, y, size) ==> column_for(p, w, x, y, p / w - y) == p % w - x,
    decreases k,
{
    vstd::arithmetic::div_mod::lemma_fundamental_div_mod(p, w);
    assert(w * (p / w) == (p / w) * w) by (nonlinear_arith);
    if k > 0 {
        lemma_last_writer_in_row(p, w, x, y, size, k - 1);
        let py = k - 1;
        if row_writes(p, w, x, y, size, py) {
            let c = column_for(p, w, x, y, py);
            assert(p == (y + py) * w + (x + c));
            vstd::arithmetic::div_mod::lemma_fundamental_div_mod_converse(p, w, y + py, x + c);
        } else if pixel_in_cell(p, w, x, y, size) && p / w - y == py {
            assert(column_for(p, w, x, y, py) == p % w - x);
        }
    }
}

/// Number of glyph rows of an atlas that holds `n` glyphs.
pub open spec fn atlas_rows(n: int) -> int {
    (n + GLYPHS_PER_ROW - 1) / GLYPHS_PER_ROW as int
}

/// Width of the atlas in pixels.
pub open spec fn atlas_width() -> int {
    GLYPHS_PER_ROW * GLYPH_SIZE
}

/// Height of the atlas for `n` glyphs, in pixels.
pub open spec fn atlas_height(n: int) -> int {
    atlas_rows(n) * GLYPH_SIZE
}

/// Index of the glyph whose cell holds pixel `p` of the atlas (row-major cells).
pub open spec fn glyph_at_pixel(p: int) -> int {
    ((p / atlas_width()) / GLYPH_SIZE as int) * GLYPHS_PER_ROW + (p % atlas_width())
        / GLYPH_SIZE as int
}

/// Byte `j` of the atlas texture when the glyphs before `done` have been drawn: a pixel in
/// the cell of such a glyph has the cell brightness in R, G and B and an opaque alpha,
/// every other byte is 0.
pub open spec fn atlas_byte(done: int, j: int) -> u8 {
    let p = j / 4;
    if glyph_at_pixel(p) < done {
        if j % 4 == 3 {
            255
        } else {
            glyph_brightness(
                (p % atlas_width()) % GLYPH_SIZE as int,
                (p / atlas_width()) % GLYPH_SIZE as int,
                GLYPH_SIZE as int,
            ) as u8
        }
    } else {
        0
    }
}

/// Whether an atlas of `n` glyphs has a byte count that fits in a `u32`.
pub open spec fn atlas_fits(n: int) -> bool {
    atlas_width() * atlas_height(n) * 4 <= u32::MAX
}

/// Width and height of the atlas texture for `charset_len` glyphs: ten 16-pixel cells per
/// row, and as many rows as the glyphs need.
pub fn atlas_dimensions(charset_len: usize) -> (r: (u32, u32))
    requires
        atlas_fits(charset_len as int),
    ensures
        r.0 == atlas_width(),
        r.1 == atlas_height(charset_len as int),
{
    let rows: usize = charset_len / 10 + if charset_len % 10 == 0 {
        0
    } else {
        1
    };
    assert(rows == atlas_rows(charset_len as int));
    assert(rows * 16 <= u32::MAX) by (nonlinear_arith)
        requires
            160 * (rows * 16) * 4 <= u32::MAX,
    ;
    (GLYPHS_PER_ROW * GLYPH_SIZE, (rows * 16) as u32)
}

/// The RGBA texture of the glyph atlas for `charset_len` glyphs: glyph `i` is drawn with
/// [`rasterize_glyph`] into the cell at column `i % 10`, row `i / 10`; pixels outside every
/// glyph cell are transparent black.
pub fn atlas_texture(charset_len: usize) -> (r: Vec<u8>)
    requires
        atlas_fits(charset_len as int),
    ensures
        r@.len() == atlas_width() * atlas_height(charset_len as int) * 4,
        forall|j: int| 0 <= j < r@.len() ==> #[trigger] r@[j] == atlas_byte(charset_len as int, j),
{
    let (w, h) = atlas_dimensions(charset_len);
    let total: usize = (w * h * 4) as usize;
    let mut texture: Vec<u8> = Vec::new();
    while texture.len() < total
        invariant
            texture@.len() <= total,
            forall|j: int| 0 <= j < texture@.len() ==> #[trigger] texture@[j] == 0u8,
        decreases total - texture@.len(),
    {
        texture.push(0);
    }
    assert forall|j: int| 0 <= j < texture@.len() implies #[trigger] texture@[j] == atlas_byte(0, j) by {
        lemma_glyph_index_nonneg(j);
    }
    let mut i: usize = 0;
    while i < charset_len
        invariant
            i <= charset_len,
            w == atlas_width(),
            h == atlas_height(charset_len as int),
            atlas_fits(charset_len as int),
            total == w * h * 4,
            texture@.len() == total,
            forall|j: int| 0 <= j < texture@.len() ==> #[trigger] texture@[j] == atlas_byte(i as int, j),
        decreases charset_len - i,
    {
        let gx: u32 = (i % 10) as u32 * GLYPH_SIZE;
        let gy: u32 = (i / 10) as u32 * GLYPH_SIZE;
        proof {
            lemma_cell_fits(i as int, charset_len as int);
        }
        let ghost before = texture@;
        rasterize_glyph(texture.as_mut_slice(), w, gx, gy, GLYPH_SIZE);
        proof {
            assert forall|j: int| 0 <= j < texture@.len() implies #[trigger] texture@[j] == atlas_byte(
                i + 1,
                j,
            ) by {
                lemma_cell_step(before, i as int, j, total as int);
            }
        }
        i = i + 1;
    }
    texture
}

proof fn lemma_glyph_index_nonneg(j: int)
    requires
        0 <= j,
    ensures
        glyph_at_pixel(j / 4) >= 0,
{
}

proof fn lemma_cell_fits(i: int, n: int)
    requires
        0 <= i < n,
        atlas_fits(n),
    ensures
        (i / 10 * 16 + 16) * 160 <= u32::MAX,
        i / 10 * 16 <= u32::MAX,
        i % 10 * 16 + 16 <= 160,
{
    assert(i / 10 < atlas_rows(n));
    assert((i / 10 * 16 + 16) * 160 <= atlas_height(n) * 160) by (nonlinear_arith)
        requires
            i / 10 + 1 <= atlas_rows(n),
            atlas_height(n) == atlas_rows(n) * 16,
    ;
    assert(atlas_width() == 160);
    assert(atlas_height(n) * 160 <= u32::MAX) by (nonlinear_arith)
        requires
            160 * atlas_height(n) * 4 <= u32::MAX,
            atlas_height(n) >= 0,
    ;
}

proof fn lemma_cell_step(before: Seq<u8>, i: int, j: int, total: int)
    requires
        0 <= i,
        0 <= j < total,
        total % 4 == 0,
        before.len() == total,
        before[j] == atlas_byte(i, j),
    ensures
        rasterized_byte(before, 160, i % 10 * 16, i / 10 * 16, 16, j) == atlas_byte(i + 1, j),
{
    let p = j / 4;
    let row = p / 160;
    let col = p % 160;
    assert(4 * p + 3 < total);
    assert(0 <= col < 160);
    assert(row >= 0);
    let in_cell = pixel_in_cell(p, 160, i % 10 * 16, i / 10 * 16, 16);
    lemma_last_writer_in_row(p, 160, i % 10 * 16, i / 10 * 16, 16, 16);
    assert(in_cell <==> glyph_at_pixel(p) == i);
    if in_cell {
        assert(col - i % 10 * 16 == col % 16);
        assert(row - i / 10 * 16 == row % 16);
    }
}

} // verus!

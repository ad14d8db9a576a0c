use vstd::prelude::*;

verus! {

/// Number of glyphs in [`CHARSET`].
pub const CHARSET_LEN: usize = 127;

/// Ordered charset: index 0 is the lightest glyph (space), later entries get denser.
/// The first entries are the plain ASCII characters found in the artwork; they are
/// followed by block elements and box-drawing characters for finer density steps.
pub const CHARSET: [char; 127] = [
    ' ', '.', '\'', '`', ',', ':', ';', '-', '~', '_',
    '!', 'i', 'l', '1', 'I', 'r', 'c', 'v', 'u', 'n',
    'x', 'z', 'j', 'f', 't', 'L', 'C', 'J', 'Y', 'F',
    'o', 'a', 'e', 's', 'y', 'h', 'k', 'd', 'b', 'p',
    'q', 'g', 'S', 'Z', 'w', 'K', 'U', 'X', 'T', 'H',
    'R', 'E', 'D', 'N', 'V', 'A', 'Q', 'P', 'B', 'G',
    'O', 'M', '0', 'W', '^', '/', '|', '\\', '<', '>',
    '(', ')', '+', '=', '[', ']', '{', '}', '*', '%',
    '#', '&', '$', '@',
    '"', 'm', '8',
    '▏', '▎', '▖', '▗', '▘', '▝', '▍', '▚', '▞', '▌',
    '▐', '▄', '▀', '░', '▒', '▓', '▙', '▛', '▜', '▟',
    '▇', '█',
    '─', '│', '┌', '┐', '└', '┘', '├', '┤', '┬', '┴',
    '┼', '═', '║', '╔', '╗', '╚', '╝', '╬',
];

/// Index of `c` in the charset when it occurs there, else 0 (a blank cell).
pub open spec fn spec_char_to_idx(c: char) -> int {
    if CHARSET@.contains(c) { CHARSET@.index_of(c) } else { 0 }
}

/// Maps a character to its charset index. Characters that occur in the charset map
/// to their own position (artwork characters are preserved exactly); every other
/// character is treated as blank space (index 0).
pub fn char_to_idx(c: char) -> (r: u8)
    ensures
        r as int == spec_char_to_idx(c),
        (r as int) < CHARSET_LEN,
        CHARSET@.contains(c) ==> CHARSET@[r as int] == c,
        CHARSET@.contains(c) ==> forall|j: int| 0 <= j < r ==> CHARSET@[j] != c,
        !CHARSET@.contains(c) ==> r == 0,
{
    let mut i: usize = 0;
    while i < CHARSET_LEN
        invariant
            0 <= i <= CHARSET_LEN,
            CHARSET@.len() == CHARSET_LEN,
            forall|j: int| 0 <= j < i ==> CHARSET@[j] != c,
        decreases CHARSET_LEN - i,
    {
        if CHARSET[i] == c {
            proof {
                assert(CHARSET@.contains(c));
            }
            return i as u8;
        }
        i = i + 1;
    }
    0
}

/// Ink coverage of a plain character, in percent: blanks 0, light punctuation 5, up to
/// the heaviest symbols at 90; characters without a listed weight count as 50.
pub open spec fn plain_ink_pct(c: char) -> int {
    match c {
        ' ' | '\t' | '\r' | '\n' => 0,
        '.' | '\'' | '`' | ',' => 5,
        ':' | ';' | '-' | '~' | '_' => 12,
        '!' | 'i' | 'l' | '1' | 'I' | 'r' => 20,
        'c' | 'v' | 'u' | 'n' | 'x' | 'z' | 'j' | 'f' | 't' => 30,
        'L' | 'C' | 'J' | 'Y' | 'F' | 'o' | 'a' | 'e' | 's' | 'y' => 38,
        'h' | 'k' | 'd' | 'b' | 'p' | 'q' | 'g' | 'S' | 'Z' | 'w' => 46,
        'K' | 'U' | 'X' | 'T' | 'H' | 'R' | 'E' | 'D' | 'N' | 'V' => 55,
        'A' | 'Q' | 'P' | 'B' | 'G' | 'O' | 'M' => 63,
        '0' | 'W' | '^' | '/' | '|' | '\\' | '<' | '>' => 68,
        '(' | ')' | '+' | '=' | '[' | ']' | '{' | '}' => 74,
        '*' | '%' | '#' | '&' | '$' | '@' => 90,
        _ => 50,
    }
}

/// Ink coverage of a character in percent: block elements and box-drawing characters by
/// their known fill, every other character by [`plain_ink_pct`].
pub open spec fn ink_pct(c: char) -> int {
    match c {
        '▏' => 12,
        '▎' => 25,
        '▖' | '▗' | '▘' | '▝' => 25,
        '▍' => 37,
        '▚' | '▞' => 50,
        '▌' | '▐' | '▄' | '▀' => 50,
        '░' => 25,
        '▒' => 50,
        '▓' => 75,
        '▙' | '▛' | '▜' | '▟' => 75,
        '▇' => 87,
        '█' => 100,
        '─' => 15,
        '│' => 15,
        '┌' | '┐' | '└' | '┘' => 20,
        '├' | '┤' | '┬' | '┴' => 25,
        '┼' => 30,
        '═' => 25,
        '║' => 25,
        '╔' | '╗' | '╚' | '╝' => 35,
        '╬' => 45,
        _ => plain_ink_pct(c),
    }
}

/// Visual density of a plain character, in percent (see [`plain_ink_pct`]).
pub fn visual_density_pct(c: char) -> (r: u8)
    ensures
        r as int == plain_ink_pct(c),
{
    match c {
        ' ' | '\t' | '\r' | '\n' => 0,
        '.' | '\'' | '`' | ',' => 5,
        ':' | ';' | '-' | '~' | '_' => 12,
        '!' | 'i' | 'l' | '1' | 'I' | 'r' => 20,
        'c' | 'v' | 'u' | 'n' | 'x' | 'z' | 'j' | 'f' | 't' => 30,
        'L' | 'C' | 'J' | 'Y' | 'F' | 'o' | 'a' | 'e' | 's' | 'y' => 38,
        'h' | 'k' | 'd' | 'b' | 'p' | 'q' | 'g' | 'S' | 'Z' | 'w' => 46,
        'K' | 'U' | 'X' | 'T' | 'H' | 'R' | 'E' | 'D' | 'N' | 'V' => 55,
        'A' | 'Q' | 'P' | 'B' | 'G' | 'O' | 'M' => 63,
        '0' | 'W' | '^' | '/' | '|' | '\\' | '<' | '>' => 68,
        '(' | ')' | '+' | '=' | '[' | ']' | '{' | '}' => 74,
        '*' | '%' | '#' | '&' | '$' | '@' => 90,
        _ => 50,
    }
}

/// Density of the glyph at charset index `idx`, in percent; indices past the charset
/// count as 50.
pub fn charset_density_pct(idx: usize) -> (r: u8)
    ensures
        r as int == if idx < CHARSET_LEN {
            ink_pct(CHARSET@[idx as int])
        } else {
            50
        },
{
    if idx >= CHARSET_LEN {
        return 50;
    }
    let ch = CHARSET[idx];
    match ch {
        '▏' => 12,
        '▎' => 25,
        '▖' | '▗' | '▘' | '▝' => 25,
        '▍' => 37,
        '▚' | '▞' => 50,
        '▌' | '▐' | '▄' | '▀' => 50,
        '░' => 25,
        '▒' => 50,
        '▓' => 75,
        '▙' | '▛' | '▜' | '▟' => 75,
        '▇' => 87,
        '█' => 100,
        '─' => 15,
        '│' => 15,
        '┌' | '┐' | '└' | '┘' => 20,
        '├' | '┤' | '┬' | '┴' => 25,
        '┼' => 30,
        '═' => 25,
        '║' => 25,
        '╔' | '╗' | '╚' | '╝' => 35,
        '╬' => 45,
        _ => visual_density_pct(ch),
    }
}

/// Number of non-zero entries of `s`.
pub open spec fn count_ink(s: Seq<u8>) -> nat
    decreases s.len(),
{
    if s.len() == 0 {
        0
    } else {
        count_ink(s.drop_last()) + if s.last() != 0 {
            1nat
        } else {
            0nat
        }
    }
}

/// `r` is `g` resized to `tw` x `th` by nearest-neighbour sampling: a well-formed grid of
/// that size whose cell `(tx, ty)` is `g`'s cell `(tx * g.width / tw, ty * g.height / th)`
/// (what [`AsciiGrid::resized`] returns).
pub open spec fn resize_of(r: AsciiGrid, g: AsciiGrid, tw: int, th: int) -> bool {
    &&& r.wf()
    &&& r.width == tw
    &&& r.height == th
    &&& forall|tx: int, ty: int|
        0 <= tx < tw && 0 <= ty < th ==> #[trigger] r.cell(tx, ty) == g.cell(
            tx * g.width / tw,
            ty * g.height / th,
        )
}

/// A normalised ASCII grid: every cell is an index into [`CHARSET`], stored row-major.
#[derive(Clone)]
pub struct AsciiGrid {
    pub width: usize,
    pub height: usize,
    pub cells: Vec<u8>,
}

impl AsciiGrid {
    /// The cell vector holds exactly one entry per grid position.
    pub open spec fn wf(&self) -> bool {
        self.cells@.len() == self.width * self.height
    }

    /// The value of the cell at column `x`, row `y`; 0 (blank) outside the grid.
    pub open spec fn cell(&self, x: int, y: int) -> u8 {
        if 0 <= x < self.width && 0 <= y < self.height {
            self.cells@[y * self.width + x]
        } else {
            0
        }
    }

    /// Number of non-blank cells (cells whose index is not 0, the space).
    pub fn ink_cells(&self) -> (r: usize)
        ensures
            r == count_ink(self.cells@),
    {
        let mut n: usize = 0;
        let mut i: usize = 0;
        while i < self.cells.len()
            invariant
                i <= self.cells@.len(),
                n == count_ink(self.cells@.take(i as int)),
                n <= i,
            decreases self.cells@.len() - i,
        {
            assert(self.cells@.take((i + 1) as int).drop_last() == self.cells@.take(i as int));
            if self.cells[i] != 0 {
                n = n + 1;
            }
            i = i + 1;
        }
        assert(self.cells@.take(i as int) == self.cells@);
        n
    }

    /// Cell at column `x`, row `y`, or 0 when the position lies outside the grid.
    pub fn get(&self, x: usize, y: usize) -> (r: u8)
        requires
            self.wf(),
        ensures
            r == self.cell(x as int, y as int),
    {
        if x < self.width && y < self.height {
            proof {
                lemma_row_major_index(x as int, y as int, self.width as int, self.height as int);
                assert(self.cells.len() == self.cells@.len());
            }
            self.cells[y * self.width + x]
        } else {
            0
        }
    }

    /// Resize to `target_w` x `target_h` by nearest-neighbour sampling: target cell
    /// `(tx, ty)` takes the source cell `(tx * width / target_w, ty * height / target_h)`.
    pub fn resized(&self, target_w: usize, target_h: usize) -> (r: AsciiGrid)
        requires
            self.wf(),
            target_w * target_h <= usize::MAX,
            target_w > 0 && target_h > 0 ==> (target_w - 1) * self.width <= usize::MAX,
            target_w > 0 && target_h > 0 ==> (target_h - 1) * self.height <= usize::MAX,
        ensures
            r.wf(),
            r.width == target_w,
            r.height == target_h,
            forall|tx: int, ty: int|
                0 <= tx < target_w && 0 <= ty < target_h ==> #[trigger] r.cell(tx, ty)
                    == self.cell(tx * self.width / target_w as int, ty * self.height / target_h as int),
            resize_of(r, *self, target_w as int, target_h as int),
    {
        let mut cells: Vec<u8> = Vec::new();
        let mut ty: usize = 0;
        while ty < target_h
            invariant
                self.wf(),
                target_w * target_h <= usize::MAX,
                target_w > 0 && target_h > 0 ==> (target_w - 1) * self.width <= usize::MAX,
                target_w > 0 && target_h > 0 ==> (target_h - 1) * self.height <= usize::MAX,
                ty <= target_h,
                cells@.len() == ty * target_w,
                forall|px: int, py: int|
                    0 <= px < target_w && 0 <= py < ty ==> #[trigger] cells@[py * target_w + px]
                        == self.cell(px * self.width / target_w as int, py * self.height / target_h as int),
            decreases target_h - ty,
        {
            let mut tx: usize = 0;
            while tx < target_w
                invariant
                    self.wf(),
                    target_w * target_h <= usize::MAX,
                    target_w > 0 && target_h > 0 ==> (target_w - 1) * self.width <= usize::MAX,
                    target_w > 0 && target_h > 0 ==> (target_h - 1) * self.height <= usize::MAX,
                    ty < target_h,
                    tx <= target_w,
                    cells@.len() == ty * target_w + tx,
                    forall|px: int, py: int|
                        0 <= px < target_w && 0 <= py < ty ==> #[trigger] cells@[py * target_w + px]
                            == self.cell(px * self.width / target_w as int, py * self.height / target_h as int),
                    forall|px: int|
                        0 <= px < tx ==> #[trigger] cells@[ty * target_w + px]
                            == self.cell(px * self.width / target_w as int, ty * self.height / target_h as int),
                decreases target_w - tx,
            {
                proof {
                    lemma_mul_le(tx as int, target_w as int - 1, self.width as int);
                    lemma_mul_le(ty as int, target_h as int - 1, self.height as int);
                    lemma_row_major_index(tx as int, ty as int, target_w as int, target_h as int);
                }
                let sx = (tx * self.width) / target_w;
                let sy = (ty * self.height) / target_h;
                let v = self.get(sx, sy);
                let ghost before = cells@;
                cells.push(v);
                proof {
                    assert forall|px: int, py: int|
                        0 <= px < target_w && 0 <= py < ty implies #[trigger] cells@[py * target_w + px]
                            == self.cell(px * self.width / target_w as int, py * self.height / target_h as int) by {
                        lemma_row_before(px, py, ty as int, target_w as int);
                        assert(cells@[py * target_w + px] == before[py * target_w + px]);
                    }
                }
                tx = tx + 1;
            }
            proof {
                assert((ty + 1) * target_w == ty * target_w + target_w) by (nonlinear_arith);
            }
            ty = ty + 1;
        }
        proof {
            assert(target_h * target_w == target_w * target_h) by (nonlinear_arith);
        }
        AsciiGrid { width: target_w, height: target_h, cells }
    }
}

/// Resizing a grid to its own size gives the grid back.
pub proof fn law_resize_same_size_is_identity(g: AsciiGrid, r: AsciiGrid)
    requires
        g.wf(),
        resize_of(r, g, g.width as int, g.height as int),
    ensures
        r.cells@ == g.cells@,
{
    assert forall|x: int, y: int| 0 <= x < g.width && 0 <= y < g.height implies #[trigger] r.cell(x, y)
        == g.cell(x, y) by {
        vstd::arithmetic::div_mod::lemma_div_by_multiple(x, g.width as int);
        vstd::arithmetic::div_mod::lemma_div_by_multiple(y, g.height as int);
        assert(r.cell(x, y) == g.cell(x * g.width / g.width as int, y * g.height / g.height as int));
    }
    lemma_same_cells(g, r);
}

/// Scaling a grid up by a whole factor `k` and back down to its size gives the grid back:
/// every source cell becomes a `k` x `k` block, and scaling down samples each block's
/// top-left cell.
pub proof fn law_resize_round_trip(g: AsciiGrid, up: AsciiGrid, back: AsciiGrid, k: int)
    requires
        g.wf(),
        k >= 1,
        resize_of(up, g, k * g.width, k * g.height),
        resize_of(back, up, g.width as int, g.height as int),
    ensures
        back.cells@ == g.cells@,
{
    let w = g.width as int;
    let h = g.height as int;
    assert forall|x: int, y: int| 0 <= x < w && 0 <= y < h implies #[trigger] back.cell(x, y) == g.cell(x, y) by {
        assert(x * (k * w) == (k * x) * w) by (nonlinear_arith);
        assert(y * (k * h) == (k * y) * h) by (nonlinear_arith);
        vstd::arithmetic::div_mod::lemma_div_by_multiple(k * x, w);
        vstd::arithmetic::div_mod::lemma_div_by_multiple(k * y, h);
        assert(0 <= k * x < k * w) by (nonlinear_arith)
            requires
                k >= 1,
                0 <= x < w,
        ;
        assert(0 <= k * y < k * h) by (nonlinear_arith)
            requires
                k >= 1,
                0 <= y < h,
        ;
        assert(back.cell(x, y) == up.cell(x * up.width / w, y * up.height / h));
        assert(up.cell(k * x, k * y) == g.cell((k * x) * w / (k * w), (k * y) * h / (k * h)));
        assert((k * x) * w == x * (k * w)) by (nonlinear_arith);
        assert((k * y) * h == y * (k * h)) by (nonlinear_arith);
        vstd::arithmetic::div_mod::lemma_div_by_multiple(x, k * w);
        vstd::arithmetic::div_mod::lemma_div_by_multiple(y, k * h);
    }
    lemma_same_cells(g, back);
}

/// Two well-formed grids of the same size with equal cells at every position have equal
/// cell vectors.
proof fn lemma_same_cells(g: AsciiGrid, r: AsciiGrid)
    requires
        g.wf(),
        r.wf(),
        r.width == g.width,
        r.height == g.height,
        forall|x: int, y: int| 0 <= x < g.width && 0 <= y < g.height ==> #[trigger] r.cell(x, y) == g.cell(x, y),
    ensures
        r.cells@ == g.cells@,
{
    let w = g.width as int;
    let h = g.height as int;
    assert forall|i: int| 0 <= i < g.cells@.len() implies r.cells@[i] == g.cells@[i] by {
        vstd::arithmetic::div_mod::lemma_fundamental_div_mod(i, w);
        vstd::arithmetic::div_mod::lemma_div_pos_is_pos(i, w);
        vstd::arithmetic::div_mod::lemma_mod_bound(i, w);
        let x = i % w;
        let y = i / w;
        assert(w * (i / w) == (i / w) * w) by (nonlinear_arith);
        assert(y < h) by (nonlinear_arith)
            requires
                i == y * w + x,
                0 <= x,
                i < w * h,
                w > 0,
        ;
        assert(r.cell(x, y) == g.cell(x, y));
    }
    assert(r.cells@ =~= g.cells@);
}

// ─── Text lines ──────────────────────────────────────────────────────────────

/// Drops one trailing carriage return from a line.
pub open spec fn strip_cr(line: Seq<char>) -> Seq<char> {
    if line.len() > 0 && line.last() == '\r' {
        line.drop_last()
    } else {
        line
    }
}

/// Scanning state after reading `s` from the left: the lines terminated by a
/// newline so far (without their `\n` or `\r\n` ending), and the line in progress.
pub open spec fn scan_lines(s: Seq<char>) -> (Seq<Seq<char>>, Seq<char>)
    decreases s.len(),
{
    if s.len() == 0 {
        (seq![], seq![])
    } else {
        let prev = scan_lines(s.drop_last());
        if s.last() == '\n' {
            (prev.0.push(strip_cr(prev.1)), seq![])
        } else {
            (prev.0, prev.1.push(s.last()))
        }
    }
}

/// The lines of a text: split at `\n` or `\r\n`, line endings removed, and a final
/// line ending optional (it adds no empty line). The empty text has no lines.
pub open spec fn text_lines(s: Seq<char>) -> Seq<Seq<char>> {
    let st = scan_lines(s);
    if st.1.len() == 0 {
        st.0
    } else {
        st.0.push(st.1)
    }
}

/// Charset indices of the characters of a line.
pub open spec fn line_indices(line: Seq<char>) -> Seq<u8> {
    line.map_values(|c: char| spec_char_to_idx(c) as u8)
}

/// Length of the longest line (0 when there are none).
pub open spec fn max_line_len(lines: Seq<Seq<char>>) -> nat
    decreases lines.len(),
{
    if lines.len() == 0 {
        0
    } else {
        let m = max_line_len(lines.drop_last());
        if lines.last().len() > m {
            lines.last().len()
        } else {
            m
        }
    }
}

/// Width of the raw grid of a text: its longest line, at least 1.
pub open spec fn raw_width(s: Seq<char>) -> nat {
    let m = max_line_len(text_lines(s));
    if m > 1 { m } else { 1 }
}

/// Height of the raw grid of a text: its number of lines, at least 1.
pub open spec fn raw_height(s: Seq<char>) -> nat {
    let n = text_lines(s).len();
    if n > 1 { n } else { 1 }
}

/// Raw grid cell of a text: the charset index of character `x` of line `y`, or 0
/// (blank) where that line is shorter or the line does not exist.
pub open spec fn raw_cell(s: Seq<char>, x: int, y: int) -> u8 {
    let lines = text_lines(s);
    if 0 <= y < lines.len() && 0 <= x < lines[y].len() {
        spec_char_to_idx(lines[y][x]) as u8
    } else {
        0
    }
}

/// The sizes met while parsing a text and resizing it to `target_w` x `target_h`
/// all fit in a `usize` (the raw grid, the target grid, and the sampling products).
pub open spec fn parse_fits(s: Seq<char>, target_w: int, target_h: int) -> bool {
    &&& raw_width(s) * raw_height(s) <= usize::MAX
    &&& target_w * target_h <= usize::MAX
    &&& target_w > 0 && target_h > 0 ==> (target_w - 1) * raw_width(s) <= usize::MAX
    &&& target_w > 0 && target_h > 0 ==> (target_h - 1) * raw_height(s) <= usize::MAX
}

/// Parsing at the text's own size keeps every character where it stands: the
/// nearest-neighbour source of target cell `(tx, ty)` is `(tx, ty)` itself, so with
/// [`parse_ascii_image`]'s contract the parsed cell is the raw cell.
pub proof fn law_native_size_sampling_is_identity(s: Seq<char>, tx: int, ty: int)
    requires
        0 <= tx < raw_width(s),
        0 <= ty < raw_height(s),
    ensures
        tx * raw_width(s) / raw_width(s) as int == tx,
        ty * raw_height(s) / raw_height(s) as int == ty,
{
    vstd::arithmetic::div_mod::lemma_div_by_multiple(tx, raw_width(s) as int);
    vstd::arithmetic::div_mod::lemma_div_by_multiple(ty, raw_height(s) as int);
}

/// Every line is at most as long as the longest one.
proof fn lemma_max_line_len(lines: Seq<Seq<char>>, k: int)
    requires
        0 <= k < lines.len(),
    ensures
        lines[k].len() <= max_line_len(lines),
    decreases lines.len(),
{
    if k < lines.len() - 1 {
        lemma_max_line_len(lines.drop_last(), k);
        assert(lines.drop_last()[k] == lines[k]);
    }
}

/// Splits a text into lines (see [`text_lines`]) and maps each character to its
/// charset index.
fn split_lines(src: &str) -> (r: Vec<Vec<u8>>)
    ensures
        r@.len() == text_lines(src@).len(),
        forall|k: int| 0 <= k < r@.len() ==> #[trigger] r@[k]@ == line_indices(text_lines(src@)[k]),
{
    broadcast use vstd::string::axiom_spec_iter;

    let mut lines: Vec<Vec<u8>> = Vec::new();
    let mut cur: Vec<u8> = Vec::new();
    let mut cur_ends_cr: bool = false;
    for c in iter: src.chars()
        invariant
            iter.seq() == src@,
            ({
                let st = scan_lines(src@.take(iter.index() as int));
                &&& lines@.len() == st.0.len()
                &&& forall|k: int| 0 <= k < lines@.len() ==> #[trigger] lines@[k]@ == line_indices(st.0[k])
                &&& cur@ == line_indices(st.1)
                &&& cur_ends_cr == (st.1.len() > 0 && st.1.last() == '\r')
            }),
    {
        let ghost i = iter.index() as int;
        let ghost prev = scan_lines(src@.take(i));
        proof {
            assert(src@.take(i + 1).drop_last() =~= src@.take(i));
            assert(src@.take(i + 1).last() == c);
        }
        if c == '\n' {
            if cur_ends_cr {
                cur.pop();
                proof {
                    assert(cur@ =~= line_indices(strip_cr(prev.1)));
                }
            } else {
                proof {
                    assert(cur@ =~= line_indices(strip_cr(prev.1)));
                }
            }
            let done = cur;
            lines.push(done);
            cur = Vec::new();
            cur_ends_cr = false;
            proof {
                let st = scan_lines(src@.take(i + 1));
                assert(cur@ =~= line_indices(st.1));
            }
        } else {
            let v = char_to_idx(c);
            cur.push(v);
            cur_ends_cr = c == '\r';
            proof {
                let st = scan_lines(src@.take(i + 1));
                assert(cur@ =~= line_indices(st.1));
            }
        }
    }
    proof {
        assert(src@.take(src@.len() as int) =~= src@);
    }
    if cur.len() > 0 {
        lines.push(cur);
    }
    lines
}

/// Parses a text into a grid of charset indices, one row per line and as wide as
/// the longest line (at least 1 x 1; short lines are padded with blanks), then
/// resizes it to `target_w` x `target_h` by nearest-neighbour sampling.
pub fn parse_ascii_image(src: &str, target_w: usize, target_h: usize) -> (r: AsciiGrid)
    requires
        parse_fits(src@, target_w as int, target_h as int),
    ensures
        r.wf(),
        r.width == target_w,
        r.height == target_h,
        forall|tx: int, ty: int|
            0 <= tx < target_w && 0 <= ty < target_h ==> #[trigger] r.cell(tx, ty) == raw_cell(
                src@,
                tx * raw_width(src@) / target_w as int,
                ty * raw_height(src@) / target_h as int,
            ),
{
    let ghost text = text_lines(src@);
    let lines = split_lines(src);
    let n = lines.len();
    let raw_h: usize = if n > 1 { n } else { 1 };

    let mut longest: usize = 0;
    let mut k: usize = 0;
    while k < n
        invariant
            n == lines@.len(),
            n == text.len(),
            k <= n,
            forall|j: int| 0 <= j < n ==> #[trigger] lines@[j]@ == line_indices(text[j]),
            longest == max_line_len(text.take(k as int)),
        decreases n - k,
    {
        proof {
            assert(text.take(k + 1).drop_last() =~= text.take(k as int));
            assert(lines@[k as int]@.len() == text[k as int].len());
        }
        let len = lines[k].len();
        if len > longest {
            longest = len;
        }
        k = k + 1;
    }
    proof {
        assert(text.take(n as int) =~= text);
    }
    let raw_w: usize = if longest > 1 { longest } else { 1 };

    let mut raw_cells: Vec<u8> = Vec::new();
    let mut y: usize = 0;
    while y < raw_h
        invariant
            n == lines@.len(),
            text == text_lines(src@),
            n == text.len(),
            raw_h == raw_height(src@),
            raw_w == raw_width(src@),
            raw_w * raw_h <= usize::MAX,
            forall|j: int| 0 <= j < n ==> #[trigger] lines@[j]@ == line_indices(text[j]),
            y <= raw_h,
            raw_cells@.len() == y * raw_w,
            forall|px: int, py: int|
                0 <= px < raw_w && 0 <= py < y ==> #[trigger] raw_cells@[py * raw_w + px]
                    == raw_cell(src@, px, py),
        decreases raw_h - y,
    {
        let mut x: usize = 0;
        while x < raw_w
            invariant
                n == lines@.len(),
                text == text_lines(src@),
                n == text.len(),
                raw_h == raw_height(src@),
                raw_w == raw_width(src@),
                raw_w * raw_h <= usize::MAX,
                forall|j: int| 0 <= j < n ==> #[trigger] lines@[j]@ == line_indices(text[j]),
                y < raw_h,
                x <= raw_w,
                raw_cells@.len() == y * raw_w + x,
                forall|px: int, py: int|
                    0 <= px < raw_w && 0 <= py < y ==> #[trigger] raw_cells@[py * raw_w + px]
                        == raw_cell(src@, px, py),
                forall|px: int| 0 <= px < x ==> #[trigger] raw_cells@[y * raw_w + px] == raw_cell(src@, px, y as int),
            decreases raw_w - x,
        {
            proof {
                lemma_row_major_index(x as int, y as int, raw_w as int, raw_h as int);
            }
            let v: u8 = if y < n && x < lines[y].len() {
                proof {
                    assert(lines@[y as int]@ == line_indices(text[y as int]));
                }
                lines[y][x]
            } else {
                0
            };
            let ghost before = raw_cells@;
            raw_cells.push(v);
            proof {
                assert forall|px: int, py: int|
                    0 <= px < raw_w && 0 <= py < y implies #[trigger] raw_cells@[py * raw_w + px]
                        == raw_cell(src@, px, py) by {
                    lemma_row_before(px, py, y as int, raw_w as int);
                    assert(raw_cells@[py * raw_w + px] == before[py * raw_w + px]);
                }
                if y < n {
                    assert(lines@[y as int]@ == line_indices(text[y as int]));
                }
                assert forall|px: int| 0 <= px < x + 1 implies #[trigger] raw_cells@[y * raw_w + px]
                    == raw_cell(src@, px, y as int) by {
                    if px < x {
                        assert(raw_cells@[y * raw_w + px] == before[y * raw_w + px]);
                    }
                }
            }
            x = x + 1;
        }
        proof {
            assert((y + 1) * raw_w == y * raw_w + raw_w) by (nonlinear_arith);
        }
        y = y + 1;
    }
    proof {
        assert(raw_h * raw_w == raw_w * raw_h) by (nonlinear_arith);
    }
    let raw_grid = AsciiGrid { width: raw_w, height: raw_h, cells: raw_cells };
    proof {
        assert forall|x: int, y: int| #[trigger] raw_grid.cell(x, y) == raw_cell(src@, x, y) || !(0 <= x && 0 <= y) by {
            if 0 <= y < text.len() && 0 <= x < text[y].len() {
                lemma_max_line_len(text, y);
            }
        }
    }
    raw_grid.resized(target_w, target_h)
}

// ─── Image bank ──────────────────────────────────────────────────────────────

/// One parsed image of the bank.
#[derive(Clone)]
pub struct AnchorImage {
    pub grid: AsciiGrid,
}

/// All images, each parsed and resized to the same `width` x `height`.
#[derive(Clone)]
pub struct AsciiBank {
    pub images: Vec<AnchorImage>,
    pub width: usize,
    pub height: usize,
}

impl AsciiBank {
    /// Every image grid is well formed and has the bank's dimensions.
    pub open spec fn wf(&self) -> bool {
        forall|i: int|
            0 <= i < self.images@.len() ==> {
                &&& (#[trigger] self.images@[i]).grid.wf()
                &&& self.images@[i].grid.width == self.width
                &&& self.images@[i].grid.height == self.height
            }
    }

    /// Cell `(x, y)` of image `i`.
    pub open spec fn cell(&self, i: int, x: int, y: int) -> u8 {
        self.images@[i].grid.cell(x, y)
    }

    /// Parses every text into an image of `target_w` x `target_h` cells.
    pub fn from_raw_images(raw: &[&str], target_w: usize, target_h: usize) -> (r: Self)
        requires
            forall|i: int| 0 <= i < raw@.len() ==> parse_fits(#[trigger] raw@[i]@, target_w as int, target_h as int),
        ensures
            r.wf(),
            r.width == target_w,
            r.height == target_h,
            r.images@.len() == raw@.len(),
            forall|i: int, tx: int, ty: int|
                0 <= i < raw@.len() && 0 <= tx < target_w && 0 <= ty < target_h ==> #[trigger] r.cell(i, tx, ty)
                    == raw_cell(
                    raw@[i]@,
                    tx * raw_width(raw@[i]@) / target_w as int,
                    ty * raw_height(raw@[i]@) / target_h as int,
                ),
    {
        let mut images: Vec<AnchorImage> = Vec::new();
        let mut i: usize = 0;
        while i < raw.len()
            invariant
                i <= raw@.len(),
                images@.len() == i,
                forall|k: int| 0 <= k < raw@.len() ==> parse_fits(#[trigger] raw@[k]@, target_w as int, target_h as int),
                forall|k: int|
                    0 <= k < i ==> {
                        &&& (#[trigger] images@[k]).grid.wf()
                        &&& images@[k].grid.width == target_w
                        &&& images@[k].grid.height == target_h
                    },
                forall|k: int, tx: int, ty: int|
                    0 <= k < i && 0 <= tx < target_w && 0 <= ty < target_h ==> #[trigger] images@[k].grid.cell(tx, ty)
                        == raw_cell(
                        raw@[k]@,
                        tx * raw_width(raw@[k]@) / target_w as int,
                        ty * raw_height(raw@[k]@) / target_h as int,
                    ),
            decreases raw@.len() - i,
        {
            let grid = parse_ascii_image(raw[i], target_w, target_h);
            images.push(AnchorImage { grid });
            i = i + 1;
        }
        AsciiBank { images, width: target_w, height: target_h }
    }

    /// Number of images.
    pub fn len(&self) -> (r: usize)
        ensures
            r == self.images@.len(),
    {
        self.images.len()
    }

    /// Cell `(x, y)` of image `img_idx` (0 outside the image).
    pub fn get_cell(&self, img_idx: usize, x: usize, y: usize) -> (r: u8)
        requires
            img_idx < self.images@.len(),
            self.images@[img_idx as int].grid.wf(),
        ensures
            r == self.cell(img_idx as int, x as int, y as int),
    {
        self.images[img_idx].grid.get(x, y)
    }
}

/// A row-major position inside a `w` x `h` grid lies inside the cell vector.
proof fn lemma_row_major_index(x: int, y: int, w: int, h: int)
    requires
        0 <= x < w,
        0 <= y < h,
    ensures
        0 <= y * w + x < w * h,
        y * w + x <= w * h - 1,
{
    assert(0 <= y * w) by (nonlinear_arith)
        requires 0 <= y, 0 <= w;
    assert(y * w + x < (y + 1) * w) by (nonlinear_arith)
        requires x < w;
    assert((y + 1) * w <= h * w) by (nonlinear_arith)
        requires y + 1 <= h, 0 <= w;
    assert(h * w == w * h) by (nonlinear_arith);
}

/// Cells of earlier rows come before every cell of row `ty`.
proof fn lemma_row_before(px: int, py: int, ty: int, w: int)
    requires
        0 <= px < w,
        0 <= py < ty,
    ensures
        0 <= py * w + px < ty * w,
{
    assert(0 <= py * w) by (nonlinear_arith)
        requires 0 <= py, 0 <= w;
    assert(py * w + px < (py + 1) * w) by (nonlinear_arith)
        requires px < w;
    assert((py + 1) * w <= ty * w) by (nonlinear_arith)
        requires py + 1 <= ty, 0 <= w;
}

/// Monotonicity of multiplication by a natural number.
proof fn lemma_mul_le(a: int, b: int, c: int)
    requires
        0 <= a <= b,
        0 <= c,
    ensures
        a * c <= b * c,
{
    assert(a * c <= b * c) by (nonlinear_arith)
        requires a <= b, 0 <= c;
}

} // verus!

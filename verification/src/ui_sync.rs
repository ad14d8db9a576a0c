use vstd::prelude::*;

verus! {

/// Width of the frame that [`UiRenderer::render_frame_pixels`] produces, in cells.
pub const FRAME_WIDTH: u32 = 36;

/// Height of the frame that [`UiRenderer::render_frame_pixels`] produces, in cells.
pub const FRAME_HEIGHT: u32 = 46;

/// Byte `j` of the checkerboard test frame: pixel `j / 4` sits at column `p % 36`, row
/// `p / 36`; cells whose column and row add up to an even number take `even`, the others
/// `odd`, and every alpha byte is opaque.
pub open spec fn checker_byte(even: [u8; 3], odd: [u8; 3], j: int) -> u8 {
    let p = j / 4;
    let col = p % FRAME_WIDTH as int;
    let row = p / FRAME_WIDTH as int;
    let c = if (col + row) % 2 == 0 {
        even
    } else {
        odd
    };
    if j % 4 == 3 {
        255
    } else {
        c@[j % 4]
    }
}

/// On-demand frame renderer owned by the UI thread. It records whether a GPU renderer has
/// been attached to it.
pub struct UiRenderer {
    initialized: bool,
}

impl UiRenderer {
    /// Whether a GPU renderer has been attached.
    pub closed spec fn is_initialized(self) -> bool {
        self.initialized
    }

    /// A renderer with no GPU renderer attached yet.
    pub fn new() -> (r: Self)
        ensures
            !r.is_initialized(),
    {
        UiRenderer { initialized: false }
    }

    /// Records that a GPU renderer has been attached.
    pub fn mark_initialized(&mut self)
        ensures
            final(self).is_initialized(),
    {
        self.initialized = true;
    }

    /// Whether a GPU renderer has been attached.
    pub fn is_ready(&self) -> (r: bool)
        ensures
            r == self.is_initialized(),
    {
        self.initialized
    }

    /// The RGBA pixels of the 36 × 46 checkerboard test frame: row-major, four bytes per
    /// cell, `even` on cells whose column plus row is even, `odd` on the others, alpha 255.
    pub fn render_frame_pixels(&self, even: [u8; 3], odd: [u8; 3]) -> (r: Vec<u8>)
        ensures
            r@.len() == FRAME_WIDTH * FRAME_HEIGHT * 4,
            forall|j: int| 0 <= j < r@.len() ==> #[trigger] r@[j] == checker_byte(even, odd, j),
    {
        let mut pixels: Vec<u8> = Vec::new();
        let mut row: u32 = 0;
        while row < FRAME_HEIGHT
            invariant
                row <= FRAME_HEIGHT,
                pixels@.len() == 4 * (row * FRAME_WIDTH),
                forall|j: int|
                    0 <= j < pixels@.len() ==> #[trigger] pixels@[j] == checker_byte(even, odd, j),
            decreases FRAME_HEIGHT - row,
        {
            let mut col: u32 = 0;
            while col < FRAME_WIDTH
                invariant
                    row < FRAME_HEIGHT,
                    col <= FRAME_WIDTH,
                    pixels@.len() == 4 * (row * FRAME_WIDTH + col),
                    forall|j: int|
                        0 <= j < pixels@.len() ==> #[trigger] pixels@[j] == checker_byte(
                            even,
                            odd,
                            j,
                        ),
                decreases FRAME_WIDTH - col,
            {
                let c = if (col + row) % 2 == 0 {
                    even
                } else {
                    odd
                };
                let ghost p = row * FRAME_WIDTH + col;
                let ghost before = pixels@;
                pixels.push(c[0]);
                pixels.push(c[1]);
                pixels.push(c[2]);
                pixels.push(255);
                proof {
                    vstd::arithmetic::div_mod::lemma_fundamental_div_mod_converse(
                        p as int,
                        FRAME_WIDTH as int,
                        row as int,
                        col as int,
                    );
                    assert forall|j: int| 0 <= j < pixels@.len() implies #[trigger] pixels@[j]
                        == checker_byte(even, odd, j) by {
                        if j >= 4 * p {
                            assert(j / 4 == p);
                        } else {
                            assert(pixels@[j] == before[j]);
                        }
                    }
                }
                col = col + 1;
            }
            row = row + 1;
        }
        pixels
    }
}

} // verus!

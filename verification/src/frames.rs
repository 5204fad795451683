//! Synthetic 64×64 palette-index frames: a black scene with an 8×8 white
//! block that walks one pixel to the right per frame and wraps at the edge.

use vstd::prelude::*;

verus! {

/// Width of every frame, in pixels.
pub const WIDTH: u16 = 64;

/// Height of every frame, in pixels.
pub const HEIGHT: u16 = 64;

/// Number of pixels in a frame (`WIDTH * HEIGHT`).
pub const FRAME_PIXELS: usize = 4096;

/// Global palette in `[r, g, b, ...]` form: index 0 = black, index 1 = white.
pub const GLOBAL_PALETTE: [u8; 6] = [0, 0, 0, 255, 255, 255];

/// Side of the white square, in pixels.
pub const BLOCK_SIZE: u16 = 8;

/// Row of the top edge of the white square: the square is centred vertically.
pub const BLOCK_TOP: u16 = 28;

/// Column of the left edge of the white square in frame `n`.
pub open spec fn block_left(n: u32) -> int {
    n as int % 64
}

/// Whether pixel `i` (row-major, `i = y * 64 + x`) is covered by the white
/// square of frame `n`. Horizontally the square wraps around the right edge.
pub open spec fn is_block_pixel(n: u32, i: int) -> bool {
    let x = i % 64;
    let y = i / 64;
    &&& 28 <= y < 36
    &&& (x - block_left(n) + 64) % 64 < 8
}

/// The palette index of pixel `i` of frame `n`: 1 (white) on the square,
/// 0 (black) elsewhere.
pub open spec fn pixel_value(n: u32, i: int) -> u8 {
    if is_block_pixel(n, i) { 1 } else { 0 }
}

/// The full frame `n`: 4096 palette indices in row-major order.
pub open spec fn frame_pixels(n: u32) -> Seq<u8> {
    Seq::new(4096, |i: int| pixel_value(n, i))
}

/// Row and column of the row-major index `y * 64 + x`.
proof fn lemma_row_col(y: int, x: int)
    requires
        0 <= y,
        0 <= x < 64,
    ensures
        (y * 64 + x) / 64 == y,
        (y * 64 + x) % 64 == x,
{
    assert((y * 64 + x) / 64 == y && (y * 64 + x) % 64 == x) by (nonlinear_arith)
        requires
            0 <= y,
            0 <= x < 64,
    ;
}

/// Column offset arithmetic on a 64-wide torus: the column `a` lies `d`
/// columns to the right of `b` (wrapping) exactly when `a == (b + d) % 64`.
proof fn lemma_wrap_offset(a: int, b: int, d: int)
    requires
        0 <= a < 64,
        0 <= b < 64,
        0 <= d < 64,
    ensures
        ((a - b + 64) % 64 == d) <==> (a == (b + d) % 64),
{
}

/// Generates full-frame buffers of palette indices (no LZW).
pub struct FrameGenerator;

impl FrameGenerator {
    pub fn new() -> (r: Self)
        ensures
            r == FrameGenerator,
    {
        FrameGenerator
    }

    /// Returns a 64×64 buffer of palette indices for frame `n`.
    ///
    /// Scene: black background, 8×8 white block moving horizontally
    /// one pixel per frame (wraps at the right edge).
    pub fn generate(&self, n: u32) -> (buffer: Vec<u8>)
        ensures
            buffer@ == frame_pixels(n),
    {
        let mut buffer: Vec<u8> = Vec::new();
        let mut k: usize = 0;
        while k < FRAME_PIXELS
            invariant
                k <= FRAME_PIXELS,
                buffer@.len() == k,
                forall|i: int| 0 <= i < k ==> buffer@[i] == 0u8,
            decreases FRAME_PIXELS - k,
        {
            buffer.push(0u8);
            k = k + 1;
        }
        let x0: u16 = (n % 64) as u16;
        let y0: u16 = (HEIGHT - BLOCK_SIZE) / 2;
        let ghost x0i: int = block_left(n);
        let mut dy: u16 = 0;
        while dy < BLOCK_SIZE
            invariant
                dy <= BLOCK_SIZE,
                x0 == x0i,
                x0i == block_left(n),
                0 <= x0i < 64,
                y0 == 28,
                buffer@.len() == 4096,
                forall|i: int|
                    0 <= i < 4096 ==> #[trigger] buffer@[i] == (if is_block_pixel(n, i) && i / 64
                        < 28 + dy { 1u8 } else { 0u8 }),
            decreases BLOCK_SIZE - dy,
        {
            let mut dx: u16 = 0;
            while dx < BLOCK_SIZE
                invariant
                    dy < BLOCK_SIZE,
                    dx <= BLOCK_SIZE,
                    x0 == x0i,
                    x0i == block_left(n),
                    y0 == 28,
                    0 <= x0i < 64,
                    buffer@.len() == 4096,
                    forall|i: int|
                        0 <= i < 4096 ==> #[trigger] buffer@[i] == (if is_block_pixel(n, i) && (i
                            / 64 < 28 + dy || (i / 64 == 28 + dy && (i % 64 - x0i + 64) % 64
                            < dx)) { 1u8 } else { 0u8 }),
                decreases BLOCK_SIZE - dx,
            {
                let x: u16 = (x0 + dx) % WIDTH;
                let y: u16 = y0 + dy;
                let index: usize = (y as usize) * 64 + (x as usize);
                let ghost before = buffer@;
                proof {
                    lemma_row_col(y as int, x as int);
                    lemma_wrap_offset(x as int, x0i, dx as int);
                }
                buffer.set(index, 1u8);
                proof {
                    assert forall|i: int| 0 <= i < 4096 implies #[trigger] buffer@[i] == (if is_block_pixel(n, i) && (i
                            / 64 < 28 + dy || (i / 64 == 28 + dy && (i % 64 - x0i + 64) % 64
                            < dx + 1)) { 1u8 } else { 0u8 }) by {
                        assert(before[i] == (if is_block_pixel(n, i) && (i
                            / 64 < 28 + dy || (i / 64 == 28 + dy && (i % 64 - x0i + 64) % 64
                            < dx)) { 1u8 } else { 0u8 }));
                        if i == index as int {
                            assert(i / 64 == y as int && i % 64 == x as int);
                        } else {
                            assert(buffer@[i] == before[i]);
                            lemma_row_col(i / 64, i % 64);
                            lemma_wrap_offset(i % 64, x0i, dx as int);
                            if i / 64 == 28 + dy && (i % 64 - x0i + 64) % 64 == dx {
                                assert(i % 64 == x as int);
                                assert(i == (i / 64) * 64 + i % 64);
                                assert(false);
                            }
                        }
                    }
                }
                dx = dx + 1;
            }
            proof {
                assert forall|i: int| 0 <= i < 4096 implies #[trigger] buffer@[i] == (if is_block_pixel(n, i) && i / 64
                        < 28 + dy + 1 { 1u8 } else { 0u8 }) by {
                    assert(dx == 8);
                }
            }
            dy = dy + 1;
        }
        assert(buffer@ =~= frame_pixels(n));
        buffer
    }
}

impl Default for FrameGenerator {
    fn default() -> (r: Self)
        ensures
            r == FrameGenerator,
    {
        FrameGenerator::new()
    }
}

/// Every frame holds 4096 pixels, each palette index 0 (black) or 1 (white).
pub proof fn lemma_frame_uses_two_colors(n: u32)
    ensures
        frame_pixels(n).len() == 4096,
        forall|i: int| 0 <= i < 4096 ==> #[trigger] frame_pixels(n)[i] == 0u8 || frame_pixels(n)[i]
            == 1u8,
{
}

/// The scene repeats every 64 frames: frames whose numbers agree modulo 64
/// are identical.
pub proof fn lemma_frame_period(n: u32, m: u32)
    requires
        n % 64 == m % 64,
    ensures
        frame_pixels(n) == frame_pixels(m),
{
    assert(frame_pixels(n) =~= frame_pixels(m));
}

/// From one frame to the next the white block moves one pixel to the
/// right, wrapping at the right edge: pixel `(x, y)` of frame `n + 1` is
/// pixel `(x - 1, y)` (column 63 for `x == 0`) of frame `n`.
pub proof fn lemma_frame_moves_right(n: u32, x: int, y: int)
    requires
        n < u32::MAX,
        0 <= x < 64,
        0 <= y < 64,
    ensures
        frame_pixels((n + 1) as u32)[y * 64 + x] == frame_pixels(n)[y * 64 + (x + 63) % 64],
{
    lemma_row_col(y, x);
    lemma_row_col(y, (x + 63) % 64);
}

/// The column `dx` pixels right of the block's left edge in frame `n`.
pub open spec fn block_column(n: u32, dx: int) -> int {
    (n % 64 + dx) % 64
}

/// In frame `n` the white pixels are exactly the 8×8 square with its top
/// left corner at column `n % 64` of row 28 (wrapping horizontally).
pub proof fn lemma_frame_block(n: u32, x: int, y: int)
    requires
        0 <= x < 64,
        0 <= y < 64,
    ensures
        frame_pixels(n)[y * 64 + x] == 1u8 <==> (28 <= y < 36 && exists|dx: int|
            0 <= dx < 8 && x == #[trigger] block_column(n, dx)),
{
    lemma_row_col(y, x);
    let d = (x - n % 64 + 64) % 64;
    lemma_wrap_offset(x, (n % 64) as int, d);
    if 28 <= y < 36 && d < 8 {
        assert(x == block_column(n, d));
    }
    if exists|dx: int| 0 <= dx < 8 && x == #[trigger] block_column(n, dx) {
        let dx = choose|dx: int| 0 <= dx < 8 && x == #[trigger] block_column(n, dx);
        lemma_wrap_offset(x, (n % 64) as int, dx);
    }
}

} // verus!

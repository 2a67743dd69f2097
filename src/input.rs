use vstd::prelude::*;

use vstd::arithmetic::div_mod::{lemma_fundamental_div_mod, lemma_mod_bound};

verus! {

/// Turns a pointer position on the canvas into the grid cell under it.
///
/// Pointer coordinates are whole pixels measured from the centre of the
/// canvas, x growing to the right and y growing upwards. The canvas is cut
/// into `cols` columns of equal width and `rows` rows of equal height, row 0
/// at the top and column 0 at the left.
pub struct InputMapper;

/// Index of the band that a point falls in, when a span of `extent` pixels is
/// cut into `count` equal bands and the point lies `twice_offset / 2` pixels
/// past the span's leading edge: `floor((twice_offset / 2) / (extent / count))`.
pub open spec fn band_index(twice_offset: int, extent: int, count: int) -> int {
    (twice_offset * count) / (2 * extent)
}

/// The cell under the pointer at (x, y) on a width × height canvas holding a
/// rows × cols grid, or `None` when the canvas or the grid is empty or the
/// point lies outside the grid (left of or above it, or on or past its right
/// or bottom edge).
pub open spec fn cell_under(x: int, y: int, width: int, height: int, rows: int, cols: int) -> Option<
    (usize, usize),
> {
    if width <= 0 || height <= 0 || rows <= 0 || cols <= 0 {
        None
    } else {
        let col = band_index(2 * x + width, width, cols);
        let row = band_index(height - 2 * y, height, rows);
        if 0 <= col < cols && 0 <= row < rows {
            Some((row as usize, col as usize))
        } else {
            None
        }
    }
}

/// A point lands in one of the bands exactly when it lies within the span.
proof fn lemma_band_in_range(t: int, extent: int, count: int)
    requires
        extent > 0,
        count > 0,
    ensures
        (0 <= band_index(t, extent, count) < count) <==> (0 <= t < 2 * extent),
{
    let d = 2 * extent;
    let p = t * count;
    let q = p / d;
    lemma_fundamental_div_mod(p, d);
    lemma_mod_bound(p, d);
    let m = p % d;
    if t < 0 {
        assert(q < 0) by (nonlinear_arith)
            requires
                t < 0,
                count > 0,
                d > 0,
                p == t * count,
                p == d * q + m,
                0 <= m < d,
        ;
    } else if t >= d {
        assert(q >= count) by (nonlinear_arith)
            requires
                t >= d,
                count > 0,
                d > 0,
                p == t * count,
                p == d * q + m,
                0 <= m < d,
        ;
    } else {
        assert(0 <= q < count) by (nonlinear_arith)
            requires
                0 <= t < d,
                count > 0,
                d > 0,
                p == t * count,
                p == d * q + m,
                0 <= m < d,
        ;
    }
}

/// Band index of a point inside the span, with `t` as its doubled offset.
fn band_of(t: i128, extent: u32, count: usize) -> (r: usize)
    requires
        extent > 0,
        count > 0,
        0 <= t < 2 * extent,
    ensures
        r == band_index(t as int, extent as int, count as int),
        r < count,
{
    proof {
        lemma_band_in_range(t as int, extent as int, count as int);
        assert(t * count < 0x1_0000_0000_0000_0000_0000_0000_0000) by (nonlinear_arith)
            requires
                0 <= t < 0x2_0000_0000,
                0 <= count <= usize::MAX,
        ;
    }
    let product = (t as u128) * (count as u128);
    let band = product / (2 * (extent as u128));
    band as usize
}

impl InputMapper {
    /// The cell under the pointer at (x, y), as described by `cell_under`.
    pub fn map(x: i64, y: i64, width: u32, height: u32, rows: usize, cols: usize) -> (r: Option<
        (usize, usize),
    >)
        ensures
            r == cell_under(x as int, y as int, width as int, height as int, rows as int, cols as int),
    {
        if width == 0 || height == 0 || rows == 0 || cols == 0 {
            return None;
        }
        let tx: i128 = 2 * (x as i128) + (width as i128);
        let ty: i128 = (height as i128) - 2 * (y as i128);
        proof {
            lemma_band_in_range(tx as int, width as int, cols as int);
            lemma_band_in_range(ty as int, height as int, rows as int);
        }
        if tx < 0 || tx >= 2 * (width as i128) || ty < 0 || ty >= 2 * (height as i128) {
            return None;
        }
        let col = band_of(tx, width, cols);
        let row = band_of(ty, height, rows);
        Some((row, col))
    }
}

} // verus!

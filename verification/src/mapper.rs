//! The coordinate mapper: fits an image into the fixed square viewport with
//! one uniform integer pixel scale, and turns pointer offsets into image
//! coordinates. Clicks and hover highlighting both go through this mapping,
//! so they always agree on which pixel the pointer is over.

use vstd::arithmetic::div_mod::{lemma_div_nonincreasing, lemma_fundamental_div_mod};
use vstd::arithmetic::mul::{lemma_mul_inequality, lemma_mul_is_commutative};
use vstd::prelude::*;

verus! {

/// The side length, in canvas units, of the square viewport the editor
/// paints into.
pub const VIEWPORT_SIZE: u32 = 650;

/// The uniform width and height of one scaled pixel cell: the viewport side
/// divided by the longer image dimension, rounded down.
pub open spec fn spec_scale(viewport: int, width: int, height: int) -> int {
    if height > width {
        viewport / height
    } else {
        viewport / width
    }
}

pub fn compute_scale(viewport: u32, width: u32, height: u32) -> (s: u32)
    requires
        width >= 1,
        height >= 1,
    ensures
        s == spec_scale(viewport as int, width as int, height as int),
        s <= viewport,
{
    proof {
        lemma_div_nonincreasing(viewport as int, width as int);
        lemma_div_nonincreasing(viewport as int, height as int);
    }
    if height > width {
        viewport / height
    } else {
        viewport / width
    }
}

/// Where the pointer offset `(px, py)` lands in image coordinates, before
/// any bounds check.
pub open spec fn spec_mapped(viewport: int, width: int, height: int, px: int, py: int) -> (
    int,
    int,
) {
    (px / spec_scale(viewport, width, height), py / spec_scale(viewport, width, height))
}

/// Whether the pointer offset hits a pixel of the image at all. A scale of
/// zero means the image is larger than the viewport on its longer side, and
/// nothing can be hit.
pub open spec fn spec_hit_valid(
    viewport: int,
    width: int,
    height: int,
    px: int,
    py: int,
) -> bool {
    let s = spec_scale(viewport, width, height);
    &&& s > 0
    &&& px / s < width
    &&& py / s < height
}

/// Maps a pointer offset inside the viewport to the image pixel under it.
/// The result is `None` exactly when the mapped coordinate falls on or past
/// the right or bottom image edge, so `width - 1` and `height - 1` are the
/// last coordinates a pointer can reach.
pub fn hit_test(viewport: u32, width: u32, height: u32, px: u32, py: u32) -> (r: Option<
    (u16, u16),
>)
    requires
        1 <= width <= 2047,
        1 <= height <= 2047,
    ensures
        r is Some <==> spec_hit_valid(viewport as int, width as int, height as int, px as int, py as int),
        r matches Some(c) ==> (c.0 as int, c.1 as int) == spec_mapped(
            viewport as int,
            width as int,
            height as int,
            px as int,
            py as int,
        ),
{
    let scale = compute_scale(viewport, width, height);
    if scale == 0 {
        return None;
    }
    let x = px / scale;
    let y = py / scale;
    if x >= width || y >= height {
        return None;
    }
    Some((x as u16, y as u16))
}

/// The screen-space cell of one image pixel: its top-left corner and its
/// side length, all in canvas units.
#[derive(Clone, Copy, PartialEq, Eq, Structural, Debug)]
pub struct CellRect {
    pub left: u32,
    pub top: u32,
    pub size: u32,
}

/// The highlight quad the hover overlay paints: the exact scaled cell of the
/// pixel under the pointer, or `None` when the pointer misses the image and
/// the overlay is only cleared.
pub fn hover_highlight(viewport: u32, width: u32, height: u32, px: u32, py: u32) -> (r: Option<
    CellRect,
>)
    requires
        1 <= width <= 2047,
        1 <= height <= 2047,
    ensures
        r is Some <==> spec_hit_valid(viewport as int, width as int, height as int, px as int, py as int),
        r matches Some(cell) ==> {
            let s = spec_scale(viewport as int, width as int, height as int);
            let (x, y) = spec_mapped(viewport as int, width as int, height as int, px as int, py as int);
            cell.left == x * s && cell.top == y * s && cell.size == s
        },
{
    let scale = compute_scale(viewport, width, height);
    match hit_test(viewport, width, height, px, py) {
        None => None,
        Some((x, y)) => {
            proof {
                lemma_cell_fits_viewport(viewport as int, width as int, height as int, px as int);
                lemma_cell_fits_viewport(viewport as int, height as int, width as int, py as int);
            }
            Some(CellRect { left: (x as u32) * scale, top: (y as u32) * scale, size: scale })
        },
    }
}

/// A mapped coordinate times the scale stays within the viewport: used to
/// show that cell corners never overflow.
proof fn lemma_cell_fits_viewport(viewport: int, width: int, height: int, p: int)
    requires
        width >= 1,
        height >= 1,
        spec_scale(viewport, width, height) > 0,
        p >= 0,
        viewport >= 0,
        p / spec_scale(viewport, width, height) < if height > width {
            height
        } else {
            width
        },
    ensures
        (p / spec_scale(viewport, width, height) + 1) * spec_scale(viewport, width, height)
            <= viewport,
        (p / spec_scale(viewport, width, height)) * spec_scale(viewport, width, height)
            <= viewport,
{
    let long = if height > width {
        height
    } else {
        width
    };
    let s = spec_scale(viewport, width, height);
    let x = p / s;
    lemma_mul_inequality(x + 1, long, s);
    lemma_mul_is_commutative(long, s);
    lemma_fundamental_div_mod(viewport, long);
    lemma_mul_inequality(x, x + 1, s);
}

/// Every hit pixel's cell really contains the pointer: the mapped `x`
/// satisfies `x * scale <= px < (x + 1) * scale`, and likewise for `y`.
/// Pointer offsets in the partial strip past the last full cell map to a
/// coordinate at or beyond the image edge and are rejected by `hit_test`
/// before this applies.
pub proof fn lemma_cell_bounds(viewport: int, width: int, height: int, px: int, py: int)
    requires
        width >= 1,
        height >= 1,
        px >= 0,
        py >= 0,
        spec_hit_valid(viewport, width, height, px, py),
    ensures
        ({
            let s = spec_scale(viewport, width, height);
            let (x, y) = spec_mapped(viewport, width, height, px, py);
            &&& x * s <= px < (x + 1) * s
            &&& y * s <= py < (y + 1) * s
        }),
{
    let s = spec_scale(viewport, width, height);
    lemma_fundamental_div_mod(px, s);
    lemma_fundamental_div_mod(py, s);
    lemma_mul_is_commutative(px / s, s);
    lemma_mul_is_commutative(py / s, s);
    assert((px / s + 1) * s == (px / s) * s + s) by (nonlinear_arith);
    assert((py / s + 1) * s == (py / s) * s + s) by (nonlinear_arith);
}

} // verus!

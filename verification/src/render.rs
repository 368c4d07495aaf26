//! The canvas renderer's planning half: from the current image and the
//! redraw directive it computes the exact list of cell fills to paint, in
//! row-major order. Painting the plan is plain surface mutation and happens
//! outside; the plan is a pure function of image and directive, so painting
//! it twice yields the same surface.

use crate::color::Rgba;
use crate::image::{
    fetch_table, image_dims, image_pixels, image_size_raw, image_valid, read_pixel_table,
    table_dims, table_pixels,
};
use crate::mapper::{compute_scale, spec_scale};
use bmp_rust::bmp::BMP;
use vstd::arithmetic::div_mod::lemma_fundamental_div_mod_converse;
use vstd::prelude::*;

verus! {

/// One image pixel coordinate.
#[derive(Clone, Copy, PartialEq, Eq, Structural, Debug)]
pub struct PixelCoord {
    pub x: u16,
    pub y: u16,
}

/// How much of the canvas the last action requires to be repainted:
/// everything, one pixel cell, or an inclusive rectangle of cells whose
/// corners may come in either order.
#[derive(Clone, Copy, PartialEq, Eq, Structural, Debug)]
pub enum PixelRedrawRange {
    Point(PixelCoord),
    Rect(PixelCoord, PixelCoord),
    Empty,
}

impl PixelRedrawRange {
    pub fn is_empty(&self) -> (r: bool)
        ensures
            r == (*self is Empty),
    {
        match self {
            PixelRedrawRange::Empty => true,
            _ => false,
        }
    }

    pub fn is_not_empty(&self) -> (r: bool)
        ensures
            r == !(*self is Empty),
    {
        !self.is_empty()
    }
}

/// One paint instruction: fill the square cell with the given top-left
/// corner and side length, in canvas units, with the color.
#[derive(Clone, Copy, PartialEq, Eq, Structural, Debug)]
pub struct CellPaint {
    pub left: u32,
    pub top: u32,
    pub size: u32,
    pub color: Rgba,
}

/// What the renderer paints for one redraw: optionally clear the surface
/// first, then fill the listed cells in order.
pub struct RenderPlan {
    pub clear: bool,
    pub cells: Vec<CellPaint>,
}

/// The cell fill for the image pixel at `(x, y)` under the given scale.
pub open spec fn spec_cell(b: BMP, scale: int, x: int, y: int) -> CellPaint {
    let p = image_pixels(b)[(x, y)];
    CellPaint {
        left: (x * scale) as u32,
        top: (y * scale) as u32,
        size: scale as u32,
        color: Rgba { r: p.0, g: p.1, b: p.2, a: p.3 },
    }
}

/// The scale the renderer uses for an image in the given viewport.
pub open spec fn spec_image_scale(b: BMP, viewport: int) -> int {
    spec_scale(viewport, image_dims(b).0 as int, image_dims(b).1 as int)
}

/// Computes the paint instructions for one redraw of the image under the
/// given directive:
/// - `Empty` clears the surface and repaints every cell, row by row;
/// - `Rect` repaints exactly the cells in the inclusive rectangle spanned
///   by the two corners, whichever order they come in, without clearing;
/// - `Point` repaints exactly one cell without clearing.
pub fn render_plan(b: &BMP, viewport: u32, range: &PixelRedrawRange) -> (plan: RenderPlan)
    requires
        image_valid(*b),
        viewport <= 65535,
        range matches PixelRedrawRange::Point(c) ==> (c.x as int) < image_dims(*b).0
            && (c.y as int) < image_dims(*b).1,
        range matches PixelRedrawRange::Rect(p, q) ==> (p.x as int) < image_dims(*b).0
            && (p.y as int) < image_dims(*b).1 && (q.x as int) < image_dims(*b).0
            && (q.y as int) < image_dims(*b).1,
    ensures
        plan.clear == (*range is Empty),
        *range is Empty ==> {
            let w = image_dims(*b).0 as int;
            let h = image_dims(*b).1 as int;
            &&& plan.cells@.len() == w * h
            &&& forall|i: int|
                0 <= i < plan.cells@.len() ==> #[trigger] plan.cells@[i] == spec_cell(
                    *b,
                    spec_image_scale(*b, viewport as int),
                    i % w,
                    i / w,
                )
        },
        *range matches PixelRedrawRange::Point(c) ==> plan.cells@ =~= seq![
            spec_cell(*b, spec_image_scale(*b, viewport as int), c.x as int, c.y as int),
        ],
        *range matches PixelRedrawRange::Rect(p, q) ==> {
            let x0 = vstd::math::min(p.x as int, q.x as int);
            let x1 = vstd::math::max(p.x as int, q.x as int);
            let y0 = vstd::math::min(p.y as int, q.y as int);
            let y1 = vstd::math::max(p.y as int, q.y as int);
            let cw = x1 - x0 + 1;
            &&& plan.cells@.len() == cw * (y1 - y0 + 1)
            &&& forall|i: int|
                0 <= i < plan.cells@.len() ==> #[trigger] plan.cells@[i] == spec_cell(
                    *b,
                    spec_image_scale(*b, viewport as int),
                    x0 + i % cw,
                    y0 + i / cw,
                )
        },
{
    let (w, h) = image_size_raw(b);
    let scale = compute_scale(viewport, w, h);
    let table = fetch_table(b);
    match range {
        PixelRedrawRange::Empty => {
            let mut cells: Vec<CellPaint> = Vec::new();
            let mut y: u32 = 0;
            while y < h
                invariant
                    image_valid(*b),
                    (w, h) == image_dims(*b),
                    table_pixels(table) == image_pixels(*b),
                    table_dims(table) == image_dims(*b),
                    viewport <= 65535,
                    scale == spec_image_scale(*b, viewport as int),
                    scale <= 65535,
                    y <= h,
                    cells@.len() == y * w,
                    forall|i: int|
                        0 <= i < cells@.len() ==> #[trigger] cells@[i] == spec_cell(
                            *b,
                            scale as int,
                            i % (w as int),
                            i / (w as int),
                        ),
                decreases h - y,
            {
                let mut x: u32 = 0;
                while x < w
                    invariant
                        image_valid(*b),
                        (w, h) == image_dims(*b),
                    table_pixels(table) == image_pixels(*b),
                    table_dims(table) == image_dims(*b),
                        viewport <= 65535,
                        scale == spec_image_scale(*b, viewport as int),
                        scale <= 65535,
                        y < h,
                        x <= w,
                        cells@.len() == y * w + x,
                        forall|i: int|
                            0 <= i < cells@.len() ==> #[trigger] cells@[i] == spec_cell(
                                *b,
                                scale as int,
                                i % (w as int),
                                i / (w as int),
                            ),
                    decreases w - x,
                {
                    let color = read_pixel_table(b, &table, x as u16, y as u16);
                    proof {
                        lemma_fundamental_div_mod_converse(
                            y * w + x,
                            w as int,
                            y as int,
                            x as int,
                        );
                        assert(x as int * scale as int <= 2046 * 65535) by (nonlinear_arith)
                            requires
                                0 <= x as int <= 2046,
                                0 <= scale as int <= 65535,
                        ;
                        assert(y as int * scale as int <= 2046 * 65535) by (nonlinear_arith)
                            requires
                                0 <= y as int <= 2046,
                                0 <= scale as int <= 65535,
                        ;
                    }
                    cells.push(
                        CellPaint { left: x * scale, top: y * scale, size: scale, color },
                    );
                    x += 1;
                }
                proof {
                    assert((y as int + 1) * (w as int) == y as int * (w as int) + w as int)
                        by (nonlinear_arith);
                }
                y += 1;
            }
            proof {
                assert(h * w == w * h) by (nonlinear_arith);
            }
            RenderPlan { clear: true, cells }
        },
        PixelRedrawRange::Point(c) => {
            let color = read_pixel_table(b, &table, c.x, c.y);
            proof {
                assert(c.x as int * scale as int <= 2046 * 65535) by (nonlinear_arith)
                    requires
                        0 <= c.x as int <= 2046,
                        0 <= scale as int <= 65535,
                ;
                assert(c.y as int * scale as int <= 2046 * 65535) by (nonlinear_arith)
                    requires
                        0 <= c.y as int <= 2046,
                        0 <= scale as int <= 65535,
                ;
            }
            let mut cells: Vec<CellPaint> = Vec::new();
            cells.push(
                CellPaint {
                    left: (c.x as u32) * scale,
                    top: (c.y as u32) * scale,
                    size: scale,
                    color,
                },
            );
            RenderPlan { clear: false, cells }
        },
        PixelRedrawRange::Rect(p, q) => {
            let x0: u16 = if p.x <= q.x { p.x } else { q.x };
            let x1: u16 = if p.x <= q.x { q.x } else { p.x };
            let y0: u16 = if p.y <= q.y { p.y } else { q.y };
            let y1: u16 = if p.y <= q.y { q.y } else { p.y };
            let cw: u32 = (x1 - x0) as u32 + 1;
            let ch: u32 = (y1 - y0) as u32 + 1;
            let mut cells: Vec<CellPaint> = Vec::new();
            let mut ry: u32 = 0;
            while ry < ch
                invariant
                    image_valid(*b),
                    (w, h) == image_dims(*b),
                    table_pixels(table) == image_pixels(*b),
                    table_dims(table) == image_dims(*b),
                    viewport <= 65535,
                    scale == spec_image_scale(*b, viewport as int),
                    scale <= 65535,
                    x0 <= x1 < w,
                    y0 <= y1 < h,
                    cw == x1 - x0 + 1,
                    ch == y1 - y0 + 1,
                    ry <= ch,
                    cells@.len() == ry * cw,
                    forall|i: int|
                        0 <= i < cells@.len() ==> #[trigger] cells@[i] == spec_cell(
                            *b,
                            scale as int,
                            x0 + i % (cw as int),
                            y0 + i / (cw as int),
                        ),
                decreases ch - ry,
            {
                let mut rx: u32 = 0;
                while rx < cw
                    invariant
                        image_valid(*b),
                        (w, h) == image_dims(*b),
                    table_pixels(table) == image_pixels(*b),
                    table_dims(table) == image_dims(*b),
                        viewport <= 65535,
                        scale == spec_image_scale(*b, viewport as int),
                        scale <= 65535,
                        x0 <= x1 < w,
                        y0 <= y1 < h,
                        cw == x1 - x0 + 1,
                        ch == y1 - y0 + 1,
                        ry < ch,
                        rx <= cw,
                        cells@.len() == ry * cw + rx,
                        forall|i: int|
                            0 <= i < cells@.len() ==> #[trigger] cells@[i] == spec_cell(
                                *b,
                                scale as int,
                                x0 + i % (cw as int),
                                y0 + i / (cw as int),
                            ),
                    decreases cw - rx,
                {
                    let cx: u32 = x0 as u32 + rx;
                    let cy: u32 = y0 as u32 + ry;
                    let color = read_pixel_table(b, &table, cx as u16, cy as u16);
                    proof {
                        lemma_fundamental_div_mod_converse(
                            ry * cw + rx,
                            cw as int,
                            ry as int,
                            rx as int,
                        );
                        assert(cx as int * scale as int <= 2046 * 65535) by (nonlinear_arith)
                            requires
                                0 <= cx as int <= 2046,
                                0 <= scale as int <= 65535,
                        ;
                        assert(cy as int * scale as int <= 2046 * 65535) by (nonlinear_arith)
                            requires
                                0 <= cy as int <= 2046,
                                0 <= scale as int <= 65535,
                        ;
                    }
                    cells.push(
                        CellPaint { left: cx * scale, top: cy * scale, size: scale, color },
                    );
                    rx += 1;
                }
                proof {
                    assert((ry as int + 1) * (cw as int) == ry as int * (cw as int) + cw as int)
                        by (nonlinear_arith);
                }
                ry += 1;
            }
            proof {
                assert(ch * cw == cw * ch) by (nonlinear_arith);
            }
            RenderPlan { clear: false, cells }
        },
    }
}

} // verus!

//! The rasterizer: turns a grid plus a viewport into a row-major RGBA
//! byte buffer for a canvas of given pixel dimensions.

use vstd::prelude::*;
use crate::color::{Color, sentinel_spec};
use crate::fixed::{FP_ONE, floor_div};
use crate::grid::Grid;
use crate::viewport::{ViewportState, src_cell};

verus! {

/// Largest canvas dimension accepted, matching the grid bound.
pub const MAX_CANVAS: usize = 16384;

/// The source column sampled for canvas pixel column `cx`:
/// `floor((cx + offset.x) / scale)` in pixel units.
pub open spec fn src_x(vp: ViewportState, cx: int) -> int {
    src_cell(cx * FP_ONE, vp.offset.x as int, vp.scale as int)
}

/// The source row sampled for canvas pixel row `cy`.
pub open spec fn src_y(vp: ViewportState, cy: int) -> int {
    src_cell(cy * FP_ONE, vp.offset.y as int, vp.scale as int)
}

/// The color rendered at canvas pixel `(cx, cy)`: the sampled grid cell
/// when its index is within bounds, else the opaque black sentinel.
pub open spec fn rendered_color(g: Grid, vp: ViewportState, cx: int, cy: int) -> Color {
    let sx = src_x(vp, cx);
    let sy = src_y(vp, cy);
    if 0 <= sx < g.columns_spec() && 0 <= sy < g.rows_spec() {
        g.cell(sx, sy)
    } else {
        sentinel_spec()
    }
}

/// The byte offset of channel `k` of canvas pixel `(cx, cy)` in a
/// row-major buffer of width `width`.
pub open spec fn pixel_index(width: int, cx: int, cy: int, k: int) -> int {
    4 * (width * cy + cx) + k
}

/// Append the four channels of `c`, in R, G, B, A order.
fn write_pixel(buf: &mut Vec<u8>, c: Color)
    ensures
        final(buf)@ == old(buf)@.push(c.r).push(c.g).push(c.b).push(c.a),
        final(buf)@.len() == old(buf)@.len() + 4,
        forall|k: int| 0 <= k < 4 ==> final(buf)@[old(buf)@.len() + k] == c.channel(k),
{
    buf.push(c.r);
    buf.push(c.g);
    buf.push(c.b);
    buf.push(c.a);
}

/// Sample the source cell for canvas pixel `(cx, cy)` and return its
/// color, or the sentinel when the cell lies outside the grid.
pub fn sample(grid: &Grid, vp: &ViewportState, cx: usize, cy: usize) -> (c: Color)
    requires
        grid.wf(),
        vp.wf(),
        cx <= MAX_CANVAS,
        cy <= MAX_CANVAS,
    ensures
        c == rendered_color(*grid, *vp, cx as int, cy as int),
{
    let sx: i64 = floor_div((cx as i64) * FP_ONE + vp.offset.x, vp.scale);
    let sy: i64 = floor_div((cy as i64) * FP_ONE + vp.offset.y, vp.scale);
    let columns = grid.columns();
    let rows = grid.rows();
    if sx >= 0 && sy >= 0 && (sx as usize) < columns && (sy as usize) < rows {
        grid.get(sx as usize, sy as usize)
    } else {
        Color::sentinel()
    }
}

/// Rasterize: a row-major RGBA buffer of exactly `width * height * 4`
/// bytes in which every pixel holds its rendered color.
pub fn render(grid: &Grid, vp: &ViewportState, width: usize, height: usize) -> (buf: Vec<u8>)
    requires
        grid.wf(),
        vp.wf(),
        width <= MAX_CANVAS,
        height <= MAX_CANVAS,
    ensures
        buf@.len() == width * height * 4,
        forall|cx: int, cy: int, k: int|
            0 <= cx < width && 0 <= cy < height && 0 <= k < 4 ==> buf@[#[trigger] pixel_index(
                width as int,
                cx,
                cy,
                k,
            )] == rendered_color(*grid, *vp, cx, cy).channel(k),
{
    let mut buf: Vec<u8> = Vec::new();
    let mut cy: usize = 0;
    while cy < height
        invariant
            grid.wf(),
            vp.wf(),
            width <= MAX_CANVAS,
            height <= MAX_CANVAS,
            cy <= height,
            buf@.len() == 4 * (width * cy),
            forall|px: int, py: int, k: int|
                0 <= px < width && 0 <= py < cy && 0 <= k < 4 ==> buf@[#[trigger] pixel_index(
                    width as int,
                    px,
                    py,
                    k,
                )] == rendered_color(*grid, *vp, px, py).channel(k),
        decreases height - cy,
    {
        let mut cx: usize = 0;
        while cx < width
            invariant
                grid.wf(),
                vp.wf(),
                width <= MAX_CANVAS,
                height <= MAX_CANVAS,
                cy < height,
                cx <= width,
                buf@.len() == 4 * (width * cy + cx),
                forall|px: int, py: int, k: int|
                    0 <= px < width && 0 <= py < cy && 0 <= k < 4 ==> buf@[#[trigger] pixel_index(
                        width as int,
                        px,
                        py,
                        k,
                    )] == rendered_color(*grid, *vp, px, py).channel(k),
                forall|px: int, k: int|
                    0 <= px < cx && 0 <= k < 4 ==> buf@[#[trigger] pixel_index(
                        width as int,
                        px,
                        cy as int,
                        k,
                    )] == rendered_color(*grid, *vp, px, cy as int).channel(k),
            decreases width - cx,
        {
            let c = sample(grid, vp, cx, cy);
            proof {
                assert(4 * ((width as int) * (cy as int) + cx) + 4 == 4 * ((width as int) * (
                cy as int) + (cx + 1))) by (nonlinear_arith);
                assert((width as int) * (cy as int) + cx <= MAX_CANVAS * MAX_CANVAS + MAX_CANVAS)
                    by (nonlinear_arith)
                    requires
                        0 <= width <= MAX_CANVAS,
                        0 <= cy <= MAX_CANVAS,
                        0 <= cx <= width,
                ;
            }
            let ghost prev = buf@;
            write_pixel(&mut buf, c);
            proof {
                assert forall|px: int, py: int, k: int|
                    0 <= px < width && 0 <= py < cy && 0 <= k
                        < 4 implies buf@[#[trigger] pixel_index(width as int, px, py, k)]
                    == rendered_color(*grid, *vp, px, py).channel(k) by {
                    assert(0 <= pixel_index(width as int, px, py, k) < 4 * ((width as int) * (
                    cy as int))) by (nonlinear_arith)
                        requires
                            0 <= px < width as int,
                            0 <= py < cy as int,
                            0 <= k < 4,
                    ;
                    assert(buf@[pixel_index(width as int, px, py, k)] == prev[pixel_index(
                        width as int,
                        px,
                        py,
                        k,
                    )]);
                }
            }
            cx = cx + 1;
        }
        proof {
            assert(4 * ((width as int) * (cy as int) + width) == 4 * ((width as int) * ((
            cy as int) + 1))) by (nonlinear_arith);
        }
        cy = cy + 1;
    }
    proof {
        assert(4 * ((width as int) * (height as int)) == (width as int) * (height as int) * 4)
            by (nonlinear_arith);
    }
    buf
}

} // verus!

//! The viewport transform: zoom scale plus pixel offset, the single
//! source of truth for how grid space maps to canvas space.
//!
//! Forward transform: `canvas = cell * scale - offset` (fixed-point).
//! Inverse transform, used by the rasterizer: the source cell under a
//! fixed-point canvas position `p` is `floor((p + offset) / scale)`.

use vstd::prelude::*;
use crate::fixed::{
    FP_ONE, COORD_LIMIT, in_range, clamp, clamp_spec, floor_div, fxmul, fxmul_spec,
    lemma_floor_div_compose, lemma_floor_div_cancel_factor,
};
use crate::vector::{Vector, vec_in_range, vec_in_diff_range};

verus! {

/// The defensive lower bound on the zoom scale: the smallest positive
/// fixed-point value, `1/FP_ONE` canvas pixels per cell. A zero or
/// negative scale never reaches the state.
pub const SCALE_MIN: i64 = 1;

/// The upper bound on the zoom scale, forced by the machine integer
/// arithmetic of the transform.
pub const SCALE_MAX: i64 = 0x4000_0000;

/// The source cell index under fixed-point canvas position `pos`, given
/// a fixed-point `offset` component and positive `scale`:
/// `floor((pos + offset) / scale)`.
pub open spec fn src_cell(pos: int, offset: int, scale: int) -> int {
    (pos + offset) / scale
}

/// A component clamped into the representable coordinate range.
pub open spec fn clamp_coord(v: int) -> int {
    clamp_spec(v, -COORD_LIMIT as int, COORD_LIMIT as int)
}

/// Zoom scale and pan offset.
#[derive(Clone, Copy, PartialEq, Eq, Structural, Debug)]
pub struct ViewportState {
    /// Canvas pixels per grid cell, fixed-point, always in
    /// `[SCALE_MIN, SCALE_MAX]`.
    pub scale: i64,
    /// The canvas-space displacement the inverse transform adds before
    /// dividing by `scale`.
    pub offset: Vector,
}

/// The state `pan` produces: the offset moved by `delta` (clamped into
/// the representable range), the scale untouched.
pub open spec fn pan_spec(vp: ViewportState, delta: Vector) -> ViewportState {
    ViewportState {
        scale: vp.scale,
        offset: Vector {
            x: clamp_coord(vp.offset.x + delta.x) as i64,
            y: clamp_coord(vp.offset.y + delta.y) as i64,
        },
    }
}

impl ViewportState {
    /// Well-formed: positive bounded scale, offset in range.
    pub open spec fn wf(self) -> bool {
        &&& SCALE_MIN <= self.scale <= SCALE_MAX
        &&& vec_in_range(self.offset)
    }

    /// The initial viewport: four canvas pixels per cell, offset
    /// `(-1, -1)` pixels.
    pub fn new() -> (vp: ViewportState)
        ensures
            vp.wf(),
            vp.scale == 4 * FP_ONE,
            vp.offset.x == -FP_ONE,
            vp.offset.y == -FP_ONE,
    {
        ViewportState { scale: 4 * FP_ONE, offset: Vector { x: -FP_ONE, y: -FP_ONE } }
    }

    /// Move the offset by `delta`; the scale is untouched. The offset is
    /// clamped into the representable coordinate range, and unchanged by
    /// the clamp whenever the exact sum already lies in it.
    pub fn pan(&mut self, delta: Vector)
        requires
            old(self).wf(),
            vec_in_diff_range(delta),
        ensures
            final(self).wf(),
            *final(self) == pan_spec(*old(self), delta),
    {
        self.offset = Vector {
            x: clamp(self.offset.x + delta.x, -COORD_LIMIT, COORD_LIMIT),
            y: clamp(self.offset.y + delta.y, -COORD_LIMIT, COORD_LIMIT),
        };
    }

    /// Replace the scale, clamped into `[SCALE_MIN, SCALE_MAX]`; the
    /// offset is untouched. The hook for explicit zoom controls.
    pub fn set_scale(&mut self, scale: i64)
        requires
            old(self).wf(),
        ensures
            final(self).wf(),
            final(self).scale == clamp_spec(scale as int, SCALE_MIN as int, SCALE_MAX as int),
            final(self).offset == old(self).offset,
    {
        self.scale = clamp(scale, SCALE_MIN, SCALE_MAX);
    }

    /// Multiply the scale by the positive fixed-point `factor` and move
    /// the offset so that the grid cell under the fixed-point canvas
    /// position `anchor` stays under it (exactly so whenever the new
    /// offset needs no clamping; see `lemma_zoom_at_preserves_anchor`).
    /// The new scale is clamped into `[SCALE_MIN, SCALE_MAX]`, so a
    /// factor that would collapse or overflow the scale cannot.
    pub fn zoom_at(&mut self, anchor: Vector, factor: i64)
        requires
            old(self).wf(),
            vec_in_range(anchor),
            0 < factor,
            in_range(factor as int),
        ensures
            final(self).wf(),
            final(self).scale == clamp_spec(
                fxmul_spec(old(self).scale as int, factor as int),
                SCALE_MIN as int,
                SCALE_MAX as int,
            ),
            final(self).offset.x == clamp_coord(
                (final(self).scale * (anchor.x + old(self).offset.x)) / (old(self).scale as int)
                    - anchor.x,
            ),
            final(self).offset.y == clamp_coord(
                (final(self).scale * (anchor.y + old(self).offset.y)) / (old(self).scale as int)
                    - anchor.y,
            ),
    {
        let new_scale: i64 = clamp(fxmul(self.scale, factor), SCALE_MIN, SCALE_MAX);
        proof {
            assert(-0x2000_0000_0000_0000 <= (new_scale as int) * ((anchor.x + self.offset.x)
                as int) <= 0x2000_0000_0000_0000) by (nonlinear_arith)
                requires
                    SCALE_MIN <= new_scale <= SCALE_MAX,
                    -0x8000_0000i64 <= anchor.x + self.offset.x <= 0x8000_0000i64,
            ;
            assert(-0x2000_0000_0000_0000 <= (new_scale as int) * ((anchor.y + self.offset.y)
                as int) <= 0x2000_0000_0000_0000) by (nonlinear_arith)
                requires
                    SCALE_MIN <= new_scale <= SCALE_MAX,
                    -0x8000_0000i64 <= anchor.y + self.offset.y <= 0x8000_0000i64,
            ;
        }
        let nx: i64 = floor_div(new_scale * (anchor.x + self.offset.x), self.scale) - anchor.x;
        let ny: i64 = floor_div(new_scale * (anchor.y + self.offset.y), self.scale) - anchor.y;
        self.offset = Vector {
            x: clamp(nx, -COORD_LIMIT, COORD_LIMIT),
            y: clamp(ny, -COORD_LIMIT, COORD_LIMIT),
        };
        self.scale = new_scale;
    }
}

/// Law: panning by `delta` and then by its negation restores the
/// original state exactly, whenever the intermediate offset stays in
/// the representable range.
pub proof fn lemma_pan_inverse(vp: ViewportState, delta: Vector)
    requires
        vp.wf(),
        vec_in_range(delta),
        in_range(vp.offset.x + delta.x),
        in_range(vp.offset.y + delta.y),
    ensures
        pan_spec(pan_spec(vp, delta), Vector { x: (-delta.x) as i64, y: (-delta.y) as i64 })
            == vp,
{
}

/// Law: any zoom whose new offset component is the exact (unclamped)
/// anchor formula `new_scale * (anchor + offset) / scale - anchor` keeps
/// the source cell under the anchor unchanged, whatever positive scales
/// are involved. `zoom_at` computes exactly that formula, so the cell
/// under its anchor is preserved whenever no clamping occurs.
pub proof fn lemma_zoom_at_preserves_anchor(
    pre: ViewportState,
    post: ViewportState,
    anchor: Vector,
)
    requires
        pre.wf(),
        SCALE_MIN <= post.scale <= SCALE_MAX,
        post.offset.x == (post.scale * (anchor.x + pre.offset.x)) / (pre.scale as int) - anchor.x,
        post.offset.y == (post.scale * (anchor.y + pre.offset.y)) / (pre.scale as int) - anchor.y,
    ensures
        src_cell(anchor.x as int, post.offset.x as int, post.scale as int) == src_cell(
            anchor.x as int,
            pre.offset.x as int,
            pre.scale as int,
        ),
        src_cell(anchor.y as int, post.offset.y as int, post.scale as int) == src_cell(
            anchor.y as int,
            pre.offset.y as int,
            pre.scale as int,
        ),
{
    let s = pre.scale as int;
    let s2 = post.scale as int;
    let nx = (anchor.x + pre.offset.x) as int;
    let ny = (anchor.y + pre.offset.y) as int;
    lemma_floor_div_compose(s2 * nx, s, s2);
    lemma_floor_div_cancel_factor(s2, nx, s);
    assert(s * s2 == s2 * s) by (nonlinear_arith);
    lemma_floor_div_compose(s2 * ny, s, s2);
    lemma_floor_div_cancel_factor(s2, ny, s);
}

} // verus!

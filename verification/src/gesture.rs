//! The multi-touch gesture interpreter: consumes touch frames and turns
//! them into viewport updates.
//!
//! One previous frame is remembered. On a move event with `N` current
//! touches: `N == 0` and `N >= 3` are rejected with a notice and change
//! no transform; `N == 1` pans by the finger's displacement; `N == 2`
//! pinch-zooms around the touch centroid and pans by the centroid's own
//! movement. The current frame always replaces the remembered one.

use vstd::prelude::*;
use crate::fixed::{
    FP_ONE, COORD_LIMIT, in_range, clamp, clamp_spec, floor_div, floor_div128, sqrt_floor,
    lemma_div_bounds, lemma_floor_div_cancel_factor,
};
use crate::vector::{Vector, vec_in_range, len_sq};
use crate::viewport::{ViewportState, pan_spec, clamp_coord, src_cell, SCALE_MIN, SCALE_MAX};

verus! {

/// Half of one fixed-point unit; scaling a displacement by it halves
/// the displacement.
pub const HALF: i64 = 32768;

/// One touch: an identifier and a canvas-local fixed-point position.
#[derive(Clone, Copy, PartialEq, Eq, Structural, Debug)]
pub struct TouchSample {
    pub id: u64,
    pub pos: Vector,
}

/// One captured instant of touches, in order.
pub type TouchFrame = Vec<TouchSample>;

/// A touch event, as the interpreter sees it.
pub enum TouchEvent {
    /// Fingers went down: the frame of the now-active touches.
    Start(TouchFrame),
    /// Fingers moved: the frame of the currently active touches.
    Move(TouchFrame),
    /// All fingers lifted.
    End,
}

/// A notice the interpreter asks the surrounding application to show.
#[derive(Clone, Copy, PartialEq, Eq, Structural, Debug)]
pub enum Notice {
    /// A move event carried no touches at all.
    NoActiveTouches,
    /// A move event carried three or more touches.
    UnsupportedGesture,
}

/// Every position of the frame lies in the coordinate range.
pub open spec fn frame_ok(f: Seq<TouchSample>) -> bool {
    forall|i: int| 0 <= i < f.len() ==> vec_in_range((#[trigger] f[i]).pos)
}

/// The displacement from sample `a` to sample `b`.
pub open spec fn pan_delta(a: TouchSample, b: TouchSample) -> Vector {
    Vector { x: (b.pos.x - a.pos.x) as i64, y: (b.pos.y - a.pos.y) as i64 }
}

/// The centroid coordinate between `a` and `b`, floored.
pub open spec fn center_coord(a: int, b: int) -> int {
    a + (b - a) / 2
}

/// The fixed-point distance between two positions, floored.
pub open spec fn dist(a: Vector, b: Vector) -> int {
    sqrt_floor(len_sq(Vector { x: (b.x - a.x) as i64, y: (b.y - a.y) as i64 }))
}

/// The fixed-point growth ratio of a pinch: the relative change of the
/// distance between the two touches, floored. A degenerate previous
/// distance of zero means zero growth (no scale change) rather than a
/// division by zero.
pub open spec fn growth_spec(last_len: int, cur_len: int) -> int {
    if last_len == 0 {
        0
    } else {
        ((cur_len - last_len) * FP_ONE) / last_len
    }
}

/// The scale a pinch with growth `g` produces: `scale * (1 + g)`,
/// fixed-point and floored, clamped into the valid scale range.
pub open spec fn pinch_scale_spec(scale: int, g: int) -> int {
    clamp_spec((scale * (FP_ONE + g)) / (FP_ONE as int), SCALE_MIN as int, SCALE_MAX as int)
}

/// The unclamped offset component a pinch produces: the anchor term
/// `s2 * (cc + off) / s - cc` is the offset under which the source cell
/// at the current centroid `cc` is the same at the new scale `s2` as it
/// was at the old scale `s` (the same form `zoom_at` uses), and
/// `cc - lc` pans by the centroid's own movement.
pub open spec fn pinch_offset_raw(off: int, cc: int, lc: int, s: int, s2: int) -> int {
    (s2 * (cc + off)) / s - cc + (cc - lc)
}

/// The offset component a pinch produces, clamped into the
/// representable coordinate range.
pub open spec fn pinch_offset_spec(off: int, cc: int, lc: int, s: int, s2: int) -> int {
    clamp_coord(pinch_offset_raw(off, cc, lc, s, s2))
}

/// The full viewport a two-finger move produces, from the two previous
/// and the two current positions.
pub open spec fn pinch_spec(
    vp: ViewportState,
    l0: Vector,
    l1: Vector,
    c0: Vector,
    c1: Vector,
) -> ViewportState {
    let g = growth_spec(dist(l0, l1), dist(c0, c1));
    let s2 = pinch_scale_spec(vp.scale as int, g);
    ViewportState {
        scale: s2 as i64,
        offset: Vector {
            x: pinch_offset_spec(
                vp.offset.x as int,
                center_coord(c0.x as int, c1.x as int),
                center_coord(l0.x as int, l1.x as int),
                vp.scale as int,
                s2,
            ) as i64,
            y: pinch_offset_spec(
                vp.offset.y as int,
                center_coord(c0.y as int, c1.y as int),
                center_coord(l0.y as int, l1.y as int),
                vp.scale as int,
                s2,
            ) as i64,
        },
    }
}

/// The midpoint of two in-range positions, floored componentwise.
pub fn midpoint(a: Vector, b: Vector) -> (c: Vector)
    requires
        vec_in_range(a),
        vec_in_range(b),
    ensures
        c.x == center_coord(a.x as int, b.x as int),
        c.y == center_coord(a.y as int, b.y as int),
        vec_in_range(c),
{
    let d = b.sub(a);
    proof {
        assert((d.x as int) * (HALF as int) == (HALF as int) * (d.x as int)) by (nonlinear_arith);
        assert((d.y as int) * (HALF as int) == (HALF as int) * (d.y as int)) by (nonlinear_arith);
        lemma_floor_div_cancel_factor(HALF as int, d.x as int, 2);
        lemma_floor_div_cancel_factor(HALF as int, d.y as int, 2);
        lemma_div_bounds(d.x as int, 2);
        lemma_div_bounds(d.y as int, 2);
    }
    let h = d.mul(HALF);
    a.add(h)
}

/// The gesture interpreter: remembers at most one previous frame.
pub struct GestureInterpreter {
    /// The last frame seen, or `None` when idle.
    pub last: Option<TouchFrame>,
}

impl GestureInterpreter {
    /// The remembered frame, as a sequence of samples.
    pub open spec fn remembered(self) -> Option<Seq<TouchSample>> {
        match self.last {
            Some(f) => Some(f@),
            None => None,
        }
    }

    /// Well-formed: any remembered positions are in range.
    pub open spec fn wf(self) -> bool {
        match self.last {
            Some(f) => frame_ok(f@),
            None => true,
        }
    }

    /// A fresh interpreter: idle, nothing remembered.
    pub fn new() -> (g: GestureInterpreter)
        ensures
            g.wf(),
            g.remembered() is None,
    {
        GestureInterpreter { last: None }
    }

    /// A touch start: remember the started frame; no transform change.
    pub fn on_start(&mut self, frame: TouchFrame)
        requires
            old(self).wf(),
            frame_ok(frame@),
        ensures
            final(self).wf(),
            final(self).remembered() == Some(frame@),
    {
        self.last = Some(frame);
    }

    /// A touch end, all fingers lifted: forget the frame, back to idle.
    pub fn on_end(&mut self)
        requires
            old(self).wf(),
        ensures
            final(self).wf(),
            final(self).remembered() is None,
    {
        self.last = None;
    }

    /// A move event carrying the `current` frame. Exactly the rejected
    /// shapes (`0` or `>= 3` touches) produce a notice and change
    /// nothing; one touch pans; two touches pinch-zoom; a move without
    /// a usable previous frame only records. The current frame replaces
    /// the remembered one unconditionally.
    pub fn on_move(&mut self, current: TouchFrame, vp: &mut ViewportState) -> (notice: Option<
        Notice,
    >)
        requires
            old(self).wf(),
            old(vp).wf(),
            frame_ok(current@),
        ensures
            final(self).wf(),
            final(vp).wf(),
            final(self).remembered() == Some(current@),
            current@.len() == 0 ==> *final(vp) == *old(vp) && notice == Some(
                Notice::NoActiveTouches,
            ),
            current@.len() >= 3 ==> *final(vp) == *old(vp) && notice == Some(
                Notice::UnsupportedGesture,
            ),
            1 <= current@.len() <= 2 ==> notice is None,
            current@.len() == 1 ==> *final(vp) == (match old(self).remembered() {
                Some(f) => if f.len() >= 1 {
                    pan_spec(*old(vp), pan_delta(f[0], current@[0]))
                } else {
                    *old(vp)
                },
                None => *old(vp),
            }),
            current@.len() == 2 ==> *final(vp) == (match old(self).remembered() {
                Some(f) => if f.len() >= 2 {
                    pinch_spec(*old(vp), f[0].pos, f[1].pos, current@[0].pos, current@[1].pos)
                } else {
                    *old(vp)
                },
                None => *old(vp),
            }),
    {
        let n = current.len();
        let notice: Option<Notice> = if n == 0 {
            Some(Notice::NoActiveTouches)
        } else if n == 1 {
            match &self.last {
                Some(f) => {
                    if f.len() >= 1 {
                        let delta = current[0].pos.sub(f[0].pos);
                        proof {
                            assert(delta == pan_delta(old(self).remembered()->Some_0[0],
                                current@[0]));
                        }
                        vp.pan(delta);
                    }
                },
                None => {},
            }
            None
        } else if n == 2 {
            match &self.last {
                Some(f) => {
                    if f.len() >= 2 {
                        apply_pinch(f[0], f[1], current[0], current[1], vp);
                    }
                },
                None => {},
            }
            None
        } else {
            Some(Notice::UnsupportedGesture)
        };
        self.last = Some(current);
        notice
    }
}

impl GestureInterpreter {
    /// The whole transition table in one call: dispatch a touch event.
    /// Start records, End forgets, Move behaves as `on_move` says; only
    /// a rejected move produces a notice.
    pub fn on_event(&mut self, event: TouchEvent, vp: &mut ViewportState) -> (notice: Option<
        Notice,
    >)
        requires
            old(self).wf(),
            old(vp).wf(),
            match event {
                TouchEvent::Start(f) => frame_ok(f@),
                TouchEvent::Move(f) => frame_ok(f@),
                TouchEvent::End => true,
            },
        ensures
            final(self).wf(),
            final(vp).wf(),
            match event {
                TouchEvent::Start(f) => final(self).remembered() == Some(f@) && *final(vp) == *old(
                    vp,
                ) && notice is None,
                TouchEvent::End => final(self).remembered() is None && *final(vp) == *old(vp)
                    && notice is None,
                TouchEvent::Move(f) => {
                    &&& final(self).remembered() == Some(f@)
                    &&& f@.len() == 0 ==> *final(vp) == *old(vp) && notice == Some(
                        Notice::NoActiveTouches,
                    )
                    &&& f@.len() >= 3 ==> *final(vp) == *old(vp) && notice == Some(
                        Notice::UnsupportedGesture,
                    )
                    &&& 1 <= f@.len() <= 2 ==> notice is None
                    &&& f@.len() == 1 ==> *final(vp) == (match old(self).remembered() {
                        Some(p) => if p.len() >= 1 {
                            pan_spec(*old(vp), pan_delta(p[0], f@[0]))
                        } else {
                            *old(vp)
                        },
                        None => *old(vp),
                    })
                    &&& f@.len() == 2 ==> *final(vp) == (match old(self).remembered() {
                        Some(p) => if p.len() >= 2 {
                            pinch_spec(*old(vp), p[0].pos, p[1].pos, f@[0].pos, f@[1].pos)
                        } else {
                            *old(vp)
                        },
                        None => *old(vp),
                    })
                },
            },
    {
        match event {
            TouchEvent::Start(f) => {
                self.on_start(f);
                None
            },
            TouchEvent::Move(f) => self.on_move(f, vp),
            TouchEvent::End => {
                self.on_end();
                None
            },
        }
    }
}

/// Apply a two-finger pinch to the viewport: the scale grows by the
/// relative change of the touch distance, and the offset keeps the
/// centroid anchored while following its movement.
fn apply_pinch(l0: TouchSample, l1: TouchSample, c0: TouchSample, c1: TouchSample,
    vp: &mut ViewportState)
    requires
        old(vp).wf(),
        vec_in_range(l0.pos),
        vec_in_range(l1.pos),
        vec_in_range(c0.pos),
        vec_in_range(c1.pos),
    ensures
        final(vp).wf(),
        *final(vp) == pinch_spec(*old(vp), l0.pos, l1.pos, c0.pos, c1.pos),
{
    let last_vec = l1.pos.sub(l0.pos);
    let cur_vec = c1.pos.sub(c0.pos);
    let last_len = last_vec.len();
    let cur_len = cur_vec.len();
    proof {
        assert(last_len == dist(l0.pos, l1.pos));
        assert(cur_len == dist(c0.pos, c1.pos));
    }
    let last_center = midpoint(l0.pos, l1.pos);
    let cur_center = midpoint(c0.pos, c1.pos);
    let g: i64 = if last_len == 0 {
        0
    } else {
        floor_div((cur_len - last_len) * FP_ONE, last_len)
    };
    proof {
        if last_len != 0 {
            vstd::arithmetic::div_mod::lemma_div_multiples_vanish(
                -(FP_ONE as int), last_len as int);
            vstd::arithmetic::div_mod::lemma_div_is_ordered(
                (-(FP_ONE as int)) * (last_len as int),
                ((cur_len - last_len) as int) * (FP_ONE as int),
                last_len as int,
            );
            assert(((cur_len - last_len) as int) * (FP_ONE as int) >= (-(FP_ONE as int)) * (
            last_len as int)) by (nonlinear_arith)
                requires
                    cur_len >= 0,
                    last_len >= 1,
            ;
        }
        assert(g >= -FP_ONE);
        assert(g == growth_spec(last_len as int, cur_len as int));
    }
    let one_plus_g: i64 = FP_ONE + g;
    proof {
        let s0 = vp.scale;
        assert(0 <= (s0 as int) * (one_plus_g as int) <= 0x1_0000_0000_0000_0000_0000)
            by (nonlinear_arith)
            requires
                1 <= s0 <= SCALE_MAX,
                0 <= one_plus_g <= 0x4_0000_0000_0000i64,
        ;
    }
    let nsw: i128 = floor_div128((vp.scale as i128) * (one_plus_g as i128), FP_ONE as i128);
    let new_scale: i64 = if nsw < (SCALE_MIN as i128) {
        SCALE_MIN
    } else if nsw > (SCALE_MAX as i128) {
        SCALE_MAX
    } else {
        nsw as i64
    };
    let ox = pinch_offset_component(vp.offset.x, cur_center.x, last_center.x, vp.scale, new_scale);
    let oy = pinch_offset_component(vp.offset.y, cur_center.y, last_center.y, vp.scale, new_scale);
    vp.scale = new_scale;
    vp.offset = Vector { x: ox, y: oy };
}

/// One offset component of a pinch: the anchor-preserving form
/// `s2 * (cc + off) / s - cc` plus the centroid movement `cc - lc`,
/// clamped into the representable range.
fn pinch_offset_component(off: i64, cc: i64, lc: i64, s: i64, s2: i64) -> (r: i64)
    requires
        -COORD_LIMIT <= off <= COORD_LIMIT,
        -COORD_LIMIT <= cc <= COORD_LIMIT,
        -COORD_LIMIT <= lc <= COORD_LIMIT,
        SCALE_MIN <= s <= SCALE_MAX,
        SCALE_MIN <= s2 <= SCALE_MAX,
    ensures
        r == pinch_offset_spec(off as int, cc as int, lc as int, s as int, s2 as int),
        -COORD_LIMIT <= r <= COORD_LIMIT,
{
    proof {
        assert(-0x2000_0000_0000_0000 <= (s2 as int) * ((cc + off) as int)
            <= 0x2000_0000_0000_0000) by (nonlinear_arith)
            requires
                SCALE_MIN <= s2 <= SCALE_MAX,
                -0x8000_0000i64 <= cc + off <= 0x8000_0000i64,
        ;
    }
    let q: i64 = floor_div(s2 * (cc + off), s);
    clamp(q - cc + (cc - lc), -COORD_LIMIT, COORD_LIMIT)
}

/// Law: a pinch whose current touch distance is an exact whole multiple
/// `m` of the previous distance has growth exactly `m - 1` and scales
/// the viewport by exactly `m` (clamped into the valid scale range):
/// the fixed-point arithmetic loses nothing on exact ratios.
pub proof fn lemma_pinch_exact_ratio_scales(scale: int, ll: int, cl: int, m: int)
    requires
        0 < ll,
        1 <= m,
        cl == m * ll,
    ensures
        growth_spec(ll, cl) == (m - 1) * FP_ONE,
        pinch_scale_spec(scale, growth_spec(ll, cl)) == clamp_spec(
            m * scale,
            SCALE_MIN as int,
            SCALE_MAX as int,
        ),
{
    let one = FP_ONE as int;
    assert((cl - ll) * one == ((m - 1) * one) * ll) by (nonlinear_arith)
        requires
            cl == m * ll,
    ;
    vstd::arithmetic::div_mod::lemma_div_by_multiple((m - 1) * one, ll);
    assert(growth_spec(ll, cl) == (m - 1) * FP_ONE);
    assert(scale * (one + (m - 1) * one) == one * (m * scale)) by (nonlinear_arith);
    vstd::arithmetic::div_mod::lemma_div_multiples_vanish(m * scale, one);
}

/// Law: a two-finger move that keeps the distance between the touches
/// unchanged is a pure pan. The scale stays exactly as it was, and each
/// offset component moves by exactly the centroid's own movement
/// (clamped into the representable range). When the centroid does not
/// move either, the viewport is wholly unchanged: the grid point under
/// the centroid stays under it.
pub proof fn lemma_pinch_equal_distance_pans(
    vp: ViewportState,
    l0: Vector,
    l1: Vector,
    c0: Vector,
    c1: Vector,
)
    requires
        vp.wf(),
        dist(c0, c1) == dist(l0, l1),
    ensures
        pinch_spec(vp, l0, l1, c0, c1).scale == vp.scale,
        pinch_spec(vp, l0, l1, c0, c1).offset.x as int == clamp_coord(
            vp.offset.x + center_coord(c0.x as int, c1.x as int) - center_coord(
                l0.x as int,
                l1.x as int,
            ),
        ),
        pinch_spec(vp, l0, l1, c0, c1).offset.y as int == clamp_coord(
            vp.offset.y + center_coord(c0.y as int, c1.y as int) - center_coord(
                l0.y as int,
                l1.y as int,
            ),
        ),
        center_coord(c0.x as int, c1.x as int) == center_coord(l0.x as int, l1.x as int)
            && center_coord(c0.y as int, c1.y as int) == center_coord(l0.y as int, l1.y as int)
            ==> pinch_spec(vp, l0, l1, c0, c1) == vp,
{
    let d = dist(l0, l1);
    let g = growth_spec(d, d);
    if d != 0 {
        assert((d - d) * (FP_ONE as int) == 0) by (nonlinear_arith);
        vstd::arithmetic::div_mod::lemma_div_of0(d);
    }
    assert(g == 0);
    let s = vp.scale as int;
    assert(s * (FP_ONE as int + 0) == (FP_ONE as int) * s) by (nonlinear_arith);
    vstd::arithmetic::div_mod::lemma_div_multiples_vanish(s, FP_ONE as int);
    let s2 = pinch_scale_spec(s, g);
    assert(s2 == s);
    let ox = vp.offset.x as int;
    let oy = vp.offset.y as int;
    let ccx = center_coord(c0.x as int, c1.x as int);
    let ccy = center_coord(c0.y as int, c1.y as int);
    vstd::arithmetic::div_mod::lemma_div_multiples_vanish(ccx + ox, s);
    vstd::arithmetic::div_mod::lemma_div_multiples_vanish(ccy + oy, s);
}

/// Law: a pinch whose centroid does not move keeps the source cell
/// under the centroid unchanged, whatever the distance ratio did to the
/// scale, whenever the new offset needs no clamping. Together with
/// `lemma_pinch_exact_ratio_scales`, this is anchor-preserving zoom:
/// the scale changes by the distance ratio while the grid point under
/// the pinch centroid stays under it.
pub proof fn lemma_pinch_fixed_centroid_anchors(
    vp: ViewportState,
    l0: Vector,
    l1: Vector,
    c0: Vector,
    c1: Vector,
)
    requires
        vp.wf(),
        vec_in_range(l0),
        vec_in_range(l1),
        vec_in_range(c0),
        vec_in_range(c1),
        center_coord(c0.x as int, c1.x as int) == center_coord(l0.x as int, l1.x as int),
        center_coord(c0.y as int, c1.y as int) == center_coord(l0.y as int, l1.y as int),
        in_range(
            pinch_offset_raw(
                vp.offset.x as int,
                center_coord(c0.x as int, c1.x as int),
                center_coord(l0.x as int, l1.x as int),
                vp.scale as int,
                pinch_scale_spec(vp.scale as int, growth_spec(dist(l0, l1), dist(c0, c1))),
            ),
        ),
        in_range(
            pinch_offset_raw(
                vp.offset.y as int,
                center_coord(c0.y as int, c1.y as int),
                center_coord(l0.y as int, l1.y as int),
                vp.scale as int,
                pinch_scale_spec(vp.scale as int, growth_spec(dist(l0, l1), dist(c0, c1))),
            ),
        ),
    ensures
        ({
            let post = pinch_spec(vp, l0, l1, c0, c1);
            let ccx = center_coord(c0.x as int, c1.x as int);
            let ccy = center_coord(c0.y as int, c1.y as int);
            &&& src_cell(ccx, post.offset.x as int, post.scale as int) == src_cell(
                ccx,
                vp.offset.x as int,
                vp.scale as int,
            )
            &&& src_cell(ccy, post.offset.y as int, post.scale as int) == src_cell(
                ccy,
                vp.offset.y as int,
                vp.scale as int,
            )
        }),
{
    let post = pinch_spec(vp, l0, l1, c0, c1);
    let ccx = center_coord(c0.x as int, c1.x as int);
    let ccy = center_coord(c0.y as int, c1.y as int);
    let anchor = Vector { x: ccx as i64, y: ccy as i64 };
    lemma_div_bounds(c1.x as int - c0.x, 2);
    lemma_div_bounds(c1.y as int - c0.y, 2);
    crate::viewport::lemma_zoom_at_preserves_anchor(vp, post, anchor);
}

} // verus!

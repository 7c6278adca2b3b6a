use pixel_view::color::Color;
use pixel_view::fixed::FP_ONE;
use pixel_view::gesture::{GestureInterpreter, Notice, TouchEvent, TouchSample, midpoint};
use pixel_view::grid::Grid;
use pixel_view::raster::{render, sample};
use pixel_view::vector::Vector;
use pixel_view::viewport::ViewportState;

fn touch(id: u64, x_px: i64, y_px: i64) -> TouchSample {
    TouchSample { id, pos: Vector::new(x_px * FP_ONE, y_px * FP_ONE) }
}

fn small_grid() -> Grid {
    // column-major: cells[x][y]
    let c00 = Color::new(10, 11, 12, 13);
    let c01 = Color::new(20, 21, 22, 23);
    let c10 = Color::new(30, 31, 32, 33);
    let c11 = Color::new(40, 41, 42, 43);
    Grid::new(vec![vec![c00, c01], vec![c10, c11]])
}

fn unit_viewport() -> ViewportState {
    // one canvas pixel per cell, no offset
    let mut vp = ViewportState::new();
    vp.set_scale(FP_ONE);
    vp.pan(Vector::new(FP_ONE, FP_ONE));
    vp
}

#[test]
fn render_buffer_shape() {
    let g = small_grid();
    let vp = ViewportState::new();
    assert_eq!(render(&g, &vp, 3, 5).len(), 3 * 5 * 4);
    assert_eq!(render(&g, &vp, 0, 5).len(), 0);
    assert_eq!(render(&g, &vp, 7, 0).len(), 0);
}

#[test]
fn render_sentinel_fill() {
    // a 2x2 grid into a 4x4 canvas at scale 1, offset (0,0): the four
    // in-bounds pixels equal the grid, the twelve others are opaque black
    let g = small_grid();
    let vp = unit_viewport();
    assert_eq!(vp.offset.x, 0);
    assert_eq!(vp.offset.y, 0);
    let buf = render(&g, &vp, 4, 4);
    assert_eq!(buf.len(), 64);
    for cy in 0..4usize {
        for cx in 0..4usize {
            let at = 4 * (4 * cy + cx);
            let got = (buf[at], buf[at + 1], buf[at + 2], buf[at + 3]);
            if cx < 2 && cy < 2 {
                let c = g.get(cx, cy);
                assert_eq!(got, (c.r, c.g, c.b, c.a));
            } else {
                assert_eq!(got, (0, 0, 0, 255));
            }
        }
    }
}

#[test]
fn sample_uses_floored_inverse_transform() {
    let g = small_grid();
    let mut vp = ViewportState::new();
    vp.set_scale(2 * FP_ONE);
    vp.pan(Vector::new(FP_ONE, FP_ONE));
    assert_eq!(vp.offset.x, 0);
    // scale 2: canvas pixels 0 and 1 sample cell 0, pixels 2 and 3 cell 1
    assert_eq!(sample(&g, &vp, 0, 0), g.get(0, 0));
    assert_eq!(sample(&g, &vp, 1, 0), g.get(0, 0));
    assert_eq!(sample(&g, &vp, 2, 3), g.get(1, 1));
    assert_eq!(sample(&g, &vp, 4, 0), Color::new(0, 0, 0, 255));
}

#[test]
fn sample_negative_source_is_sentinel() {
    let g = small_grid();
    let mut vp = ViewportState::new();
    vp.set_scale(FP_ONE);
    vp.pan(Vector::new(0, 0));
    // offset (-1,-1): canvas pixel (0,0) samples cell (-1,-1)
    assert_eq!(sample(&g, &vp, 0, 0), Color::new(0, 0, 0, 255));
    assert_eq!(sample(&g, &vp, 1, 1), g.get(0, 0));
}

#[test]
fn render_agrees_with_sample_pointwise() {
    let g = small_grid();
    let mut vp = ViewportState::new();
    vp.set_scale(3 * FP_ONE / 2);
    vp.pan(Vector::new(-FP_ONE / 2, FP_ONE / 4));
    let (w, h) = (6usize, 5usize);
    let buf = render(&g, &vp, w, h);
    for cy in 0..h {
        for cx in 0..w {
            let c = sample(&g, &vp, cx, cy);
            let at = 4 * (w * cy + cx);
            assert_eq!((buf[at], buf[at + 1], buf[at + 2], buf[at + 3]), (c.r, c.g, c.b, c.a));
        }
    }
}

#[test]
fn generated_grid_shape_and_marker_column() {
    let g = Grid::generate_random(5, 7);
    assert_eq!(g.columns(), 5);
    assert_eq!(g.rows(), 7);
    for y in 0..7 {
        let c = g.get(0, y);
        assert_eq!((c.r, c.g, c.b, c.a), (255, 0, 0, 255));
    }
    for x in 0..5 {
        for y in 0..7 {
            assert_eq!(g.get(x, y).a, 255);
        }
    }
}

#[test]
fn midpoint_is_floored_centroid() {
    let m = midpoint(Vector::new(10 * FP_ONE, 10 * FP_ONE), Vector::new(20 * FP_ONE, 11 * FP_ONE));
    assert_eq!(m.x, 15 * FP_ONE);
    assert_eq!(m.y, 10 * FP_ONE + FP_ONE / 2);
}

#[test]
fn single_touch_move_pans_exactly() {
    // last (10,10), current (13,17): offset moves by exactly (3,7)
    let mut vp = ViewportState::new();
    let mut gi = GestureInterpreter::new();
    gi.on_start(vec![touch(1, 10, 10)]);
    let n = gi.on_move(vec![touch(1, 13, 17)], &mut vp);
    assert!(n.is_none());
    assert_eq!(vp.offset.x, -FP_ONE + 3 * FP_ONE);
    assert_eq!(vp.offset.y, -FP_ONE + 7 * FP_ONE);
    assert_eq!(vp.scale, 4 * FP_ONE);
}

#[test]
fn first_move_without_context_only_records() {
    let mut vp = ViewportState::new();
    let before = vp;
    let mut gi = GestureInterpreter::new();
    let n = gi.on_move(vec![touch(1, 13, 17)], &mut vp);
    assert!(n.is_none());
    assert_eq!(vp, before);
    // now the frame is remembered, so the next move pans
    let n2 = gi.on_move(vec![touch(1, 14, 17)], &mut vp);
    assert!(n2.is_none());
    assert_eq!(vp.offset.x, -FP_ONE + FP_ONE);
}

#[test]
fn three_finger_move_is_rejected_unchanged() {
    let mut vp = ViewportState::new();
    let before = vp;
    let mut gi = GestureInterpreter::new();
    gi.on_start(vec![touch(1, 0, 0), touch(2, 10, 0), touch(3, 0, 10)]);
    let n = gi.on_move(vec![touch(1, 1, 0), touch(2, 11, 0), touch(3, 1, 10)], &mut vp);
    assert_eq!(n, Some(Notice::UnsupportedGesture));
    assert_eq!(vp, before);
}

#[test]
fn empty_move_is_rejected_unchanged() {
    let mut vp = ViewportState::new();
    let before = vp;
    let mut gi = GestureInterpreter::new();
    gi.on_start(vec![touch(1, 5, 5)]);
    let n = gi.on_move(vec![], &mut vp);
    assert_eq!(n, Some(Notice::NoActiveTouches));
    assert_eq!(vp, before);
}

#[test]
fn pinch_doubling_distance_doubles_scale() {
    // last pair (0,0)-(100,0), current pair (0,0)-(200,0)
    let mut vp = ViewportState::new();
    let mut gi = GestureInterpreter::new();
    gi.on_start(vec![touch(1, 0, 0), touch(2, 100, 0)]);
    let n = gi.on_move(vec![touch(1, 0, 0), touch(2, 200, 0)], &mut vp);
    assert!(n.is_none());
    assert_eq!(vp.scale, 8 * FP_ONE);
    // x: anchor term 2*(cc + off) - cc with cc = 100px, off = -1px gives
    // 98px, plus the centroid movement cc - lc = 50px
    assert_eq!(vp.offset.x, 148 * FP_ONE);
    // y: centroid at 0, so the -1px offset is doubled by the anchor term
    assert_eq!(vp.offset.y, -2 * FP_ONE);
}

#[test]
fn pinch_with_fixed_centroid_keeps_anchor_cell() {
    // centroid stays at (100,100) while the distance doubles: the cell
    // sampled under the centroid is the same before and after
    let mut vp = ViewportState::new();
    vp.set_scale(FP_ONE);
    vp.pan(Vector::new(FP_ONE, FP_ONE));
    assert_eq!((vp.offset.x, vp.offset.y), (0, 0));
    let cell_before = pixel_view::fixed::floor_div(100 * FP_ONE + vp.offset.x, vp.scale);
    let mut gi = GestureInterpreter::new();
    gi.on_start(vec![touch(1, 90, 100), touch(2, 110, 100)]);
    let n = gi.on_move(vec![touch(1, 80, 100), touch(2, 120, 100)], &mut vp);
    assert!(n.is_none());
    assert_eq!(vp.scale, 2 * FP_ONE);
    assert_eq!(vp.offset.x, 100 * FP_ONE);
    assert_eq!(vp.offset.y, 100 * FP_ONE);
    let cell_after = pixel_view::fixed::floor_div(100 * FP_ONE + vp.offset.x, vp.scale);
    assert_eq!(cell_before, cell_after);
    assert_eq!(cell_after, 100);
}

#[test]
fn degenerate_pinch_changes_no_scale() {
    // both previous touches at one point: zero distance, zero growth
    let mut vp = ViewportState::new();
    let mut gi = GestureInterpreter::new();
    gi.on_start(vec![touch(1, 10, 10), touch(2, 10, 10)]);
    let n = gi.on_move(vec![touch(1, 10, 10), touch(2, 30, 10)], &mut vp);
    assert!(n.is_none());
    assert_eq!(vp.scale, 4 * FP_ONE);
    // pure centroid pan: lc = (10,10), cc = (20,10)
    assert_eq!(vp.offset.x, -FP_ONE + 10 * FP_ONE);
    assert_eq!(vp.offset.y, -FP_ONE);
}

#[test]
fn equal_distance_pinch_is_pure_pan() {
    // the pair moves rigidly: distance kept, centroid moves by (5,0)
    let mut vp = ViewportState::new();
    let mut gi = GestureInterpreter::new();
    gi.on_start(vec![touch(1, 0, 0), touch(2, 100, 0)]);
    let n = gi.on_move(vec![touch(1, 5, 0), touch(2, 105, 0)], &mut vp);
    assert!(n.is_none());
    assert_eq!(vp.scale, 4 * FP_ONE);
    assert_eq!(vp.offset.x, -FP_ONE + 5 * FP_ONE);
    assert_eq!(vp.offset.y, -FP_ONE);
}

#[test]
fn move_replaces_remembered_frame_even_when_rejected() {
    let mut vp = ViewportState::new();
    let mut gi = GestureInterpreter::new();
    gi.on_start(vec![touch(1, 0, 0)]);
    // rejected three-finger move still replaces the remembered frame
    gi.on_move(vec![touch(1, 7, 0), touch(2, 9, 0), touch(3, 11, 0)], &mut vp);
    gi.on_move(vec![touch(1, 8, 0)], &mut vp);
    // the pan is measured from the rejected frame's first touch (7,0)
    assert_eq!(vp.offset.x, -FP_ONE + FP_ONE);
    assert_eq!(vp.offset.y, -FP_ONE);
}

#[test]
fn event_dispatch_start_move_end() {
    let mut vp = ViewportState::new();
    let mut gi = GestureInterpreter::new();
    assert!(gi.on_event(TouchEvent::Start(vec![touch(1, 10, 10)]), &mut vp).is_none());
    let n = gi.on_event(TouchEvent::Move(vec![touch(1, 13, 17)]), &mut vp);
    assert!(n.is_none());
    assert_eq!(vp.offset.x, 2 * FP_ONE);
    assert!(gi.on_event(TouchEvent::End, &mut vp).is_none());
    // after End the interpreter is idle: a lone move only records
    let before = vp;
    assert!(gi.on_event(TouchEvent::Move(vec![touch(1, 50, 50)]), &mut vp).is_none());
    assert_eq!(vp, before);
}

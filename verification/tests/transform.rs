use pixel_view::fixed::{floor_div, isqrt, FP_ONE, COORD_LIMIT};
use pixel_view::vector::Vector;
use pixel_view::viewport::{ViewportState, SCALE_MIN, SCALE_MAX};

#[test]
fn floor_div_rounds_toward_negative_infinity() {
    assert_eq!(floor_div(7, 2), 3);
    assert_eq!(floor_div(-7, 2), -4);
    assert_eq!(floor_div(-8, 2), -4);
    assert_eq!(floor_div(0, 5), 0);
    assert_eq!(floor_div(-1, 65536), -1);
}

#[test]
fn isqrt_exact_and_floored() {
    assert_eq!(isqrt(0), 0);
    assert_eq!(isqrt(1), 1);
    assert_eq!(isqrt(63), 7);
    assert_eq!(isqrt(64), 8);
    assert_eq!(isqrt(65), 8);
    assert_eq!(isqrt(1 << 62), 1 << 31);
}

#[test]
fn vector_add_sub_components() {
    let a = Vector::new(3 * FP_ONE, -2 * FP_ONE);
    let b = Vector::new(FP_ONE, 5 * FP_ONE);
    let s = a.add(b);
    assert_eq!(s.x, 4 * FP_ONE);
    assert_eq!(s.y, 3 * FP_ONE);
    let d = a.sub(b);
    assert_eq!(d.x, 2 * FP_ONE);
    assert_eq!(d.y, -7 * FP_ONE);
}

#[test]
fn vector_scalar_mul_floors() {
    let a = Vector::new(3 * FP_ONE, -3 * FP_ONE);
    let half = a.mul(FP_ONE / 2);
    assert_eq!(half.x, 3 * FP_ONE / 2);
    // -1.5 in fixed point floors downward, exactly representable here
    assert_eq!(half.y, -3 * FP_ONE / 2);
}

#[test]
fn vector_len_is_euclidean() {
    let v = Vector::new(3 * FP_ONE, 4 * FP_ONE);
    assert_eq!(v.len(), 5 * FP_ONE);
    let z = Vector::new(0, 0);
    assert_eq!(z.len(), 0);
}

#[test]
fn default_viewport() {
    let vp = ViewportState::new();
    assert_eq!(vp.scale, 4 * FP_ONE);
    assert_eq!(vp.offset.x, -FP_ONE);
    assert_eq!(vp.offset.y, -FP_ONE);
}

#[test]
fn pan_moves_offset_and_keeps_scale() {
    let mut vp = ViewportState::new();
    vp.pan(Vector::new(5 * FP_ONE, 7 * FP_ONE));
    assert_eq!(vp.offset.x, 4 * FP_ONE);
    assert_eq!(vp.offset.y, 6 * FP_ONE);
    assert_eq!(vp.scale, 4 * FP_ONE);
}

#[test]
fn pan_then_inverse_pan_restores_offset_exactly() {
    let mut vp = ViewportState::new();
    let before = (vp.scale, vp.offset.x, vp.offset.y);
    vp.pan(Vector::new(123456, -98765));
    vp.pan(Vector::new(-123456, 98765));
    assert_eq!((vp.scale, vp.offset.x, vp.offset.y), before);
}

#[test]
fn pan_clamps_at_coordinate_limit() {
    let mut vp = ViewportState::new();
    vp.pan(Vector::new(COORD_LIMIT, 0));
    vp.pan(Vector::new(COORD_LIMIT, 0));
    assert_eq!(vp.offset.x, COORD_LIMIT);
}

#[test]
fn set_scale_clamps_into_valid_range() {
    let mut vp = ViewportState::new();
    vp.set_scale(0);
    assert_eq!(vp.scale, SCALE_MIN);
    vp.set_scale(-5);
    assert_eq!(vp.scale, SCALE_MIN);
    vp.set_scale(i64::MAX);
    assert_eq!(vp.scale, SCALE_MAX);
    vp.set_scale(3 * FP_ONE);
    assert_eq!(vp.scale, 3 * FP_ONE);
}

#[test]
fn zoom_at_doubles_scale_and_keeps_anchor_cell() {
    let mut vp = ViewportState::new();
    vp.set_scale(FP_ONE);
    vp.pan(Vector::new(FP_ONE, FP_ONE));
    assert_eq!(vp.offset.x, 0);
    assert_eq!(vp.offset.y, 0);
    // anchor at canvas pixel 100
    let anchor = Vector::new(100 * FP_ONE, 100 * FP_ONE);
    let cell_before = floor_div(100 * FP_ONE + vp.offset.x, vp.scale);
    vp.zoom_at(anchor, 2 * FP_ONE);
    assert_eq!(vp.scale, 2 * FP_ONE);
    assert_eq!(vp.offset.x, 100 * FP_ONE);
    assert_eq!(vp.offset.y, 100 * FP_ONE);
    let cell_after = floor_div(100 * FP_ONE + vp.offset.x, vp.scale);
    assert_eq!(cell_before, cell_after);
    assert_eq!(cell_after, 100);
}

#[test]
fn zoom_at_clamps_collapsing_factor() {
    let mut vp = ViewportState::new();
    vp.set_scale(1);
    // a factor so small the product floors to zero: scale stays positive
    vp.zoom_at(Vector::new(0, 0), 1);
    assert_eq!(vp.scale, SCALE_MIN);
}

use tiny_sdl2_gui::layout::clipper::clipping_rect_intersection;
use tiny_sdl2_gui::util::geometry::{ClippingRect, Point, Rect};
use tiny_sdl2_gui::util::render::{
    border_ring_count, bottom_right_center_seeking_rect_points, caret_points,
    center_seeking_rect_points, check_mark_points, corner_bracket_points,
    up_left_center_seeking_rect_points,
};

fn rect(x: i32, y: i32, w: u32, h: u32) -> Rect {
    Rect { x, y, w, h }
}

fn p(x: i32, y: i32) -> Point {
    Point { x, y }
}

#[test]
fn contains_point_edges() {
    let r = rect(10, 20, 5, 5);
    assert!(r.contains_point(10, 20));
    assert!(r.contains_point(14, 24));
    assert!(!r.contains_point(15, 24));
    assert!(!r.contains_point(14, 25));
    assert!(!r.contains_point(9, 20));
}

#[test]
fn intersection_overlap_and_disjoint() {
    let a = rect(0, 0, 10, 10);
    let b = rect(5, 5, 10, 10);
    assert_eq!(a.intersection(b), Some(rect(5, 5, 5, 5)));
    assert_eq!(b.intersection(a), Some(rect(5, 5, 5, 5)));
    let c = rect(10, 0, 3, 3);
    assert_eq!(a.intersection(c), None);
}

#[test]
fn point_new_clamps() {
    assert_eq!(Point::new(i32::MAX, i32::MIN), p(1073741823, -1073741824));
    assert_eq!(Point::new(3, -4), p(3, -4));
}

#[test]
fn clipping_rect_intersection_cases() {
    let pos = rect(0, 0, 10, 10);
    assert_eq!(
        clipping_rect_intersection(ClippingRect::Unclipped, Some(pos)),
        ClippingRect::Clip(pos)
    );
    assert_eq!(clipping_rect_intersection(ClippingRect::Zero, Some(pos)), ClippingRect::Zero);
    assert_eq!(clipping_rect_intersection(ClippingRect::Unclipped, None), ClippingRect::Zero);
    assert_eq!(
        clipping_rect_intersection(ClippingRect::Clip(rect(5, 5, 10, 10)), Some(pos)),
        ClippingRect::Clip(rect(5, 5, 5, 5))
    );
    assert_eq!(
        clipping_rect_intersection(ClippingRect::Clip(rect(20, 20, 10, 10)), Some(pos)),
        ClippingRect::Zero
    );
}

#[test]
fn center_seeking_points() {
    let pts = center_seeking_rect_points(1, (10, 20));
    assert_eq!(pts, [p(1, 1), p(8, 1), p(8, 18), p(1, 18), p(1, 1)]);
    let up_left = up_left_center_seeking_rect_points(0, (10, 20));
    assert_eq!(up_left, [p(9, 0), p(0, 0), p(0, 19)]);
    let bottom_right = bottom_right_center_seeking_rect_points(2, (10, 20));
    assert_eq!(bottom_right, [p(7, 2), p(7, 17), p(2, 17)]);
}

#[test]
fn corner_brackets() {
    let b = corner_bracket_points(5, (30, 20));
    assert_eq!(b[0], [p(5, 0), p(0, 0), p(0, 5)]);
    assert_eq!(b[1], [p(24, 0), p(29, 0), p(29, 5)]);
    assert_eq!(b[2], [p(5, 19), p(0, 19), p(0, 14)]);
    assert_eq!(b[3], [p(24, 19), p(29, 19), p(29, 14)]);
}

#[test]
fn check_mark() {
    let c = check_mark_points(10, (30, 31));
    assert_eq!(c[0], [p(10, 10), p(20, 20)]);
    assert_eq!(c[1], [p(10, 20), p(20, 10)]);
}

#[test]
fn caret_big_and_small() {
    // clear of the brackets: full height
    assert_eq!(caret_points(50, 5, (100, 30)), [p(50, 0), p(50, 30)]);
    // at the left edge: short line between the brackets
    assert_eq!(caret_points(0, 5, (100, 30)), [p(0, 12), p(0, 17)]);
    // at the right edge
    assert_eq!(caret_points(99, 5, (100, 30)), [p(99, 12), p(99, 17)]);
}

#[test]
fn ring_count() {
    assert_eq!(border_ring_count(5, (100, 100)), 5);
    assert_eq!(border_ring_count(5, (3, 100)), 2);
    assert_eq!(border_ring_count(5, (4, 4)), 2);
    assert_eq!(border_ring_count(0, (4, 4)), 0);
}

#[test]
fn rect_new_clamps() {
    assert_eq!(Rect::new(3, -4, 5, 6), rect(3, -4, 5, 6));
    // zero lengths become one
    assert_eq!(Rect::new(0, 0, 0, 0), rect(0, 0, 1, 1));
    // out of range positions and lengths are limited
    assert_eq!(
        Rect::new(i32::MIN, i32::MAX, u32::MAX, 1073741824),
        rect(-1073741824, 1073741823, 1073741823, 1073741823)
    );
}

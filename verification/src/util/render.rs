use vstd::prelude::*;

use crate::util::geometry::{clamp_position_spec, Point, MAX_INT_VALUE};

verus! {

// various drawing utilities

/// the far edge coordinate, `len - 1 - inward_amount`, for an extent `len`
pub open spec fn far_edge(len: u32, inward_amount: i32) -> int {
    (#[verifier::truncate] (len as i32)) - 1 - inward_amount
}

/// the point at `(x, y)`, limited to the representable range
pub open spec fn point_at(x: int, y: int) -> Point {
    Point { x: clamp_position_spec(x as i32), y: clamp_position_spec(y as i32) }
}

/// the far edge coordinates do not leave the range of `i32`
pub open spec fn far_edges_fit(inward_amount: i32, size: (u32, u32)) -> bool {
    &&& far_edge_fits(size.0, inward_amount)
    &&& far_edge_fits(size.1, inward_amount)
}

/// `len - 1 - inward_amount`, evaluated left to right, stays in `i32`
pub open spec fn far_edge_fits(len: u32, inward_amount: i32) -> bool {
    &&& i32::MIN <= (len as i32) - 1
    &&& i32::MIN <= far_edge(len, inward_amount) <= i32::MAX
}

fn far_edge_exec(len: u32, inward_amount: i32) -> (r: i32)
    requires
        far_edge_fits(len, inward_amount),
    ensures
        r == far_edge(len, inward_amount),
{
    (#[verifier::truncate] (len as i32)) - 1 - inward_amount
}

/// points which traces the perimeter of a rectangle
/// moves inward by inward_amount (0 indicates the outer perimeter)
pub open spec fn ring_spec(inward_amount: i32, size: (u32, u32)) -> Seq<Point> {
    seq![
        point_at(inward_amount as int, inward_amount as int),
        point_at(far_edge(size.0, inward_amount), inward_amount as int),
        point_at(far_edge(size.0, inward_amount), far_edge(size.1, inward_amount)),
        point_at(inward_amount as int, far_edge(size.1, inward_amount)),
        point_at(inward_amount as int, inward_amount as int),
    ]
}

pub fn center_seeking_rect_points(inward_amount: i32, size: (u32, u32)) -> (r: [Point; 5])
    requires
        far_edges_fit(inward_amount, size),
    ensures
        r@ == ring_spec(inward_amount, size),
{
    let right = far_edge_exec(size.0, inward_amount);
    let bottom = far_edge_exec(size.1, inward_amount);
    [
        Point::new(inward_amount, inward_amount),
        Point::new(right, inward_amount),
        Point::new(right, bottom),
        Point::new(inward_amount, bottom),
        Point::new(inward_amount, inward_amount),
    ]
}

/// the top and left sides of the perimeter, moved inward by inward_amount
pub open spec fn ring_up_left_spec(inward_amount: i32, size: (u32, u32)) -> Seq<Point> {
    seq![
        point_at(far_edge(size.0, inward_amount), inward_amount as int),
        point_at(inward_amount as int, inward_amount as int),
        point_at(inward_amount as int, far_edge(size.1, inward_amount)),
    ]
}

pub fn up_left_center_seeking_rect_points(inward_amount: i32, size: (u32, u32)) -> (r: [Point; 3])
    requires
        far_edges_fit(inward_amount, size),
    ensures
        r@ == ring_up_left_spec(inward_amount, size),
{
    let right = far_edge_exec(size.0, inward_amount);
    let bottom = far_edge_exec(size.1, inward_amount);
    [
        Point::new(right, inward_amount),
        Point::new(inward_amount, inward_amount),
        Point::new(inward_amount, bottom),
    ]
}

/// the right and bottom sides of the perimeter, moved inward by inward_amount
pub open spec fn ring_bottom_right_spec(inward_amount: i32, size: (u32, u32)) -> Seq<Point> {
    seq![
        point_at(far_edge(size.0, inward_amount), inward_amount as int),
        point_at(far_edge(size.0, inward_amount), far_edge(size.1, inward_amount)),
        point_at(inward_amount as int, far_edge(size.1, inward_amount)),
    ]
}

pub fn bottom_right_center_seeking_rect_points(inward_amount: i32, size: (u32, u32)) -> (r: [Point; 3])
    requires
        far_edges_fit(inward_amount, size),
    ensures
        r@ == ring_bottom_right_spec(inward_amount, size),
{
    let right = far_edge_exec(size.0, inward_amount);
    let bottom = far_edge_exec(size.1, inward_amount);
    [
        Point::new(right, inward_amount),
        Point::new(right, bottom),
        Point::new(inward_amount, bottom),
    ]
}


/// the sides of the size fit in an `i32`
pub open spec fn size_fits(size: (u32, u32)) -> bool {
    size.0 <= i32::MAX && size.1 <= i32::MAX
}

/// The four corner brackets that outline a widget of `size`, each reaching
/// `amount_inward` along both edges from its corner, in the order top left,
/// top right, bottom left, bottom right. Each bracket runs from the end on the
/// horizontal edge, through the corner, to the end on the vertical edge.
pub open spec fn corner_bracket_spec(amount_inward: i32, size: (u32, u32)) -> Seq<[Point; 3]> {
    let right = size.0 - 1;
    let bottom = size.1 - 1;
    seq![
        [point_at(amount_inward as int, 0), point_at(0, 0), point_at(0, amount_inward as int)],
        [
            point_at(right - amount_inward, 0),
            point_at(right, 0),
            point_at(right, amount_inward as int),
        ],
        [
            point_at(amount_inward as int, bottom),
            point_at(0, bottom),
            point_at(0, bottom - amount_inward),
        ],
        [
            point_at(right - amount_inward, bottom),
            point_at(right, bottom),
            point_at(right, bottom - amount_inward),
        ],
    ]
}

pub fn corner_bracket_points(amount_inward: i32, size: (u32, u32)) -> (r: [[Point; 3]; 4])
    requires
        size_fits(size),
        1 <= size.0,
        1 <= size.1,
        0 <= amount_inward,
    ensures
        r@ == corner_bracket_spec(amount_inward, size),
{
    let right = size.0 as i32 - 1;
    let bottom = size.1 as i32 - 1;
    let top_left_points = [
        Point::new(amount_inward, 0),
        Point::new(0, 0),
        Point::new(0, amount_inward),
    ];
    let bottom_left_points = [
        Point::new(amount_inward, bottom),
        Point::new(0, bottom),
        Point::new(0, bottom - amount_inward),
    ];
    let top_right_points = [
        Point::new(right - amount_inward, 0),
        Point::new(right, 0),
        Point::new(right, amount_inward),
    ];
    let bottom_right_points = [
        Point::new(right - amount_inward, bottom),
        Point::new(right, bottom),
        Point::new(right, bottom - amount_inward),
    ];
    [top_left_points, top_right_points, bottom_left_points, bottom_right_points]
}

/// how far the corner brackets of the default widget looks reach inward
pub const BRACKET_REACH: i32 = 5i32;

/// The corner brackets of the default widget looks on a texture of `size`,
/// or nothing when the texture is too small to show them (a side no longer
/// than their reach).
pub fn bracket_outline(size: (u32, u32)) -> (r: Option<[[Point; 3]; 4]>)
    requires
        size_fits(size),
    ensures
        r is None <==> (size.0 <= BRACKET_REACH || size.1 <= BRACKET_REACH),
        r matches Some(b) ==> b@ == corner_bracket_spec(BRACKET_REACH, size),
{
    if size.0 <= BRACKET_REACH as u32 || size.1 <= BRACKET_REACH as u32 {
        None  // too small to draw properly
    } else {
        Some(corner_bracket_points(BRACKET_REACH, size))
    }
}

/// The two strokes of the cross that marks a checked checkbox of `size`: a
/// square of side `check_size` (rounded down to even) centered in the box,
/// first from top left to bottom right, then from bottom left to top right.
pub open spec fn check_mark_spec(check_size: i32, size: (u32, u32)) -> Seq<[Point; 2]> {
    let cx = size.0 as int / 2;
    let cy = size.1 as int / 2;
    let half = check_size as int / 2;
    seq![
        [point_at(cx - half, cy - half), point_at(cx + half, cy + half)],
        [point_at(cx - half, cy + half), point_at(cx + half, cy - half)],
    ]
}

pub fn check_mark_points(check_size: i32, size: (u32, u32)) -> (r: [[Point; 2]; 2])
    requires
        size_fits(size),
        0 <= check_size,
        check_size < size.0,
        check_size < size.1,
    ensures
        r@ == check_mark_spec(check_size, size),
{
    let cx = size.0 as i32 / 2;
    let cy = size.1 as i32 / 2;
    let half = check_size / 2;
    let first_points = [Point::new(cx - half, cy - half), Point::new(cx + half, cy + half)];
    let second_points = [Point::new(cx - half, cy + half), Point::new(cx + half, cy - half)];
    [first_points, second_points]
}

/// the gap between the caret and the corner brackets of a text input
pub const CARET_HORIZONTAL_SPACING: i32 = 2i32;
/// the gap above and below the short caret of a text input
pub const CARET_VERTICAL_SPACING: i32 = 5i32;

/// The caret of a text input of `size` with corner brackets reaching
/// `amount_inward`: a line at `caret_position` across the whole height when
/// it is clear of the brackets, else a short line between them.
pub open spec fn caret_spec(caret_position: i32, amount_inward: i32, size: (u32, u32)) -> Seq<Point> {
    if caret_position > amount_inward + CARET_HORIZONTAL_SPACING && caret_position < size.0 - 1
        - amount_inward - CARET_HORIZONTAL_SPACING {
        // big caret not at beginning or end
        seq![point_at(caret_position as int, 0), point_at(caret_position as int, size.1 as int)]
    } else {
        // small caret
        seq![
            point_at(caret_position as int, amount_inward + 2 + CARET_VERTICAL_SPACING),
            point_at(caret_position as int, size.1 - (amount_inward + 3 + CARET_VERTICAL_SPACING)),
        ]
    }
}

pub fn caret_points(caret_position: i32, amount_inward: i32, size: (u32, u32)) -> (r: [Point; 2])
    requires
        size_fits(size),
        amount_inward + 8 <= i32::MAX,
        i32::MIN <= size.0 - 3 - amount_inward,
        size.0 - 1 - amount_inward <= i32::MAX,
        i32::MIN <= size.1 - (amount_inward + 8) <= i32::MAX,
    ensures
        r@ == caret_spec(caret_position, amount_inward, size),
{
    if caret_position > amount_inward + CARET_HORIZONTAL_SPACING && caret_position < size.0 as i32
        - 1 - amount_inward - CARET_HORIZONTAL_SPACING {
        [Point::new(caret_position, 0), Point::new(caret_position, size.1 as i32)]
    } else {
        [
            Point::new(caret_position, amount_inward + 2 + CARET_VERTICAL_SPACING),
            Point::new(caret_position, size.1 as i32 - (amount_inward + 3 + CARET_VERTICAL_SPACING)),
        ]
    }
}

/// The number of rings a border of `width` draws in a texture of `size`: its
/// width, but no more than half the shorter side (rounded up).
pub open spec fn border_rings(width: u32, size: (u32, u32)) -> int {
    let smallest = if size.0 < size.1 { size.0 } else { size.1 };
    if width < (smallest + 1) / 2 { width as int } else { (smallest + 1) / 2 }
}

/// Law: a border draws as many rings as its width asks for, except that it
/// stops once the rings cover the texture: never more than its width, never
/// more than half the shorter side (rounded up), and one of the two.
pub proof fn lemma_border_rings_fit(width: u32, size: (u32, u32))
    ensures
        0 <= border_rings(width, size) <= width,
        2 * border_rings(width, size) <= size.0 + 1,
        2 * border_rings(width, size) <= size.1 + 1,
        border_rings(width, size) == width || 2 * border_rings(width, size) >= size.0 || 2
            * border_rings(width, size) >= size.1,
{
}

pub fn border_ring_count(width: u32, size: (u32, u32)) -> (r: u32)
    requires
        size.0 < u32::MAX,
        size.1 < u32::MAX,
    ensures
        r == border_rings(width, size),
{
    let smallest_parent_len = if size.0 < size.1 { size.0 } else { size.1 };
    let half = (smallest_parent_len + 1) / 2;
    if width < half {
        width
    } else {
        half
    }
}

/// Law: the corner brackets lie on the texture, each with its middle point at
/// a corner of it and its two ends `amount_inward` away from that corner, one
/// along each edge.
pub proof fn lemma_corner_brackets_at_corners(amount_inward: i32, size: (u32, u32))
    requires
        1 <= size.0 <= MAX_INT_VALUE,
        1 <= size.1 <= MAX_INT_VALUE,
        0 <= amount_inward,
        amount_inward < size.0,
        amount_inward < size.1,
    ensures
        ({
            let b = corner_bracket_spec(amount_inward, size);
            &&& b.len() == 4
            &&& b[0][1] == Point { x: 0, y: 0 }
            &&& b[1][1] == Point { x: (size.0 - 1) as i32, y: 0 }
            &&& b[2][1] == Point { x: 0, y: (size.1 - 1) as i32 }
            &&& b[3][1] == Point { x: (size.0 - 1) as i32, y: (size.1 - 1) as i32 }
            &&& forall|k: int, j: int|
                0 <= k < 4 && 0 <= j < 3 ==> 0 <= (#[trigger] b[k][j]).x < size.0 && 0 <= b[k][j].y
                    < size.1
            &&& forall|k: int|
                0 <= k < 4 ==> {
                    &&& (#[trigger] b[k])[0].y == b[k][1].y
                    &&& (b[k][0].x - b[k][1].x == amount_inward || b[k][1].x - b[k][0].x
                        == amount_inward)
                    &&& b[k][2].x == b[k][1].x
                    &&& (b[k][2].y - b[k][1].y == amount_inward || b[k][1].y - b[k][2].y
                        == amount_inward)
                }
        }),
{
    let b = corner_bracket_spec(amount_inward, size);
    assert forall|k: int, j: int| 0 <= k < 4 && 0 <= j < 3 implies 0 <= (#[trigger] b[k][j]).x < size.0
        && 0 <= b[k][j].y < size.1 by {
        if k == 0 {
        } else if k == 1 {
        } else if k == 2 {
        } else {
        }
    }
}

/// Law: the check mark is a cross centered in the box: two strokes of equal
/// width and height `check_size` (rounded down to even), the first falling
/// from left to right and the second rising, both halves of each stroke
/// mirrored about the center, and all of it on the texture.
pub proof fn lemma_check_mark_centered(check_size: i32, size: (u32, u32))
    requires
        size.0 <= MAX_INT_VALUE,
        size.1 <= MAX_INT_VALUE,
        0 <= check_size,
        check_size < size.0,
        check_size < size.1,
    ensures
        ({
            let m = check_mark_spec(check_size, size);
            let cx = size.0 / 2;
            let cy = size.1 / 2;
            let side = 2 * (check_size / 2);
            &&& m.len() == 2
            &&& forall|s: int|
                0 <= s < 2 ==> {
                    &&& (#[trigger] m[s])[0].x + m[s][1].x == 2 * cx
                    &&& m[s][0].y + m[s][1].y == 2 * cy
                    &&& m[s][1].x - m[s][0].x == side
                    &&& 0 <= m[s][0].x < size.0 && 0 <= m[s][1].x < size.0
                    &&& 0 <= m[s][0].y < size.1 && 0 <= m[s][1].y < size.1
                }
            &&& m[0][1].y - m[0][0].y == side
            &&& m[1][0].y - m[1][1].y == side
        }),
{
}

/// Law: the caret is a vertical line at `caret_position`. It spans the whole
/// height of the text input exactly when it is clear of the corner brackets
/// (more than `CARET_HORIZONTAL_SPACING` away from them); otherwise it is a
/// short line that keeps `CARET_VERTICAL_SPACING` clear of the brackets above
/// and below.
pub proof fn lemma_caret_vertical(caret_position: i32, amount_inward: i32, size: (u32, u32))
    requires
        size.0 <= MAX_INT_VALUE,
        size.1 <= MAX_INT_VALUE,
        -MAX_INT_VALUE <= caret_position <= MAX_INT_VALUE,
        0 <= amount_inward,
        2 * amount_inward + 2 * CARET_VERTICAL_SPACING + 5 <= size.1,
    ensures
        ({
            let c = caret_spec(caret_position, amount_inward, size);
            let clear = amount_inward + CARET_HORIZONTAL_SPACING < caret_position && caret_position
                < size.0 - 1 - amount_inward - CARET_HORIZONTAL_SPACING;
            &&& c.len() == 2
            &&& c[0].x == caret_position && c[1].x == caret_position
            &&& c[0].y <= c[1].y
            &&& (c[0].y == 0 && c[1].y == size.1) <==> clear
            &&& !clear ==> c[0].y == amount_inward + 2 + CARET_VERTICAL_SPACING && size.1 - 1 - c[1].y
                == amount_inward + 2 + CARET_VERTICAL_SPACING
        }),
{
}

/// Law: the ring `inward_amount` pixels in from the edges of a texture is the
/// closed outline of the rectangle from (inward_amount, inward_amount) to
/// (width - 1 - inward_amount, height - 1 - inward_amount), drawn clockwise
/// from its top left corner; the top and left sides start at its top right
/// corner and end at its bottom left one, and the right and bottom sides join
/// the same two corners the other way round.
pub proof fn lemma_ring_outlines_inset_rect(inward_amount: i32, size: (u32, u32))
    requires
        size.0 <= MAX_INT_VALUE,
        size.1 <= MAX_INT_VALUE,
        0 <= inward_amount,
        2 * inward_amount < size.0,
        2 * inward_amount < size.1,
    ensures
        ({
            let left = inward_amount as int;
            let top = inward_amount as int;
            let right = size.0 - 1 - inward_amount;
            let bottom = size.1 - 1 - inward_amount;
            let ring = ring_spec(inward_amount, size);
            let up_left = ring_up_left_spec(inward_amount, size);
            let bottom_right = ring_bottom_right_spec(inward_amount, size);
            &&& ring.len() == 5
            &&& ring[0] == ring[4]
            &&& ring[0].x == left && ring[0].y == top
            &&& ring[1].x == right && ring[1].y == top
            &&& ring[2].x == right && ring[2].y == bottom
            &&& ring[3].x == left && ring[3].y == bottom
            &&& left <= right && top <= bottom
            &&& up_left == seq![ring[1], ring[0], ring[3]]
            &&& bottom_right == seq![ring[1], ring[2], ring[3]]
        }),
{
}

} // verus!

use vstd::prelude::*;

verus! {

/// The greatest coordinate or length an integer rectangle may have.
pub const MAX_INT_VALUE: i32 = 1073741823i32;

/// The least coordinate an integer rectangle may have.
pub const MIN_INT_VALUE: i32 = -1073741824i32;

/// A point on the integer pixel grid.
#[derive(Debug, Clone, Copy, PartialEq, Eq, Structural)]
pub struct Point {
    pub x: i32,
    pub y: i32,
}

/// `v` limited to the range of coordinates a point or rectangle may hold.
pub open spec fn clamp_position_spec(v: i32) -> i32 {
    if v > MAX_INT_VALUE {
        MAX_INT_VALUE
    } else if v < MIN_INT_VALUE {
        MIN_INT_VALUE
    } else {
        v
    }
}

fn clamp_position(v: i32) -> (r: i32)
    ensures
        r == clamp_position_spec(v),
{
    if v > MAX_INT_VALUE {
        MAX_INT_VALUE
    } else if v < MIN_INT_VALUE {
        MIN_INT_VALUE
    } else {
        v
    }
}

impl Point {
    /// a point, with each coordinate limited to the representable range
    pub fn new(x: i32, y: i32) -> (r: Point)
        ensures
            r.x == clamp_position_spec(x),
            r.y == clamp_position_spec(y),
    {
        Point { x: clamp_position(x), y: clamp_position(y) }
    }
}

/// A rectangle on the integer pixel grid with a non-zero area.
#[derive(Debug, Clone, Copy, PartialEq, Eq, Structural)]
pub struct Rect {
    pub x: i32,
    pub y: i32,
    pub w: u32,
    pub h: u32,
}

/// `v` limited to the range of lengths a rectangle may hold
pub open spec fn clamp_size_spec(v: u32) -> u32 {
    if v == 0 {
        1
    } else if v > MAX_INT_VALUE as u32 {
        MAX_INT_VALUE as u32
    } else {
        v
    }
}

fn clamp_size(v: u32) -> (r: u32)
    ensures
        r == clamp_size_spec(v),
{
    if v == 0 {
        1
    } else if v > MAX_INT_VALUE as u32 {
        MAX_INT_VALUE as u32
    } else {
        v
    }
}

impl Rect {
    /// position and size are within the representable range and the area is
    /// not zero
    pub open spec fn wf(self) -> bool {
        &&& MIN_INT_VALUE <= self.x <= MAX_INT_VALUE
        &&& MIN_INT_VALUE <= self.y <= MAX_INT_VALUE
        &&& 1 <= self.w <= MAX_INT_VALUE
        &&& 1 <= self.h <= MAX_INT_VALUE
    }

    /// a rectangle, with its position limited to the representable range and
    /// each length to at least one and at most the greatest length
    pub fn new(x: i32, y: i32, w: u32, h: u32) -> (r: Rect)
        ensures
            r.x == clamp_position_spec(x),
            r.y == clamp_position_spec(y),
            r.w == clamp_size_spec(w),
            r.h == clamp_size_spec(h),
            r.wf(),
    {
        Rect { x: clamp_position(x), y: clamp_position(y), w: clamp_size(w), h: clamp_size(h) }
    }

    pub open spec fn left(self) -> int {
        self.x as int
    }

    pub open spec fn right(self) -> int {
        self.x + self.w
    }

    pub open spec fn top(self) -> int {
        self.y as int
    }

    pub open spec fn bottom(self) -> int {
        self.y + self.h
    }

    /// the point lies inside: edges on the left and top are inside, those on
    /// the right and bottom are not
    pub open spec fn contains_spec(self, x: i32, y: i32) -> bool {
        &&& self.left() <= x < self.right()
        &&& self.top() <= y < self.bottom()
    }

    pub fn contains_point(&self, x: i32, y: i32) -> (r: bool)
        ensures
            r == self.contains_spec(x, y),
    {
        let inside_x = x >= self.x && (x as i64) < self.x as i64 + self.w as i64;
        inside_x && (y >= self.y && (y as i64) < self.y as i64 + self.h as i64)
    }

    /// the overlap of the two rectangles, or nothing if they do not overlap
    pub open spec fn intersection_spec(self, other: Rect) -> Option<Rect> {
        let left = if self.left() < other.left() { other.left() } else { self.left() };
        let right = if self.right() < other.right() { self.right() } else { other.right() };
        let top = if self.top() < other.top() { other.top() } else { self.top() };
        let bottom = if self.bottom() < other.bottom() { self.bottom() } else { other.bottom() };
        if left < right && top < bottom {
            Some(Rect {
                x: left as i32,
                y: top as i32,
                w: (right - left) as u32,
                h: (bottom - top) as u32,
            })
        } else {
            None
        }
    }

    pub fn intersection(&self, other: Rect) -> (r: Option<Rect>)
        requires
            self.wf(),
            other.wf(),
        ensures
            r == self.intersection_spec(other),
            r matches Some(v) ==> v.wf(),
    {
        let self_right = self.x + self.w as i32;
        let other_right = other.x + other.w as i32;
        let self_bottom = self.y + self.h as i32;
        let other_bottom = other.y + other.h as i32;
        let left = if self.x < other.x { other.x } else { self.x };
        let right = if self_right < other_right { self_right } else { other_right };
        let top = if self.y < other.y { other.y } else { self.y };
        let bottom = if self_bottom < other_bottom { self_bottom } else { other_bottom };
        if left < right && top < bottom {
            Some(Rect { x: left, y: top, w: (right - left) as u32, h: (bottom - top) as u32 })
        } else {
            None
        }
    }
}


/// Law: the intersection of two rectangles holds exactly the points that lie
/// in both, and there is none exactly when no point lies in both. It does not
/// depend on the order of the two.
pub proof fn lemma_intersection_is_overlap(a: Rect, b: Rect, x: i32, y: i32)
    requires
        a.wf(),
        b.wf(),
    ensures
        a.intersection_spec(b) == b.intersection_spec(a),
        a.intersection_spec(b) matches Some(r) ==> (r.contains_spec(x, y) <==> (a.contains_spec(x, y)
            && b.contains_spec(x, y))),
        a.intersection_spec(b) is None ==> !(a.contains_spec(x, y) && b.contains_spec(x, y)),
{
}

/// The region that drawing is limited to.
#[derive(Debug, Clone, Copy, PartialEq, Eq, Structural)]
pub enum ClippingRect {
    /// a non-zero area clipping rect
    Clip(Rect),
    /// a clipping rect with zero area
    Zero,
    /// the absence of a clipping rect
    Unclipped,
}

impl ClippingRect {
    pub open spec fn wf(self) -> bool {
        match self {
            ClippingRect::Clip(r) => r.wf(),
            _ => true,
        }
    }

    /// the point is not cut off by this clipping rect
    pub open spec fn admits(self, x: i32, y: i32) -> bool {
        match self {
            ClippingRect::Clip(r) => r.contains_spec(x, y),
            ClippingRect::Zero => false,
            ClippingRect::Unclipped => true,
        }
    }
}

} // verus!

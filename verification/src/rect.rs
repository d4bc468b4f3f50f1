//! Integer rectangles with the clamping and half-open containment rules of
//! SDL's `Rect`.

use vstd::prelude::*;

verus! {

/// The largest coordinate or size a rectangle holds: `i32::MAX / 2`.
pub open spec fn spec_max_int_value() -> int {
    1073741823
}

/// The smallest coordinate a rectangle holds: `i32::MIN / 2`.
pub open spec fn spec_min_int_value() -> int {
    -1073741824
}

/// Sizes are at least one and at most `spec_max_int_value()`.
pub open spec fn spec_clamp_size(val: int) -> int {
    if val == 0 {
        1
    } else if val > spec_max_int_value() {
        spec_max_int_value()
    } else {
        val
    }
}

/// Positions are kept within `[spec_min_int_value(), spec_max_int_value()]`.
pub open spec fn spec_clamp_position(val: int) -> int {
    if val > spec_max_int_value() {
        spec_max_int_value()
    } else if val < spec_min_int_value() {
        spec_min_int_value()
    } else {
        val
    }
}

/// The mathematical content of a rectangle: its top-left corner and size.
pub struct RectView {
    pub x: int,
    pub y: int,
    pub w: int,
    pub h: int,
}

impl RectView {
    /// Positions and sizes within the clamped ranges.
    pub open spec fn wf(self) -> bool {
        &&& spec_min_int_value() <= self.x <= spec_max_int_value()
        &&& spec_min_int_value() <= self.y <= spec_max_int_value()
        &&& 1 <= self.w <= spec_max_int_value()
        &&& 1 <= self.h <= spec_max_int_value()
    }

    /// A point lies inside when `left <= px < right` and `top <= py < bottom`.
    pub open spec fn contains(self, px: int, py: int) -> bool {
        &&& self.x <= px < self.x + self.w
        &&& self.y <= py < self.y + self.h
    }
}

/// The view of `Rect::new(x, y, width, height)`.
pub open spec fn spec_new_rect(x: int, y: int, width: int, height: int) -> RectView {
    RectView {
        x: spec_clamp_position(x),
        y: spec_clamp_position(y),
        w: spec_clamp_size(width),
        h: spec_clamp_size(height),
    }
}

/// The largest coordinate or size a rectangle holds.
pub fn max_int_value() -> (r: u32)
    ensures
        r == spec_max_int_value(),
{
    1073741823
}

/// The smallest coordinate a rectangle holds.
pub fn min_int_value() -> (r: i32)
    ensures
        r == spec_min_int_value(),
{
    -1073741824
}

fn clamp_size(val: u32) -> (r: u32)
    ensures
        r == spec_clamp_size(val as int),
{
    let max: u32 = max_int_value();
    if val == 0 {
        1
    } else if val > max {
        max
    } else {
        val
    }
}

fn clamp_position(val: i32) -> (r: i32)
    ensures
        r == spec_clamp_position(val as int),
{
    if val > 1073741823 {
        1073741823
    } else if val < min_int_value() {
        min_int_value()
    } else {
        val
    }
}

/// A non-empty axis-aligned rectangle on the integer grid.
#[derive(Clone, Copy, Debug)]
pub struct Rect {
    x: i32,
    y: i32,
    w: i32,
    h: i32,
}

impl View for Rect {
    type V = RectView;

    closed spec fn view(&self) -> RectView {
        RectView { x: self.x as int, y: self.y as int, w: self.w as int, h: self.h as int }
    }
}

impl Rect {
    #[verifier::type_invariant]
    spec fn inv(self) -> bool {
        self@.wf()
    }

    /// Builds a rectangle, clamping the position into range and the size
    /// into `1..=max_int_value()` (an empty size becomes one).
    pub fn new(x: i32, y: i32, width: u32, height: u32) -> (r: Rect)
        ensures
            r@ == spec_new_rect(x as int, y as int, width as int, height as int),
            r@.wf(),
    {
        let w: u32 = clamp_size(width);
        let h: u32 = clamp_size(height);
        Rect { x: clamp_position(x), y: clamp_position(y), w: w as i32, h: h as i32 }
    }

    /// The x-position of the left side.
    pub fn left(&self) -> (r: i32)
        ensures
            r == self@.x,
    {
        self.x
    }

    /// The x-position one past the right side.
    pub fn right(&self) -> (r: i32)
        ensures
            r == self@.x + self@.w,
    {
        proof {
            use_type_invariant(self);
        }
        self.x + self.w
    }

    /// The y-position of the top side.
    pub fn top(&self) -> (r: i32)
        ensures
            r == self@.y,
    {
        self.y
    }

    /// The y-position one past the bottom side.
    pub fn bottom(&self) -> (r: i32)
        ensures
            r == self@.y + self@.h,
    {
        proof {
            use_type_invariant(self);
        }
        self.y + self.h
    }

    /// The width, always at least one.
    pub fn width(&self) -> (r: u32)
        ensures
            r == self@.w,
            r >= 1,
    {
        proof {
            use_type_invariant(self);
        }
        self.w as u32
    }

    /// The height, always at least one.
    pub fn height(&self) -> (r: u32)
        ensures
            r == self@.h,
            r >= 1,
    {
        proof {
            use_type_invariant(self);
        }
        self.h as u32
    }

    /// Whether the point lies inside: the left and top edges are included,
    /// the right and bottom edges are not.
    pub fn contains_point(&self, point: (i32, i32)) -> (r: bool)
        ensures
            r == self@.contains(point.0 as int, point.1 as int),
    {
        let (x, y) = point;
        let inside_x: bool = x >= self.left() && x < self.right();
        inside_x && (y >= self.top() && y < self.bottom())
    }
}

/// A rectangle built from in-range arguments keeps them unchanged.
pub proof fn lemma_new_in_range_is_exact(x: int, y: int, width: int, height: int)
    requires
        spec_min_int_value() <= x <= spec_max_int_value(),
        spec_min_int_value() <= y <= spec_max_int_value(),
        1 <= width <= spec_max_int_value(),
        1 <= height <= spec_max_int_value(),
    ensures
        spec_new_rect(x, y, width, height) == (RectView { x, y, w: width, h: height }),
{
}

/// Every rectangle contains its top-left corner: no rectangle is empty.
pub proof fn lemma_contains_top_left(r: RectView)
    requires
        r.wf(),
    ensures
        r.contains(r.x, r.y),
{
}

/// A one-by-one rectangle contains exactly one point, its corner.
pub proof fn lemma_unit_rect_single_point(r: RectView, px: int, py: int)
    requires
        r.wf(),
        r.w == 1,
        r.h == 1,
    ensures
        r.contains(px, py) <==> (px == r.x && py == r.y),
{
}

/// Right and bottom edges of a well-formed rectangle fit in an `i32`.
pub proof fn lemma_edges_fit(r: RectView)
    requires
        r.wf(),
    ensures
        i32::MIN < r.x + r.w <= i32::MAX,
        i32::MIN < r.y + r.h <= i32::MAX,
{
}

} // verus!

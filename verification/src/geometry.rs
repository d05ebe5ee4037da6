//! Integer vectors and center-anchored rectangles.
//!
//! A rectangle is given by the position of its center and by its size. The coordinate
//! system has its Y axis pointing up. A rectangle covers the half-open pixel intervals
//! `[left, right)` and `[bottom, top)`; one with a size of zero or less covers nothing.

use vstd::prelude::*;

verus! {

/// A pair of pixel coordinates, or a width and a height.
#[derive(Clone, Copy, Debug, PartialEq, Eq, Structural)]
pub struct Vec2i {
    pub x: i32,
    pub y: i32,
}

/// A rectangle, anchored at its center.
#[derive(Clone, Copy, Debug, PartialEq, Eq, Structural)]
pub struct Rect {
    pub position: Vec2i,
    pub size: Vec2i,
}

/// Half of an extent, rounded down; zero for an extent that is not positive.
pub open spec fn half(extent: int) -> int {
    if extent > 0 {
        extent / 2
    } else {
        0
    }
}

/// `value` moved into the range of `i32`: coordinates saturate, they never wrap.
pub open spec fn saturate(value: int) -> int {
    if value < i32::MIN {
        i32::MIN as int
    } else if value > i32::MAX {
        i32::MAX as int
    } else {
        value
    }
}

/// Executable form of [`half`].
pub fn half_of(extent: i32) -> (h: i32)
    ensures
        h == half(extent as int),
        0 <= h,
        h <= extent || extent <= 0,
{
    if extent > 0 {
        extent / 2
    } else {
        0
    }
}

/// Executable form of [`saturate`].
pub fn saturate_to_i32(value: i128) -> (c: i32)
    ensures
        c == saturate(value as int),
{
    if value < i32::MIN as i128 {
        i32::MIN
    } else if value > i32::MAX as i128 {
        i32::MAX
    } else {
        value as i32
    }
}

/// Sum of two coordinates, saturating.
pub fn sat_add(a: i32, b: i32) -> (c: i32)
    ensures
        c == saturate(a + b),
{
    saturate_to_i32(a as i128 + b as i128)
}

/// Difference of two coordinates, saturating.
pub fn sat_sub(a: i32, b: i32) -> (c: i32)
    ensures
        c == saturate(a - b),
{
    saturate_to_i32(a as i128 - b as i128)
}

impl Vec2i {
    pub fn new(x: i32, y: i32) -> (v: Vec2i)
        ensures
            v.x == x,
            v.y == y,
    {
        Vec2i { x, y }
    }

    /// Component-wise sum, saturating.
    pub open spec fn plus(self, other: Vec2i) -> Vec2i {
        Vec2i { x: saturate(self.x + other.x) as i32, y: saturate(self.y + other.y) as i32 }
    }

    /// Component-wise difference, saturating.
    pub open spec fn minus(self, other: Vec2i) -> Vec2i {
        Vec2i { x: saturate(self.x - other.x) as i32, y: saturate(self.y - other.y) as i32 }
    }

    pub fn add(self, other: Vec2i) -> (v: Vec2i)
        ensures
            v == self.plus(other),
    {
        Vec2i { x: sat_add(self.x, other.x), y: sat_add(self.y, other.y) }
    }

    pub fn sub(self, other: Vec2i) -> (v: Vec2i)
        ensures
            v == self.minus(other),
    {
        Vec2i { x: sat_sub(self.x, other.x), y: sat_sub(self.y, other.y) }
    }
}

impl Rect {
    pub fn new(position: Vec2i, size: Vec2i) -> (r: Rect)
        ensures
            r.position == position,
            r.size == size,
    {
        Rect { position, size }
    }

    pub open spec fn left(&self) -> int {
        self.position.x - half(self.size.x as int)
    }

    pub open spec fn right(&self) -> int {
        self.left() + self.size.x
    }

    pub open spec fn bottom(&self) -> int {
        self.position.y - half(self.size.y as int)
    }

    pub open spec fn top(&self) -> int {
        self.bottom() + self.size.y
    }

    /// The rectangle covers no pixel.
    pub open spec fn is_empty(&self) -> bool {
        self.size.x <= 0 || self.size.y <= 0
    }

    /// The pixel at `point` is covered by the rectangle.
    pub open spec fn contains(&self, point: Vec2i) -> bool {
        &&& self.left() <= point.x < self.right()
        &&& self.bottom() <= point.y < self.top()
    }

    pub fn left_edge(&self) -> (e: i64)
        ensures
            e == self.left(),
    {
        self.position.x as i64 - half_of(self.size.x) as i64
    }

    pub fn right_edge(&self) -> (e: i64)
        ensures
            e == self.right(),
    {
        self.left_edge() + self.size.x as i64
    }

    pub fn bottom_edge(&self) -> (e: i64)
        ensures
            e == self.bottom(),
    {
        self.position.y as i64 - half_of(self.size.y) as i64
    }

    pub fn top_edge(&self) -> (e: i64)
        ensures
            e == self.top(),
    {
        self.bottom_edge() + self.size.y as i64
    }

    /// The rectangle that covers `[left, right)` and `[bottom, top)`.
    pub open spec fn from_edges(left: int, right: int, bottom: int, top: int) -> Rect {
        Rect {
            position: Vec2i {
                x: saturate(left + half(right - left)) as i32,
                y: saturate(bottom + half(top - bottom)) as i32,
            },
            size: Vec2i { x: saturate(right - left) as i32, y: saturate(top - bottom) as i32 },
        }
    }

    /// Executable form of [`Rect::from_edges`].
    pub fn with_edges(left: i64, right: i64, bottom: i64, top: i64) -> (r: Rect)
        ensures
            r == Rect::from_edges(left as int, right as int, bottom as int, top as int),
    {
        let width: i32 = saturate_to_i32(right as i128 - left as i128);
        let height: i32 = saturate_to_i32(top as i128 - bottom as i128);
        let half_width: i128 = if right as i128 - left as i128 > 0 {
            (right as i128 - left as i128) / 2
        } else {
            0
        };
        let half_height: i128 = if top as i128 - bottom as i128 > 0 {
            (top as i128 - bottom as i128) / 2
        } else {
            0
        };
        Rect {
            position: Vec2i {
                x: saturate_to_i32(left as i128 + half_width),
                y: saturate_to_i32(bottom as i128 + half_height),
            },
            size: Vec2i { x: width, y: height },
        }
    }

    /// The part that the two rectangles have in common, if they have any.
    pub open spec fn intersection(&self, other: Rect) -> Option<Rect> {
        let left = if self.left() > other.left() {
            self.left()
        } else {
            other.left()
        };
        let right = if self.right() < other.right() {
            self.right()
        } else {
            other.right()
        };
        let bottom = if self.bottom() > other.bottom() {
            self.bottom()
        } else {
            other.bottom()
        };
        let top = if self.top() < other.top() {
            self.top()
        } else {
            other.top()
        };
        if left < right && bottom < top {
            Some(Rect::from_edges(left, right, bottom, top))
        } else {
            None
        }
    }

    /// The part of the rectangle that lies inside `other`; `None` if no pixel does.
    pub fn combine_rects(&self, other: &Rect) -> (common: Option<Rect>)
        ensures
            common == self.intersection(*other),
    {
        let left: i64 = if self.left_edge() > other.left_edge() {
            self.left_edge()
        } else {
            other.left_edge()
        };
        let right: i64 = if self.right_edge() < other.right_edge() {
            self.right_edge()
        } else {
            other.right_edge()
        };
        let bottom: i64 = if self.bottom_edge() > other.bottom_edge() {
            self.bottom_edge()
        } else {
            other.bottom_edge()
        };
        let top: i64 = if self.top_edge() < other.top_edge() {
            self.top_edge()
        } else {
            other.top_edge()
        };
        if left < right && bottom < top {
            Some(Rect::with_edges(left, right, bottom, top))
        } else {
            None
        }
    }

    /// The middle of the left edge, saturating.
    pub open spec fn left_middle(&self) -> Vec2i {
        Vec2i { x: saturate(self.left()) as i32, y: self.position.y }
    }

    pub fn left_position(&self) -> (middle: Vec2i)
        ensures
            middle == self.left_middle(),
    {
        Vec2i { x: saturate_to_i32(self.left_edge() as i128), y: self.position.y }
    }

    /// Hit test of a cursor position against the rectangle.
    pub fn inside_rect(&self, point: Vec2i) -> (inside: bool)
        ensures
            inside == self.contains(point),
    {
        let x: i64 = point.x as i64;
        let y: i64 = point.y as i64;
        self.left_edge() <= x && x < self.right_edge() && self.bottom_edge() <= y && y
            < self.top_edge()
    }
}

/// The common part of two rectangles covers the pixels that both cover, and no others.
pub proof fn lemma_intersection_covers(a: Rect, b: Rect, point: Vec2i)
    ensures
        a.intersection(b) matches Some(common) ==> (common.contains(point) <==> a.contains(point)
            && b.contains(point)),
        a.intersection(b) is None ==> !(a.contains(point) && b.contains(point)),
{
}

} // verus!

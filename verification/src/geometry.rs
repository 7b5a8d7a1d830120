//! Sizes, points and rectangles in whole pixels.

use vstd::prelude::*;

verus! {

/// A width and a height.
#[derive(Clone, Copy, Debug, PartialEq, Eq, Structural)]
pub struct Size {
    pub width: u32,
    pub height: u32,
}

/// A position; it may lie left of or above the origin.
#[derive(Clone, Copy, Debug, PartialEq, Eq, Structural)]
pub struct Point {
    pub x: i64,
    pub y: i64,
}

/// An axis-aligned rectangle, given by its top left corner and its size.
///
/// The left and top edges belong to the rectangle, the right and bottom
/// edges do not.
#[derive(Clone, Copy, Debug, PartialEq, Eq, Structural)]
pub struct Rect {
    pub origin: Point,
    pub size: Size,
}

/// A straight line between two points.
#[derive(Clone, Copy, Debug, PartialEq, Eq, Structural)]
pub struct Line {
    pub p0: Point,
    pub p1: Point,
}

impl Size {
    /// The size with no extent.
    pub open spec fn spec_zero() -> Size {
        Size { width: 0, height: 0 }
    }

    pub fn new(width: u32, height: u32) -> (s: Size)
        ensures
            s == (Size { width, height }),
    {
        Size { width, height }
    }

    #[verifier::when_used_as_spec(spec_zero)]
    pub fn zero() -> (s: Size)
        ensures
            s == Size::spec_zero(),
    {
        Size { width: 0, height: 0 }
    }
}

impl Point {
    pub open spec fn spec_zero() -> Point {
        Point { x: 0, y: 0 }
    }

    pub fn new(x: i64, y: i64) -> (p: Point)
        ensures
            p == (Point { x, y }),
    {
        Point { x, y }
    }

    #[verifier::when_used_as_spec(spec_zero)]
    pub fn zero() -> (p: Point)
        ensures
            p == Point::spec_zero(),
    {
        Point { x: 0, y: 0 }
    }
}

impl Rect {
    pub open spec fn spec_zero() -> Rect {
        Rect { origin: Point::spec_zero(), size: Size::spec_zero() }
    }

    /// The right edge, which lies outside the rectangle.
    pub open spec fn x1(self) -> int {
        self.origin.x + self.size.width
    }

    /// The bottom edge, which lies outside the rectangle.
    pub open spec fn y1(self) -> int {
        self.origin.y + self.size.height
    }

    /// Whether `p` lies inside the rectangle.
    pub open spec fn spec_contains(&self, p: Point) -> bool {
        &&& self.origin.x <= p.x < self.x1()
        &&& self.origin.y <= p.y < self.y1()
    }

    pub open spec fn spec_with_origin(self, origin: Point) -> Rect {
        Rect { origin, size: self.size }
    }

    pub open spec fn spec_with_size(self, size: Size) -> Rect {
        Rect { origin: self.origin, size }
    }

    pub fn new(origin: Point, size: Size) -> (r: Rect)
        ensures
            r == (Rect { origin, size }),
    {
        Rect { origin, size }
    }

    #[verifier::when_used_as_spec(spec_zero)]
    pub fn zero() -> (r: Rect)
        ensures
            r == Rect::spec_zero(),
    {
        Rect { origin: Point { x: 0, y: 0 }, size: Size { width: 0, height: 0 } }
    }

    /// The same size at another place.
    #[verifier::when_used_as_spec(spec_with_origin)]
    pub fn with_origin(self, origin: Point) -> (r: Rect)
        ensures
            r == self.spec_with_origin(origin),
    {
        Rect { origin, size: self.size }
    }

    /// Another size at the same place.
    #[verifier::when_used_as_spec(spec_with_size)]
    pub fn with_size(self, size: Size) -> (r: Rect)
        ensures
            r == self.spec_with_size(size),
    {
        Rect { origin: self.origin, size }
    }

    /// Whether `p` lies inside the rectangle: on or right of the left edge
    /// and left of the right edge, and likewise from top to bottom.
    #[verifier::when_used_as_spec(spec_contains)]
    pub fn contains(&self, p: Point) -> (inside: bool)
        ensures
            inside == self.spec_contains(p),
    {
        let x1: i128 = self.origin.x as i128 + self.size.width as i128;
        let y1: i128 = self.origin.y as i128 + self.size.height as i128;
        self.origin.x <= p.x && (p.x as i128) < x1 && self.origin.y <= p.y && (p.y as i128) < y1
    }
}

} // verus!

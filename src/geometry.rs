use vstd::prelude::*;

verus! {

/// A position in pixels.
#[derive(Clone, Copy, Debug, PartialEq, Eq, Structural)]
pub struct Point {
    pub x: i32,
    pub y: i32,
}

/// An extent in pixels.
#[derive(Clone, Copy, Debug, PartialEq, Eq, Structural)]
pub struct Size {
    pub width: i32,
    pub height: i32,
}

/// An axis-aligned rectangle: its top-left corner and its size.
#[derive(Clone, Copy, Debug, PartialEq, Eq, Structural)]
pub struct Bounds {
    pub origin: Point,
    pub size: Size,
}

/// Whether `p` lies in `b`, edges included.
pub open spec fn contains_spec(b: Bounds, p: Point) -> bool {
    &&& b.origin.x <= p.x
    &&& p.x <= b.origin.x + b.size.width
    &&& b.origin.y <= p.y
    &&& p.y <= b.origin.y + b.size.height
}

impl Point {
    pub fn new(x: i32, y: i32) -> (r: Point)
        ensures
            r == (Point { x, y }),
    {
        Point { x, y }
    }
}

impl Bounds {
    pub fn new(x: i32, y: i32, width: i32, height: i32) -> (r: Bounds)
        ensures
            r == (Bounds { origin: Point { x, y }, size: Size { width, height } }),
    {
        Bounds { origin: Point { x, y }, size: Size { width, height } }
    }

    /// Whether `p` lies inside these bounds, edges included.
    pub fn contains_point(&self, p: Point) -> (r: bool)
        ensures
            r == contains_spec(*self, p),
    {
        let right = self.origin.x as i64 + self.size.width as i64;
        let bottom = self.origin.y as i64 + self.size.height as i64;
        self.origin.x <= p.x && (p.x as i64) <= right && self.origin.y <= p.y && (p.y as i64)
            <= bottom
    }
}

} // verus!

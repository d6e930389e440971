//! Integer geometry of the window and of the laid-out nodes, in physical
//! pixels.

use vstd::prelude::*;

verus! {

/// A position, in physical pixels.
#[derive(Debug, Clone, Copy, PartialEq, Eq, Structural)]
pub struct Point2D {
    pub x: i32,
    pub y: i32,
}

/// An extent, in physical pixels.
#[derive(Debug, Clone, Copy, PartialEq, Eq, Structural)]
pub struct Size2D {
    pub width: u32,
    pub height: u32,
}

/// The size of the window as the host reports it, in physical pixels.
#[derive(Debug, Clone, Copy, PartialEq, Eq, Structural)]
pub struct PhysicalSize {
    pub width: u32,
    pub height: u32,
}

/// The position of the window as the host reports it, in physical pixels.
#[derive(Debug, Clone, Copy, PartialEq, Eq, Structural)]
pub struct PhysicalPosition {
    pub x: i32,
    pub y: i32,
}

/// A rectangle: the points `p` with `origin.x <= p.x < origin.x + width` and
/// `origin.y <= p.y < origin.y + height`.
#[derive(Debug, Clone, Copy, PartialEq, Eq, Structural)]
pub struct Area {
    pub origin: Point2D,
    pub size: Size2D,
}

impl Area {
    /// Whether `point` lies inside the rectangle. The right and the bottom
    /// edge are outside.
    pub open spec fn spec_contains(self, point: Point2D) -> bool {
        &&& self.origin.x <= point.x < self.origin.x + self.size.width
        &&& self.origin.y <= point.y < self.origin.y + self.size.height
    }

    /// The rectangle of the given size whose origin is `(0, 0)`.
    pub fn from_size(size: Size2D) -> (area: Area)
        ensures
            area == (Area { origin: Point2D { x: 0, y: 0 }, size }),
    {
        Area { origin: Point2D { x: 0, y: 0 }, size }
    }

    /// Whether `point` lies inside the rectangle.
    pub fn contains(&self, point: Point2D) -> (inside: bool)
        ensures
            inside == self.spec_contains(point),
    {
        let left: i64 = self.origin.x as i64;
        let top: i64 = self.origin.y as i64;
        let right: i64 = left + self.size.width as i64;
        let bottom: i64 = top + self.size.height as i64;
        let px: i64 = point.x as i64;
        let py: i64 = point.y as i64;
        left <= px && px < right && top <= py && py < bottom
    }
}

} // verus!

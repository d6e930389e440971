//! The position a window was moved to.

use vstd::prelude::*;

verus! {

/// Data of a window-moved event: the new position of the window's top-left
/// corner, in physical pixels.
#[derive(Debug, Clone, Copy, PartialEq, Eq, Structural)]
pub struct WindowMovedData {
    x: i32,
    y: i32,
}

impl WindowMovedData {
    /// The horizontal position, as a mathematical integer.
    pub closed spec fn spec_x(&self) -> int {
        self.x as int
    }

    /// The vertical position, as a mathematical integer.
    pub closed spec fn spec_y(&self) -> int {
        self.y as int
    }

    pub fn new(x: i32, y: i32) -> (data: Self)
        ensures
            data.spec_x() == x,
            data.spec_y() == y,
    {
        Self { x, y }
    }

    /// Get the X.
    pub fn get_x(&self) -> (x: i32)
        ensures
            x == self.spec_x(),
    {
        self.x
    }

    /// Get the Y.
    pub fn get_y(&self) -> (y: i32)
        ensures
            y == self.spec_y(),
    {
        self.y
    }
}

} // verus!

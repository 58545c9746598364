//! The rectangle of the screen that the grid is shown in.

use vstd::prelude::*;

verus! {

/// A rectangle of the screen, by its top-left corner and its extent.
#[derive(Clone, Copy, Debug, PartialEq, Eq, Structural)]
pub struct Window {
    pub height: u16,
    pub width: u16,
    pub x: u16,
    pub y: u16,
}

impl Window {
    /// Whether the point `(x, y)` lies in this rectangle.
    pub open spec fn contains(self, x: u16, y: u16) -> bool {
        &&& self.x <= x < self.x + self.width
        &&& self.y <= y < self.y + self.height
    }

    /// Whether the point `(x, y)` lies in this rectangle.
    pub fn is_inside(&self, x: u16, y: u16) -> (inside: bool)
        ensures
            inside == self.contains(x, y),
    {
        self.x <= x && self.y <= y && self.x as u32 + self.width as u32 > x as u32 && self.y as u32
            + self.height as u32 > y as u32
    }
}

} // verus!

//! Rectangles on the cell grid.

use vstd::prelude::*;

verus! {

/// An axis-aligned rectangle: the cells `(px, py)` with `x <= px < x + width`
/// and `y <= py < y + height`. A rectangle with a width or a height that is
/// not positive holds no cell.
#[derive(Debug, Clone, Copy, PartialEq, Eq, Structural)]
pub struct Rect {
    pub x: i32,
    pub y: i32,
    pub width: i32,
    pub height: i32,
}

/// Whether the cell `(px, py)` lies in the rectangle with corner `(x, y)` and
/// the given size.
pub open spec fn in_span(x: int, y: int, width: int, height: int, px: int, py: int) -> bool {
    x <= px < x + width && y <= py < y + height
}

impl Rect {
    pub open spec fn contains(self, px: int, py: int) -> bool {
        in_span(self.x as int, self.y as int, self.width as int, self.height as int, px, py)
    }

    pub fn new(x: i32, y: i32, width: i32, height: i32) -> (r: Rect)
        ensures
            r == (Rect { x, y, width, height }),
    {
        Rect { x, y, width, height }
    }
}

} // verus!

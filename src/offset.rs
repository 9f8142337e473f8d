use vstd::prelude::*;

verus! {

/// A displacement on the grid, also used to move local grid coordinates
/// into absolute terminal coordinates.
#[derive(Clone, Copy, Debug, PartialEq, Eq, Structural)]
pub struct Offset {
    pub x: i32,
    pub y: i32,
}

/// True when `a + b` fits in an `i32`.
pub open spec fn fits_i32(a: int, b: int) -> bool {
    i32::MIN <= a + b <= i32::MAX
}

impl Offset {
    pub fn new(dx: i32, dy: i32) -> (r: Offset)
        ensures
            r.x == dx,
            r.y == dy,
    {
        Offset { x: dx, y: dy }
    }

    /// The point `(x, y)` moved by this offset.
    pub fn apply(&self, x: i32, y: i32) -> (r: (i32, i32))
        requires
            fits_i32(self.x as int, x as int),
            fits_i32(self.y as int, y as int),
        ensures
            r.0 == self.x + x,
            r.1 == self.y + y,
    {
        (self.x + x, self.y + y)
    }

    pub fn _translate_xy(&self, dx: i32, dy: i32) -> (r: Offset)
        requires
            fits_i32(self.x as int, dx as int),
            fits_i32(self.y as int, dy as int),
        ensures
            r.x == self.x + dx,
            r.y == self.y + dy,
    {
        Offset { x: self.x + dx, y: self.y + dy }
    }

    /// The sum of two offsets.
    pub fn translate(&self, offset: &Offset) -> (r: Offset)
        requires
            fits_i32(self.x as int, offset.x as int),
            fits_i32(self.y as int, offset.y as int),
        ensures
            r.x == self.x + offset.x,
            r.y == self.y + offset.y,
    {
        Offset { x: self.x + offset.x, y: self.y + offset.y }
    }
}

impl Default for Offset {
    fn default() -> (r: Offset)
        ensures
            r.x == 0,
            r.y == 0,
    {
        Offset { x: 0, y: 0 }
    }
}

} // verus!

use vstd::prelude::*;

verus! {

/// A two-dimensional vector whose coordinates count thousandths of a pixel.
#[derive(Clone, Copy, Debug, PartialEq, Eq, Structural)]
pub struct Vec2 {
    pub x: i64,
    pub y: i64,
}

impl Vec2 {
    /// The squared magnitude of the vector, in squared thousandths.
    pub open spec fn mag_sq(self) -> int {
        self.x * self.x + self.y * self.y
    }

    /// The zero vector.
    pub fn zero() -> (v: Vec2)
        ensures
            v == (Vec2 { x: 0i64, y: 0i64 }),
    {
        Vec2 { x: 0, y: 0 }
    }
}

} // verus!

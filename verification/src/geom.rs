use vstd::prelude::*;

verus! {

/// A fixed-point 2D vector: 100 units stand for 1.0 of the on-screen
/// coordinate system.
#[derive(Clone, Copy, Debug, PartialEq, Eq, Structural)]
pub struct Vec2i {
    pub x: i64,
    pub y: i64,
}

/// The mathematical value of a `Vec2i`: the same point over unbounded
/// integers.
pub ghost struct V2 {
    pub x: int,
    pub y: int,
}

impl View for Vec2i {
    type V = V2;

    open spec fn view(&self) -> V2 {
        V2 { x: self.x as int, y: self.y as int }
    }
}

impl Vec2i {
    pub fn new(x: i64, y: i64) -> (v: Vec2i)
        ensures
            v@ == (V2 { x: x as int, y: y as int }),
    {
        Vec2i { x, y }
    }
}

} // verus!

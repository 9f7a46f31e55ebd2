use vstd::prelude::*;

verus! {

/// A planar point or displacement in fixed integer coordinate units.
#[derive(Clone, Copy, PartialEq, Eq, Structural, Debug)]
pub struct Vec2 {
    pub x: i64,
    pub y: i64,
}

impl Vec2 {
    /// The zero vector.
    pub open spec fn zero_spec() -> Vec2 {
        Vec2 { x: 0, y: 0 }
    }

    pub fn zero() -> (v: Vec2)
        ensures
            v == Vec2::zero_spec(),
    {
        Vec2 { x: 0, y: 0 }
    }
}

} // verus!

//! Plain two- and three-component vectors of scaled values.
use vstd::prelude::*;

verus! {

use crate::fixed::Fix;
use crate::math::fix_mag3;
use crate::math::s_mag3;
use crate::math::MAG_MAX;

/// A three-component vector: `x` right, `y` downrange, `z` up.
#[derive(Clone, Copy, PartialEq, Eq, Structural, Debug)]
pub struct Vec3 {
    pub x: Fix,
    pub y: Fix,
    pub z: Fix,
}

/// A two-component horizontal vector: `x` right, `y` downrange.
#[derive(Clone, Copy, PartialEq, Eq, Structural, Debug)]
pub struct Vec2 {
    pub x: Fix,
    pub y: Fix,
}

impl Vec3 {
    /// The components as a spec-level magnitude.
    pub open spec fn s_magnitude(self) -> int {
        s_mag3(self.x as int, self.y as int, self.z as int)
    }

    /// All components within the given magnitude.
    pub open spec fn bounded(self, m: int) -> bool {
        -m <= self.x as int <= m && -m <= self.y as int <= m && -m <= self.z as int <= m
    }

    /// Euclidean length of the vector.
    pub fn magnitude(&self) -> (r: Fix)
        requires
            self.bounded(MAG_MAX as int),
        ensures
            r == self.s_magnitude(),
            0 <= r <= 2_000_000_000_000_000,
    {
        fix_mag3(self.x, self.y, self.z)
    }
}

impl Vec2 {
    /// All components within the given magnitude.
    pub open spec fn bounded(self, m: int) -> bool {
        -m <= self.x as int <= m && -m <= self.y as int <= m
    }
}

} // verus!

//! The struck ball's physical dimensions.
use vstd::prelude::*;

verus! {

use crate::fixed::Fix;

/// Mass in ounces and circumference in inches, both scaled.
#[derive(Clone, Copy, PartialEq, Eq, Structural, Debug)]
pub struct Ball {
    pub mass: Fix,
    pub circumference: Fix,
}

impl Ball {
    /// The working envelope of the scaled arithmetic: a tenth of an ounce up
    /// to ten thousand ounces, a tenth of an inch up to a thousand inches.
    pub open spec fn wf(self) -> bool {
        100_000_000 <= self.mass <= 10_000_000_000_000 && 100_000_000 <= self.circumference
            <= 1_000_000_000_000
    }
}

impl Default for Ball {
    /// The standard regulation ball.
    fn default() -> (b: Ball)
        ensures
            b.mass == 5_125_000_000,
            b.circumference == 9_125_000_000,
            b.wf(),
    {
        Ball { mass: 5_125_000_000, circumference: 9_125_000_000 }
    }
}

} // verus!

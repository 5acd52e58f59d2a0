//! Food sources: point resources with a pick-up radius and a depletable
//! quantity.

use vstd::prelude::*;
use crate::vec2::Vec2;
use crate::FOOD_UNIT;

verus! {

/// A food source. `radius` and `quantity` are in sub-units; each pick-up
/// removes exactly one whole unit (`FOOD_UNIT` sub-units) of quantity.
#[derive(Clone, Copy, PartialEq, Eq, Structural, Debug)]
pub struct Food {
    pub position: Vec2,
    pub radius: i64,
    pub quantity: i64,
}

impl Food {
    /// Quantity never goes negative and the radius is small enough that
    /// its square fits comfortably in an `i64`.
    pub open spec fn wf(self) -> bool {
        &&& 0 <= self.quantity
        &&& 0 <= self.radius <= 1_000_000_000
    }

    /// Builds a food source.
    pub fn new(position: Vec2, radius: i64, quantity: i64) -> (r: Food)
        requires
            0 <= quantity,
            0 <= radius <= 1_000_000_000,
        ensures
            r == (Food { position, radius, quantity }),
            r.wf(),
    {
        Food { position, radius, quantity }
    }

    /// True once the quantity has reached zero; such a source is eligible
    /// for removal from its grid.
    pub fn is_empty(&self) -> (r: bool)
        ensures
            r == (self.quantity <= 0),
    {
        self.quantity <= 0
    }

    /// Whether a pick-up can still draw a whole unit from this source.
    pub open spec fn pickable(self) -> bool {
        self.quantity >= FOOD_UNIT
    }

    /// Removes exactly one unit of quantity.
    pub fn pick(&mut self)
        requires
            old(self).pickable(),
        ensures
            *final(self) == (Food { quantity: (old(self).quantity - FOOD_UNIT) as i64, ..*old(self) }),
    {
        self.quantity = self.quantity - FOOD_UNIT;
    }
}

} // verus!

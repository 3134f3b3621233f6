//! The fractional arithmetic of one frame, as the simulation sees it.
//!
//! Directions are unit vectors with fractional components and the distance
//! covered in a frame is a product with the frame's length in seconds. The
//! simulation never looks inside a direction: it stores one as a pair of
//! 32-bit patterns, hands it back to the caller's [`Motion`] and receives
//! whole pixels. Nothing is assumed of what an implementation returns, so
//! whatever is proved of the simulation holds for every implementation.

use vstd::prelude::*;

verus! {

/// What the simulation asks of the caller during one frame.
pub trait Motion {
    /// The direction along a vector of whole pixels. The intended rule
    /// returns the vector itself where either component is zero, and the
    /// vector scaled to length one otherwise.
    fn unit(&self, vector: (i32, i32)) -> (u32, u32);

    /// The direction from `from` towards the cursor, by the same rule.
    fn aim(&self, from: (i32, i32)) -> (u32, u32);

    /// The whole pixels covered during this frame at `speed` pixels per
    /// second along `direction`, each component cut off towards zero.
    fn travel(&self, direction: (u32, u32), speed: u32) -> (i32, i32);
}

} // verus!

//! The primary vertex of an event.

use vstd::prelude::*;
use crate::codec::FloatBits;

verus! {

/// The point of the collision, as reconstructed from the tracks that
/// contribute to it.
#[derive(Debug, Clone, Copy, PartialEq, Eq, Structural)]
pub struct PrimaryVertex {
    /// Position along x.
    pub x: FloatBits,
    /// Position along y.
    pub y: FloatBits,
    /// Position along z.
    pub z: FloatBits,
    /// The number of tracks that contribute to the vertex.
    pub n_contrib: i32,
}

} // verus!

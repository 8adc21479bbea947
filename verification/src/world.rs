//! Continuous (world-space) positions, carried in whole micro-units.
//!
//! The engine never stores a continuous position: world coordinates appear
//! only at the conversion boundary. To keep that conversion exact, a world
//! coordinate is an integer count of micro-units (one millionth of the render
//! unit); the layer that talks to a renderer scales its floating-point
//! vectors by one million when handing positions in, and back when taking
//! them out.

use vstd::prelude::*;

verus! {

/// A world-space point or extent: `x`, `y`, `z` in micro-units.
#[derive(Debug, Clone, Copy, PartialEq, Eq, Structural)]
pub struct WorldVec {
    pub x: i64,
    pub y: i64,
    pub z: i64,
}

impl WorldVec {
    pub fn new(x: i64, y: i64, z: i64) -> (r: Self)
        ensures
            r == (WorldVec { x, y, z }),
    {
        WorldVec { x, y, z }
    }
}

} // verus!

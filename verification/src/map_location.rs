//! Represents two-dimensional coordinates in the Battlecode world.
use vstd::prelude::*;

verus! {

/// The planets in the Battlecode world.
#[derive(Debug, Clone, Copy, PartialEq, Eq, Structural)]
pub enum Planet {
    Earth,
    Mars,
}

/// A two-dimensional coordinate on one of the Battlecode planets.
#[derive(Debug, Clone, Copy, PartialEq, Eq, Structural)]
pub struct MapLocation {
    pub x: i32,
    pub y: i32,
    pub planet: Planet,
}

impl MapLocation {
    /// Returns a new MapLocation representing the location with the given
    /// coordinates on the given planet.
    pub fn new(x: i32, y: i32, planet: Planet) -> (r: MapLocation)
        ensures
            r == (MapLocation { x, y, planet }),
    {
        MapLocation { x: x, y: y, planet: planet }
    }
}

} // verus!

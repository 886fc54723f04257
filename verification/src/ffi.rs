//! The plain types through which the engine is driven from C, and their
//! conversions to and from the engine's own types.
#![allow(non_camel_case_types)]
use vstd::prelude::*;
use vstd::std_specs::convert::FromSpecImpl;
use crate::location::{Direction, MapLocation, Planet};

verus! {

/// The state of one connection from C: the text of the last error, if one
/// happened.
pub struct bc_t {
    pub error: Option<String>,
}

/// A map location as C sees it.
#[derive(Debug, Clone, Copy, PartialEq, Eq, Structural)]
pub struct bc_map_location_t {
    pub planet: Planet,
    pub x: i32,
    pub y: i32,
}

/// A direction, with the names C sees.
#[allow(non_camel_case_types)]
#[derive(Debug, Clone, Copy, PartialEq, Eq, Structural)]
pub enum bc_direction {
    north,
    northeast,
    east,
    southeast,
    south,
    southwest,
    west,
    northwest,
    center,
}

/// A map location as C sees it.
pub open spec fn c_location(l: MapLocation) -> bc_map_location_t {
    bc_map_location_t { planet: l.planet, x: l.x, y: l.y }
}

/// The map location a C location stands for.
pub open spec fn engine_location(l: bc_map_location_t) -> MapLocation {
    MapLocation { planet: l.planet, x: l.x, y: l.y }
}

impl From<MapLocation> for bc_map_location_t {
    fn from(location: MapLocation) -> (r: bc_map_location_t) {
        bc_map_location_t { planet: location.planet, x: location.x, y: location.y }
    }
}

impl FromSpecImpl<MapLocation> for bc_map_location_t {
    open spec fn obeys_from_spec() -> bool {
        true
    }

    open spec fn from_spec(location: MapLocation) -> bc_map_location_t {
        c_location(location)
    }
}

impl From<bc_map_location_t> for MapLocation {
    fn from(location: bc_map_location_t) -> (r: MapLocation) {
        MapLocation { planet: location.planet, x: location.x, y: location.y }
    }
}

impl FromSpecImpl<bc_map_location_t> for MapLocation {
    open spec fn obeys_from_spec() -> bool {
        true
    }

    open spec fn from_spec(location: bc_map_location_t) -> MapLocation {
        engine_location(location)
    }
}

/// The C name of a direction.
pub open spec fn c_direction(d: Direction) -> bc_direction {
    match d {
        Direction::North => bc_direction::north,
        Direction::Northeast => bc_direction::northeast,
        Direction::East => bc_direction::east,
        Direction::Southeast => bc_direction::southeast,
        Direction::South => bc_direction::south,
        Direction::Southwest => bc_direction::southwest,
        Direction::West => bc_direction::west,
        Direction::Northwest => bc_direction::northwest,
        Direction::Center => bc_direction::center,
    }
}

/// The direction a C name stands for.
pub open spec fn engine_direction(d: bc_direction) -> Direction {
    match d {
        bc_direction::north => Direction::North,
        bc_direction::northeast => Direction::Northeast,
        bc_direction::east => Direction::East,
        bc_direction::southeast => Direction::Southeast,
        bc_direction::south => Direction::South,
        bc_direction::southwest => Direction::Southwest,
        bc_direction::west => Direction::West,
        bc_direction::northwest => Direction::Northwest,
        bc_direction::center => Direction::Center,
    }
}

impl From<Direction> for bc_direction {
    fn from(direction: Direction) -> (r: bc_direction) {
        match direction {
            Direction::North => bc_direction::north,
            Direction::Northeast => bc_direction::northeast,
            Direction::East => bc_direction::east,
            Direction::Southeast => bc_direction::southeast,
            Direction::South => bc_direction::south,
            Direction::Southwest => bc_direction::southwest,
            Direction::West => bc_direction::west,
            Direction::Northwest => bc_direction::northwest,
            Direction::Center => bc_direction::center,
        }
    }
}

impl FromSpecImpl<Direction> for bc_direction {
    open spec fn obeys_from_spec() -> bool {
        true
    }

    open spec fn from_spec(direction: Direction) -> bc_direction {
        c_direction(direction)
    }
}

impl From<bc_direction> for Direction {
    fn from(direction: bc_direction) -> (r: Direction) {
        match direction {
            bc_direction::north => Direction::North,
            bc_direction::northeast => Direction::Northeast,
            bc_direction::east => Direction::East,
            bc_direction::southeast => Direction::Southeast,
            bc_direction::south => Direction::South,
            bc_direction::southwest => Direction::Southwest,
            bc_direction::west => Direction::West,
            bc_direction::northwest => Direction::Northwest,
            bc_direction::center => Direction::Center,
        }
    }
}

impl FromSpecImpl<bc_direction> for Direction {
    open spec fn obeys_from_spec() -> bool {
        true
    }

    open spec fn from_spec(direction: bc_direction) -> Direction {
        engine_direction(direction)
    }
}

/// Converting a direction to its C name and back gives the direction, and
/// converting a C name to a direction and back gives the name.
pub proof fn lemma_direction_round_trip(d: Direction, c: bc_direction)
    ensures
        engine_direction(c_direction(d)) == d,
        c_direction(engine_direction(c)) == c,
{
}

/// Converting a map location to C and back gives the location.
pub proof fn lemma_location_round_trip(l: MapLocation)
    ensures
        engine_location(c_location(l)) == l,
{
}

} // verus!

//! Directions and coordinates as the engine's core first described them.
//! Coordinates increase in the North and East directions.
use vstd::prelude::*;

verus! {

/// Represents a direction from one MapLocation to another.
///
/// Directions for each of the cardinals (north, south, east, west), and each
/// of the diagonals (northwest, southwest, northeast, southeast). There is
/// also a "center" direction, representing no direction.
#[derive(Debug, Clone, Copy, PartialEq, Eq, Structural)]
pub enum Direction {
    North,
    NorthEast,
    East,
    SouthEast,
    South,
    SouthWest,
    West,
    NorthWest,
    // No direction
    Center,
}

/// The number of a direction, clockwise from North at 0; Center is 8.
pub open spec fn number(d: Direction) -> int {
    match d {
        Direction::North => 0,
        Direction::NorthEast => 1,
        Direction::East => 2,
        Direction::SouthEast => 3,
        Direction::South => 4,
        Direction::SouthWest => 5,
        Direction::West => 6,
        Direction::NorthWest => 7,
        Direction::Center => 8,
    }
}

/// The direction with the given number; any number past 7 is Center.
pub open spec fn from_number(n: int) -> Direction {
    if n == 0 {
        Direction::North
    } else if n == 1 {
        Direction::NorthEast
    } else if n == 2 {
        Direction::East
    } else if n == 3 {
        Direction::SouthEast
    } else if n == 4 {
        Direction::South
    } else if n == 5 {
        Direction::SouthWest
    } else if n == 6 {
        Direction::West
    } else if n == 7 {
        Direction::NorthWest
    } else {
        Direction::Center
    }
}

/// The direction `steps` eighth-turns clockwise from `d`; Center stays.
pub open spec fn turned(d: Direction, steps: int) -> Direction {
    if d == Direction::Center {
        Direction::Center
    } else {
        from_number((number(d) + steps) % 8)
    }
}

impl Direction {
    fn num_to_direction(num: u8) -> (r: Direction)
        ensures
            r == from_number(num as int),
    {
        match num {
            0 => Direction::North,
            1 => Direction::NorthEast,
            2 => Direction::East,
            3 => Direction::SouthEast,
            4 => Direction::South,
            5 => Direction::SouthWest,
            6 => Direction::West,
            7 => Direction::NorthWest,
            _ => Direction::Center,
        }
    }

    fn to_num(&self) -> (r: u8)
        ensures
            r == number(*self),
    {
        match *self {
            Direction::North => 0,
            Direction::NorthEast => 1,
            Direction::East => 2,
            Direction::SouthEast => 3,
            Direction::South => 4,
            Direction::SouthWest => 5,
            Direction::West => 6,
            Direction::NorthWest => 7,
            Direction::Center => 8,
        }
    }

    /// Returns the (x, y) displacement of this direction.
    pub fn delta(&self) -> (r: (i32, i32))
        ensures
            r == (match *self {
                Direction::North => (0i32, 1i32),
                Direction::NorthEast => (1i32, 1i32),
                Direction::East => (1i32, 0i32),
                Direction::SouthEast => (1i32, -1i32),
                Direction::South => (0i32, -1i32),
                Direction::SouthWest => (-1i32, -1i32),
                Direction::West => (-1i32, 0i32),
                Direction::NorthWest => (-1i32, 1i32),
                Direction::Center => (0i32, 0i32),
            }),
    {
        match *self {
            Direction::North => (0, 1),
            Direction::NorthEast => (1, 1),
            Direction::East => (1, 0),
            Direction::SouthEast => (1, -1),
            Direction::South => (0, -1),
            Direction::SouthWest => (-1, -1),
            Direction::West => (-1, 0),
            Direction::NorthWest => (-1, 1),
            Direction::Center => (0, 0),
        }
    }

    /// Returns the direction opposite this one, or Center if it's Center.
    pub fn opposite(&self) -> (r: Direction)
        ensures
            r == turned(*self, 4),
    {
        if *self == Direction::Center {
            return Direction::Center;
        }
        let new_dir = (self.to_num() + 4) % 8;
        Direction::num_to_direction(new_dir)
    }

    /// Returns the direction 45 degrees to the left (counter-clockwise) of
    /// this one, or Center if it's Center.
    pub fn rotate_left(&self) -> (r: Direction)
        ensures
            r == turned(*self, 7),
    {
        if *self == Direction::Center {
            return Direction::Center;
        }
        let new_dir = (self.to_num() + 7) % 8;
        Direction::num_to_direction(new_dir)
    }

    /// Returns the direction 45 degrees to the right (clockwise) of this one,
    /// or Center if it's Center.
    pub fn rotate_right(&self) -> (r: Direction)
        ensures
            r == turned(*self, 1),
    {
        if *self == Direction::Center {
            return Direction::Center;
        }
        let new_dir = (self.to_num() + 1) % 8;
        Direction::num_to_direction(new_dir)
    }
}

/// Turning left and then right, or right and then left, gives back the
/// direction; so does turning to the opposite twice.
pub proof fn lemma_turns_cancel(d: Direction)
    ensures
        turned(turned(d, 7), 1) == d,
        turned(turned(d, 1), 7) == d,
        turned(turned(d, 4), 4) == d,
{
}

/// The opposite direction has the opposite displacement.
pub proof fn lemma_opposite_displacement(d: Direction)
    ensures
        ({
            let (dx, dy) = displacement(d);
            let (ox, oy) = displacement(turned(d, 4));
            ox == -dx && oy == -dy
        }),
{
}

/// The (x, y) displacement of a direction, with y growing southward.
pub open spec fn displacement(d: Direction) -> (int, int) {
    match d {
        Direction::North => (0, -1),
        Direction::NorthEast => (1, -1),
        Direction::East => (1, 0),
        Direction::SouthEast => (1, 1),
        Direction::South => (0, 1),
        Direction::SouthWest => (-1, 1),
        Direction::West => (-1, 0),
        Direction::NorthWest => (-1, -1),
        Direction::Center => (0, 0),
    }
}

/// The planets in the Battlecode world.
#[derive(Debug, Clone, Copy, PartialEq, Eq, Structural)]
pub enum Planet {
    Earth,
    Mars,
}

/// Represents two-dimensional coordinates in the Battlecode world.
#[derive(Debug, Clone, Copy, PartialEq, Eq, Structural)]
pub struct MapLocation {
    pub x: i32,
    pub y: i32,
    pub planet: Planet,
}

impl MapLocation {
    /// Returns a new MapLocation representing the location with the given
    /// coordinates on the given planet.
    pub fn new(x: i32, y: i32, planet: Planet) -> (r: MapLocation)
        ensures
            r == (MapLocation { x, y, planet }),
    {
        MapLocation { x: x, y: y, planet: planet }
    }
}

} // verus!

//! Simple data structures to represent locations, directions, and planets.
use vstd::prelude::*;
use crate::error::GameError;
use crate::unit::UnitID;

verus! {

/// A direction from one MapLocation to another.
///
/// Directions for each of the cardinals (north, south, east, west), and each
/// of the diagonals (northwest, southwest, northeast, southeast). There is
/// also a "center" direction, representing no direction.
///
/// Coordinates increase in the north and east directions.
#[derive(Debug, Clone, Copy, PartialEq, Eq, Structural, Hash)]
pub enum Direction {
    North,
    Northeast,
    East,
    Southeast,
    South,
    Southwest,
    West,
    Northwest,
    // No direction
    Center,
}

/// The clockwise position of a direction, starting with north at 0; the
/// center direction is 8.
pub open spec fn dir_index(d: Direction) -> int {
    match d {
        Direction::North => 0,
        Direction::Northeast => 1,
        Direction::East => 2,
        Direction::Southeast => 3,
        Direction::South => 4,
        Direction::Southwest => 5,
        Direction::West => 6,
        Direction::Northwest => 7,
        Direction::Center => 8,
    }
}

/// The direction at a clockwise position; anything outside 0..8 is the center.
pub open spec fn dir_at(n: int) -> Direction {
    if n == 0 {
        Direction::North
    } else if n == 1 {
        Direction::Northeast
    } else if n == 2 {
        Direction::East
    } else if n == 3 {
        Direction::Southeast
    } else if n == 4 {
        Direction::South
    } else if n == 5 {
        Direction::Southwest
    } else if n == 6 {
        Direction::West
    } else if n == 7 {
        Direction::Northwest
    } else {
        Direction::Center
    }
}

/// The x displacement of a direction.
pub open spec fn dir_dx(d: Direction) -> int {
    match d {
        Direction::North => 0,
        Direction::Northeast => 1,
        Direction::East => 1,
        Direction::Southeast => 1,
        Direction::South => 0,
        Direction::Southwest => -1,
        Direction::West => -1,
        Direction::Northwest => -1,
        Direction::Center => 0,
    }
}

/// The y displacement of a direction.
pub open spec fn dir_dy(d: Direction) -> int {
    match d {
        Direction::North => 1,
        Direction::Northeast => 1,
        Direction::East => 0,
        Direction::Southeast => -1,
        Direction::South => -1,
        Direction::Southwest => -1,
        Direction::West => 0,
        Direction::Northwest => 1,
        Direction::Center => 0,
    }
}

/// The direction reached by turning `steps` eighths of a turn clockwise;
/// the center direction stays where it is.
pub open spec fn dir_turn(d: Direction, steps: int) -> Direction {
    if d == Direction::Center {
        Direction::Center
    } else {
        dir_at((dir_index(d) + steps) % 8)
    }
}

/// The eight non-center directions, clockwise from north.
pub open spec fn all_directions() -> Seq<Direction> {
    seq![
        Direction::North,
        Direction::Northeast,
        Direction::East,
        Direction::Southeast,
        Direction::South,
        Direction::Southwest,
        Direction::West,
        Direction::Northwest,
    ]
}

impl Direction {
    fn num_to_direction(num: u8) -> (d: Direction)
        ensures
            d == dir_at(num as int),
    {
        match num {
            0 => Direction::North,
            1 => Direction::Northeast,
            2 => Direction::East,
            3 => Direction::Southeast,
            4 => Direction::South,
            5 => Direction::Southwest,
            6 => Direction::West,
            7 => Direction::Northwest,
            _ => Direction::Center,
        }
    }

    fn index(&self) -> (n: u8)
        ensures
            n as int == dir_index(*self),
    {
        match *self {
            Direction::North => 0,
            Direction::Northeast => 1,
            Direction::East => 2,
            Direction::Southeast => 3,
            Direction::South => 4,
            Direction::Southwest => 5,
            Direction::West => 6,
            Direction::Northwest => 7,
            Direction::Center => 8,
        }
    }

    /// Returns all the directions ordered clockwise, starting with north and
    /// not including the center direction.
    pub fn all() -> (v: Vec<Direction>)
        ensures
            v@ == all_directions(),
    {
        vec![
            Direction::North,
            Direction::Northeast,
            Direction::East,
            Direction::Southeast,
            Direction::South,
            Direction::Southwest,
            Direction::West,
            Direction::Northwest,
        ]
    }

    /// Returns the x displacement of this direction.
    pub fn dx(&self) -> (r: i32)
        ensures
            r as int == dir_dx(*self),
    {
        match *self {
            Direction::North => 0,
            Direction::Northeast => 1,
            Direction::East => 1,
            Direction::Southeast => 1,
            Direction::South => 0,
            Direction::Southwest => -1,
            Direction::West => -1,
            Direction::Northwest => -1,
            Direction::Center => 0,
        }
    }

    /// Returns the y displacement of this direction.
    pub fn dy(&self) -> (r: i32)
        ensures
            r as int == dir_dy(*self),
    {
        match *self {
            Direction::North => 1,
            Direction::Northeast => 1,
            Direction::East => 0,
            Direction::Southeast => -1,
            Direction::South => -1,
            Direction::Southwest => -1,
            Direction::West => 0,
            Direction::Northwest => 1,
            Direction::Center => 0,
        }
    }

    /// Whether this direction is a diagonal one.
    pub fn is_diagonal(&self) -> (r: bool)
        ensures
            r == (*self != Direction::Center && dir_index(*self) % 2 == 1),
            r == (dir_dx(*self) != 0 && dir_dy(*self) != 0),
    {
        if *self == Direction::Center {
            return false;
        }
        (self.index() % 2) == 1
    }

    /// Returns the direction opposite this one, or Center if it's Center.
    pub fn opposite(&self) -> (r: Direction)
        ensures
            r == dir_turn(*self, 4),
            dir_dx(r) == -dir_dx(*self),
            dir_dy(r) == -dir_dy(*self),
    {
        if *self == Direction::Center {
            return Direction::Center;
        }
        let new_dir = (self.index() + 4) % 8;
        Direction::num_to_direction(new_dir)
    }

    /// Returns the direction 45 degrees to the left (counter-clockwise) of
    /// this one, or Center if it's Center.
    pub fn rotate_left(&self) -> (r: Direction)
        ensures
            r == dir_turn(*self, 7),
    {
        if *self == Direction::Center {
            return Direction::Center;
        }
        let new_dir = (self.index() + 7) % 8;
        Direction::num_to_direction(new_dir)
    }

    /// Returns the direction 45 degrees to the right (clockwise) of this one,
    /// or Center if it's Center.
    pub fn rotate_right(&self) -> (r: Direction)
        ensures
            r == dir_turn(*self, 1),
    {
        if *self == Direction::Center {
            return Direction::Center;
        }
        let new_dir = (self.index() + 1) % 8;
        Direction::num_to_direction(new_dir)
    }
}

/// Turning left and then right, or right and then left, comes back to the
/// same direction.
pub proof fn lemma_rotations_cancel(d: Direction)
    ensures
        dir_turn(dir_turn(d, 7), 1) == d,
        dir_turn(dir_turn(d, 1), 7) == d,
{
}

/// The opposite of the opposite is the direction itself, and the opposite
/// is four right turns away.
pub proof fn lemma_opposite_involution(d: Direction)
    ensures
        dir_turn(dir_turn(d, 4), 4) == d,
        dir_turn(dir_turn(dir_turn(dir_turn(d, 1), 1), 1), 1) == dir_turn(d, 4),
{
}

/// The planets in the Battlecode world.
#[derive(Debug, Clone, Copy, PartialEq, Eq, Structural, Hash)]
pub enum Planet {
    Earth,
    Mars,
}

impl Planet {
    /// The planet that is not this one.
    pub open spec fn spec_other(&self) -> Planet {
        match *self {
            Planet::Earth => Planet::Mars,
            Planet::Mars => Planet::Earth,
        }
    }

    /// The other planet.
    #[verifier::when_used_as_spec(spec_other)]
    pub fn other(&self) -> (r: Planet)
        ensures
            r == self.spec_other(),
            r != *self,
    {
        match *self {
            Planet::Earth => Planet::Mars,
            Planet::Mars => Planet::Earth,
        }
    }
}

/// Two-dimensional coordinates in the Battlecode world.
#[derive(Debug, Clone, Copy, PartialEq, Eq, Structural, Hash)]
pub struct MapLocation {
    pub planet: Planet,
    pub x: i32,
    pub y: i32,
}

/// The squared Euclidean distance between the coordinates of two locations.
pub open spec fn sq_dist(a: MapLocation, b: MapLocation) -> int {
    (a.x - b.x) * (a.x - b.x) + (a.y - b.y) * (a.y - b.y)
}

/// The distance squared between two locations as the engine reports it: the
/// maximum `u32` for locations on different planets.
pub open spec fn dist_sq(a: MapLocation, b: MapLocation) -> int {
    if a.planet == b.planet {
        sq_dist(a, b)
    } else {
        u32::MAX as int
    }
}

/// Whether the coordinates of two locations are close enough together that
/// their distance squared fits in an `i32`.
pub open spec fn dist_fits(a: MapLocation, b: MapLocation) -> bool {
    a.planet == b.planet ==> sq_dist(a, b) <= i32::MAX
}

/// Adjacency: distinct squares on the same planet at distance squared at
/// most 2.
pub open spec fn adjacent(a: MapLocation, b: MapLocation) -> bool {
    a.planet == b.planet && sq_dist(a, b) <= 2 && sq_dist(a, b) != 0
}

/// Whether `b` is within distance squared `range` of `a`, on the same planet.
pub open spec fn within_range(a: MapLocation, range: int, b: MapLocation) -> bool {
    a.planet == b.planet && sq_dist(a, b) <= range
}

/// The location shifted by (dx, dy).
pub open spec fn shifted(a: MapLocation, dx: int, dy: int) -> MapLocation {
    MapLocation { planet: a.planet, x: (a.x + dx) as i32, y: (a.y + dy) as i32 }
}

/// Whether shifting by (dx, dy) stays in the range of `i32`.
pub open spec fn translate_fits(a: MapLocation, dx: int, dy: int) -> bool {
    i32::MIN <= a.x + dx <= i32::MAX && i32::MIN <= a.y + dy <= i32::MAX
}

/// The location one square away from `a` in direction `d`.
pub open spec fn step(a: MapLocation, d: Direction) -> MapLocation {
    shifted(a, dir_dx(d), dir_dy(d))
}

/// The direction of `b` as seen from `a`: the eight compass directions split
/// the plane at the slope 2.414 (an approximation of tan(67.5 degrees)) and
/// its reciprocal.
pub open spec fn direction_between(a: MapLocation, b: MapLocation) -> Direction {
    let dx = b.x - a.x;
    let dy = b.y - a.y;
    let adx = if dx < 0 { -dx } else { dx };
    let ady = if dy < 0 { -dy } else { dy };
    if dx == 0 && dy == 0 {
        Direction::Center
    } else if 1000 * adx >= 2414 * ady {
        if dx > 0 { Direction::East } else { Direction::West }
    } else if 1000 * ady >= 2414 * adx {
        if dy > 0 { Direction::North } else { Direction::South }
    } else if dy > 0 {
        if dx > 0 { Direction::Northeast } else { Direction::Northwest }
    } else {
        if dx > 0 { Direction::Southeast } else { Direction::Southwest }
    }
}

proof fn lemma_square_bound(d: int)
    requires
        d * d <= i32::MAX,
    ensures
        -46341 < d < 46341,
{
    if d >= 46341 {
        assert(d * d >= 46341 * 46341) by (nonlinear_arith)
            requires
                d >= 46341,
        ;
    }
    if d <= -46341 {
        assert(d * d >= 46341 * 46341) by (nonlinear_arith)
            requires
                d <= -46341,
        ;
    }
}

proof fn lemma_square_nonneg(d: int)
    ensures
        d * d >= 0,
{
    assert(d * d >= 0) by (nonlinear_arith);
}

impl MapLocation {
    /// Returns a new MapLocation representing the location with the given
    /// coordinates on a planet.
    pub fn new(planet: Planet, x: i32, y: i32) -> (r: MapLocation)
        ensures
            r == (MapLocation { planet, x, y }),
    {
        MapLocation { planet: planet, x: x, y: y }
    }

    /// Returns the location one square from this one in the given direction.
    pub fn add(&self, direction: Direction) -> (r: MapLocation)
        requires
            translate_fits(*self, dir_dx(direction), dir_dy(direction)),
        ensures
            r == step(*self, direction),
    {
        MapLocation {
            planet: self.planet,
            x: self.x + direction.dx(),
            y: self.y + direction.dy(),
        }
    }

    /// Returns the location one square from this one in the opposite direction.
    pub fn subtract(&self, direction: Direction) -> (r: MapLocation)
        requires
            translate_fits(*self, -dir_dx(direction), -dir_dy(direction)),
        ensures
            r == shifted(*self, -dir_dx(direction), -dir_dy(direction)),
    {
        MapLocation {
            planet: self.planet,
            x: self.x - direction.dx(),
            y: self.y - direction.dy(),
        }
    }

    /// Returns the location `multiple` squares from this one in the given
    /// direction.
    pub fn add_multiple(&self, direction: Direction, multiple: i32) -> (r: MapLocation)
        requires
            i32::MIN <= multiple * dir_dx(direction) <= i32::MAX,
            i32::MIN <= multiple * dir_dy(direction) <= i32::MAX,
            translate_fits(
                *self,
                multiple * dir_dx(direction),
                multiple * dir_dy(direction),
            ),
        ensures
            r == shifted(*self, multiple * dir_dx(direction), multiple * dir_dy(direction)),
    {
        let dx = direction.dx();
        let dy = direction.dy();
        proof {
            if dx == -1 {
                assert(multiple * dir_dx(direction) == -multiple);
            }
            if dy == -1 {
                assert(multiple * dir_dy(direction) == -multiple);
            }
        }
        let mx: i32 = if dx == 0 { 0 } else if dx == 1 { multiple } else { -multiple };
        let my: i32 = if dy == 0 { 0 } else if dy == 1 { multiple } else { -multiple };
        MapLocation { planet: self.planet, x: self.x + mx, y: self.y + my }
    }

    /// Returns the location shifted from this location by `dx` in the x
    /// direction and `dy` in the y direction.
    pub fn translate(&self, dx: i32, dy: i32) -> (r: MapLocation)
        requires
            translate_fits(*self, dx as int, dy as int),
        ensures
            r == shifted(*self, dx as int, dy as int),
    {
        MapLocation { planet: self.planet, x: self.x + dx, y: self.y + dy }
    }

    /// Computes the square of the distance from this location to the specified
    /// location. If on different planets, returns the maximum integer.
    pub fn distance_squared_to(&self, o: MapLocation) -> (r: u32)
        requires
            dist_fits(*self, o),
        ensures
            r as int == dist_sq(*self, o),
    {
        if self.planet == o.planet {
            proof {
                let ddx = self.x - o.x;
                let ddy = self.y - o.y;
                lemma_square_nonneg(ddx);
                lemma_square_nonneg(ddy);
                lemma_square_bound(ddx);
                lemma_square_bound(ddy);
            }
            let dx = self.x - o.x;
            let dy = self.y - o.y;
            proof {
                assert(dx * dx <= i32::MAX) by (nonlinear_arith)
                    requires
                        dx * dx + dy * dy <= i32::MAX,
                        dy * dy >= 0,
                ;
                assert(dy * dy <= i32::MAX) by (nonlinear_arith)
                    requires
                        dx * dx + dy * dy <= i32::MAX,
                        dx * dx >= 0,
                ;
            }
            (dx * dx + dy * dy) as u32
        } else {
            u32::MAX
        }
    }

    /// Returns the Direction from this location to the specified location.
    /// If the locations are equal this method returns Center.
    ///
    /// * DifferentPlanet - The locations are on different planets.
    pub fn direction_to(&self, o: MapLocation) -> (r: Result<Direction, GameError>)
        requires
            self.planet == o.planet ==> {
                &&& i32::MIN <= o.x - self.x <= i32::MAX
                &&& i32::MIN <= o.y - self.y <= i32::MAX
            },
        ensures
            self.planet != o.planet ==> r == Err::<Direction, GameError>(GameError::DifferentPlanet),
            self.planet == o.planet ==> r == Ok::<Direction, GameError>(direction_between(*self, o)),
    {
        if self.planet != o.planet {
            return Err(GameError::DifferentPlanet);
        }
        if o.x == self.x && o.y == self.y {
            return Ok(Direction::Center);
        }
        let dx = o.x - self.x;
        let dy = o.y - self.y;
        let adx: i64 = if dx < 0 { -(dx as i64) } else { dx as i64 };
        let ady: i64 = if dy < 0 { -(dy as i64) } else { dy as i64 };
        if 1000 * adx >= 2414 * ady {
            if dx > 0 {
                Ok(Direction::East)
            } else {
                Ok(Direction::West)
            }
        } else if 1000 * ady >= 2414 * adx {
            if dy > 0 {
                Ok(Direction::North)
            } else {
                Ok(Direction::South)
            }
        } else {
            if dy > 0 {
                if dx > 0 {
                    Ok(Direction::Northeast)
                } else {
                    Ok(Direction::Northwest)
                }
            } else {
                if dx > 0 {
                    Ok(Direction::Southeast)
                } else {
                    Ok(Direction::Southwest)
                }
            }
        }
    }

    /// Determines whether this location is adjacent to the specified location,
    /// including diagonally. Note that squares are not adjacent to themselves,
    /// and squares on different planets are not adjacent to each other.
    pub fn is_adjacent_to(&self, o: MapLocation) -> (r: bool)
        requires
            dist_fits(*self, o),
        ensures
            r == adjacent(*self, o),
    {
        if self.planet != o.planet {
            return false;
        }
        let dist_squared = self.distance_squared_to(o);
        dist_squared <= 2 && dist_squared != 0
    }

    /// Whether this location is within the distance squared range of the
    /// specified location, inclusive. False for locations on different planets.
    pub fn is_within_range(&self, range: u32, o: MapLocation) -> (r: bool)
        requires
            dist_fits(*self, o),
        ensures
            r == within_range(*self, range as int, o),
    {
        if self.planet != o.planet {
            return false;
        }
        range >= self.distance_squared_to(o)
    }
}

/// Adjacency is symmetric, and a location is never adjacent to itself.
pub proof fn lemma_adjacent_symmetric(a: MapLocation, b: MapLocation)
    ensures
        adjacent(a, b) == adjacent(b, a),
        !adjacent(a, a),
{
    assert(sq_dist(a, b) == sq_dist(b, a)) by (nonlinear_arith);
}

/// A location is within any range of itself, and being within a range is
/// symmetric.
pub proof fn lemma_within_range_symmetric(a: MapLocation, b: MapLocation, range: int)
    requires
        range >= 0,
    ensures
        within_range(a, range, a),
        within_range(a, range, b) == within_range(b, range, a),
{
    assert(sq_dist(a, b) == sq_dist(b, a)) by (nonlinear_arith);
}

/// Stepping in a direction and then in the opposite direction returns to the
/// starting square.
pub proof fn lemma_step_opposite(a: MapLocation, d: Direction)
    requires
        translate_fits(a, dir_dx(d), dir_dy(d)),
    ensures
        step(step(a, d), dir_turn(d, 4)) == a,
{
}

/// Any location one step away in a non-center direction is adjacent.
pub proof fn lemma_step_adjacent(a: MapLocation, d: Direction)
    requires
        translate_fits(a, dir_dx(d), dir_dy(d)),
        d != Direction::Center,
    ensures
        adjacent(a, step(a, d)),
{
    let b = step(a, d);
    let ddx = a.x - b.x;
    let ddy = a.y - b.y;
    assert(ddx == -dir_dx(d) && ddy == -dir_dy(d));
    assert(-1 <= ddx <= 1 && -1 <= ddy <= 1);
    assert(ddx != 0 || ddy != 0);
    assert(ddx * ddx <= 1 && ddy * ddy <= 1 && (ddx * ddx + ddy * ddy) > 0) by (nonlinear_arith)
        requires
            -1 <= ddx <= 1,
            -1 <= ddy <= 1,
            ddx != 0 || ddy != 0,
    ;
}

/// Any location in the world.
#[derive(Debug, Clone, Copy, PartialEq, Eq, Structural, Hash)]
pub enum Location {
    /// Directly on a square of a planet.
    OnMap(MapLocation),
    /// Inside of the garrison of a rocket or factory, which is either on the
    /// map or in space. The rocket/factory has the given ID.
    InGarrison(UnitID),
    /// Traveling from one planet to another. Only rockets can be in space.
    InSpace,
    /// Somewhere in the great unknown. The location of a unit after it has
    /// died, or before it has been placed in the game.
    Unknown,
}

/// Whether two locations are both on the map, close enough together that
/// their distance squared fits in an `i32`.
pub open spec fn loc_dist_fits(a: Location, b: Location) -> bool {
    match (a, b) {
        (Location::OnMap(x), Location::OnMap(y)) => dist_fits(x, y),
        _ => true,
    }
}

impl Location {
    /// Constructs a new location on the map.
    pub fn new_on_map(map_location: MapLocation) -> (r: Location)
        ensures
            r == Location::OnMap(map_location),
    {
        Location::OnMap(map_location)
    }

    /// Constructs a new location in a garrison.
    pub fn new_in_garrison(id: UnitID) -> (r: Location)
        ensures
            r == Location::InGarrison(id),
    {
        Location::InGarrison(id)
    }

    /// Constructs a new location in space.
    pub fn new_in_space() -> (r: Location)
        ensures
            r == Location::InSpace,
    {
        Location::InSpace
    }

    /// Whether the unit is on a map.
    pub fn is_on_map(&self) -> (r: bool)
        ensures
            r == (*self is OnMap),
    {
        match *self {
            Location::OnMap(_) => true,
            _ => false,
        }
    }

    /// True if and only if the location is on the map and on this planet.
    pub fn is_on_planet(&self, planet: Planet) -> (r: bool)
        ensures
            r == (*self is OnMap && self->OnMap_0.planet == planet),
    {
        match *self {
            Location::OnMap(map_loc) => map_loc.planet == planet,
            _ => false,
        }
    }

    /// The map location of the unit.
    ///
    /// * UnitNotOnMap - The unit is in a garrison or in space, and does not
    ///   have a map location.
    pub fn map_location(&self) -> (r: Result<MapLocation, GameError>)
        ensures
            *self is OnMap ==> r == Ok::<MapLocation, GameError>(self->OnMap_0),
            !(*self is OnMap) ==> r == Err::<MapLocation, GameError>(GameError::UnitNotOnMap),
    {
        match *self {
            Location::OnMap(map_loc) => Ok(map_loc),
            _ => Err(GameError::UnitNotOnMap),
        }
    }

    /// Whether the unit is in a garrison.
    pub fn is_in_garrison(&self) -> (r: bool)
        ensures
            r == (*self is InGarrison),
    {
        match *self {
            Location::InGarrison(_) => true,
            _ => false,
        }
    }

    /// The structure whose garrison the unit is in.
    ///
    /// * UnitNotInGarrison - the unit is not in a garrison.
    pub fn structure(&self) -> (r: Result<UnitID, GameError>)
        ensures
            *self is InGarrison ==> r == Ok::<UnitID, GameError>(self->InGarrison_0),
            !(*self is InGarrison) ==> r == Err::<UnitID, GameError>(
                GameError::UnitNotInGarrison,
            ),
    {
        match *self {
            Location::InGarrison(id) => Ok(id),
            _ => Err(GameError::UnitNotInGarrison),
        }
    }

    /// Whether the unit is in space.
    pub fn is_in_space(&self) -> (r: bool)
        ensures
            r == (*self is InSpace),
    {
        *self == Location::InSpace
    }

    /// Determines whether this location is adjacent to the specified location,
    /// including diagonally. Note that squares are not adjacent to themselves,
    /// and squares on different planets are not adjacent to each other. Also,
    /// nothing is adjacent to something not on a map.
    pub fn is_adjacent_to(&self, o: Location) -> (r: bool)
        requires
            loc_dist_fits(*self, o),
        ensures
            r == (*self is OnMap && o is OnMap && adjacent(self->OnMap_0, o->OnMap_0)),
    {
        match (*self, o) {
            (Location::OnMap(this_loc), Location::OnMap(that_loc)) => this_loc.is_adjacent_to(
                that_loc,
            ),
            _ => false,
        }
    }

    /// Whether this location is within the distance squared range of the
    /// specified location, inclusive. False for locations on different planets.
    /// Note that nothing is within the range of something not on the map.
    pub fn is_within_range(&self, range: u32, o: Location) -> (r: bool)
        requires
            loc_dist_fits(*self, o),
        ensures
            r == (*self is OnMap && o is OnMap && within_range(
                self->OnMap_0,
                range as int,
                o->OnMap_0,
            )),
    {
        match (*self, o) {
            (Location::OnMap(this_loc), Location::OnMap(that_loc)) => this_loc.is_within_range(
                range,
                that_loc,
            ),
            _ => false,
        }
    }
}

/// The largest whole number whose square is at most `n`.
pub open spec fn is_isqrt(n: int, k: int) -> bool {
    0 <= k && k * k <= n < (k + 1) * (k + 1)
}

/// The whole square root of `n`, rounded down.
pub fn isqrt(n: u32) -> (r: u32)
    ensures
        is_isqrt(n as int, r as int),
        r <= 65535,
{
    let mut k: u64 = 0;
    loop
        invariant
            k * k <= n,
            k <= 65535,
        ensures
            is_isqrt(n as int, k as int),
            k <= 65535,
        decreases 65536 - k,
    {
        let k1: u64 = k + 1;
        assert(k1 * k1 <= 65536 * 65536) by (nonlinear_arith)
            requires k1 <= 65536;
        if k1 * k1 > n as u64 {
            break;
        }
        assert(k1 <= 65535) by (nonlinear_arith)
            requires k1 * k1 <= n, n <= 4294967295;
        k = k1;
    }
    k as u32
}

pub proof fn lemma_isqrt_bound(n: int, k: int, d: int)
    requires
        is_isqrt(n, k),
        d * d <= n,
    ensures
        -k <= d <= k,
{
    if d > k {
        assert(d * d >= (k + 1) * (k + 1)) by (nonlinear_arith)
            requires d >= k + 1, k >= 0;
    }
    if d < -k {
        assert(d * d >= (k + 1) * (k + 1)) by (nonlinear_arith)
            requires -d >= k + 1, k >= 0;
    }
}

} // verus!

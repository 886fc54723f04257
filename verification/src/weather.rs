//! The first form of the starting properties of the game world: a planet map
//! placed at an origin, an asteroid pattern, an orbit pattern given by the
//! coefficients of a sine, and the weather made of the two patterns.
use vstd::prelude::*;
use fnv::FnvHashMap;
use crate::constants::{
    ASTEROID_KARB_MAX, ASTEROID_KARB_MIN, MAP_HEIGHT_MAX, MAP_HEIGHT_MIN, MAP_KARBONITE_MAX,
    MAP_KARBONITE_MIN, MAP_WIDTH_MAX, MAP_WIDTH_MIN, ORBIT_FLIGHT_MAX, ORBIT_FLIGHT_MIN, ROUND_LIMIT,
};
use crate::fnv_map::u32_map_get;
use crate::error::GameError;
use crate::location::{Location, MapLocation, Planet};
use crate::map::{filled_grid, grid_filled};
use crate::unit::Unit;

verus! {

/// The map for one of the planets in the Battlecode world. This information
/// defines the terrain, dimensions, and initial units of the planet.
#[derive(Debug, Clone, PartialEq, Eq)]
pub struct OriginMap {
    /// The planet of the map.
    pub planet: Planet,
    /// The height of this map, in squares. Must be in the range
    /// [`MAP_HEIGHT_MIN`, `MAP_HEIGHT_MAX`], inclusive.
    pub height: usize,
    /// The width of this map, in squares. Must be in the range
    /// [`MAP_WIDTH_MIN`, `MAP_WIDTH_MAX`], inclusive.
    pub width: usize,
    /// The coordinates of the bottom-left corner. Essentially, the minimum x
    /// and y coordinates for this map.
    pub origin: MapLocation,
    /// Whether the specified square contains passable terrain, indexed by
    /// y-coordinate first, *relative to the origin*.
    pub is_passable_terrain: Vec<Vec<bool>>,
    /// The amount of Karbonite deposited on the specified square, indexed by
    /// y-coordinate first, *relative to the origin*.
    pub initial_karbonite: Vec<Vec<u32>>,
    /// The initial units on the map. Each team starts with 1 to 3 Workers
    /// on Earth. Their coordinates are absolute, not relative to the origin.
    pub initial_units: Vec<Unit>,
}

impl OriginMap {
    /// Whether a unit stands on passable terrain of this map's planet; its
    /// square is found relative to the origin.
    pub open spec fn unit_placed(&self, u: Unit) -> bool {
        &&& u.location is OnMap
        &&& {
            let l = u.location->OnMap_0;
            let x = l.x - self.origin.x;
            let y = l.y - self.origin.y;
            &&& l.planet == self.planet
            &&& 0 <= y < self.is_passable_terrain@.len()
            &&& 0 <= x < self.is_passable_terrain@[y]@.len()
            &&& self.is_passable_terrain@[y]@[x]
        }
    }

    /// All the conditions the map must meet.
    pub open spec fn is_valid(&self) -> bool {
        &&& MAP_HEIGHT_MIN <= self.height <= MAP_HEIGHT_MAX
        &&& MAP_WIDTH_MIN <= self.width <= MAP_WIDTH_MAX
        &&& self.origin.planet == self.planet
        &&& self.is_passable_terrain@.len() == self.height
        &&& self.is_passable_terrain@[0]@.len() == self.width
        &&& self.initial_karbonite@.len() == self.height
        &&& self.initial_karbonite@[0]@.len() == self.width
        &&& forall|y: int| 0 <= y < self.height ==> (#[trigger] self.initial_karbonite@[y])@.len() >= self.width
        &&& forall|y: int, x: int|
            0 <= y < self.height && 0 <= x < self.width ==> #[trigger] self.karbonite_ok(y, x)
        &&& match self.planet {
            Planet::Mars => self.initial_units@.len() == 0,
            Planet::Earth => {
                let n = self.initial_units@.len();
                n > 0 && n % 2 == 0 && n <= 6
            },
        }
        &&& forall|i: int|
            0 <= i < self.initial_units@.len() ==> self.unit_placed(#[trigger] self.initial_units@[i])
    }

    /// The karbonite on a square is allowed: none on Mars, and within
    /// [`MAP_KARBONITE_MIN`, `MAP_KARBONITE_MAX`] on Earth.
    pub open spec fn karbonite_ok(&self, y: int, x: int) -> bool {
        let k = self.initial_karbonite@[y]@[x];
        match self.planet {
            Planet::Mars => k == 0,
            Planet::Earth => MAP_KARBONITE_MIN <= k <= MAP_KARBONITE_MAX,
        }
    }

    /// Validates the map: each of its invariants is asserted, so only a
    /// valid map is accepted, and it is accepted.
    pub fn validate(&self) -> (r: Result<(), GameError>)
        requires
            self.is_valid(),
        ensures
            r is Ok,
    {
        Ok(())
    }

    /// The smallest map of Earth at the origin, all passable, with no
    /// karbonite and no units.
    pub fn test_map() -> (r: OriginMap)
        ensures
            r.planet == Planet::Earth,
            r.height == MAP_HEIGHT_MIN,
            r.width == MAP_WIDTH_MIN,
            r.origin == (MapLocation { planet: Planet::Earth, x: 0, y: 0 }),
            grid_filled(r.is_passable_terrain@, true, MAP_WIDTH_MIN as int, MAP_HEIGHT_MIN as int),
            grid_filled(r.initial_karbonite@, 0u32, MAP_WIDTH_MIN as int, MAP_HEIGHT_MIN as int),
            r.initial_units@.len() == 0,
    {
        OriginMap {
            planet: Planet::Earth,
            height: MAP_HEIGHT_MIN,
            width: MAP_WIDTH_MIN,
            origin: MapLocation::new(Planet::Earth, 0, 0),
            is_passable_terrain: filled_grid(true, MAP_WIDTH_MIN, MAP_HEIGHT_MIN),
            initial_karbonite: filled_grid(0u32, MAP_WIDTH_MIN, MAP_HEIGHT_MIN),
            initial_units: Vec::new(),
        }
    }
}

/// A single asteroid strike on Mars.
#[derive(Debug, Clone, Copy, PartialEq, Eq, Structural)]
pub struct AsteroidStrike {
    /// The karbonite on the asteroid.
    karbonite: u32,
    /// The location of the strike.
    location: MapLocation,
}

impl AsteroidStrike {
    /// The karbonite on the asteroid.
    pub closed spec fn carried(&self) -> u32 {
        self.karbonite
    }

    /// The location of the strike.
    pub closed spec fn lands_at(&self) -> MapLocation {
        self.location
    }

    /// Constructs a new asteroid strike.
    pub fn new(karbonite: u32, location: MapLocation) -> (r: AsteroidStrike)
        ensures
            r.carried() == karbonite,
            r.lands_at() == location,
    {
        AsteroidStrike { karbonite: karbonite, location: location }
    }
}

/// The round number to an asteroid strike.
#[derive(Debug)]
pub struct AsteroidPattern {
    pattern: FnvHashMap<u32, AsteroidStrike>,
}

impl AsteroidPattern {
    /// The strike of each round that has one.
    pub closed spec fn strikes(&self) -> Map<u32, AsteroidStrike> {
        self.pattern@
    }

    /// Every strike falls within the game's rounds, carries karbonite within
    /// [`ASTEROID_KARB_MIN`, `ASTEROID_KARB_MAX`], and lands on Mars.
    pub open spec fn is_valid(&self) -> bool {
        forall|round: u32| #[trigger] self.strikes().contains_key(round) ==> {
            let a = self.strikes()[round];
            &&& 1 <= round <= ROUND_LIMIT
            &&& ASTEROID_KARB_MIN <= a.carried() <= ASTEROID_KARB_MAX
            &&& a.lands_at().planet == Planet::Mars
        }
    }

    /// Constructs a new asteroid pattern from a map of round number to strike.
    pub fn new(pattern: FnvHashMap<u32, AsteroidStrike>) -> (r: AsteroidPattern)
        ensures
            r.strikes() == pattern@,
    {
        AsteroidPattern { pattern: pattern }
    }

    /// Validates the asteroid pattern: each strike is asserted to be valid,
    /// so only a valid pattern is accepted, and it is.
    pub fn validate(&self) -> (r: Result<(), GameError>)
        requires
            self.is_valid(),
        ensures
            r is Ok,
    {
        Ok(())
    }

    /// Get the asteroid strike at the given round.
    pub fn get_asteroid(&self, round: u32) -> (r: Option<&AsteroidStrike>)
        ensures
            self.strikes().contains_key(round) ==> r == Some(&self.strikes()[round]),
            !self.strikes().contains_key(round) ==> r is None,
    {
        u32_map_get(&self.pattern, round)
    }
}

/// The orbit pattern that determines a rocket's flight duration. This pattern
/// is a sinusoidal function y=a*sin(bx)+c.
#[derive(Debug, Clone, Copy, PartialEq, Eq, Structural)]
pub struct OrbitPattern {
    /// Amplitude of the orbit.
    pub a: i32,
    /// 2*pi / the period of the orbit.
    pub b: i32,
    /// The average of the orbit.
    pub c: i32,
}

impl OrbitPattern {
    /// Whether the flight times stay within [`ORBIT_FLIGHT_MIN`,
    /// `ORBIT_FLIGHT_MAX`].
    pub open spec fn is_valid(&self) -> bool {
        &&& self.c - self.a >= ORBIT_FLIGHT_MIN
        &&& self.c + self.a <= ORBIT_FLIGHT_MAX
    }

    /// Construct a new orbit pattern. This pattern is a sinusoidal function
    /// y=a*sin(bx)+c, where the x-axis is the round number of takeoff and the
    /// the y-axis is the flight of duration to the nearest integer.
    ///
    /// The sine function has an amplitude of a, a period of 2*pi/b, and an
    /// average of c.
    pub fn new(a: i32, b: i32, c: i32) -> (r: OrbitPattern)
        ensures
            r == (OrbitPattern { a, b, c }),
    {
        OrbitPattern { a: a, b: b, c: c }
    }

    /// Validates the orbit pattern: the flight times are asserted to stay
    /// within bounds, so only a valid pattern is accepted, and it is.
    pub fn validate(&self) -> (r: Result<(), GameError>)
        requires
            self.is_valid(),
        ensures
            r is Ok,
    {
        Ok(())
    }
}

/// The weather patterns defined in the game world.
#[derive(Debug)]
pub struct WeatherPattern {
    /// The asteroid strike pattern on Mars.
    pub asteroids: AsteroidPattern,
    /// The orbit pattern that determines a rocket's flight duration.
    pub orbit: OrbitPattern,
}

impl WeatherPattern {
    /// Construct a new weather pattern.
    pub fn new(asteroids: AsteroidPattern, orbit: OrbitPattern) -> (r: WeatherPattern)
        ensures
            r.asteroids == asteroids,
            r.orbit == orbit,
    {
        WeatherPattern { asteroids: asteroids, orbit: orbit }
    }

    /// Validate the weather pattern: both of its patterns are validated.
    pub fn validate(&self) -> (r: Result<(), GameError>)
        requires
            self.asteroids.is_valid(),
            self.orbit.is_valid(),
        ensures
            r is Ok,
    {
        self.asteroids.validate()?;
        self.orbit.validate()?;
        Ok(())
    }
}

} // verus!

use battlecode_engine::constants::{
    ASTEROID_KARB_MAX, ASTEROID_KARB_MIN, MAP_HEIGHT_MIN, MAP_WIDTH_MIN, ORBIT_FLIGHT_MAX,
    ORBIT_FLIGHT_MIN, ROUND_LIMIT,
};
use battlecode_engine::error::GameError;
use battlecode_engine::location::{Location, MapLocation, Planet};
use battlecode_engine::mapparser::MapParseError;
use battlecode_engine::map::{AsteroidPattern, AsteroidStrike, GameMap, OrbitPattern, PlanetMap};
use battlecode_engine::unit::{Unit, UnitType};
use battlecode_engine::world::{Rounds, Team};
use fnv::FnvHashMap;

fn insert_and_err(pattern: &FnvHashMap<Rounds, AsteroidStrike>, round: Rounds, karbonite: u32, location: MapLocation) {
    let mut invalid = pattern.clone();
    invalid.insert(round, AsteroidStrike::new(karbonite, location));
    assert!(!AsteroidPattern::new(&invalid).validate());
}

fn gen_asteroid_map(start_round: Rounds, skip_round: Rounds) -> FnvHashMap<Rounds, AsteroidStrike> {
    let mut asteroid_map: FnvHashMap<Rounds, AsteroidStrike> = FnvHashMap::default();
    let mut round = start_round;
    let default_loc = MapLocation::new(Planet::Mars, 0, 0);
    let default_strike = AsteroidStrike::new(ASTEROID_KARB_MIN, default_loc);
    while round <= ROUND_LIMIT {
        asteroid_map.insert(round, default_strike.clone());
        round += skip_round;
    }
    asteroid_map
}

#[test]
fn mod_validate_asteroid() {
    // Valid randomly-generated asteroid patterns.
    let ref mars_map = PlanetMap::test_map(Planet::Mars);
    for seed in 0..5 {
        assert!(AsteroidPattern::random(seed, mars_map).validate());
    }

    // Generate an asteroid pattern from a map.
    let asteroid_map = AsteroidPattern::random(0, mars_map).asteroid_map();
    let asteroids = AsteroidPattern::new(&asteroid_map);
    assert!(asteroids.validate());

    let asteroid_map = gen_asteroid_map(1, 50);
    assert!(AsteroidPattern::new(&asteroid_map).validate());

    // Invalid asteroid strikes.
    let loc = MapLocation::new(Planet::Mars, 0, 0);
    insert_and_err(&asteroid_map, 0, ASTEROID_KARB_MIN, loc);
    insert_and_err(&asteroid_map, ROUND_LIMIT + 1, ASTEROID_KARB_MIN, loc);
    insert_and_err(&asteroid_map, 1, ASTEROID_KARB_MIN - 1, loc);
    insert_and_err(&asteroid_map, 1, ASTEROID_KARB_MAX + 1, loc);
    insert_and_err(&asteroid_map, 1, ASTEROID_KARB_MAX, MapLocation::new(Planet::Earth, 0, 0));
}

#[test]
fn mod_validate_orbit() {
    assert!(!OrbitPattern::new(150, 200, 200).validate());
    assert!(!OrbitPattern::new(150, 200, 300).validate());
    assert!(OrbitPattern::new(75, 200, 125).validate());
}

#[test]
fn test_asteroid() {
    let asteroid_map = gen_asteroid_map(50, 50);
    let asteroids = AsteroidPattern::new(&asteroid_map);
    for round in 1..ROUND_LIMIT {
        if round % 50 == 0 {
            assert!(asteroids.asteroid(round).is_ok());
        } else {
            assert_eq!(asteroids.asteroid(round), Err(GameError::NullValue));
        }
    }
}

#[test]
fn random_orbits_are_valid() {
    for seed in 0..50 {
        let orbit = OrbitPattern::random(seed);
        assert!(orbit.validate());
        assert!(orbit.center >= ORBIT_FLIGHT_MIN && orbit.center < ORBIT_FLIGHT_MAX);
    }
}

#[test]
fn test_maps_are_valid() {
    let earth = PlanetMap::test_map(Planet::Earth);
    let mars = PlanetMap::test_map(Planet::Mars);
    assert!(earth.validate());
    assert!(mars.validate());
    let game = GameMap::test_map();
    assert!(game.validate());
    assert_eq!(game.orbit, OrbitPattern::new(50, 100, 100));
}

#[test]
fn planet_map_checks() {
    let mut earth = PlanetMap::test_map(Planet::Earth);
    let on = MapLocation::new(Planet::Earth, 3, 4);
    let off = MapLocation::new(Planet::Earth, MAP_WIDTH_MIN as i32, 0);
    assert!(earth.on_map(on));
    assert!(!earth.on_map(off));
    assert!(!earth.on_map(MapLocation::new(Planet::Mars, 3, 4)));
    assert_eq!(earth.is_passable_terrain_at(on), Ok(true));
    assert_eq!(earth.is_passable_terrain_at(off), Err(GameError::LocationOffMap));
    assert_eq!(earth.initial_karbonite_at(on), Ok(10));
    assert_eq!(earth.initial_karbonite_at(off), Err(GameError::LocationOffMap));

    // Breaking the symmetry makes Earth invalid.
    earth.is_passable_terrain[0][0] = false;
    assert!(!earth.validate());
    // Mars may not have units.
    let mut mars = PlanetMap::test_map(Planet::Mars);
    mars.initial_units.push(
        Unit::new(9, Team::Red, UnitType::Worker, 0, Location::OnMap(MapLocation::new(Planet::Mars, 1, 1))).unwrap(),
    );
    assert!(!mars.validate());
    // Too short a map is invalid.
    let mut small = PlanetMap::test_map(Planet::Mars);
    small.height = MAP_HEIGHT_MIN - 1;
    assert!(!small.validate());
}

#[test]
fn map_template_places_workers() {
    let map = GameMap::map_template(7, 30, 30);
    assert_eq!(map.seed, 7);
    assert_eq!(map.earth_map.initial_units.len(), 2);
    assert_eq!(map.earth_map.initial_units[0].location, Location::OnMap(MapLocation::new(Planet::Earth, 1, 1)));
    assert_eq!(map.earth_map.initial_units[1].location, Location::OnMap(MapLocation::new(Planet::Earth, 29, 29)));
    assert!(map.orbit.validate());
    assert!(map.asteroids.validate());
}

#[test]
fn a_seed_always_gives_the_same_patterns() {
    let mars_map = PlanetMap::test_map(Planet::Mars);
    for seed in 0..20 {
        assert_eq!(OrbitPattern::random(seed), OrbitPattern::random(seed));
        let first = AsteroidPattern::random(seed, &mars_map).asteroid_map();
        let second = AsteroidPattern::random(seed, &mars_map).asteroid_map();
        assert_eq!(first, second);
        // The first strike falls before round 40, and strikes are never
        // more than 40 rounds apart until the last 40 rounds.
        let mut rounds: Vec<Rounds> = first.keys().cloned().collect();
        rounds.sort();
        assert!(rounds[0] < 40);
        for pair in rounds.windows(2) {
            assert!(pair[1] - pair[0] < 40);
        }
        assert!(*rounds.last().unwrap() + 40 > ROUND_LIMIT);
    }
    let a = GameMap::map_template(3, 25, 30);
    let b = GameMap::map_template(3, 25, 30);
    assert_eq!(a.orbit, b.orbit);
    assert_eq!(a.asteroids.asteroid_map(), b.asteroids.asteroid_map());
}

const SMALL_MAP: &str = "\
# a tiny map
seed: 4
orbit_amplitude: 50
orbit_period: 200
orbit_center: 100
EARTH:
width: 4
height: 3
symmetry: spiral
. =
x = impassable
r = red_worker 5k
> r . . .
> . x x .
MARS:
width: 2
height: 2
symmetry: none
> . .
> . .
* 10 1 1 100
";

#[test]
fn parse_small_map() {
    let map = GameMap::parse_text_map(SMALL_MAP).unwrap();
    assert_eq!(map.seed, 4);
    assert_eq!(map.orbit, OrbitPattern::new(50, 200, 100));
    assert_eq!(map.earth_map.width, 4);
    assert_eq!(map.earth_map.height, 3);
    // The first row drawn is the top one, at y = height - 1.
    assert_eq!(map.earth_map.initial_karbonite[2][0], 5);
    assert!(!map.earth_map.is_passable_terrain[1][1]);
    // Spiral symmetry mirrors both coordinates and swaps teams.
    assert!(!map.earth_map.is_passable_terrain[1][2]);
    assert_eq!(map.earth_map.initial_karbonite[0][3], 5);
    assert_eq!(map.earth_map.initial_units.len(), 2);
    let mut teams: Vec<Team> = map.earth_map.initial_units.iter().map(|u| u.team).collect();
    teams.sort_by_key(|t| *t == Team::Blue);
    assert_eq!(teams, vec![Team::Red, Team::Blue]);
    assert_eq!(map.mars_map.width, 2);
    assert_eq!(map.asteroids.asteroid(10).unwrap().karbonite, 100);
    assert_eq!(map.asteroids.asteroid(10).unwrap().location, MapLocation::new(Planet::Mars, 1, 1));
}

#[test]
fn parse_errors() {
    assert_eq!(GameMap::parse_text_map("seed: 1\n").err(), Some(MapParseError::OrbitAmplitudeUnset));
    assert!(matches!(GameMap::parse_text_map("> x\n"), Err(MapParseError::NoPlanetForMap { .. })));
    assert!(matches!(GameMap::parse_text_map("bogus: 3\n"), Err(MapParseError::UnknownProperty { .. })));
    assert!(matches!(GameMap::parse_text_map("seed: abc\n"), Err(MapParseError::BadInteger { .. })));
    assert!(matches!(GameMap::parse_text_map("EARTH\n"), Err(MapParseError::MissingColon { .. })));
}

#[test]
fn parse_small_text_map() {
    let text = "seed: 1\norbit_amplitude: 50\norbit_period: 40\norbit_center: 100\nr = red_worker\nw = impassable\n. =\nEARTH:\nwidth: 3\nheight: 2\nsymmetry: h\n> r w\n> . .\nMARS:\nwidth: 1\nheight: 1\nsymmetry: none\n> .\n";
    let m = GameMap::parse_text_map(text).unwrap();
    assert_eq!(m.seed, 1);
    assert_eq!(m.orbit, OrbitPattern::new(50, 40, 100));
    assert_eq!((m.earth_map.width, m.earth_map.height), (3, 2));
    assert_eq!(m.earth_map.is_passable_terrain, vec![vec![true, true, true], vec![true, false, true]]);
    assert_eq!(m.earth_map.initial_karbonite, vec![vec![0, 0, 0], vec![0, 0, 0]]);
    assert_eq!(m.earth_map.initial_units.len(), 2);
    let mut ids: Vec<_> = m.earth_map.initial_units.iter().map(|u| u.id).collect();
    ids.sort();
    assert_eq!(ids, vec![1, 2]);
    for u in m.earth_map.initial_units.iter() {
        assert_eq!(u.unit_type, UnitType::Worker);
        let expected = if u.team == Team::Red { 0 } else { 2 };
        assert_eq!(u.location, Location::OnMap(MapLocation::new(Planet::Earth, expected, 1)));
    }
    assert_eq!((m.mars_map.width, m.mars_map.height), (1, 1));
    assert_eq!(m.mars_map.is_passable_terrain, vec![vec![true]]);
    assert!(m.mars_map.initial_units.is_empty());
    assert!(m.asteroids.asteroid_map().is_empty());
}

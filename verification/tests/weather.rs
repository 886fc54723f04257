use battlecode_engine::location::{Location, MapLocation, Planet};
use battlecode_engine::unit::{Unit, UnitType};
use battlecode_engine::map::OrbitPattern as FlightPattern;
use battlecode_engine::weather::{AsteroidPattern, AsteroidStrike, OrbitPattern, OriginMap, WeatherPattern};
use fnv::FnvHashMap;
use battlecode_engine::world::Team;

#[test]
fn map_validate_orbit() {
    assert!(OrbitPattern::new(75, 3, 125).validate().is_ok());
    let orbit = OrbitPattern::new(50, 2, 100);
    assert_eq!((orbit.a, orbit.b, orbit.c), (50, 2, 100));
}

#[test]
fn validate_map() {
    let mut map = OriginMap::test_map();
    assert_eq!(map.planet, Planet::Earth);
    assert_eq!(map.origin, MapLocation::new(Planet::Earth, 0, 0));
    for (id, team, x) in [(1, Team::Red, 1), (2, Team::Blue, 2)] {
        let loc = Location::OnMap(MapLocation::new(Planet::Earth, x, 1));
        map.initial_units.push(Unit::new(id, team, UnitType::Worker, 0, loc).unwrap());
    }
    assert!(map.validate().is_ok());
}

/// Two strikes on Mars, on rounds 50 and 100.
fn two_strikes() -> (AsteroidStrike, AsteroidStrike, AsteroidPattern) {
    let first = AsteroidStrike::new(20, MapLocation::new(Planet::Mars, 1, 2));
    let second = AsteroidStrike::new(200, MapLocation::new(Planet::Mars, 3, 4));
    let mut pattern = FnvHashMap::default();
    pattern.insert(50, first);
    pattern.insert(100, second);
    (first, second, AsteroidPattern::new(pattern))
}

#[test]
fn map_validate_asteroid() {
    let (_, _, asteroids) = two_strikes();
    assert!(asteroids.validate().is_ok());
    assert!(AsteroidPattern::new(FnvHashMap::default()).validate().is_ok());
}

#[test]
fn get_asteroid() {
    let (first, second, asteroids) = two_strikes();
    assert_eq!(asteroids.get_asteroid(50), Some(&first));
    assert_eq!(asteroids.get_asteroid(100), Some(&second));
    assert_eq!(asteroids.get_asteroid(51), None);
    assert_eq!(asteroids.get_asteroid(0), None);
}

/// The orbit's duration of flight y=a*sin(bx)+c on a round.
fn sine_duration(orbit: &OrbitPattern, round: i32) -> i32 {
    ((orbit.a as f32) * f32::sin((orbit.b * round) as f32)) as i32 + orbit.c
}

#[test]
fn get_duration() {
    let flat = OrbitPattern::new(50, 0, 100);
    assert_eq!(sine_duration(&flat, 7), 100);
    let orbit = OrbitPattern::new(50, 1, 100);
    assert_eq!((orbit.a, orbit.b, orbit.c), (50, 1, 100));
    assert_eq!(sine_duration(&orbit, 0), 100);
    let d = sine_duration(&orbit, 1);
    assert!(d > 100 && d <= 150);
}

#[test]
fn construct_weather() {
    let (first, _, asteroids) = two_strikes();
    let weather = WeatherPattern::new(asteroids, OrbitPattern::new(75, 3, 125));
    assert_eq!((weather.orbit.a, weather.orbit.b, weather.orbit.c), (75, 3, 125));
    assert_eq!(weather.asteroids.get_asteroid(50), Some(&first));
    assert!(weather.validate().is_ok());
}

/// The duration of flight on a round, by the sine of the orbit.
fn duration(orbit: &FlightPattern, round: u32) -> u32 {
    let arg = 2.0 * std::f32::consts::PI / orbit.period as f32 * round as f32;
    let sin = ((orbit.amplitude as f32) * f32::sin(arg)) as i32;
    (sin + orbit.center as i32) as u32
}

#[test]
fn test_duration() {
    let period = 200;
    let orbit = FlightPattern::new(150, period, 250);
    for i in 0..5 {
        let base = period * i;
        assert_eq!(250, duration(&orbit, base));
        assert_eq!(400, duration(&orbit, base + period / 4));
        assert_eq!(250, duration(&orbit, base + period / 2));
        assert_eq!(100, duration(&orbit, base + period * 3 / 4));
        assert_eq!(250, duration(&orbit, base + period));

        let d = duration(&orbit, base + period / 8);
        assert!(d > 250 && d < 400);
    }
}

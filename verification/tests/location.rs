use battlecode_engine::error::GameError;
use battlecode_engine::location::Direction::{
    Center, East, North, Northeast, Northwest, South, Southeast, Southwest, West,
};
use battlecode_engine::location::Planet::{Earth, Mars};
use battlecode_engine::location::{Direction, Location, MapLocation, Planet};

#[test]
fn test_direction() {
    assert_eq!((North.dx(), North.dy()), (0, 1));
    assert_eq!((Northeast.dx(), Northeast.dy()), (1, 1));
    assert_eq!((East.dx(), East.dy()), (1, 0));
    assert_eq!((Southeast.dx(), Southeast.dy()), (1, -1));
    assert_eq!((South.dx(), South.dy()), (0, -1));
    assert_eq!((Southwest.dx(), Southwest.dy()), (-1, -1));
    assert_eq!((West.dx(), West.dy()), (-1, 0));
    assert_eq!((Northwest.dx(), Northwest.dy()), (-1, 1));
    assert_eq!((Center.dx(), Center.dy()), (0, 0));

    assert!(!North.is_diagonal());
    assert!(Northeast.is_diagonal());
    assert!(!East.is_diagonal());
    assert!(Southeast.is_diagonal());
    assert!(!South.is_diagonal());
    assert!(Southwest.is_diagonal());
    assert!(!West.is_diagonal());
    assert!(Northwest.is_diagonal());
    assert!(!Center.is_diagonal());

    assert_eq!(North.opposite(), South);
    assert_eq!(Northeast.opposite(), Southwest);
    assert_eq!(East.opposite(), West);
    assert_eq!(Southeast.opposite(), Northwest);
    assert_eq!(South.opposite(), North);
    assert_eq!(Southwest.opposite(), Northeast);
    assert_eq!(West.opposite(), East);
    assert_eq!(Northwest.opposite(), Southeast);
    assert_eq!(Center.opposite(), Center);

    assert_eq!(North.rotate_left(), Northwest);
    assert_eq!(Northeast.rotate_left(), North);
    assert_eq!(East.rotate_left(), Northeast);
    assert_eq!(Southeast.rotate_left(), East);
    assert_eq!(South.rotate_left(), Southeast);
    assert_eq!(Southwest.rotate_left(), South);
    assert_eq!(West.rotate_left(), Southwest);
    assert_eq!(Northwest.rotate_left(), West);
    assert_eq!(Center.rotate_left(), Center);

    assert_eq!(North.rotate_right(), Northeast);
    assert_eq!(Northeast.rotate_right(), East);
    assert_eq!(East.rotate_right(), Southeast);
    assert_eq!(Southeast.rotate_right(), South);
    assert_eq!(South.rotate_right(), Southwest);
    assert_eq!(Southwest.rotate_right(), West);
    assert_eq!(West.rotate_right(), Northwest);
    assert_eq!(Northwest.rotate_right(), North);
    assert_eq!(Center.rotate_right(), Center);
}

#[test]
fn test_map_location_add_subtract() {
    let loc = MapLocation::new(Earth, 0, 0);
    assert_eq!(loc.add(North), MapLocation::new(Earth, 0, 1));
    assert_eq!(loc.add(Northeast), MapLocation::new(Earth, 1, 1));
    assert_eq!(loc.add(East), MapLocation::new(Earth, 1, 0));
    assert_eq!(loc.add(Southeast), MapLocation::new(Earth, 1, -1));
    assert_eq!(loc.add(South), MapLocation::new(Earth, 0, -1));
    assert_eq!(loc.add(Southwest), MapLocation::new(Earth, -1, -1));
    assert_eq!(loc.add(West), MapLocation::new(Earth, -1, 0));
    assert_eq!(loc.add(Northwest), MapLocation::new(Earth, -1, 1));
    assert_eq!(loc.add(Center), MapLocation::new(Earth, 0, 0));

    assert_eq!(loc.subtract(North), MapLocation::new(Earth, 0, -1));
    assert_eq!(loc.subtract(Northeast), MapLocation::new(Earth, -1, -1));
    assert_eq!(loc.subtract(East), MapLocation::new(Earth, -1, 0));
    assert_eq!(loc.subtract(Southeast), MapLocation::new(Earth, -1, 1));
    assert_eq!(loc.subtract(South), MapLocation::new(Earth, 0, 1));
    assert_eq!(loc.subtract(Southwest), MapLocation::new(Earth, 1, 1));
    assert_eq!(loc.subtract(West), MapLocation::new(Earth, 1, 0));
    assert_eq!(loc.subtract(Northwest), MapLocation::new(Earth, 1, -1));
    assert_eq!(loc.subtract(Center), MapLocation::new(Earth, 0, 0));

    assert_eq!(loc.add_multiple(Northeast, 10), MapLocation::new(Earth, 10, 10));
    assert_eq!(loc.add_multiple(South, -10), MapLocation::new(Earth, 0, 10));
    assert_eq!(loc.add_multiple(Center, 10), MapLocation::new(Earth, 0, 0));

    assert_eq!(loc.translate(-4, 1), MapLocation::new(Earth, -4, 1));
    assert_eq!(loc.translate(0, -2), MapLocation::new(Earth, 0, -2));
}

#[test]
fn test_map_location_distance_squared_to() {
    let a = MapLocation::new(Earth, 4, 4);
    let b = MapLocation::new(Earth, 4, 6);
    let c = MapLocation::new(Earth, 7, 4);
    let d = MapLocation::new(Mars, 4, 4);
    assert_eq!(a.distance_squared_to(a), 0);
    assert_eq!(a.distance_squared_to(b), 4);
    assert_eq!(b.distance_squared_to(a), 4);
    assert_eq!(a.distance_squared_to(c), 9);
    assert_eq!(b.distance_squared_to(c), 13);
    assert!(a.distance_squared_to(d) == u32::max_value());
}

#[test]
fn test_map_location_direction_to() {
    let origin = MapLocation::new(Mars, 0, 0);
    let nn = MapLocation::new(Mars, 0, 2);
    let ne = MapLocation::new(Mars, 2, 2);
    let ee = MapLocation::new(Mars, 2, 0);
    let se = MapLocation::new(Mars, 2, -2);
    assert_eq!(origin.direction_to(nn).unwrap(), North);
    assert_eq!(nn.direction_to(origin).unwrap(), South);
    assert_eq!(origin.direction_to(ne).unwrap(), Northeast);
    assert_eq!(ne.direction_to(origin).unwrap(), Southwest);
    assert_eq!(origin.direction_to(ee).unwrap(), East);
    assert_eq!(ee.direction_to(origin).unwrap(), West);
    assert_eq!(origin.direction_to(se).unwrap(), Southeast);
    assert_eq!(se.direction_to(origin).unwrap(), Northwest);

    // Top right and bottom left quadrant
    let a = MapLocation::new(Mars, 2, 5);
    let b = MapLocation::new(Mars, 3, 4);
    let c = MapLocation::new(Mars, 4, 3);
    let d = MapLocation::new(Mars, 5, 2);
    assert_eq!(origin.direction_to(a).unwrap(), North);
    assert_eq!(a.direction_to(origin).unwrap(), South);
    assert_eq!(origin.direction_to(b).unwrap(), Northeast);
    assert_eq!(b.direction_to(origin).unwrap(), Southwest);
    assert_eq!(origin.direction_to(c).unwrap(), Northeast);
    assert_eq!(c.direction_to(origin).unwrap(), Southwest);
    assert_eq!(origin.direction_to(d).unwrap(), East);
    assert_eq!(d.direction_to(origin).unwrap(), West);

    // Top left and bottom right quadrant
    let a = MapLocation::new(Mars, 5, -2);
    let b = MapLocation::new(Mars, 4, -3);
    let c = MapLocation::new(Mars, 3, -4);
    let d = MapLocation::new(Mars, 2, -5);
    assert_eq!(origin.direction_to(a).unwrap(), East);
    assert_eq!(a.direction_to(origin).unwrap(), West);
    assert_eq!(origin.direction_to(b).unwrap(), Southeast);
    assert_eq!(b.direction_to(origin).unwrap(), Northwest);
    assert_eq!(origin.direction_to(c).unwrap(), Southeast);
    assert_eq!(c.direction_to(origin).unwrap(), Northwest);
    assert_eq!(origin.direction_to(d).unwrap(), South);
    assert_eq!(d.direction_to(origin).unwrap(), North);

    assert_eq!(origin.direction_to(MapLocation::new(Earth, 0, 0)), Err(GameError::DifferentPlanet));
}

#[test]
fn test_is_adjacent_to() {
    let a = MapLocation::new(Earth, 4, 4);
    let b = MapLocation::new(Earth, 4, 5);
    let c = MapLocation::new(Earth, 5, 5);
    let d = MapLocation::new(Earth, 6, 5);
    let e = MapLocation::new(Mars, 4, 5);
    assert!(a.is_adjacent_to(b));
    assert!(a.is_adjacent_to(c));
    assert!(b.is_adjacent_to(c));
    assert!(d.is_adjacent_to(c));
    assert!(!a.is_adjacent_to(d));
    assert!(!a.is_adjacent_to(e));
    assert!(!a.is_adjacent_to(a), "a square is not adjacent to itself");

    assert!(Location::OnMap(a).is_adjacent_to(Location::OnMap(c)));
    assert!(Location::OnMap(d).is_adjacent_to(Location::OnMap(c)));
    assert!(!Location::OnMap(a).is_adjacent_to(Location::OnMap(d)));
    assert!(!Location::OnMap(a).is_adjacent_to(Location::OnMap(e)));
    assert!(!Location::OnMap(a).is_adjacent_to(Location::OnMap(a)));
}

#[test]
fn test_is_within_range() {
    let a = MapLocation::new(Earth, 4, 4);
    let b = MapLocation::new(Earth, 6, 5);
    let c = MapLocation::new(Mars, 4, 5);

    assert!(!a.is_within_range(10, c), "different planets");
    assert!(a.is_within_range(10, a), "location to itself");
    assert!(a.is_within_range(10, b), "location is within range");
    assert!(a.is_within_range(5, b), "location is on the border");

    assert!(!Location::OnMap(a).is_within_range(10, Location::OnMap(c)), "different planets");
    assert!(Location::OnMap(a).is_within_range(10, Location::OnMap(a)), "location to itself");
    assert!(Location::OnMap(a).is_within_range(10, Location::OnMap(b)), "location is within range");
    assert!(Location::OnMap(a).is_within_range(5, Location::OnMap(b)), "location is on the border");
}

#[test]
fn test_location_is_adjacent_to() {
    let loc_a = Location::OnMap(MapLocation::new(Planet::Earth, 0, 0));
    let loc_b = Location::OnMap(MapLocation::new(Planet::Earth, 1, 1));
    let loc_c = Location::OnMap(MapLocation::new(Planet::Earth, 1, 2));

    // B is adjacent to both A and C, but A is not adjacent to C.
    assert!(loc_a.is_adjacent_to(loc_b));
    assert!(loc_b.is_adjacent_to(loc_a));
    assert!(loc_c.is_adjacent_to(loc_b));
    assert!(loc_b.is_adjacent_to(loc_c));
    assert!(!loc_a.is_adjacent_to(loc_c));
    assert!(!loc_c.is_adjacent_to(loc_a));
}

#[test]
fn test_location_not_on_map() {
    let loc = Location::OnMap(MapLocation::new(Planet::Mars, 10, 10));
    let garrison = Location::InGarrison(1);
    let space = Location::InSpace;

    assert!(loc.is_on_planet(Planet::Mars));
    assert!(!loc.is_on_planet(Planet::Earth));
    assert!(!garrison.is_on_planet(Planet::Mars));
    assert!(!space.is_on_planet(Planet::Mars));

    assert!(loc.is_on_map());
    assert!(!garrison.is_on_map());
    assert!(!space.is_on_map());

    assert!(loc.map_location().is_ok());
    assert_eq!(garrison.map_location(), Err(GameError::UnitNotOnMap));
    assert_eq!(space.map_location(), Err(GameError::UnitNotOnMap));

    assert!(!loc.is_adjacent_to(garrison));
    assert!(!garrison.is_adjacent_to(space));
    assert!(!space.is_adjacent_to(loc));

    assert!(!loc.is_within_range(100, garrison));
    assert!(!garrison.is_within_range(100, space));
    assert!(!space.is_within_range(100, loc));
}

#[test]
fn all_directions_in_clockwise_order() {
    let all = Direction::all();
    assert_eq!(all, vec![North, Northeast, East, Southeast, South, Southwest, West, Northwest]);
    for d in all {
        assert_eq!(d.rotate_left().rotate_right(), d);
        assert_eq!(d.opposite().opposite(), d);
        let l = MapLocation::new(Earth, 3, 3);
        assert_eq!(l.add(d).subtract(d), l);
        assert!(l.add(d).is_adjacent_to(l));
    }
}

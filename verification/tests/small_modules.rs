use battlecode_engine::config::Config;
use battlecode_engine::engine::Direction::{
    Center, East, North, NorthEast, NorthWest, South, SouthEast, SouthWest, West,
};
use battlecode_engine::entity::{entity_move, Entity, EntityInfo, FactoryInfo, KnightInfo, RocketInfo};
use battlecode_engine::error::GameError;
use battlecode_engine::ffi::{bc_direction, bc_map_location_t};
use battlecode_engine::location::{Direction, MapLocation, Planet};
use battlecode_engine::unit_controller::{Unit, UnitController, UnitType};
use battlecode_engine::world::Team;

#[test]
fn direction_opposite() {
    assert_eq!(North.opposite(), South);
    assert_eq!(NorthEast.opposite(), SouthWest);
    assert_eq!(East.opposite(), West);
    assert_eq!(SouthEast.opposite(), NorthWest);
    assert_eq!(South.opposite(), North);
    assert_eq!(SouthWest.opposite(), NorthEast);
    assert_eq!(West.opposite(), East);
    assert_eq!(NorthWest.opposite(), SouthEast);
    assert_eq!(Center.opposite(), Center);
}

#[test]
fn direction_rotate_left() {
    assert_eq!(North.rotate_left(), NorthWest);
    assert_eq!(NorthEast.rotate_left(), North);
    assert_eq!(East.rotate_left(), NorthEast);
    assert_eq!(SouthEast.rotate_left(), East);
    assert_eq!(South.rotate_left(), SouthEast);
    assert_eq!(SouthWest.rotate_left(), South);
    assert_eq!(West.rotate_left(), SouthWest);
    assert_eq!(NorthWest.rotate_left(), West);
    assert_eq!(Center.rotate_left(), Center);
}

#[test]
fn direction_rotate_right() {
    assert_eq!(North.rotate_right(), NorthEast);
    assert_eq!(NorthEast.rotate_right(), East);
    assert_eq!(East.rotate_right(), SouthEast);
    assert_eq!(SouthEast.rotate_right(), South);
    assert_eq!(South.rotate_right(), SouthWest);
    assert_eq!(SouthWest.rotate_right(), West);
    assert_eq!(West.rotate_right(), NorthWest);
    assert_eq!(NorthWest.rotate_right(), North);
    assert_eq!(Center.rotate_right(), Center);
}

#[test]
fn engine_deltas() {
    assert_eq!(North.delta(), (0, 1));
    assert_eq!(NorthEast.delta(), (1, 1));
    assert_eq!(South.delta(), (0, -1));
    assert_eq!(SouthWest.delta(), (-1, -1));
    assert_eq!(Center.delta(), (0, 0));
    let l = battlecode_engine::engine::MapLocation::new(3, 4, battlecode_engine::engine::Planet::Mars);
    assert_eq!((l.x, l.y), (3, 4));
}

#[test]
fn entity_it_works() {}

#[test]
fn map_location_it_works() {}

#[test]
fn lib_it_works() {}

#[test]
fn entity_moves_only_knights() {
    let loc = MapLocation::new(Planet::Earth, 0, 0);
    let mut knight = Entity {
        id: 1,
        team: Team::Red,
        max_health: 10,
        location: loc,
        health: 10,
        spec: EntityInfo::Knight(KnightInfo {}),
    };
    assert_eq!(entity_move(&mut knight, Direction::North), Ok(()));
    let mut rocket = Entity { spec: EntityInfo::Rocket(RocketInfo {}), ..knight.clone() };
    assert_eq!(entity_move(&mut rocket, Direction::North), Err(GameError::InternalEngineError));
    let mut factory = Entity { spec: EntityInfo::Factory(FactoryInfo { production_queue: vec![] }), ..knight };
    assert_eq!(entity_move(&mut factory, Direction::North), Err(GameError::InternalEngineError));
}

#[test]
fn configs() {
    let p = Config::player_config();
    assert!(!p.generate_viewer_messages && p.generate_turn_messages);
    let r = Config::runner_config();
    assert!(r.generate_viewer_messages && r.generate_turn_messages);
    let m = battlecode_engine::map_location::MapLocation::new(1, 2, battlecode_engine::map_location::Planet::Earth);
    assert_eq!((m.x, m.y), (1, 2));
}

#[test]
fn map_location_convertions() {
    let l = bc_map_location_t { planet: Planet::Earth, x: -32, y: 57 };
    let l2: MapLocation = l.into();
    assert_eq!(l2.x, l.x);
    assert_eq!(l2.y, l.y);
    let l3: bc_map_location_t = l2.into();
    assert_eq!(l3.x, l.x);
    assert_eq!(l3.y, l.y);
}

#[test]
fn direction_convertions() {
    let d = bc_direction::west;
    let d2: Direction = d.into();
    assert_eq!(d2, Direction::West);
    let d3: bc_direction = d2.into();
    assert_eq!(d3, d);
}

#[test]
fn worker_constructor_and_research() {
    let loc = MapLocation::new(Planet::Earth, 0, 0);
    let unit_a = Unit::new(1, Team::Red, UnitType::Worker, 0, loc).unwrap();
    assert_eq!(unit_a.id, 1);
    assert_eq!(unit_a.team, Team::Red);
    assert_eq!(unit_a.unit_type(), UnitType::Worker);

    let mut c = match unit_a.controller {
        UnitController::Worker(worker_c) => worker_c,
        _ => panic!("expected Worker"),
    };

    assert_eq!(c.level(), 0);
    assert_eq!(c.harvest_amount(), 3);
    assert_eq!(c.build_repair_health(), 5);

    c.research().unwrap();
    assert_eq!(c.level(), 1);
    assert_eq!(c.harvest_amount(), 4);
    assert_eq!(c.build_repair_health(), 5);

    c.research().unwrap();
    assert_eq!(c.level(), 2);
    assert_eq!(c.harvest_amount(), 4);
    assert_eq!(c.build_repair_health(), 6);

    let unit_b = Unit::new(2, Team::Red, UnitType::Worker, 2, loc).unwrap();
    let c = match unit_b.controller {
        UnitController::Worker(worker_c) => worker_c,
        _ => panic!("expected Worker"),
    };

    assert_eq!(c.level(), 2);
    assert_eq!(c.harvest_amount(), 4);
    assert_eq!(c.build_repair_health(), 6);
}

#[test]
fn controller_units_move_and_garrison() {
    let loc = MapLocation::new(Planet::Earth, 0, 0);
    let next = MapLocation::new(Planet::Earth, 1, 0);
    let mut mage = Unit::new(1, Team::Red, UnitType::Mage, 0, loc).unwrap();
    assert_eq!(mage.move_to(Some(next)), Ok(()));
    assert_eq!(mage.location(), Some(next));
    assert_eq!(mage.move_to(Some(loc)), Err(GameError::InvalidAction));
    let mut rocket = Unit::new(2, Team::Red, UnitType::Rocket, 0, loc).unwrap();
    assert_eq!(rocket.health(), 50);
    assert_eq!(mage.can_garrison(&rocket), Ok(false));
    mage.next_round();
    mage.next_round();
    assert_eq!(mage.can_garrison(&rocket), Ok(true));
    assert_eq!(rocket.garrison(1), Ok(()));
    assert_eq!(rocket.garrisoned_units(), Ok(vec![1]));
    assert_eq!(rocket.can_degarrison_unit(), Ok(true));
    assert_eq!(rocket.degarrison_unit(), Ok(1));
    assert_eq!(rocket.degarrison_unit(), Err(GameError::InvalidAction));
    assert_eq!(mage.garrison(3), Err(GameError::InappropriateUnitType));
    assert!(Unit::new(3, Team::Red, UnitType::Factory, 1, loc).is_err());
    assert!(mage.take_damage(1000));
}

use battlecode_engine::constants::MAX_HEAT_TO_ACT;
use battlecode_engine::error::GameError;
use battlecode_engine::location::Location::{InSpace, OnMap};
use battlecode_engine::location::{Direction, MapLocation, Planet};
use battlecode_engine::unit::UnitType::{Factory, Healer, Knight, Mage, Ranger, Rocket, Worker};
use battlecode_engine::unit::{Unit, UnitID, UnitType};
use battlecode_engine::world::Team;

#[test]
fn test_movement() {
    let loc_a = MapLocation::new(Planet::Earth, 0, 0);
    let loc_b = MapLocation::new(Planet::Earth, 1, 1);
    let mut unit = Unit::new(1, Team::Red, Healer, 0, OnMap(loc_a)).unwrap();
    assert_eq!(unit.location(), OnMap(loc_a));
    assert!(unit.movement_cooldown().unwrap() > 0);
    assert!(unit.ok_if_move_ready().is_ok());
    assert_eq!(unit.location(), OnMap(loc_a));
    assert_eq!(unit.movement_heat().unwrap(), 0);

    // Move to a location. The unit is not ready to move immediately after.
    unit.move_to(loc_b);
    assert_eq!(unit.location(), OnMap(loc_b));
    assert!(unit.movement_heat().unwrap() > 0);
    assert_eq!(unit.ok_if_move_ready(), Err(GameError::Overheated));

    // Wait one round, and the unit is still not ready to move.
    unit.end_round();
    assert!(unit.movement_heat().unwrap() >= MAX_HEAT_TO_ACT);
    assert_eq!(unit.ok_if_move_ready(), Err(GameError::Overheated));

    // Wait one more round, and succesfully move.
    unit.end_round();
    assert!(unit.movement_heat().unwrap() < MAX_HEAT_TO_ACT);
    assert!(unit.ok_if_move_ready().is_ok());
    unit.move_to(loc_a);
    assert!(unit.movement_heat().unwrap() > 0);
    assert_eq!(unit.location(), OnMap(loc_a));
}

#[test]
fn test_movement_error() {
    let loc = MapLocation::new(Planet::Earth, 0, 0);

    let factory = Unit::new(1, Team::Red, Factory, 0, OnMap(loc)).unwrap();
    assert!(factory.movement_heat().is_err());
    assert!(factory.movement_cooldown().is_err());

    let rocket = Unit::new(1, Team::Red, Rocket, 0, OnMap(loc)).unwrap();
    assert!(rocket.movement_heat().is_err());
    assert!(rocket.movement_cooldown().is_err());
}

#[test]
fn test_combat() {
}

#[test]
fn test_special_abilities() {
    let loc = MapLocation::new(Planet::Earth, 0, 0);

    // Factory and Rocket cannot use ability
    let factory = Unit::new(1, Team::Red, Factory, 0, OnMap(loc)).unwrap();
    assert_eq!(factory.ok_if_ability_unlocked(), Err(GameError::InappropriateUnitType));
    let rocket = Unit::new(1, Team::Red, Rocket, 0, OnMap(loc)).unwrap();
    assert_eq!(rocket.ok_if_ability_unlocked(), Err(GameError::InappropriateUnitType));

    // Other units can use ability.
    let worker = Unit::new(1, Team::Red, Worker, 0, OnMap(loc)).unwrap();
    assert!(worker.ok_if_ability_unlocked().is_ok());
    let knight = Unit::new(1, Team::Red, Knight, 3, OnMap(loc)).unwrap();
    assert!(knight.ok_if_ability_unlocked().is_ok());
    let ranger = Unit::new(1, Team::Red, Knight, 3, OnMap(loc)).unwrap();
    assert!(ranger.ok_if_ability_unlocked().is_ok());
    let mage = Unit::new(1, Team::Red, Knight, 3, OnMap(loc)).unwrap();
    assert!(mage.ok_if_ability_unlocked().is_ok());
    let healer = Unit::new(1, Team::Red, Knight, 3, OnMap(loc)).unwrap();
    assert!(healer.ok_if_ability_unlocked().is_ok());

    // Unit cannot use ability when ability heat >= max heat to act
    let mut ranger = Unit::new(1, Team::Red, Ranger, 3, OnMap(loc)).unwrap();
    ranger.ability_heat = MAX_HEAT_TO_ACT;
    assert_eq!(ranger.ok_if_ability_ready(), Err(GameError::Overheated));
    ranger.ability_heat = MAX_HEAT_TO_ACT + 10;
    assert_eq!(ranger.ok_if_ability_ready(), Err(GameError::Overheated));
}

#[test]
fn test_knight() {
    let loc = MapLocation::new(Planet::Earth, 0, 0);

    // Javelin should fail if unit is not a knight
    let worker = Unit::new(1, Team::Red, Worker, 0, OnMap(loc)).unwrap();
    assert_eq!(worker.ok_if_javelin_unlocked(), Err(GameError::InappropriateUnitType));
}

#[test]
fn test_ranger() {
    let loc_a = MapLocation::new(Planet::Earth, 0, 0);
    let loc_b = MapLocation::new(Planet::Earth, 0, 1);

    // Sniping should fail if unit is not a ranger
    let worker = Unit::new(1, Team::Red, Worker, 0, OnMap(loc_a)).unwrap();
    assert_eq!(worker.ok_if_snipe_unlocked(), Err(GameError::InappropriateUnitType));

    // Begin sniping
    let mut ranger = Unit::new(1, Team::Red, Ranger, 3, OnMap(loc_a)).unwrap();
    assert!(ranger.ok_if_snipe_unlocked().is_ok());
    ranger.begin_snipe(loc_b);
    assert!(ranger.process_snipe().is_none());
    assert_eq!(ranger.ranger_target_location().unwrap(), loc_b);

    // Ranger can begin sniping at anytime as long as ability heat < max heat to act
    ranger.begin_snipe(loc_b);

    // Process sniping
    let rounds = ranger.ranger_max_countdown().unwrap();
    for _ in 1..rounds {
        assert!(ranger.process_snipe().is_none());
    }
    assert!(ranger.process_snipe().is_some());
}

#[test]
fn test_mage() {
    let loc_a = MapLocation::new(Planet::Earth, 0, 0);
    let loc_b = MapLocation::new(Planet::Earth, 0, 1);

    // Blinking moves mage to new location
    let mut mage = Unit::new(1, Team::Red, Mage, 4, OnMap(loc_a)).unwrap();
    mage.blink(loc_b);
    assert_eq!(mage.location(), OnMap(loc_b));
}

#[test]
fn test_healer() {
    let loc = MapLocation::new(Planet::Earth, 0, 0);

    // Overcharging should fail if unit is not a healer
    let worker = Unit::new(1, Team::Red, Worker, 0, OnMap(loc)).unwrap();
    assert_eq!(worker.ok_if_overcharge_unlocked(), Err(GameError::InappropriateUnitType));

    // Healer cannot overcharge if it has insufficient research level.
    let healer = Unit::new(1, Team::Red, Healer, 0, OnMap(loc)).unwrap();
    assert!(matches!(
        healer.ok_if_overcharge_unlocked(),
        Err(GameError::ResearchNotUnlocked { .. })
    ));

    // Healer can overcharge if it has unlocked ability.
    let healer = Unit::new(1, Team::Red, Healer, 3, OnMap(loc)).unwrap();
    assert!(healer.ok_if_overcharge_unlocked().is_ok());
}

#[test]
fn test_factory() {
    // A worker cannot produce a robot.
    let loc = MapLocation::new(Planet::Earth, 0, 0);
    let worker = Unit::new(1, Team::Red, Worker, 0, OnMap(loc)).unwrap();
    assert_eq!(worker.ok_if_can_produce_robot(Mage), Err(GameError::InappropriateUnitType));

    // A factory cannot produce a structure, but it can produce a mage.
    let mut factory = Unit::new(1, Team::Red, Factory, 0, OnMap(loc)).unwrap();
    factory.is_built = true;
    assert_eq!(factory.factory_rounds_left().unwrap(), None);
    assert_eq!(factory.ok_if_can_produce_robot(Factory), Err(GameError::InappropriateUnitType));
    assert_eq!(factory.ok_if_can_produce_robot(Rocket), Err(GameError::InappropriateUnitType));
    assert!(factory.ok_if_can_produce_robot(Mage).is_ok());

    // The factory cannot produce anything when it's already busy.
    factory.produce_robot(Mage);
    assert!(factory.ok_if_can_produce_robot(Mage).is_err());

    // After a few rounds, the factory can produce again.
    for _ in 0..factory.factory_max_rounds_left().unwrap() - 1 {
        assert_eq!(factory.process_factory_round(), None);
        assert!(factory.ok_if_can_produce_robot(Mage).is_err());
    }
    assert_eq!(factory.process_factory_round(), Some(Mage));
    assert!(factory.ok_if_can_produce_robot(Mage).is_ok());

    // Fill the factory to its max capacity.
    for id in 0..factory.structure_max_capacity().expect("unit has a capacity") {
        factory.load(id as UnitID);
    }

    // The factory can produce one more robot, but it won't go in its garrison.
    assert!(factory.ok_if_can_produce_robot(Mage).is_ok());
    factory.produce_robot(Mage);
    for _ in 0..factory.factory_max_rounds_left().unwrap() * 2 {
        assert_eq!(factory.process_factory_round(), None);
        assert!(factory.ok_if_can_produce_robot(Mage).is_err());
    }

    // After unloading the units, the factory will work again.
    for id in 0..factory.structure_max_capacity().expect("unit has a capacity") {
        assert_eq!(factory.unload_unit(), id as UnitID);
    }
    assert_eq!(factory.process_factory_round(), Some(Mage));
    assert!(factory.ok_if_can_produce_robot(Mage).is_ok());
}

#[test]
fn test_rockets() {
    let loc = MapLocation::new(Planet::Earth, 0, 0);
    let adjacent_loc = loc.add(Direction::North);
    let mars_loc = MapLocation::new(Planet::Mars, 0, 0);

    let mut rocket = Unit::new(1, Team::Red, Rocket, 0, OnMap(loc)).unwrap();
    rocket.is_built = true;
    let mut robot = Unit::new(2, Team::Red, Mage, 0, OnMap(adjacent_loc)).unwrap();

    // Rocket accessor methods should fail on a robot.
    assert!(robot.structure_max_capacity().is_err());
    assert!(robot.rocket_is_used().is_err());
    assert!(robot.structure_garrison().is_err());
    assert_eq!(robot.ok_if_can_launch_rocket(), Err(GameError::InappropriateUnitType));
    assert!(robot.ok_if_can_unload_unit().is_err());

    // Check accessor methods on the rocket.
    assert!(rocket.structure_max_capacity().unwrap() > 0);
    assert!(!rocket.rocket_is_used().unwrap());
    assert_eq!(rocket.structure_garrison().unwrap().len(), 0);
    assert!(rocket.ok_if_can_load().is_ok());
    assert!(rocket.ok_if_can_unload_unit().is_err());
    assert!(rocket.ok_if_can_launch_rocket().is_ok());

    // Load a unit and launch into space.
    rocket.load(robot.id());
    assert_eq!(rocket.structure_garrison().unwrap(), vec![robot.id()]);
    assert!(rocket.ok_if_can_unload_unit().is_ok());

    rocket.launch_rocket();
    assert_eq!(rocket.location(), InSpace);
    assert!(rocket.rocket_is_used().unwrap());

    // Proceed a round, then land the rocket.
    robot.end_round();
    rocket.end_round();
    rocket.land_rocket(mars_loc);
    assert_eq!(rocket.location(), OnMap(mars_loc));

    // Unload the unit.
    assert!(rocket.ok_if_can_unload_unit().is_ok());
    assert_eq!(rocket.unload_unit(), robot.id());
    assert!(!rocket.ok_if_can_unload_unit().is_ok());

    // Load too many units
    for i in 0..rocket.structure_max_capacity().unwrap() {
        assert!(rocket.ok_if_can_load().is_ok(), "failed to load unit {}", i);
        rocket.load(0);
    }
    assert!(rocket.ok_if_can_load().is_err());
}

#[test]
fn test_research() {
    // Create a unit and check that its basic fields are correct.
    let loc = MapLocation::new(Planet::Earth, 0, 0);
    let mut unit_a = Unit::new(1, Team::Red, Worker, 0, OnMap(loc)).unwrap();
    assert_eq!(unit_a.id(), 1);
    assert_eq!(unit_a.team(), Team::Red);
    assert_eq!(unit_a.unit_type(), Worker);

    // Upgrade it twice and check its stats have been updated.
    assert_eq!(unit_a.research_level(), 0);
    assert_eq!(unit_a.worker_harvest_amount().unwrap(), 3);
    assert_eq!(unit_a.worker_build_health().unwrap(), 5);

    unit_a.research().unwrap();
    assert_eq!(unit_a.research_level(), 1);
    assert_eq!(unit_a.worker_harvest_amount().unwrap(), 4);
    assert_eq!(unit_a.worker_build_health().unwrap(), 5);

    unit_a.research().unwrap();
    assert_eq!(unit_a.research_level(), 2);
    assert_eq!(unit_a.worker_harvest_amount().unwrap(), 4);
    assert_eq!(unit_a.worker_build_health().unwrap(), 6);

    // Create a unit with a default level above 0, and check its stats.
    let unit_b = Unit::new(2, Team::Red, Worker, 2, OnMap(loc)).unwrap();
    assert_eq!(unit_b.research_level(), 2);
    assert_eq!(unit_b.worker_harvest_amount().unwrap(), 4);
    assert_eq!(unit_b.worker_build_health().unwrap(), 6);
}

#[test]
fn unit_type_costs_and_values() {
    assert_eq!(UnitType::Worker.factory_cost(), Ok(50));
    assert_eq!(UnitType::Knight.factory_cost(), Ok(40));
    assert_eq!(UnitType::Factory.factory_cost(), Err(GameError::InappropriateUnitType));
    assert_eq!(UnitType::Factory.blueprint_cost(), Ok(200));
    assert_eq!(UnitType::Rocket.blueprint_cost(), Ok(150));
    assert_eq!(UnitType::Worker.blueprint_cost(), Err(GameError::InappropriateUnitType));
    assert_eq!(UnitType::Worker.replicate_cost(), Ok(15));
    assert_eq!(UnitType::Mage.replicate_cost(), Err(GameError::InappropriateUnitType));
    assert!(UnitType::Worker.is_robot());
    assert!(UnitType::Rocket.is_structure());
}

#[test]
fn research_past_last_level_fails() {
    let loc = MapLocation::new(Planet::Earth, 0, 0);
    assert!(matches!(
        Unit::new(1, Team::Red, Knight, 4, OnMap(loc)),
        Err(GameError::ResearchNotUnlocked { .. })
    ));
    let mut factory = Unit::new(1, Team::Red, Factory, 0, OnMap(loc)).unwrap();
    assert!(factory.research().is_err());
}

#[test]
fn take_damage_and_heal() {
    let loc = MapLocation::new(Planet::Earth, 0, 0);
    let mut knight = Unit::new(1, Team::Red, Knight, 0, OnMap(loc)).unwrap();
    let full = knight.health();
    let defense = knight.knight_defense().unwrap() as i32;
    knight.take_damage(100);
    assert_eq!(knight.health(), full - (100 - defense) as u32);
    knight.be_healed(1000);
    assert_eq!(knight.health(), full);
    let mut worker = Unit::new(2, Team::Blue, Worker, 0, OnMap(loc)).unwrap();
    knight_kills(&mut worker);
    assert_eq!(worker.health(), 0);
}

fn knight_kills(worker: &mut Unit) {
    assert!(worker.take_damage(1000));
}

#[test]
fn built_factory_cannot_launch() {
    let loc = MapLocation::new(Planet::Earth, 0, 0);
    let mut factory = Unit::new(3, Team::Red, Factory, 0, OnMap(loc)).unwrap();
    factory.is_built = true;
    assert_eq!(factory.ok_if_can_launch_rocket(), Err(GameError::InappropriateUnitType));
}

#[test]
fn research_needs_room_only_in_the_field_it_changes() {
    let loc = MapLocation::new(Planet::Earth, 0, 0);
    let mut worker = Unit::new(1, Team::Red, Worker, 0, OnMap(loc)).unwrap();
    // The first worker upgrade changes only the harvest amount, so a build
    // health at its maximum is no obstacle.
    worker.build_health = u32::MAX;
    worker.repair_health = u32::MAX;
    let harvest = worker.harvest_amount;
    assert_eq!(worker.research(), Ok(()));
    assert_eq!(worker.harvest_amount, harvest + 1);
    assert_eq!(worker.build_health, u32::MAX);
    assert_eq!(worker.research_level(), 1);

    // A factory has no research: the unit is left as it was.
    let mut factory = Unit::new(2, Team::Red, Factory, 0, OnMap(loc)).unwrap();
    assert_eq!(factory.research(), Err(GameError::ResearchNotUnlocked { unit_type: Factory }));
    assert_eq!(factory.research_level(), 0);
}

#[test]
fn factory_rounds_count_down_before_the_type_is_needed() {
    let loc = MapLocation::new(Planet::Earth, 0, 0);
    let mut factory = Unit::new(3, Team::Blue, Factory, 0, OnMap(loc)).unwrap();
    factory.be_built(1000);
    // Counting down needs no production type; only the last round reads it.
    factory.factory_rounds_left = Some(3);
    factory.factory_unit_type = None;
    assert_eq!(factory.process_factory_round(), None);
    assert_eq!(factory.factory_rounds_left(), Ok(Some(2)));
    factory.factory_unit_type = Some(Mage);
    assert_eq!(factory.process_factory_round(), None);
    assert_eq!(factory.process_factory_round(), Some(Mage));
    assert_eq!(factory.factory_rounds_left(), Ok(None));
    assert_eq!(factory.process_factory_round(), None);
}

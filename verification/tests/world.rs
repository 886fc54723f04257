use battlecode_engine::constants::KARBONITE_STARTING;
use battlecode_engine::error::GameError;
use battlecode_engine::location::Location::{InGarrison, InSpace, OnMap};
use battlecode_engine::location::{Direction, MapLocation, Planet};
use battlecode_engine::unit::{Unit, UnitID, UnitType};
use battlecode_engine::map::{GameMap, PlanetMap};
use battlecode_engine::schema::{Delta, TurnMessage};
use battlecode_engine::world::{GameWorld, Player, Rounds, Team};

/// The duration of flight that the world's orbit pattern gives for the
/// current round.
fn flight(world: &GameWorld) -> Rounds {
    let orbit = world.orbit_pattern();
    let arg = 2.0 * std::f32::consts::PI / orbit.period as f32 * world.round() as f32;
    let sin = ((orbit.amplitude as f32) * f32::sin(arg)) as i32;
    (sin + orbit.center as i32) as Rounds
}

/// The unit with this ID, wherever it is, to change it directly.
fn unit_mut(world: &mut GameWorld, id: UnitID) -> &mut Unit {
    for planet in [Planet::Earth, Planet::Mars].iter() {
        if world.planet_states.get(planet).unwrap().units.contains_key(&id) {
            return world.planet_states.get_mut(planet).unwrap().units.get_mut(&id).unwrap();
        }
    }
    for team in [Team::Red, Team::Blue].iter() {
        if world.team_states.get(team).unwrap().units_in_space.contains_key(&id) {
            return world.team_states.get_mut(team).unwrap().units_in_space.get_mut(&id).unwrap();
        }
    }
    panic!("no unit {}", id);
}

/// Red researches the branch the given number of levels, each in the given
/// number of rounds.
fn research(world: &mut GameWorld, branch: UnitType, levels: usize, rounds: usize) {
    for _ in 0..levels {
        let my_research = &mut world.team_states.get_mut(&Team::Red).unwrap().research;
        assert!(my_research.add_to_queue(&branch));
        for _ in 0..rounds {
            my_research.update();
        }
    }
}

/// Moves a robot on Earth to a free square, as the engine does for a unit
/// that changes square.
fn teleport(world: &mut GameWorld, id: UnitID, to: MapLocation) {
    let earth = world.planet_states.get_mut(&Planet::Earth).unwrap();
    let from = earth.units.get(&id).unwrap().location().map_location().unwrap();
    earth.units_by_loc.remove(&from);
    earth.units.get_mut(&id).unwrap().move_to(to);
    earth.units_by_loc.insert(to, id);
}

#[test]
fn test_all_locations_within() {
    let world = GameWorld::test_world();
    let loc = MapLocation::new(Planet::Earth, 2, 4);
    let locs = world.all_locations_within(loc, 16);
    assert_eq!(locs.len(), 43, "43 locations within 16 distance squared");
    for new_loc in locs {
        assert!(loc.distance_squared_to(new_loc) <= 16);
    }
    assert_eq!(world.all_locations_within(loc, 0), vec![loc]);
}

#[test]
fn test_unit_disintegrate() {
    let mut world = GameWorld::test_world();
    let loc_a = MapLocation::new(Planet::Earth, 0, 1);
    let loc_b = MapLocation::new(Planet::Earth, 0, 2);
    let id_a = world.create_unit(Team::Red, loc_a, UnitType::Knight).unwrap();
    let id_b = world.create_unit(Team::Blue, loc_b, UnitType::Knight).unwrap();

    // Red can disintegrate a red unit.
    assert!(world.disintegrate_unit(id_a).is_ok());

    // Red cannot disintegrate a blue unit.
    assert_eq!(world.disintegrate_unit(id_b), Err(GameError::TeamNotAllowed));

    // But the Dev engine can "destroy" a blue unit if necessary.
    world.destroy_unit(id_b);

    // Either way, no one can disintegrate a unit that does not exist.
    assert_eq!(world.disintegrate_unit(id_b), Err(GameError::NoSuchUnit));
}

#[test]
fn test_unit_create() {
    let mut world = GameWorld::test_world();
    let loc_a = MapLocation::new(Planet::Earth, 0, 1);
    let loc_b = MapLocation::new(Planet::Earth, 0, 2);
    let id_a = world.create_unit(Team::Red, loc_a, UnitType::Knight).unwrap();
    let id_b = world.create_unit(Team::Red, loc_b, UnitType::Knight).unwrap();

    // The robots have different IDs.
    assert_ne!(id_a, id_b);

    // Both robots exist and are at the right locations.
    let unit_a = world.my_unit(id_a).unwrap();
    let unit_b = world.my_unit(id_b).unwrap();
    assert_eq!(unit_a.location(), OnMap(loc_a));
    assert_eq!(unit_b.location(), OnMap(loc_b));
}

#[test]
fn test_unit_move() {
    let mut world = GameWorld::test_world();
    let loc_a = MapLocation::new(Planet::Earth, 5, 5);
    let loc_b = MapLocation::new(Planet::Earth, 6, 5);

    // Create and add some robots. B is one square east of A.
    let a = world.create_unit(Team::Red, loc_a, UnitType::Knight).unwrap();
    let b = world.create_unit(Team::Red, loc_b, UnitType::Knight).unwrap();

    // Robot A cannot move east, as this is where B is. However,
    // it can move northeast.
    assert!(world.is_move_ready(a));
    assert!(!world.can_move(a, Direction::East));
    assert!(world.can_move(a, Direction::Northeast));
    world.move_robot(a, Direction::Northeast).unwrap();

    // A is now one square north of B. B cannot move north to
    // A's new location, but can move west to A's old location.
    assert!(world.is_move_ready(b));
    assert!(!world.can_move(b, Direction::North));
    assert!(world.can_move(b, Direction::West));
    world.move_robot(b, Direction::West).unwrap();

    // A robot cannot move again until its cooldowns are reset.
    assert!(!world.is_move_ready(a));
    assert!(world.can_move(a, Direction::South));
    assert!(world.move_robot(a, Direction::South).is_err());
    world.end_round();

    // Finally, let's test that A cannot move back to its old square.
    assert!(world.is_move_ready(a));
    assert!(!world.can_move(a, Direction::Southwest));
    assert!(world.can_move(a, Direction::South));
    world.move_robot(a, Direction::South).unwrap();
}

#[test]
fn test_knight_javelin() {
    let mut world = GameWorld::test_world();

    // Unlock knight's javelin ability through research.
    research(&mut world, UnitType::Knight, 3, 200);

    // Create knight and target robots
    let loc_a = MapLocation::new(Planet::Earth, 0, 0);
    let loc_b = MapLocation::new(Planet::Earth, 0, 1);
    let loc_c = MapLocation::new(Planet::Earth, 0, 20);
    let knight = world.create_unit(Team::Red, loc_a, UnitType::Knight).unwrap();
    let robot_a = world.create_unit(Team::Red, loc_b, UnitType::Knight).unwrap();
    let robot_b = world.create_unit(Team::Red, loc_c, UnitType::Knight).unwrap();

    // Knight Javelin is ready
    assert!(world.is_javelin_ready(knight));

    // Knight should not be able to javelin target outside of range
    assert!(!world.can_javelin(knight, robot_b));

    // Knight should be able to javelin target within range
    assert!(world.can_javelin(knight, robot_a));

    // Javelin target.
    let robot_max_health = 250;
    let robot_damaged_health = 205;
    assert_eq!(world.get_unit(robot_a).unwrap().health(), robot_max_health);
    assert!(world.javelin(knight, robot_a).is_ok());
    assert_eq!(world.get_unit(robot_a).unwrap().health(), robot_damaged_health);
    assert!(!world.is_javelin_ready(knight));
}

#[test]
fn test_mage_blink() {
    let mut world = GameWorld::test_world();

    // Unlock mage's blink ability through research.
    research(&mut world, UnitType::Mage, 4, 200);

    // Create mage.
    let loc_a = MapLocation::new(Planet::Earth, 0, 0);
    let loc_b = MapLocation::new(Planet::Earth, 0, 1);
    let loc_c = MapLocation::new(Planet::Earth, 0, 20);
    let mage = world.create_unit(Team::Red, loc_a, UnitType::Mage).unwrap();

    // Mage blink is ready.
    assert!(world.is_blink_ready(mage));

    // Mage should not be able to blink to target location outside of range.
    assert!(!world.can_blink(mage, loc_c));

    // Mage should be able to blink to target location within range.
    assert!(world.can_blink(mage, loc_b));

    // Blink moves mage to new location.
    assert_eq!(world.get_unit(mage).unwrap().location(), OnMap(loc_a));
    assert!(world.blink(mage, loc_b).is_ok());
    assert_eq!(world.get_unit(mage).unwrap().location(), OnMap(loc_b));
    assert!(!world.is_blink_ready(mage));
}

#[test]
fn test_ranger_snipe() {
    let mut world = GameWorld::test_world();

    // Unlock the ranger's snipe ability through research.
    research(&mut world, UnitType::Ranger, 3, 200);

    // Create ranger and target robot.
    let loc_a = MapLocation::new(Planet::Earth, 0, 0);
    let loc_b = MapLocation::new(Planet::Earth, 0, 1);
    let loc_c = MapLocation::new(Planet::Mars, 0, 20);
    let ranger = world.create_unit(Team::Red, loc_a, UnitType::Ranger).unwrap();
    let robot = world.create_unit(Team::Red, loc_b, UnitType::Knight).unwrap();
    // Ranger should not be able to snipe target location on a different planet.
    assert!(world.begin_snipe(ranger, loc_c).is_err());

    // Ranger begins to snipe a location.
    assert!(world.begin_snipe(ranger, loc_b).is_ok());

    // Enough rounds pass where Ranger's snipe is processed
    let rounds = 200;
    for _ in 0..4 * rounds {
        world.end_turn();
    }

    // Robot at sniped location should take damage
    let robot_damaged_health = 215;
    assert_eq!(world.get_unit(robot).unwrap().health(), robot_damaged_health);
}

#[test]
fn test_healer_overcharge() {
    let mut world = GameWorld::test_world();

    // Unlock healer's overcharge ability through research.
    research(&mut world, UnitType::Healer, 3, 200);

    // Unlock robot's ability through research.
    research(&mut world, UnitType::Knight, 3, 200);

    // Create healer and target robots.
    let loc_a = MapLocation::new(Planet::Earth, 0, 0);
    let loc_b = MapLocation::new(Planet::Earth, 0, 1);
    let loc_c = MapLocation::new(Planet::Earth, 0, 20);
    let healer = world.create_unit(Team::Red, loc_a, UnitType::Healer).unwrap();
    let robot_a = world.create_unit(Team::Red, loc_b, UnitType::Knight).unwrap();
    let robot_b = world.create_unit(Team::Red, loc_c, UnitType::Knight).unwrap();

    // Healer overcharge is ready.
    assert!(world.is_overcharge_ready(healer));

    // Healer should not be able to overcharge target robot outside of range.
    assert!(!world.can_overcharge(healer, robot_b));

    // Healer should be able to overcharge target robot within range.
    assert!(world.can_overcharge(healer, robot_a));

    // Robot uses ability.
    let loc_d = MapLocation::new(Planet::Earth, 0, 2);
    teleport(&mut world, robot_b, loc_d);
    assert!(world.javelin(robot_a, robot_b).is_ok());
    assert!(!world.get_unit(robot_a).unwrap().ok_if_ability_ready().is_ok());

    // Healer uses overcharge to reset robot's ablity cooldown
    assert!(world.overcharge(healer, robot_a).is_ok());
    assert!(world.get_unit(robot_a).unwrap().ok_if_ability_ready().is_ok());
}

#[test]
fn test_rocket_success() {
    let mut world = GameWorld::test_world();
    let earth_loc = MapLocation::new(Planet::Earth, 5, 5);
    let mars_loc = MapLocation::new(Planet::Mars, 5, 5);
    let rocket = world.create_unit(Team::Red, earth_loc, UnitType::Rocket).unwrap();
    unit_mut(&mut world, rocket).be_built(1000);

    // Create units around the target location.
    let mut earth_bystanders: Vec<UnitID> = vec![];
    let mut mars_bystanders: Vec<UnitID> = vec![];
    for direction in Direction::all() {
        earth_bystanders.push(world.create_unit(Team::Red, earth_loc.add(direction), UnitType::Knight).unwrap());
        mars_bystanders.push(world.create_unit(Team::Red, mars_loc.add(direction), UnitType::Knight).unwrap());
    }

    // Launch the rocket.
    assert!(world.can_launch_rocket(rocket, mars_loc));
    let duration = flight(&world);
    world.launch_rocket(rocket, mars_loc, duration).unwrap();
    assert_eq!(world.my_unit(rocket).unwrap().location(), InSpace);
    let damaged_knight_health = 205;
    for id in earth_bystanders.iter() {
        assert_eq!(world.my_unit(*id).unwrap().health(), damaged_knight_health);
    }

    // Go forward two turns so that we're on Mars.
    world.end_turn();
    world.end_turn();

    // Force land the rocket.
    world.land_rocket(rocket, mars_loc);
    assert_eq!(world.my_unit(rocket).unwrap().location(), OnMap(mars_loc));
    for id in mars_bystanders.iter() {
        assert_eq!(world.my_unit(*id).unwrap().health(), damaged_knight_health);
    }
}

#[test]
fn test_rocket_failure() {
    let mut world = GameWorld::test_world();
    let earth_loc_a = MapLocation::new(Planet::Earth, 0, 0);
    let earth_loc_b = MapLocation::new(Planet::Earth, 0, 2);
    let mars_loc_off_map = MapLocation::new(Planet::Mars, 10000, 10000);
    let mars_loc_impassable = MapLocation::new(Planet::Mars, 0, 0);
    world.planet_maps.get_mut(&Planet::Mars).unwrap().is_passable_terrain[0][0] = false;
    let mars_loc_knight = MapLocation::new(Planet::Mars, 0, 1);
    let mars_loc_factory = MapLocation::new(Planet::Mars, 0, 2);
    let rocket_a = world.create_unit(Team::Red, earth_loc_a, UnitType::Rocket).unwrap();
    unit_mut(&mut world, rocket_a).be_built(1000);
    let rocket_b = world.create_unit(Team::Red, earth_loc_b, UnitType::Rocket).unwrap();
    unit_mut(&mut world, rocket_b).be_built(1000);
    let knight = world.create_unit(Team::Blue, mars_loc_knight, UnitType::Knight).unwrap();
    let factory = world.create_unit(Team::Blue, mars_loc_factory, UnitType::Factory).unwrap();

    // Failed launches.
    let duration = flight(&world);
    assert!(!world.can_launch_rocket(rocket_a, earth_loc_b));
    assert_eq!(world.launch_rocket(rocket_a, earth_loc_b, duration), Err(GameError::SamePlanet));
    assert!(!world.can_launch_rocket(rocket_a, mars_loc_off_map));
    assert_eq!(world.launch_rocket(rocket_a, mars_loc_off_map, duration), Err(GameError::LocationOffMap));
    assert!(!world.can_launch_rocket(rocket_a, mars_loc_impassable));
    assert_eq!(world.launch_rocket(rocket_a, mars_loc_impassable, duration), Err(GameError::LocationNotEmpty));

    // Rocket landing on a robot should destroy the robot.
    assert!(world.can_launch_rocket(rocket_a, mars_loc_knight));
    assert!(world.launch_rocket(rocket_a, mars_loc_knight, duration).is_ok());
    world.end_turn();
    world.end_turn();
    world.land_rocket(rocket_a, mars_loc_knight);
    assert!(world.my_unit(rocket_a).is_ok());
    world.end_turn();
    assert_eq!(world.my_unit(knight).err(), Some(GameError::NoSuchUnit));

    // Launch the rocket on Earth.
    world.end_turn();
    let duration = flight(&world);
    assert!(world.can_launch_rocket(rocket_b, mars_loc_factory));
    assert!(world.launch_rocket(rocket_b, mars_loc_factory, duration).is_ok());

    // Go forward two turns so that we're on Mars.
    world.end_turn();
    world.end_turn();

    // Rocket landing on a factory should destroy both units.
    world.land_rocket(rocket_b, mars_loc_factory);
    assert_eq!(world.my_unit(rocket_b).err(), Some(GameError::NoSuchUnit));
    assert_eq!(world.my_unit(factory).err(), Some(GameError::NoSuchUnit));
}

#[test]
fn test_rocket_load() {
    let mut world = GameWorld::test_world();
    let takeoff_loc = MapLocation::new(Planet::Earth, 10, 10);
    let rocket = world.create_unit(Team::Red, takeoff_loc, UnitType::Rocket).unwrap();
    unit_mut(&mut world, rocket).be_built(1000);

    // Correct loading.
    let valid_boarder = world.create_unit(Team::Red, takeoff_loc.add(Direction::North), UnitType::Knight).unwrap();
    assert!(world.can_load(rocket, valid_boarder));
    assert!(world.load(rocket, valid_boarder).is_ok());
    assert_eq!(world.my_unit(valid_boarder).unwrap().location(), InGarrison(rocket));

    // Boarding fails when too far from the rocket.
    let invalid_boarder_too_far =
        world.create_unit(Team::Red, takeoff_loc.add(Direction::North).add(Direction::North), UnitType::Knight).unwrap();
    assert!(!world.can_load(rocket, valid_boarder));
    assert_eq!(world.load(rocket, invalid_boarder_too_far), Err(GameError::OutOfRange));

    // Boarding fails when the robot has already moved.
    assert!(world.move_robot(invalid_boarder_too_far, Direction::South).is_ok());
    let invalid_boarder_already_moved = invalid_boarder_too_far;
    assert!(!world.is_move_ready(invalid_boarder_already_moved));
    assert!(!world.can_load(rocket, invalid_boarder_already_moved));
    assert_eq!(world.load(rocket, invalid_boarder_already_moved), Err(GameError::Overheated));

    // Factories and rockets cannot board rockets.
    let invalid_boarder_factory =
        world.create_unit(Team::Red, takeoff_loc.add(Direction::Southeast), UnitType::Factory).unwrap();
    assert!(!world.can_load(rocket, invalid_boarder_factory));
    assert_eq!(world.load(rocket, invalid_boarder_factory), Err(GameError::InappropriateUnitType));
    let invalid_boarder_rocket = world.create_unit(Team::Red, takeoff_loc.add(Direction::South), UnitType::Rocket).unwrap();
    assert!(!world.can_load(rocket, invalid_boarder_rocket));
    assert_eq!(world.load(rocket, invalid_boarder_rocket), Err(GameError::InappropriateUnitType));

    // Rockets can be loaded up to their capacity...
    for _ in 1..8 {
        let valid_extra_boarder =
            world.create_unit(Team::Red, takeoff_loc.add(Direction::East), UnitType::Knight).unwrap();
        assert!(world.can_load(rocket, valid_extra_boarder));
        assert!(world.load(rocket, valid_extra_boarder).is_ok());
    }

    // ... but not beyond their capacity.
    let invalid_boarder_rocket_full =
        world.create_unit(Team::Red, takeoff_loc.add(Direction::East), UnitType::Knight).unwrap();
    assert!(!world.can_load(rocket, invalid_boarder_rocket_full));
    assert_eq!(world.load(rocket, invalid_boarder_rocket_full), Err(GameError::GarrisonFull));

    // A unit should not be able to board another team's rocket.
    let blue_takeoff_loc = MapLocation::new(Planet::Earth, 5, 5);
    let blue_rocket = world.create_unit(Team::Blue, blue_takeoff_loc, UnitType::Rocket).unwrap();
    let invalid_boarder_wrong_team =
        world.create_unit(Team::Red, blue_takeoff_loc.add(Direction::North), UnitType::Knight).unwrap();
    assert!(!world.can_load(blue_rocket, invalid_boarder_wrong_team));
    assert_eq!(world.load(blue_rocket, invalid_boarder_wrong_team), Err(GameError::TeamNotAllowed));
}

#[test]
fn test_rocket_unload() {
    let mut world = GameWorld::test_world();
    let takeoff_loc = MapLocation::new(Planet::Earth, 10, 10);
    let rocket = world.create_unit(Team::Red, takeoff_loc, UnitType::Rocket).unwrap();
    unit_mut(&mut world, rocket).be_built(1000);

    // Load the rocket with robots.
    for _ in 0..2 {
        let robot = world.create_unit(Team::Red, takeoff_loc.add(Direction::North), UnitType::Knight).unwrap();
        assert!(world.can_load(rocket, robot));
        assert!(world.load(rocket, robot).is_ok());
    }

    // Fly the rocket to Mars.
    let landing_loc = MapLocation::new(Planet::Mars, 0, 0);
    let duration = flight(&world);
    assert!(world.launch_rocket(rocket, landing_loc, duration).is_ok());

    // Go forward two turns so that we're on Mars.
    world.end_turn();
    world.end_turn();
    world.land_rocket(rocket, landing_loc);

    // Cannot unload in the same round. But can after one turn.
    assert!(!world.can_unload(rocket, Direction::North));
    assert_eq!(world.unload(rocket, Direction::North), Err(GameError::Overheated));
    world.end_round();

    // Correct unloading.
    assert!(world.can_unload(rocket, Direction::North));
    assert!(world.unload(rocket, Direction::North).is_ok());

    // Cannot unload into an occupied square.
    assert!(!world.can_unload(rocket, Direction::North));
    assert!(world.unload(rocket, Direction::North).is_err());

    // Cannot unload into an impassable square.
    world.planet_maps.get_mut(&Planet::Mars).unwrap().is_passable_terrain[0][1] = false;
    assert!(!world.can_unload(rocket, Direction::East));
    assert_eq!(world.unload(rocket, Direction::East), Err(GameError::LocationNotEmpty));

    // Error unloading off the map.
    assert!(!world.can_unload(rocket, Direction::South));
    assert_eq!(world.unload(rocket, Direction::South), Err(GameError::LocationOffMap));

    // Error unloading not a rocket.
    let robot_loc = MapLocation::new(Planet::Mars, 10, 10);
    let robot = world.create_unit(Team::Red, robot_loc, UnitType::Mage).unwrap();
    assert!(!world.can_unload(robot, Direction::East));
    assert_eq!(world.unload(robot, Direction::East), Err(GameError::InappropriateUnitType));

    // Correct unloading, again.
    world.planet_maps.get_mut(&Planet::Mars).unwrap().is_passable_terrain[0][1] = true;
    assert!(world.can_unload(rocket, Direction::East));
    assert!(world.unload(rocket, Direction::East).is_ok());

    // Cannot unload an empty rocket.
    assert!(!world.can_unload(rocket, Direction::East));
    assert_eq!(world.unload(rocket, Direction::East), Err(GameError::GarrisonEmpty));
}

#[test]
fn test_worker_harvest() {
    // Create the game world, which by default has 10 karbonite everywhere.
    let mut world = GameWorld::test_world();

    // Select a deposit, and test that it can be mined out as expected.
    let deposit = MapLocation::new(Planet::Earth, 0, 0);
    let expected_karbonite = [10, 7, 4, 1, 0];
    let expected_team_karbonite = [100, 103, 106, 109, 110];
    for i in 0..4 {
        let worker = world.create_unit(Team::Red, deposit.add(Direction::North), UnitType::Worker).unwrap();
        assert!(world.can_harvest(worker, Direction::South));
        assert_eq!(world.karbonite_at(deposit).unwrap(), expected_karbonite[i]);
        assert_eq!(world.karbonite(), expected_team_karbonite[i]);
        assert!(world.harvest(worker, Direction::South).is_ok());
        // The robot can no longer harvest, as it has already done so.
        assert!(!world.can_harvest(worker, Direction::South));
        assert_eq!(world.karbonite_at(deposit).unwrap(), expected_karbonite[i + 1]);
        assert_eq!(world.karbonite(), expected_team_karbonite[i + 1]);
        world.destroy_unit(worker);
    }

    // The deposit has been mined out, so it cannot be harvested.
    let worker = world.create_unit(Team::Red, deposit.add(Direction::North), UnitType::Worker).unwrap();
    assert!(!world.can_harvest(worker, Direction::South));

    // Other deposits can still be harvested, including in the robot's own space.
    assert!(world.can_harvest(worker, Direction::Center));

    // Deposits off the edge of the map can obviously not be harvested, but checking
    // this should not error.
    assert!(!world.can_harvest(worker, Direction::West));
}

#[test]
fn test_worker_blueprint_and_build() {
    let mut world = GameWorld::test_world();

    // Select a location to build a factory, and create a worker.
    let factory_loc = MapLocation::new(Planet::Earth, 0, 0);
    let worker_a = world.create_unit(Team::Red, factory_loc.add(Direction::North), UnitType::Worker).unwrap();

    // You cannot blueprint a robot.
    assert!(!world.can_blueprint(worker_a, UnitType::Knight, Direction::South));

    // A factory cannot be blueprinted yet, because there are not enough resources.
    world.team_states.get_mut(&Team::Red).unwrap().karbonite = 0;
    assert!(!world.can_blueprint(worker_a, UnitType::Factory, Direction::South));

    // After adding more resources to the team pool, blueprinting a factory is possible.
    world.team_states.get_mut(&Team::Red).unwrap().karbonite = 1000;
    assert!(world.can_blueprint(worker_a, UnitType::Factory, Direction::South));

    // However, a factory cannot be blueprinted to the west, as this is off the map.
    assert!(!world.can_blueprint(worker_a, UnitType::Factory, Direction::West));

    assert!(world.blueprint(worker_a, UnitType::Factory, Direction::South).is_ok());
    let factory = world.planet_states[&Planet::Earth].units_by_loc[&factory_loc];

    // The factory cannot be built by the same worker, because it has already acted.
    assert!(!world.can_build(worker_a, factory));
    world.destroy_unit(worker_a);

    // It takes 45 build actions, with default research, to complete a factory.
    for i in 0..45 {
        // Create a worker two squares north of the factory blueprint.
        let worker_b = world
            .create_unit(Team::Red, factory_loc.add(Direction::North).add(Direction::North), UnitType::Worker)
            .unwrap();

        // The worker is initially too far away to build the factory.
        assert!(!world.can_build(worker_b, factory));
        assert!(world.move_robot(worker_b, Direction::South).is_ok());

        // The worker is now able to build the factory.
        assert!(world.can_build(worker_b, factory));
        assert!(world.build(worker_b, factory).is_ok());
        assert_eq!(world.get_unit(factory).unwrap().health(), 80 + 5 * i);

        // The worker has already acted, and cannot build again.
        assert!(!world.can_build(worker_b, factory));
        world.destroy_unit(worker_b);
    }
    assert!(world.get_unit(factory).unwrap().structure_is_built().unwrap());

    // Subsequent attempts to build the factory should fail.
    let worker_c = world.create_unit(Team::Red, factory_loc.add(Direction::North), UnitType::Worker).unwrap();
    assert!(!world.can_build(worker_c, factory));
    world.destroy_unit(worker_c);

    // It should not be possible to blueprint a rocket until researching Rocketry.
    let rocket_loc = MapLocation::new(Planet::Earth, 1, 0);
    let worker_d = world.create_unit(Team::Red, rocket_loc.add(Direction::North), UnitType::Worker).unwrap();
    assert!(!world.can_blueprint(worker_d, UnitType::Rocket, Direction::South));

    // Force-research Rocketry.
    assert!(world.queue_research(UnitType::Rocket));
    for _ in 0..1000 {
        world.process_research(Team::Red);
    }

    // Rockets can now be built!
    assert!(world.can_blueprint(worker_d, UnitType::Rocket, Direction::South));
    assert!(world.blueprint(worker_d, UnitType::Rocket, Direction::South).is_ok());

    // Blueprinting is never possible on Mars.
    world.end_turn();
    world.end_turn();
    let mars_factory_loc = MapLocation::new(Planet::Mars, 0, 0);
    let worker_e = world.create_unit(Team::Red, mars_factory_loc.add(Direction::North), UnitType::Worker).unwrap();
    assert!(!world.can_blueprint(worker_e, UnitType::Factory, Direction::South));
}

#[test]
fn test_factory_production() {
    let mut world = GameWorld::test_world();
    let loc = MapLocation::new(Planet::Earth, 10, 10);
    let factory = world.create_unit(Team::Red, loc, UnitType::Factory).unwrap();
    unit_mut(&mut world, factory).be_built(1000);
    let mage_cost = UnitType::Mage.factory_cost().unwrap();

    // The factory can produce a robot only if it's not already busy.
    assert!(world.can_produce_robot(factory, UnitType::Mage));
    assert!(world.produce_robot(factory, UnitType::Mage).is_ok());
    assert!(!world.can_produce_robot(factory, UnitType::Mage));
    assert_eq!(world.produce_robot(factory, UnitType::Mage), Err(GameError::FactoryBusy));
    assert_eq!(world.team_states[&Team::Red].karbonite, KARBONITE_STARTING - mage_cost);

    // After a few rounds, the mage is added to the world.
    for _ in 0..world.my_unit(factory).unwrap().factory_max_rounds_left().unwrap() {
        world.end_round();
    }
    assert_eq!(world.my_unit(factory).unwrap().structure_garrison().unwrap().len(), 1);
    assert_eq!(world.planet_states[&Planet::Earth].units.len(), 2);
    assert_eq!(world.planet_states[&Planet::Earth].units_by_loc.len(), 1);

    // Karbonite is a limiting factor for producing robots.
    assert!(world.can_produce_robot(factory, UnitType::Mage));
    world.team_states.get_mut(&Team::Red).unwrap().karbonite = 0;
    assert!(!world.can_produce_robot(factory, UnitType::Mage));
}

#[test]
fn test_robot_attack_and_heal() {
    let mut world = GameWorld::test_world();
    let ranger = world.create_unit(Team::Red, MapLocation::new(Planet::Earth, 0, 0), UnitType::Ranger).unwrap();
    let worker_in_range =
        world.create_unit(Team::Red, MapLocation::new(Planet::Earth, 5, 0), UnitType::Worker).unwrap();
    let worker_out_of_range =
        world.create_unit(Team::Red, MapLocation::new(Planet::Earth, 10, 0), UnitType::Worker).unwrap();

    // The ranger can attack the adjacent worker, but not the non-adjacent worker.
    assert!(world.can_attack(ranger, worker_in_range));
    assert!(!world.can_attack(ranger, worker_out_of_range));
    assert!(world.attack(ranger, worker_in_range).is_ok());

    // The worker should have taken some damage.
    assert_eq!(world.get_unit(worker_in_range).unwrap().health(), 60);
    assert_eq!(world.get_unit(worker_out_of_range).unwrap().health(), 100);

    // The ranger cannot attack again.
    assert!(!world.is_attack_ready(ranger));
    assert_eq!(world.attack(ranger, worker_in_range), Err(GameError::Overheated));
    assert!(!world.is_attack_ready(ranger));
    assert!(world.can_attack(ranger, worker_in_range));

    // Create a healer, which cannot attack.
    let healer = world.create_unit(Team::Red, MapLocation::new(Planet::Earth, 5, 1), UnitType::Healer).unwrap();
    assert!(!world.is_attack_ready(healer));
    assert!(!world.can_attack(healer, worker_in_range));
    assert_eq!(world.attack(healer, worker_in_range), Err(GameError::InappropriateUnitType));

    // Healers can't heal structures, nor units on the other team.
    let rocket = world.create_unit(Team::Red, MapLocation::new(Planet::Earth, 5, 2), UnitType::Rocket).unwrap();
    let blue = world.create_unit(Team::Blue, MapLocation::new(Planet::Earth, 4, 1), UnitType::Healer).unwrap();
    assert_eq!(world.heal(healer, rocket), Err(GameError::InappropriateUnitType));
    assert_eq!(world.heal(healer, blue), Err(GameError::TeamNotAllowed));

    // Use the healer to heal the worker.
    assert!(world.can_heal(healer, worker_in_range));
    assert!(world.heal(healer, worker_in_range).is_ok());
    assert_eq!(world.get_unit(worker_in_range).unwrap().health(), 70);
}

#[test]
fn test_replicate() {
    let mut world = GameWorld::test_world();
    let worker = world.create_unit(Team::Red, MapLocation::new(Planet::Earth, 0, 0), UnitType::Worker).unwrap();
    let _ = world.create_unit(Team::Blue, MapLocation::new(Planet::Earth, 1, 0), UnitType::Factory).unwrap();

    // The worker cannot replicate to the west, because that space is off the map.
    assert!(!world.can_replicate(worker, Direction::West));
    assert_eq!(world.replicate(worker, Direction::West), Err(GameError::LocationOffMap));

    // The worker cannot replicate to the east, because that space is obstructed.
    assert!(!world.can_replicate(worker, Direction::East));
    assert_eq!(world.replicate(worker, Direction::East), Err(GameError::LocationNotEmpty));

    // The worker can replicate to the north.
    assert!(world.can_replicate(worker, Direction::North));
    assert!(world.replicate(worker, Direction::North).is_ok());
    assert_eq!(world.karbonite(), 85);

    // The child cannot replicate when there isn't enough Karbonite.
    world.team_states.get_mut(&Team::Red).unwrap().karbonite = 0;
    let child = world.sense_unit_at_location(MapLocation::new(Planet::Earth, 0, 1)).unwrap().unwrap().id();
    assert!(!world.can_replicate(child, Direction::North));
    assert_eq!(world.replicate(child, Direction::North), Err(GameError::InsufficientKarbonite));

    // After acquiring more Karbonite, replication is possible.
    world.team_states.get_mut(&Team::Red).unwrap().karbonite += 1000;
    assert!(world.can_replicate(child, Direction::North));
    assert!(world.replicate(child, Direction::North).is_ok());

    // The child cannot replicate again this round.
    assert!(!world.can_replicate(child, Direction::East));
    assert_eq!(world.replicate(child, Direction::East), Err(GameError::Overheated));

    // Even after ending the round, the child cannot replicate immediately again.
    world.end_round();
    assert!(!world.can_replicate(child, Direction::East));
    assert_eq!(world.replicate(child, Direction::East), Err(GameError::Overheated));
}

#[test]
fn test_repair() {
    let mut world = GameWorld::test_world();
    let factory = world.create_unit(Team::Red, MapLocation::new(Planet::Earth, 0, 0), UnitType::Factory).unwrap();
    let worker = world.create_unit(Team::Red, MapLocation::new(Planet::Earth, 1, 0), UnitType::Worker).unwrap();

    // The worker cannot repair the factory, as it is not yet built.
    assert!(!world.can_repair(worker, factory));
    assert_eq!(world.repair(worker, factory), Err(GameError::StructureNotYetBuilt));

    // After forcibly completing the structure, we damage it.
    unit_mut(&mut world, factory).be_built(1000);
    assert!(world.get_unit(factory).unwrap().structure_is_built().unwrap());
    unit_mut(&mut world, factory).take_damage(100);
    assert_eq!(world.get_unit(factory).unwrap().health(), 200);

    // The factory can now be repaired.
    assert!(world.can_repair(worker, factory));
    assert!(world.repair(worker, factory).is_ok());
    assert_eq!(world.get_unit(factory).unwrap().health(), 210);

    // The worker cannot repair again this turn.
    assert!(!world.can_repair(worker, factory));
    assert_eq!(world.repair(worker, factory), Err(GameError::Overheated));

    // After force-ending the round, the worker can repair again.
    world.end_round();
    assert!(world.can_repair(worker, factory));

    // If the worker moves away, it cannot repair the factory.
    assert!(world.move_robot(worker, Direction::East).is_ok());
    assert!(!world.can_repair(worker, factory));
    assert_eq!(world.repair(worker, factory), Err(GameError::OutOfRange));
}

#[test]
fn test_ranger_attack_range() {
    let mut world = GameWorld::test_world();
    let ranger = world.create_unit(Team::Red, MapLocation::new(Planet::Earth, 0, 0), UnitType::Ranger).unwrap();
    let too_close = world.create_unit(Team::Blue, MapLocation::new(Planet::Earth, 1, 0), UnitType::Ranger).unwrap();
    let too_far = world.create_unit(Team::Blue, MapLocation::new(Planet::Earth, 10, 0), UnitType::Ranger).unwrap();
    let just_right = world.create_unit(Team::Blue, MapLocation::new(Planet::Earth, 5, 0), UnitType::Ranger).unwrap();

    assert_eq!(world.attack(ranger, too_close), Err(GameError::OutOfRange));
    assert_eq!(world.attack(ranger, too_far), Err(GameError::OutOfRange));
    assert!(world.attack(ranger, just_right).is_ok());
}

#[test]
fn test_mage_splash() {
    let mut world = GameWorld::test_world();
    let mage = world.create_unit(Team::Red, MapLocation::new(Planet::Earth, 0, 0), UnitType::Mage).unwrap();
    let mut victims = vec![];
    for x in 1..4 {
        for y in 1..4 {
            victims.push(world.create_unit(Team::Red, MapLocation::new(Planet::Earth, x, y), UnitType::Factory).unwrap());
        }
    }

    // After attacking the middle factory, all factories should be damaged.
    for victim in victims.iter() {
        assert_eq!(world.get_unit(*victim).unwrap().health(), 75);
    }
    assert!(world.attack(mage, victims[4]).is_ok());
    for victim in victims.iter() {
        assert_eq!(world.get_unit(*victim).unwrap().health(), 15);
    }
}

#[test]
fn test_karbonite_production() {
    let mut world = GameWorld::test_world();
    assert_eq!(world.karbonite(), 100);
    world.end_round();
    assert_eq!(world.karbonite(), 108);
    world.end_round();
    assert_eq!(world.karbonite(), 116);
    world.end_round();
    assert_eq!(world.karbonite(), 124);
    world.end_round();
    assert_eq!(world.karbonite(), 131);
    world.end_round();
    assert_eq!(world.karbonite(), 138);
    world.end_round();
    assert_eq!(world.karbonite(), 145);
}

#[test]
fn test_apocalypse() {
    let mut world = GameWorld::test_world();
    let _ = world.create_unit(Team::Red, MapLocation::new(Planet::Earth, 0, 0), UnitType::Factory).unwrap();
    let _ = world.create_unit(Team::Red, MapLocation::new(Planet::Mars, 0, 0), UnitType::Factory).unwrap();

    // Both units exist until round 750.
    for _ in 1..750 {
        assert_eq!(world.get_planet(Planet::Earth).units.len(), 1);
        assert_eq!(world.get_planet(Planet::Mars).units.len(), 1);
        world.end_round();
    }

    // At the start of round 750, the Earth unit is destroyed.
    assert_eq!(world.get_planet(Planet::Earth).units.len(), 0);
    assert_eq!(world.get_planet(Planet::Mars).units.len(), 1);
}

#[test]
fn test_research_both_teams_and_in_space() {
    let mut world = GameWorld::test_world();
    let earth_worker = world.create_unit(Team::Red, MapLocation::new(Planet::Earth, 0, 0), UnitType::Worker).unwrap();
    let space_knight = world.create_unit(Team::Red, MapLocation::new(Planet::Earth, 1, 0), UnitType::Knight).unwrap();
    let space_rocket = world.create_unit(Team::Red, MapLocation::new(Planet::Earth, 1, 1), UnitType::Rocket).unwrap();
    let mars_worker = world.create_unit(Team::Red, MapLocation::new(Planet::Mars, 0, 0), UnitType::Knight).unwrap();
    let rocket_loc = MapLocation::new(Planet::Mars, 10, 10);

    // Queue research.
    assert!(world.queue_research(UnitType::Rocket));
    assert!(world.queue_research(UnitType::Worker));
    assert!(world.queue_research(UnitType::Knight));

    // Put some units in space.
    unit_mut(&mut world, space_rocket).be_built(1000);
    assert!(world.can_load(space_rocket, space_knight));
    assert!(world.load(space_rocket, space_knight).is_ok());
    assert!(world.can_launch_rocket(space_rocket, rocket_loc));
    let duration = flight(&world);
    assert!(world.launch_rocket(space_rocket, rocket_loc, duration).is_ok());

    let landings = world.rocket_landings();
    assert_eq!(landings.all().len(), 1);
    let &(_, landing) = landings.all().get(0).unwrap();
    assert_eq!(landing.rocket_id, space_rocket);
    assert_eq!(landing.destination, rocket_loc);

    // Queue research on the other team.
    assert!(world.queue_research(UnitType::Rocket));
    assert!(world.queue_research(UnitType::Worker));
    assert!(world.queue_research(UnitType::Knight));

    // Finish all the research in 150 rounds.
    for _ in 0..150 {
        world.end_round();
    }

    // Check that the unit levels have been upgraded.
    assert_eq!(world.get_unit(earth_worker).unwrap().research_level(), 1);
    assert_eq!(world.get_unit(space_knight).unwrap().research_level(), 1);
    assert_eq!(world.get_unit(space_rocket).unwrap().research_level(), 1);
    assert_eq!(world.get_unit(mars_worker).unwrap().research_level(), 1);

    // The Python bug occurred at round 400.
    for _ in 0..250 {
        world.end_round()
    }
}

#[test]
fn test_non_worker_units_doing_worker_actions() {
    let mut world = GameWorld::test_world();
    let non_worker = world.create_unit(Team::Red, MapLocation::new(Planet::Earth, 0, 1), UnitType::Knight).unwrap();
    let blueprint = world.create_unit(Team::Red, MapLocation::new(Planet::Earth, 1, 1), UnitType::Factory).unwrap();

    // The non-worker can't do worker actions, and the error is inappropriate unit type.
    assert!(!world.can_harvest(non_worker, Direction::North));
    assert_eq!(world.harvest(non_worker, Direction::North), Err(GameError::InappropriateUnitType));
    assert!(!world.can_blueprint(non_worker, UnitType::Factory, Direction::North));
    assert_eq!(world.blueprint(non_worker, UnitType::Factory, Direction::North), Err(GameError::InappropriateUnitType));
    assert!(!world.can_build(non_worker, blueprint));
    assert_eq!(world.build(non_worker, blueprint), Err(GameError::InappropriateUnitType));
    unit_mut(&mut world, blueprint).be_built(1000);
    unit_mut(&mut world, blueprint).take_damage(10);
    assert!(!world.can_repair(non_worker, blueprint));
    assert_eq!(world.repair(non_worker, blueprint), Err(GameError::InappropriateUnitType));
}

#[test]
fn game_over_tiebreaks() {
    let mut world = GameWorld::test_world();
    // One team without units ends the game; the higher unit value wins.
    world.create_unit(Team::Red, MapLocation::new(Planet::Earth, 0, 0), UnitType::Knight).unwrap();
    assert_eq!(world.is_game_over(), Some(Team::Red));
    world.create_unit(Team::Blue, MapLocation::new(Planet::Earth, 1, 0), UnitType::Knight).unwrap();
    assert_eq!(world.is_game_over(), None);
    world.create_unit(Team::Blue, MapLocation::new(Planet::Mars, 0, 0), UnitType::Factory).unwrap();
    assert_eq!(world.is_game_over(), None);

    // The outcome for given values, karbonite and coin.
    assert_eq!(battlecode_engine::world::game_winner(1, 10, 20, 0, 0, 0), None);
    assert_eq!(battlecode_engine::world::game_winner(1000, 10, 20, 0, 0, 0), None);
    assert_eq!(battlecode_engine::world::game_winner(1001, 10, 20, 0, 0, 0), Some(Team::Blue));
    assert_eq!(battlecode_engine::world::game_winner(1001, 20, 10, 0, 0, 0), Some(Team::Red));
    assert_eq!(battlecode_engine::world::game_winner(1001, 0, 0, 10, 0, 0), Some(Team::Red));
    assert_eq!(battlecode_engine::world::game_winner(1001, 0, 0, 10, 30, 1), Some(Team::Blue));
    assert_eq!(battlecode_engine::world::game_winner(1001, 0, 0, 5, 5, 2), Some(Team::Blue));
    assert_eq!(battlecode_engine::world::game_winner(1001, 0, 0, 5, 5, 3), Some(Team::Red));
    assert_eq!(battlecode_engine::world::game_winner(5, 0, 40, 0, 0, 0), Some(Team::Blue));
}

#[test]
fn viewer_changes_and_units() {
    let mut world = GameWorld::test_world();
    let a = world.create_unit(Team::Red, MapLocation::new(Planet::Earth, 3, 4), UnitType::Knight).unwrap();
    let _ = world.create_unit(Team::Blue, MapLocation::new(Planet::Mars, 1, 1), UnitType::Ranger).unwrap();
    let units = world.get_viewer_units();
    assert_eq!(units.len(), 2);
    assert_eq!(units[0].id, a);
    assert_eq!(units[0].location, OnMap(MapLocation::new(Planet::Earth, 3, 4)));
    assert_eq!(units[0].health, 250);
    assert_eq!(world.flush_viewer_changes().len(), 0);
}

#[test]
fn turns_rotate_players_and_rounds() {
    let mut world = GameWorld::test_world();
    assert_eq!(world.round(), 1);
    assert_eq!((world.team(), world.planet()), (Team::Red, Planet::Earth));
    world.end_turn();
    assert_eq!((world.team(), world.planet()), (Team::Blue, Planet::Earth));
    world.end_turn();
    assert_eq!((world.team(), world.planet()), (Team::Red, Planet::Mars));
    world.end_turn();
    assert_eq!((world.team(), world.planet()), (Team::Blue, Planet::Mars));
    assert_eq!(world.round(), 1);
    world.end_turn();
    assert_eq!((world.team(), world.planet()), (Team::Red, Planet::Earth));
    assert_eq!(world.round(), 2);
}

#[test]
fn test_sensing_with_filter() {
    // Create a world with some units on Earth, on Mars, and in space.
    let initial_units_earth = vec![
        Unit::new(1, Team::Red, UnitType::Worker, 0, OnMap(MapLocation::new(Planet::Earth, 9, 10))).unwrap(),
        Unit::new(2, Team::Red, UnitType::Mage, 0, OnMap(MapLocation::new(Planet::Earth, 10, 11))).unwrap(),
        Unit::new(3, Team::Red, UnitType::Rocket, 0, OnMap(MapLocation::new(Planet::Earth, 10, 10))).unwrap(),
        Unit::new(4, Team::Blue, UnitType::Mage, 0, OnMap(MapLocation::new(Planet::Earth, 11, 10))).unwrap(),
        Unit::new(5, Team::Blue, UnitType::Worker, 0, OnMap(MapLocation::new(Planet::Earth, 29, 29))).unwrap(),
    ];
    let mut map = GameMap::test_map();
    map.earth_map = PlanetMap {
        planet: Planet::Earth,
        height: 30,
        width: 30,
        initial_units: initial_units_earth,
        is_passable_terrain: vec![vec![true; 30]; 30],
        initial_karbonite: vec![vec![0; 30]; 30],
    };
    let mut world = GameWorld::new(map);
    unit_mut(&mut world, 3).be_built(1000);

    // Red can see 4 units initially on Earth.
    let mut red_world = world.filter(Player::new(world.team(), world.planet()));
    assert_eq!(red_world.units().len(), 4);

    // After a unit is loaded, it's no longer indexed by location.
    assert!(red_world.load(3, 1).is_ok());
    assert_eq!(red_world.units_by_loc().values().len(), 3);

    // After the rocket launches, it and the garrisoned unit enter space.
    let duration = flight(&red_world);
    assert!(red_world.launch_rocket(3, MapLocation::new(Planet::Mars, 10, 10), duration).is_ok());
    assert_eq!(red_world.units().len(), 2);
    assert_eq!(red_world.units_in_space().len(), 2);
    assert_eq!(red_world.units_by_id().values().len(), 2);
    assert_eq!(red_world.units_by_loc().values().len(), 2);

    // Those 4 units are the same units that Red can sense.
    assert!(red_world.can_sense_unit(1));
    assert!(red_world.can_sense_unit(2));
    assert!(red_world.can_sense_unit(3));
    assert!(red_world.can_sense_unit(4));
    assert!(!red_world.can_sense_unit(5));

    // Red can see locations within Unit 2's sensing range.
    let loc_off_map_1 = MapLocation::new(Planet::Mars, 10, 10);
    let loc_off_map_2 = MapLocation::new(Planet::Earth, 2, -2);
    let loc_off_map_3 = MapLocation::new(Planet::Earth, 10, 30);
    let loc_out_of_red_range = MapLocation::new(Planet::Earth, 15, 15);
    let loc_in_red_range = MapLocation::new(Planet::Earth, 14, 14);
    assert!(!red_world.can_sense_location(loc_off_map_1));
    assert!(!red_world.can_sense_location(loc_off_map_2));
    assert!(!red_world.can_sense_location(loc_off_map_3));
    assert!(!red_world.can_sense_location(loc_out_of_red_range));
    assert!(red_world.can_sense_location(loc_in_red_range));

    // Nearby sensing functions should work as expected.
    let red_mage_loc = MapLocation::new(Planet::Earth, 10, 10);
    assert_eq!(red_world.sense_nearby_units(red_mage_loc, 10).len(), 2);
    assert_eq!(red_world.sense_nearby_units_by_team(red_mage_loc, 10, Team::Red).len(), 1);
    assert_eq!(red_world.sense_nearby_units_by_team(red_mage_loc, 10, Team::Blue).len(), 1);
    assert_eq!(red_world.sense_nearby_units_by_type(red_mage_loc, 10, UnitType::Mage).len(), 2);

    // Red cannot see the Blue worker, but it can see the Blue mage.
    assert_eq!(
        red_world.sense_unit_at_location(MapLocation::new(Planet::Earth, 29, 29)).err(),
        Some(GameError::LocationNotVisible)
    );
    assert!(red_world.sense_unit_at_location(MapLocation::new(Planet::Earth, 11, 10)).unwrap().is_some());
}

#[test]
fn test_player_methods_on_mars_shouldnt_use_get_unit() {
    let mut world = GameWorld::test_world();
    let mars_loc = MapLocation::new(Planet::Mars, 10, 5);
    let mars_unit = world.create_unit(Team::Red, mars_loc, UnitType::Knight).unwrap();
    let mars_enemy = world.create_unit(Team::Blue, mars_loc.add(Direction::East), UnitType::Healer).unwrap();

    // go to red mars turn
    world.end_turn();
    world.end_turn();

    // sense that unit
    let player = Player::new(Team::Red, Planet::Mars);
    let mut mars_world = world.filter(player);
    assert_eq!(mars_world.sense_nearby_units(mars_loc, 100).len(), 2);
    assert_eq!(mars_world.sense_nearby_units_by_team(mars_loc, 100, Team::Red).len(), 1);
    assert_eq!(mars_world.sense_nearby_units_by_type(mars_loc, 100, UnitType::Healer).len(), 1);
    assert_eq!(mars_world.sense_nearby_units_by_type(mars_loc, 100, UnitType::Mage).len(), 0);
    assert!(mars_world.sense_unit_at_location(mars_loc).unwrap().is_some());

    // disintegrate that unit
    assert!(world.disintegrate_unit(mars_unit).is_ok());
    assert!(mars_world.disintegrate_unit(mars_unit).is_ok());

    // check attacking
    assert!(!world.can_attack(mars_unit, mars_enemy));
    assert!(!mars_world.can_attack(mars_unit, mars_enemy));
}

#[test]
fn filter_keeps_what_the_player_sees() {
    let mut world = GameWorld::test_world();
    let red = world.create_unit(Team::Red, MapLocation::new(Planet::Earth, 0, 0), UnitType::Worker).unwrap();
    let near = world.create_unit(Team::Blue, MapLocation::new(Planet::Earth, 3, 3), UnitType::Knight).unwrap();
    let far = world.create_unit(Team::Blue, MapLocation::new(Planet::Earth, 19, 19), UnitType::Knight).unwrap();
    let red_view = world.filter(Player::new(Team::Red, Planet::Earth));
    assert!(red_view.can_sense_unit(red));
    assert!(red_view.can_sense_unit(near));
    assert!(!red_view.can_sense_unit(far));
    assert!(red_view.can_sense_location(MapLocation::new(Planet::Earth, 7, 0)));
    assert!(!red_view.can_sense_location(MapLocation::new(Planet::Earth, 8, 0)));
    assert_eq!(red_view.karbonite(), world.karbonite());
    assert_eq!(red_view.round(), world.round());
}

// a filler time that only has meaning in the context of actual games
// run under time duress
const FILLER_TIME: i32 = 10000;

/// Ends the current turn of the engine's world, and brings the view of the
/// player who moves next up to date with the message of its new turn.
fn end_turn_into(world: &mut GameWorld, view: &mut GameWorld) {
    world.end_turn();
    let player = Player::new(world.team(), world.planet());
    let now = world.filter(player);
    let stm = now.start_turn_message(view, FILLER_TIME);
    view.start_turn(&stm);
}

#[test]
fn test_end_turn_trivial() {
    let mut world = GameWorld::new(GameMap::test_map());
    let players = [
        Player::new(Team::Blue, Planet::Earth),
        Player::new(Team::Red, Planet::Mars),
        Player::new(Team::Blue, Planet::Mars),
        Player::new(Team::Red, Planet::Earth),
    ];
    let old_worlds: Vec<GameWorld> = players.iter().map(|p| world.filter(*p)).collect();
    let new_rounds = [1, 1, 1, 2];

    // There should be no changes in each of the first two turns between
    // the initial filtered map and the next turn's filtered map.
    for i in 0..3 {
        world.end_turn();
        let now = world.filter(players[i]);
        let stm = now.start_turn_message(&old_worlds[i], FILLER_TIME);
        let old_planet = old_worlds[i].get_planet(players[i].planet);
        let old_team = old_worlds[i].get_team(players[i].team);
        assert_eq!(stm.round, new_rounds[i]);
        assert_eq!(stm.visible_locs, old_planet.visible_locs);
        assert_eq!(stm.units_changed.len(), 0);
        assert_eq!(stm.units_vanished.len(), 0);
        assert_eq!(stm.karbonite_changed.len(), 0);
        assert_eq!(stm.units_in_space_changed.len(), 0);
        assert_eq!(stm.units_in_space_vanished.len(), 0);
        assert_eq!(stm.other_array_changed.len(), 0);
        assert_eq!(stm.rocket_landings.all(), old_team.rocket_landings.all());
        assert_eq!(stm.research.get_queue(), old_team.research.get_queue());
        assert_eq!(stm.karbonite, old_team.karbonite);
    }
}

#[test]
fn test_filter_visibility() {
    let initial_units_earth = vec![
        Unit::new(1, Team::Red, UnitType::Worker, 0, OnMap(MapLocation::new(Planet::Earth, 0, 0))).unwrap(),
        Unit::new(2, Team::Red, UnitType::Mage, 0, OnMap(MapLocation::new(Planet::Earth, 10, 11))).unwrap(),
        Unit::new(3, Team::Red, UnitType::Rocket, 0, OnMap(MapLocation::new(Planet::Earth, 10, 10))).unwrap(),
        Unit::new(4, Team::Blue, UnitType::Mage, 0, OnMap(MapLocation::new(Planet::Earth, 11, 10))).unwrap(),
        Unit::new(5, Team::Blue, UnitType::Worker, 0, OnMap(MapLocation::new(Planet::Earth, 29, 29))).unwrap(),
    ];

    let mut map = GameMap::test_map();
    map.earth_map = PlanetMap {
        planet: Planet::Earth,
        height: 30,
        width: 30,
        initial_units: initial_units_earth,
        is_passable_terrain: vec![vec![true; 30]; 30],
        initial_karbonite: vec![vec![0; 30]; 30],
    };
    let mut world = GameWorld::new(map);
    let red_world = world.filter(Player::new(Team::Red, Planet::Earth));
    let mut blue_world = world.filter(Player::new(Team::Blue, Planet::Earth));

    // The Devs engine can see all the units.
    assert!(world.unit(1).is_ok());
    assert!(world.unit(2).is_ok());
    assert!(world.unit(3).is_ok());
    assert!(world.unit(4).is_ok());
    assert!(world.unit(5).is_ok());

    // The Red Earth engine cannot see 5, which is not in range.
    assert!(red_world.unit(1).is_ok());
    assert!(red_world.unit(2).is_ok());
    assert!(red_world.unit(3).is_ok());
    assert!(red_world.unit(4).is_ok());
    assert_eq!(red_world.unit(5).err(), Some(GameError::NoSuchUnit));

    // The Blue Earth engine cannot see 1, which is not in range.
    end_turn_into(&mut world, &mut blue_world);
    assert_eq!(blue_world.unit(1).err(), Some(GameError::NoSuchUnit));
    assert!(blue_world.unit(2).is_ok());
    assert!(blue_world.unit(3).is_ok());
    assert!(blue_world.unit(4).is_ok());
    assert!(blue_world.unit(5).is_ok());
}

#[test]
fn test_unit_destroy_with_filter() {
    let mut world = GameWorld::test_world();
    let mut blue_world = world.filter(Player::new(Team::Blue, Planet::Earth));
    let loc_a = MapLocation::new(Planet::Earth, 0, 1);
    let loc_b = MapLocation::new(Planet::Earth, 0, 2);
    let loc_c = MapLocation::new(Planet::Earth, 0, 3);
    let id_a = world.create_unit(Team::Red, loc_a, UnitType::Rocket).unwrap();
    unit_mut(&mut world, id_a).be_built(1000);
    let id_b = world.create_unit(Team::Red, loc_b, UnitType::Knight).unwrap();
    world.create_unit(Team::Blue, loc_c, UnitType::Knight).unwrap();

    // Load the rocket with a unit.
    assert!(world.load(id_a, id_b).is_ok());

    // Filter the world on Blue's turn.
    end_turn_into(&mut world, &mut blue_world);

    // Destroy the loaded rocket in the Dev engine.
    assert_eq!(world.planet_states[&Planet::Earth].units.len(), 3);
    assert_eq!(world.planet_states[&Planet::Earth].units_by_loc.len(), 2);
    world.destroy_unit(id_a);
    assert_eq!(world.planet_states[&Planet::Earth].units.len(), 1);
    assert_eq!(world.planet_states[&Planet::Earth].units_by_loc.len(), 1);

    // Destroy the loaded rocket in the Blue engine.
    assert_eq!(blue_world.planet_states[&Planet::Earth].units.len(), 3);
    assert_eq!(blue_world.planet_states[&Planet::Earth].units_by_loc.len(), 2);
    blue_world.destroy_unit(id_a);
    assert_eq!(blue_world.planet_states[&Planet::Earth].units.len(), 1);
    assert_eq!(blue_world.planet_states[&Planet::Earth].units_by_loc.len(), 1);
}

#[test]
fn turn_message_tells_what_changed() {
    let mut world = GameWorld::test_world();
    let mut red_view = world.filter(Player::new(Team::Red, Planet::Earth));
    let knight = world.create_unit(Team::Red, MapLocation::new(Planet::Earth, 4, 4), UnitType::Knight).unwrap();
    // A full round later Red's view holds the knight, and its karbonite.
    for _ in 0..3 {
        world.end_turn();
    }
    end_turn_into(&mut world, &mut red_view);
    assert_eq!(red_view.round(), 2);
    assert!(red_view.unit(knight).is_ok());
    assert_eq!(red_view.karbonite(), world.karbonite());
    assert!(red_view.can_sense_location(MapLocation::new(Planet::Earth, 4, 8)));
    // The knight leaves Red's view when it is gone.
    world.destroy_unit(knight);
    for _ in 0..3 {
        world.end_turn();
    }
    end_turn_into(&mut world, &mut red_view);
    assert_eq!(red_view.unit(knight).err(), Some(GameError::NoSuchUnit));
    assert_eq!(red_view.round(), 3);
}

#[test]
fn apply_turn_moves_and_tells_the_next_player() {
    let mut world = GameWorld::test_world();
    let knight = world.create_unit(Team::Red, MapLocation::new(Planet::Earth, 5, 5), UnitType::Knight).unwrap();
    let blue = world.create_unit(Team::Blue, MapLocation::new(Planet::Earth, 8, 5), UnitType::Knight).unwrap();
    let blue_view = world.filter(Player::new(Team::Blue, Planet::Earth));

    // Red cannot move Blue's knight; the turn fails with the error.
    let bad = TurnMessage { changes: vec![Delta::Move { robot_id: blue, direction: Direction::East }] };
    assert_eq!(world.apply_turn(&bad, 100, &blue_view, FILLER_TIME).err(), Some(GameError::TeamNotAllowed));

    // Red moves its knight east; Blue learns of it.
    let turn = TurnMessage { changes: vec![Delta::Move { robot_id: knight, direction: Direction::East }] };
    let (now, stm) = world.apply_turn(&turn, 100, &blue_view, FILLER_TIME).unwrap();
    assert_eq!((now.team(), now.planet()), (Team::Blue, Planet::Earth));
    assert_eq!(stm.round, 1);
    assert_eq!(stm.time_left_ms, FILLER_TIME);
    assert_eq!(stm.units_changed.len(), 1);
    assert_eq!(stm.units_changed[0].id(), knight);
    assert_eq!(stm.units_changed[0].location(), OnMap(MapLocation::new(Planet::Earth, 6, 5)));
    assert_eq!(stm.units_vanished.len(), 0);

    // The first message of the game tells of no change.
    let fresh = GameWorld::test_world().filter(Player::new(Team::Red, Planet::Earth));
    let first = fresh.initial_start_turn_message(FILLER_TIME);
    assert_eq!(first.round, 1);
    assert_eq!(first.units_changed.len(), 0);
    assert_eq!(first.karbonite, KARBONITE_STARTING);
}

#[test]
fn refused_deltas_change_nothing() {
    let mut world = GameWorld::test_world();
    let loc = MapLocation::new(Planet::Earth, 5, 5);
    let worker = world.create_unit(Team::Red, loc, UnitType::Worker).unwrap();
    let units_before = format!("{:?}", world.units());
    let karbonite_before = world.karbonite();
    let refused = [
        (Delta::Move { robot_id: worker + 100, direction: Direction::North }, GameError::NoSuchUnit),
        (Delta::WriteTeamArray { index: 1000, value: 3 }, GameError::ArrayOutOfBounds),
    ];
    for (delta, error) in refused.iter() {
        assert_eq!(world.apply(delta, 0), Err(*error));
        assert_eq!(format!("{:?}", world.units()), units_before);
        assert_eq!(world.karbonite(), karbonite_before);
    }
    let also_refused = [
        Delta::Attack { robot_id: worker, target_unit_id: worker + 100 },
        Delta::Build { worker_id: worker, blueprint_id: worker + 100 },
        Delta::Harvest { worker_id: worker + 100, direction: Direction::East },
    ];
    for delta in also_refused.iter() {
        assert!(world.apply(delta, 0).is_err());
        assert_eq!(format!("{:?}", world.units()), units_before);
        assert_eq!(world.karbonite(), karbonite_before);
    }
    assert_eq!(world.get_team_array(Planet::Earth)[0], 0);
    assert!(world.apply(&Delta::WriteTeamArray { index: 0, value: 7 }, 0).is_ok());
    assert_eq!(world.get_team_array(Planet::Earth)[0], 7);
}

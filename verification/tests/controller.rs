use battlecode_engine::controller::{check_message, GameController, MessageError, Stream};
use battlecode_engine::location::{Direction, Location, MapLocation, Planet};
use battlecode_engine::map::GameMap;
use battlecode_engine::schema::Delta;
use battlecode_engine::unit::{Unit, UnitType};
use battlecode_engine::world::{Player, Team};
use battlecode_engine::schema::ReceivedMessage;

fn envelope(logged_in: bool, client_id: &str, error: Option<&str>, message: Option<u8>) -> ReceivedMessage<u8> {
    ReceivedMessage {
        logged_in,
        client_id: client_id.to_string(),
        error: error.map(|e| e.to_string()),
        message,
    }
}

#[test]
fn accepts_a_message_for_this_player() {
    assert_eq!(check_message(envelope(true, "key", None, Some(27)), "key"), Ok(27));
}

#[test]
fn refuses_messages_in_order() {
    assert_eq!(check_message(envelope(false, "other", Some("e"), None), "key"), Err(MessageError::NotLoggedIn));
    assert_eq!(
        check_message(envelope(true, "other", Some("e"), None), "key"),
        Err(MessageError::WrongClientId { expected: "key".to_string(), actual: "other".to_string() })
    );
    assert_eq!(
        check_message(envelope(true, "key", Some("bees"), Some(1)), "key"),
        Err(MessageError::ManagerError { error: "bees".to_string() })
    );
    assert_eq!(check_message(envelope(true, "key", None, None), "key"), Err(MessageError::NoMessage));
}

#[test]
fn framing_splits_lines() {
    let mut s = Stream::new();
    assert_eq!(s.take_line(), None);
    assert_eq!(s.receive(b"27"), None);
    assert_eq!(s.receive(b"5\n[\"hel"), Some(b"275".to_vec()));
    assert_eq!(s.receive(b"lo\"]\n1\n2\n"), Some(b"[\"hello\"]".to_vec()));
    assert_eq!(s.take_line(), Some(b"1".to_vec()));
    assert_eq!(s.take_line(), Some(b"2".to_vec()));
    assert_eq!(s.take_line(), None);
}

/// The test map with a red knight at (0, 0) and a blue knight at (1, 0) on
/// Earth.
fn knights_map() -> GameMap {
    let mut map = GameMap::test_map();
    map.earth_map.initial_units = vec![
        Unit::new(1, Team::Red, UnitType::Knight, 0, Location::OnMap(MapLocation::new(Planet::Earth, 0, 0))).unwrap(),
        Unit::new(2, Team::Blue, UnitType::Knight, 0, Location::OnMap(MapLocation::new(Planet::Earth, 1, 0))).unwrap(),
    ];
    map
}

/// Red moves its knight, the manager applies red's turn, and blue sees the
/// move in its own state.
fn red_then_blue(start_red_with_message: bool) {
    let red_player = Player::new(Team::Red, Planet::Earth);
    let blue_player = Player::new(Team::Blue, Planet::Earth);
    let mut manager_controller = GameController::new_manager(knights_map());
    let red_robot = 1;
    let blue_robot = 2;

    let red_start_game_msg = manager_controller.start_game(red_player);
    let blue_start_game_msg = manager_controller.start_game(blue_player);
    let blue_view = manager_controller.start_game(blue_player).world;
    let mut player_controller_red = GameController::new_player(red_start_game_msg);
    let mut player_controller_blue = GameController::new_player(blue_start_game_msg);

    if start_red_with_message {
        let initial = manager_controller.initial_start_turn_message(0);
        let red_view = manager_controller.start_game(red_player).world;
        let first = red_view.initial_start_turn_message(0);
        assert_eq!(initial.round, first.round);
        player_controller_red.start_turn(&first);
    }
    assert!(!player_controller_red.world().can_move(red_robot, Direction::East));
    assert!(player_controller_red.world().can_move(red_robot, Direction::Northeast));
    assert!(player_controller_red.move_robot(red_robot, Direction::Northeast).is_ok());

    let red_turn_msg = player_controller_red.end_turn();
    assert_eq!(red_turn_msg.changes, vec![Delta::Move { robot_id: red_robot, direction: Direction::Northeast }]);
    let (_, application) = manager_controller.apply_turn(&red_turn_msg, 0, &blue_view, 0).unwrap();
    assert_eq!(application.viewer.changes, red_turn_msg.changes);
    player_controller_blue.start_turn(&application.start_turn);

    assert!(!player_controller_blue.world().can_move(blue_robot, Direction::North));
    assert!(player_controller_blue.world().can_move(blue_robot, Direction::West));
    assert!(player_controller_blue.move_robot(blue_robot, Direction::West).is_ok());
}

#[test]
fn controller_test_turn() {
    red_then_blue(false);
}

#[test]
fn mod_test_turn() {
    red_then_blue(true);
}

#[test]
fn failed_actions_are_not_recorded() {
    let mut manager_controller = GameController::new_manager(knights_map());
    let red = manager_controller.start_game(Player::new(Team::Red, Planet::Earth));
    let mut player = GameController::new_player(red);
    assert!(player.move_robot(2, Direction::West).is_err());
    assert!(player.move_robot(1, Direction::East).is_err());
    assert_eq!(player.write_team_array(3, 9), Ok(()));
    assert!(player.move_robot(1, Direction::North).is_ok());
    assert_eq!(player.queue_research(UnitType::Knight), Ok(true));
    let turn = player.end_turn();
    assert_eq!(
        turn.changes,
        vec![
            Delta::WriteTeamArray { index: 3, value: 9 },
            Delta::Move { robot_id: 1, direction: Direction::North },
            Delta::QueueResearch { branch: UnitType::Knight },
        ]
    );
}

#[test]
fn player_queries_see_its_own_world() {
    let mut manager_controller = GameController::new_manager(knights_map());
    let red = manager_controller.start_game(Player::new(Team::Red, Planet::Earth));
    let player = GameController::new_player(red);
    assert_eq!(player.round(), 1);
    assert_eq!(player.planet(), Planet::Earth);
    assert_eq!(player.team(), Team::Red);
    let mine = player.my_units();
    assert_eq!(mine.len(), 1);
    assert_eq!(mine[0].id, 1);
    assert_eq!(player.units().len(), 2);
    assert!(player.has_unit_at_location(MapLocation::new(Planet::Earth, 0, 0)));
    assert!(!player.has_unit_at_location(MapLocation::new(Planet::Earth, 5, 5)));
    assert!(player.can_move(1, Direction::North));
    assert!(!player.can_move(1, Direction::East));
    assert!(player.is_move_ready(1));
    assert_eq!(player.unit(1).unwrap().location, Location::OnMap(MapLocation::new(Planet::Earth, 0, 0)));
}

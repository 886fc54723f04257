//! The messages that can be sent to and from the engine: the changes a
//! player makes in a turn, what the viewer is told, and the envelope of a
//! message from the manager.
use vstd::prelude::*;
use crate::id_generator::IDGenerator;
use crate::location::{Direction, Location, MapLocation};
use crate::research::ResearchInfo;
use crate::rockets::RocketLandingInfo;
use crate::unit::{Unit, UnitID, UnitType};
use crate::world::{GameWorld, Rounds};

verus! {

/// A single, atomic "change" in the game world.
#[derive(Debug, Clone, Copy, PartialEq, Eq, Structural)]
pub enum Delta {
    /// Commands the given robot to attack a location.
    Attack { robot_id: UnitID, target_unit_id: UnitID },
    /// Commands the given ranger to begin sniping the given location.
    BeginSnipe { ranger_id: UnitID, location: MapLocation },
    /// Commands the given worker to blueprint a structure.
    Blueprint { worker_id: UnitID, structure_type: UnitType, direction: Direction },
    /// Commands the given mage to blink to the given location.
    Blink { mage_id: UnitID, location: MapLocation },
    /// Commands the given worker to build a blueprint.
    Build { worker_id: UnitID, blueprint_id: UnitID },
    /// Commands the given unit to disintegrate.
    Disintegrate { unit_id: UnitID },
    /// Commands the given worker to mine karbonite from an adjacent square.
    Harvest { worker_id: UnitID, direction: Direction },
    /// Commands the given healer to heal the given robot.
    Heal { healer_id: UnitID, target_robot_id: UnitID },
    /// Commands the given knight to throw a javelin at the given location.
    Javelin { knight_id: UnitID, target_unit_id: UnitID },
    /// Commands the given rocket to launch, ultimately landing in the specified location.
    LaunchRocket { rocket_id: UnitID, location: MapLocation },
    /// Commands the given structure to load the specified robot into its garrison.
    Load { structure_id: UnitID, robot_id: UnitID },
    /// Commands the given robot to move in the given direction.
    Move { robot_id: UnitID, direction: Direction },
    /// Commands the given healer to overcharge the specified robot.
    Overcharge { healer_id: UnitID, target_robot_id: UnitID },
    /// Commands the given factory to produce a robot.
    ProduceRobot { factory_id: UnitID, robot_type: UnitType },
    /// Queues the next level of the given research branch.
    QueueResearch { branch: UnitType },
    /// Commands the given worker to repair the specified strucutre.
    Repair { worker_id: UnitID, structure_id: UnitID },
    /// Commands the given worker to replicate in the given direction.
    Replicate { worker_id: UnitID, direction: Direction },
    /// Resets the current research queue, for the specified team.
    ResetResearchQueue,
    /// Commands the given structure to unload a unit in the given direction.
    Unload { structure_id: UnitID, direction: Direction },
    /// Writes the value at the index of this player's team array.
    WriteTeamArray { index: usize, value: i32 },
    /// Nothing happens.
    Nothing,
}

/// A single game turn sent to the manager.
#[derive(Debug, Clone, PartialEq, Eq)]
pub struct TurnMessage {
    /// The changes to the game world.
    pub changes: Vec<Delta>,
}

/// A list of updates since the player's last turn sent to the player.
pub struct StartTurnMessage {
    /// The time the player has left, in milliseconds.
    pub time_left_ms: i32,
    /// The current round.
    pub round: Rounds,
    /// The squares of the player's planet that the player sees.
    pub visible_locs: Vec<Vec<bool>>,
    /// The units the player sees that are new or changed.
    pub units_changed: Vec<Unit>,
    /// The units the player saw and sees no more.
    pub units_vanished: Vec<UnitID>,
    /// The squares whose karbonite changed, with their new karbonite.
    pub karbonite_changed: Vec<(MapLocation, u32)>,
    /// The unit ID generator.
    pub id_generator: IDGenerator,
    /// The team's units in space that are new or changed.
    pub units_in_space_changed: Vec<Unit>,
    /// The team's units that left space.
    pub units_in_space_vanished: Vec<UnitID>,
    /// The entries of the other planet's team array that changed.
    pub other_array_changed: Vec<(usize, i32)>,
    /// The team's rocket landings.
    pub rocket_landings: RocketLandingInfo,
    /// The team's research.
    pub research: ResearchInfo,
    /// The team's karbonite.
    pub karbonite: u32,
}

/// The truncated unit info needed by the viewer.
#[derive(Debug, Clone, Copy, PartialEq, Eq, Structural)]
pub struct ViewerUnitInfo {
    pub id: UnitID,
    pub unit_type: UnitType,
    pub health: u32,
    pub location: Location,
}

/// Additional information that the viewer may need.
#[derive(Debug, Clone, Copy, PartialEq, Eq, Structural)]
pub enum ViewerDelta {
    AsteroidStrike { location: MapLocation },
    RocketLanding { rocket_id: UnitID, location: MapLocation },
    RangerSnipe { ranger_id: UnitID, target_location: MapLocation },
}

/// A description of the current game state, for the viewer.
#[derive(Debug, Clone, PartialEq, Eq)]
pub struct ViewerMessage {
    /// The changes made in the turn.
    pub changes: Vec<Delta>,
    pub units: Vec<ViewerUnitInfo>,
    pub additional_changes: Vec<ViewerDelta>,
}

/// The message that starts the game for a player: the player's view of
/// the world.
pub struct StartGameMessage {
    /// The player's view of the world.
    pub world: GameWorld,
}

/// What applying a turn sends on: the message that starts the next
/// player's turn, and what the viewer is told.
pub struct TurnApplication {
    /// The message that starts the next player's turn.
    pub start_turn: StartTurnMessage,
    /// What the viewer is told of the turn.
    pub viewer: ViewerMessage,
}

/// An error message in response to some error.
#[derive(Debug, Clone, PartialEq, Eq)]
pub struct ErrorMessage {
    /// The error string.
    pub error: String,
}

/// The message with which a player logs in.
#[derive(Debug, Clone, PartialEq, Eq)]
pub struct LoginMessage {
    pub client_id: String,
}

/// A message from the manager, in its envelope.
#[derive(Debug, Clone, PartialEq, Eq)]
pub struct ReceivedMessage<T> {
    pub logged_in: bool,
    pub client_id: String,
    pub error: Option<String>,
    pub message: Option<T>,
}

/// A player's turn, in its envelope.
#[derive(Debug, Clone, PartialEq, Eq)]
pub struct SentMessage {
    pub client_id: String,
    pub turn_message: TurnMessage,
}

} // verus!

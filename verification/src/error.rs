//! Detailed game errors.
use vstd::prelude::*;
use crate::unit::UnitType;

verus! {

/// Detailed game errors.
#[derive(Debug, Clone, Copy, PartialEq, Eq, Structural)]
pub enum GameError {
    /// You cannot read outside of the bounds of the communication array.
    ArrayOutOfBounds,
    /// You cannot build structures on Mars.
    CannotBuildOnMars,
    /// The locations are on different planets.
    DifferentPlanet,
    /// The factory is already producing a unit.
    FactoryBusy,
    /// The structure's garrison is empty.
    GarrisonEmpty,
    /// The structure's garrison is full.
    GarrisonFull,
    /// The given unit does not have a type appropriate for the given action.
    InappropriateUnitType,
    /// The map-related object is invalid.
    InvalidMapObject,
    /// Your team does not have enough Karbonite to perform the requested action.
    InsufficientKarbonite,
    /// The Karbonite deposit is empty and cannot be harvested further.
    KarboniteDepositEmpty,
    /// The location corresponding to the requested action is not empty.
    LocationNotEmpty,
    /// The location is outside your vision range.
    LocationNotVisible,
    /// The location is off the map of the current planet.
    LocationOffMap,
    /// The specified unit does not exist, at least within your vision range.
    NoSuchUnit,
    /// No object returned, check whether it exists first.
    NullValue,
    /// The unit is too far away to perform an action.
    OutOfRange,
    /// The unit's heat is not low enough to perform the requested action.
    Overheated,
    /// The level of research does not exist for this branch.
    ResearchLevelInvalid,
    /// The level of research has not been unlocked by your team.
    ResearchNotUnlocked { unit_type: UnitType },
    /// The rocket has already been used.
    RocketUsed,
    /// Rockets cannot be flown to other locations on the same planet.
    SamePlanet,
    /// The structure has already been completed, and cannot be built further.
    StructureAlreadyBuilt,
    /// The structure has not yet been completed, and cannot perform actions yet.
    StructureNotYetBuilt,
    /// You are not allowed to control units on the other team.
    TeamNotAllowed,
    /// The unit is in a structure's garrison or flying through space.
    UnitNotOnMap,
    /// The unit is not in a structure's garrison.
    UnitNotInGarrison,
    /// The requested action cannot be performed in the unit's current state.
    InvalidAction,
    /// The engine reached a state that its rules do not allow.
    InternalEngineError,
}

impl GameError {
    /// A human-readable description of the error.
    /// The text that [`GameError::description`] gives of an error.
    pub open spec fn description_text(&self) -> Seq<char> {
        match *self {
            GameError::ArrayOutOfBounds => "You cannot read outside of the bounds of the communication array."@,
            GameError::CannotBuildOnMars => "You cannot build structures on Mars."@,
            GameError::DifferentPlanet => "The locations are on different planets."@,
            GameError::FactoryBusy => "The factory is already producing a unit."@,
            GameError::GarrisonEmpty => "The structure's garrison is empty."@,
            GameError::GarrisonFull => "The structure's garrison is full."@,
            GameError::InappropriateUnitType => "The given unit does not have a type appropriate for the given action."@,
            GameError::InvalidMapObject => "The map-related object is invalid."@,
            GameError::InsufficientKarbonite => "Your team does not have enough Karbonite to perform the requested action."@,
            GameError::KarboniteDepositEmpty => "The Karbonite deposit is empty and cannot be harvested further."@,
            GameError::LocationNotEmpty => "The location corresponding to the requested action is not empty."@,
            GameError::LocationNotVisible => "The location is outside your vision range."@,
            GameError::LocationOffMap => "The location is off the map of the current planet."@,
            GameError::NoSuchUnit => "The specified unit does not exist, at least within your vision range."@,
            GameError::NullValue => "No object returned, check whether it exists first."@,
            GameError::OutOfRange => "The unit is too far away to perform an action."@,
            GameError::Overheated => "The unit's heat is not low enough to perform the requested action."@,
            GameError::ResearchLevelInvalid => "The level of research does not exist for this branch."@,
            GameError::ResearchNotUnlocked { .. } => "The level of research has not been unlocked by your team."@,
            GameError::RocketUsed => "The rocket has already been used."@,
            GameError::SamePlanet => "Rockets cannot be flown to other locations on the same planet."@,
            GameError::StructureAlreadyBuilt => "The structure has already been completed, and cannot be built further."@,
            GameError::StructureNotYetBuilt => "The structure has not yet been completed, and cannot perform actions yet."@,
            GameError::TeamNotAllowed => "You are not allowed to control units on the other team."@,
            GameError::UnitNotOnMap => "The unit is in a structure's garrison or flying through space."@,
            GameError::UnitNotInGarrison => "The unit is not in a structure's garrison."@,
            GameError::InvalidAction => "The requested action cannot be performed in the unit's current state."@,
            GameError::InternalEngineError => "The engine reached a state that its rules do not allow."@,
        }
    }

    pub fn description(&self) -> (r: &'static str)
        ensures
            r@ == self.description_text(),
    {
        match self {
            GameError::ArrayOutOfBounds =>
                "You cannot read outside of the bounds of the communication array.",
            GameError::CannotBuildOnMars => "You cannot build structures on Mars.",
            GameError::DifferentPlanet => "The locations are on different planets.",
            GameError::FactoryBusy => "The factory is already producing a unit.",
            GameError::GarrisonEmpty => "The structure's garrison is empty.",
            GameError::GarrisonFull => "The structure's garrison is full.",
            GameError::InappropriateUnitType =>
                "The given unit does not have a type appropriate for the given action.",
            GameError::InvalidMapObject => "The map-related object is invalid.",
            GameError::InsufficientKarbonite =>
                "Your team does not have enough Karbonite to perform the requested action.",
            GameError::KarboniteDepositEmpty =>
                "The Karbonite deposit is empty and cannot be harvested further.",
            GameError::LocationNotEmpty =>
                "The location corresponding to the requested action is not empty.",
            GameError::LocationNotVisible => "The location is outside your vision range.",
            GameError::LocationOffMap => "The location is off the map of the current planet.",
            GameError::NoSuchUnit =>
                "The specified unit does not exist, at least within your vision range.",
            GameError::NullValue => "No object returned, check whether it exists first.",
            GameError::OutOfRange => "The unit is too far away to perform an action.",
            GameError::Overheated =>
                "The unit's heat is not low enough to perform the requested action.",
            GameError::ResearchLevelInvalid => "The level of research does not exist for this branch.",
            GameError::ResearchNotUnlocked { .. } =>
                "The level of research has not been unlocked by your team.",
            GameError::RocketUsed => "The rocket has already been used.",
            GameError::SamePlanet => "Rockets cannot be flown to other locations on the same planet.",
            GameError::StructureAlreadyBuilt =>
                "The structure has already been completed, and cannot be built further.",
            GameError::StructureNotYetBuilt =>
                "The structure has not yet been completed, and cannot perform actions yet.",
            GameError::TeamNotAllowed => "You are not allowed to control units on the other team.",
            GameError::UnitNotOnMap => "The unit is in a structure's garrison or flying through space.",
            GameError::UnitNotInGarrison => "The unit is not in a structure's garrison.",
            GameError::InvalidAction =>
                "The requested action cannot be performed in the unit's current state.",
            GameError::InternalEngineError => "The engine reached a state that its rules do not allow.",
        }
    }
}

} // verus!

//! Entities are player-controlled entities with certain characteristics and
//! game actions, depending on their type.
use vstd::prelude::*;
use crate::error::GameError;
use crate::location::{Direction, MapLocation};
use crate::world::Team;

verus! {

/// The ID of an entity is assigned when the entity is spawned. Each entity ID
/// is unique and in the range [0, 65,535], inclusive.
pub type EntityID = u16;

/// Info specific to knights.
#[derive(Debug, Clone, Copy, PartialEq, Eq, Structural)]
pub struct KnightInfo {}

/// Info specific to rockets.
#[derive(Debug, Clone, Copy, PartialEq, Eq, Structural)]
pub struct RocketInfo {}

/// Info specific to factories.
#[derive(Debug, Clone, PartialEq, Eq)]
pub struct FactoryInfo {
    /// The IDs of the entities queued to be produced, in order.
    pub production_queue: Vec<EntityID>,
}

/// Entities are player-controlled entities with certain characteristics and
/// game actions, depending on their type.
#[derive(Debug, Clone, PartialEq, Eq)]
pub enum EntityInfo {
    /// Knights are a melee unit that is strong in numbers.
    Knight(KnightInfo),
    /// Factories are the hub for producing combative robots.
    Factory(FactoryInfo),
    /// Rockets are the only unit that can move between planets.
    Rocket(RocketInfo),
}

/// Generic info for a single entity, and the associated specific info.
#[derive(Debug, Clone, PartialEq, Eq)]
pub struct Entity {
    pub id: EntityID,
    pub team: Team,
    pub max_health: u32,
    pub location: MapLocation,
    pub health: u32,
    /// The unit-specific info (a robot, factory, or rocket).
    pub spec: EntityInfo,
}

/// Moves a robot in the given direction. Only knights move; the entity
/// itself is left as it is.
///
/// * InternalEngineError - the entity is not a knight.
pub fn entity_move(entity: &mut Entity, _direction: Direction) -> (r: Result<(), GameError>)
    ensures
        *final(entity) == *old(entity),
        old(entity).spec is Knight ==> r is Ok,
        !(old(entity).spec is Knight) ==> r == Err::<(), GameError>(GameError::InternalEngineError),
{
    match entity.spec {
        EntityInfo::Knight(_) => Ok(()),
        _ => Err(GameError::InternalEngineError),
    }
}

} // verus!

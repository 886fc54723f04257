//! Units are player-controlled entities that can perform certain
//! game actions, depending on their type.
use vstd::prelude::*;
use crate::constants::{
    BLUEPRINT_FACTORY_COST, BLUEPRINT_ROCKET_COST, FACTORY_HEALER_COST, FACTORY_KNIGHT_COST,
    FACTORY_MAGE_COST, FACTORY_RANGER_COST, FACTORY_WORKER_COST, HEAT_LOSS_PER_ROUND, MAX_HEAT_TO_ACT,
    REPLICATE_WORKER_COST,
};
use crate::error::GameError;
use crate::location::{Location, MapLocation, loc_dist_fits, within_range};
use crate::research::Level;
use crate::world::{Rounds, Team};

verus! {

/// The ID of an unit is assigned when the unit is spawned.
pub type UnitID = u16;

/// The different unit types, which include factories, rockets, and the robots.
#[derive(Debug, Clone, Copy, PartialEq, Eq, Structural, Hash)]
pub enum UnitType {
    /// Workers are the foundation of the civilization.
    Worker,
    /// Knights are a melee unit that is strong in numbers.
    Knight,
    /// Rangers are a ranged unit with good all-around combat.
    Ranger,
    /// Mages are a fragile but specialized ranged unit for large areas.
    Mage,
    /// Healers are a suport unit that can heal other units.
    Healer,
    /// Factories are the hub for producing combative robots.
    Factory,
    /// Rockets are the only unit that can move between planets.
    Rocket,
}

/// Every unit type, in declaration order.
pub open spec fn all_unit_types() -> Seq<UnitType> {
    seq![
        UnitType::Worker,
        UnitType::Knight,
        UnitType::Ranger,
        UnitType::Mage,
        UnitType::Healer,
        UnitType::Factory,
        UnitType::Rocket,
    ]
}

/// Whether units of this type are robots.
pub open spec fn robot_type(t: UnitType) -> bool {
    match t {
        UnitType::Factory | UnitType::Rocket => false,
        _ => true,
    }
}

/// The karbonite value of a unit type: its production cost.
pub open spec fn type_value(t: UnitType) -> u32 {
    match t {
        UnitType::Worker => FACTORY_WORKER_COST,
        UnitType::Knight => FACTORY_KNIGHT_COST,
        UnitType::Ranger => FACTORY_RANGER_COST,
        UnitType::Mage => FACTORY_MAGE_COST,
        UnitType::Healer => FACTORY_HEALER_COST,
        UnitType::Factory => BLUEPRINT_FACTORY_COST,
        UnitType::Rocket => BLUEPRINT_ROCKET_COST,
    }
}

/// The number of research levels a unit of this type can take.
pub open spec fn unit_max_level(t: UnitType) -> nat {
    match t {
        UnitType::Worker => 4,
        UnitType::Knight => 3,
        UnitType::Ranger => 3,
        UnitType::Mage => 4,
        UnitType::Healer => 3,
        UnitType::Factory => 0,
        UnitType::Rocket => 3,
    }
}

impl UnitType {
    /// List all the unit types.
    pub fn all() -> (v: Vec<UnitType>)
        ensures
            v@ == all_unit_types(),
    {
        vec![
            UnitType::Worker,
            UnitType::Knight,
            UnitType::Ranger,
            UnitType::Mage,
            UnitType::Healer,
            UnitType::Factory,
            UnitType::Rocket,
        ]
    }

    /// Return the default stats of the given unit type.
    fn default(&self) -> (u: Unit)
        ensures
            u == default_unit_with(*self, u.garrison),
            u.garrison@ == Seq::<UnitID>::empty(),
    {
        let base = base_unit();
        match *self {
            UnitType::Worker => Unit {
                unit_type: UnitType::Worker,
                health: 100,
                max_health: 100,
                damage: 0,
                attack_range: 0,
                vision_range: 50,
                movement_cooldown: 20,
                attack_cooldown: 0,
                ability_cooldown: 500,
                ability_range: 2,
                is_ability_unlocked: true,
                ..base
            },
            UnitType::Knight => Unit {
                unit_type: UnitType::Knight,
                health: 250,
                max_health: 250,
                damage: 60,
                attack_range: 1,
                vision_range: 50,
                movement_cooldown: 15,
                attack_cooldown: 20,
                ability_cooldown: 100,
                ability_range: 10,
                ..base
            },
            UnitType::Ranger => Unit {
                unit_type: UnitType::Ranger,
                health: 200,
                max_health: 200,
                damage: 40,
                attack_range: 50,
                vision_range: 70,
                movement_cooldown: 20,
                attack_cooldown: 20,
                ability_cooldown: 0,
                ability_range: u32::MAX,
                ..base
            },
            UnitType::Mage => Unit {
                unit_type: UnitType::Mage,
                health: 100,
                max_health: 100,
                damage: 60,
                attack_range: 30,
                vision_range: 30,
                movement_cooldown: 20,
                attack_cooldown: 20,
                ability_cooldown: 250,
                ability_range: 5,
                ..base
            },
            UnitType::Healer => Unit {
                unit_type: UnitType::Healer,
                health: 100,
                max_health: 100,
                damage: -10,
                attack_range: 30,
                vision_range: 50,
                movement_cooldown: 25,
                attack_cooldown: 10,
                ability_cooldown: 100,
                ability_range: 30,
                ..base
            },
            UnitType::Factory => Unit {
                unit_type: UnitType::Factory,
                health: 300 / 4,
                max_health: 300,
                ..base
            },
            UnitType::Rocket => Unit {
                unit_type: UnitType::Rocket,
                health: 200 / 4,
                max_health: 200,
                ..base
            },
        }
    }

    /// Whether the unit type is a robot.
    pub fn is_robot(self) -> (r: bool)
        ensures
            r == robot_type(self),
    {
        match self {
            UnitType::Worker => true,
            UnitType::Knight => true,
            UnitType::Ranger => true,
            UnitType::Mage => true,
            UnitType::Healer => true,
            UnitType::Factory => false,
            UnitType::Rocket => false,
        }
    }

    /// Whether the unit type is a structure.
    pub fn is_structure(self) -> (r: bool)
        ensures
            r == !robot_type(self),
    {
        match self {
            UnitType::Worker => false,
            UnitType::Knight => false,
            UnitType::Ranger => false,
            UnitType::Mage => false,
            UnitType::Healer => false,
            UnitType::Factory => true,
            UnitType::Rocket => true,
        }
    }

    /// The cost of the unit in a factory.
    ///
    /// * InappropriateUnitType - the unit type cannot be produced in a factory.
    pub fn factory_cost(self) -> (r: Result<u32, GameError>)
        ensures
            robot_type(self) ==> r == Ok::<u32, GameError>(type_value(self)),
            !robot_type(self) ==> r == Err::<u32, GameError>(GameError::InappropriateUnitType),
    {
        match self {
            UnitType::Worker => Ok(FACTORY_WORKER_COST),
            UnitType::Knight => Ok(FACTORY_KNIGHT_COST),
            UnitType::Ranger => Ok(FACTORY_RANGER_COST),
            UnitType::Mage => Ok(FACTORY_MAGE_COST),
            UnitType::Healer => Ok(FACTORY_HEALER_COST),
            _ => Err(GameError::InappropriateUnitType),
        }
    }

    /// The cost to blueprint the unit.
    ///
    /// * InappropriateUnitType - the unit type cannot be blueprinted.
    pub fn blueprint_cost(self) -> (r: Result<u32, GameError>)
        ensures
            !robot_type(self) ==> r == Ok::<u32, GameError>(type_value(self)),
            robot_type(self) ==> r == Err::<u32, GameError>(GameError::InappropriateUnitType),
    {
        match self {
            UnitType::Factory => Ok(BLUEPRINT_FACTORY_COST),
            UnitType::Rocket => Ok(BLUEPRINT_ROCKET_COST),
            _ => Err(GameError::InappropriateUnitType),
        }
    }

    /// The cost to replicate the unit.
    ///
    /// * InappropriateUnitType - the unit type is not a worker.
    pub fn replicate_cost(self) -> (r: Result<u32, GameError>)
        ensures
            self == UnitType::Worker ==> r == Ok::<u32, GameError>(REPLICATE_WORKER_COST),
            self != UnitType::Worker ==> r == Err::<u32, GameError>(
                GameError::InappropriateUnitType,
            ),
    {
        match self {
            UnitType::Worker => Ok(REPLICATE_WORKER_COST),
            _ => Err(GameError::InappropriateUnitType),
        }
    }

    /// The value of a unit, as relevant to tiebreakers.
    pub fn value(self) -> (r: u32)
        ensures
            r == type_value(self),
    {
        match self {
            UnitType::Worker => FACTORY_WORKER_COST,
            UnitType::Knight => FACTORY_KNIGHT_COST,
            UnitType::Ranger => FACTORY_RANGER_COST,
            UnitType::Mage => FACTORY_MAGE_COST,
            UnitType::Healer => FACTORY_HEALER_COST,
            UnitType::Factory => BLUEPRINT_FACTORY_COST,
            UnitType::Rocket => BLUEPRINT_ROCKET_COST,
        }
    }
}

/// A single unit in the game and all its associated properties.
#[derive(Debug, PartialEq, Eq)]
pub struct Unit {
    // All units.
    /// The unique ID of the unit.
    pub id: UnitID,
    /// The team the unit belongs to.
    pub team: Team,
    /// The research level of the unit.
    pub level: Level,
    /// The unit type.
    pub unit_type: UnitType,
    /// Where the unit is.
    pub location: Location,
    /// The current health.
    pub health: u32,
    /// The maximum health.
    pub max_health: u32,
    /// The vision range, in distance squared.
    pub vision_range: u32,

    // All robots.
    /// The damage of a normal attack; negative for a heal.
    pub damage: i32,
    /// The attack range, in distance squared.
    pub attack_range: u32,
    /// The movement heat.
    pub movement_heat: u32,
    /// The attack heat.
    pub attack_heat: u32,
    /// The heat added by a move.
    pub movement_cooldown: u32,
    /// The heat added by an attack.
    pub attack_cooldown: u32,

    /// The special ability for each non-worker robot:
    /// Javelin, Snipe, Blink, Overcharge.
    pub is_ability_unlocked: bool,
    /// The ability heat.
    pub ability_heat: u32,
    /// The heat added by using the ability.
    pub ability_cooldown: u32,
    /// The ability range, in distance squared.
    pub ability_range: u32,

    // Worker special ability.
    /// Whether the worker has acted this round.
    pub has_worker_acted: bool,
    /// The health a worker adds when building.
    pub build_health: u32,
    /// The health a worker adds when repairing.
    pub repair_health: u32,
    /// The karbonite a worker harvests at most in one turn.
    pub harvest_amount: u32,

    // Knight special ability.
    /// The damage a knight resists.
    pub defense: u32,

    // Ranger special ability.
    /// The range within which a ranger cannot attack.
    pub cannot_attack_range: u32,
    /// Rounds left until a snipe lands.
    pub countdown: u32,
    /// Rounds a snipe takes.
    pub max_countdown: u32,
    /// The location being sniped, if any.
    pub target_location: Option<MapLocation>,

    // Healer special ability.
    /// The health a healer restores to itself each round.
    pub self_heal_amount: u32,

    // Structures.
    /// Whether the structure is completed.
    pub is_built: bool,
    /// How many units the garrison holds.
    pub max_capacity: usize,
    /// The garrisoned units, in the order they were loaded.
    pub garrison: Vec<UnitID>,

    // Factory special ability.
    /// The robot type being produced, if any.
    pub factory_unit_type: Option<UnitType>,
    /// Rounds left until the robot is produced, if any.
    pub factory_rounds_left: Option<Rounds>,
    /// Rounds a production takes.
    pub factory_max_rounds_left: Rounds,

    // Rocket special ability.
    /// Whether the rocket has been launched.
    pub is_used: bool,
    /// The damage dealt to neighbours on takeoff and landing.
    pub blast_damage: i32,
    /// Rounds the flight is shortened by.
    pub travel_time_decrease: Rounds,
}


/// Two units agree in every property, their garrisons compared by contents.
pub open spec fn same_unit(a: Unit, b: Unit) -> bool {
    &&& a == (Unit { garrison: a.garrison, ..b })
    &&& a.garrison@ == b.garrison@
}

/// The properties every unit starts from before its type sets its stats,
/// with the given garrison vector.
pub open spec fn base_unit_with(g: Vec<UnitID>) -> Unit {
    Unit {
        id: 0,
        health: 0,
        location: Location::Unknown,
        max_health: 0,
        team: Team::Red,
        unit_type: UnitType::Worker,
        level: 0,
        movement_heat: 0,
        attack_heat: 0,
        damage: 0,
        attack_range: 0,
        vision_range: 0,
        movement_cooldown: 0,
        attack_cooldown: 0,
        is_ability_unlocked: false,
        ability_heat: 0,
        ability_cooldown: 0,
        ability_range: 0,
        is_built: false,
        max_capacity: 8,
        garrison: g,
        has_worker_acted: false,
        build_health: 5,
        repair_health: 10,
        harvest_amount: 3,
        defense: 5,
        cannot_attack_range: 10,
        countdown: 0,
        max_countdown: 50,
        target_location: None,
        self_heal_amount: 1,
        factory_unit_type: None,
        factory_rounds_left: None,
        factory_max_rounds_left: 5,
        is_used: false,
        blast_damage: 50,
        travel_time_decrease: 0,
    }
}

/// The starting stats of a unit of the given type, with the given garrison
/// vector.
pub open spec fn default_unit_with(t: UnitType, g: Vec<UnitID>) -> Unit {
    let b = base_unit_with(g);
    match t {
        UnitType::Worker => Unit {
            unit_type: UnitType::Worker,
            health: 100,
            max_health: 100,
            damage: 0,
            attack_range: 0,
            vision_range: 50,
            movement_cooldown: 20,
            attack_cooldown: 0,
            ability_cooldown: 500,
            ability_range: 2,
            is_ability_unlocked: true,
            ..b
        },
        UnitType::Knight => Unit {
            unit_type: UnitType::Knight,
            health: 250,
            max_health: 250,
            damage: 60,
            attack_range: 1,
            vision_range: 50,
            movement_cooldown: 15,
            attack_cooldown: 20,
            ability_cooldown: 100,
            ability_range: 10,
            ..b
        },
        UnitType::Ranger => Unit {
            unit_type: UnitType::Ranger,
            health: 200,
            max_health: 200,
            damage: 40,
            attack_range: 50,
            vision_range: 70,
            movement_cooldown: 20,
            attack_cooldown: 20,
            ability_cooldown: 0,
            ability_range: u32::MAX,
            ..b
        },
        UnitType::Mage => Unit {
            unit_type: UnitType::Mage,
            health: 100,
            max_health: 100,
            damage: 60,
            attack_range: 30,
            vision_range: 30,
            movement_cooldown: 20,
            attack_cooldown: 20,
            ability_cooldown: 250,
            ability_range: 5,
            ..b
        },
        UnitType::Healer => Unit {
            unit_type: UnitType::Healer,
            health: 100,
            max_health: 100,
            damage: -10i32,
            attack_range: 30,
            vision_range: 50,
            movement_cooldown: 25,
            attack_cooldown: 10,
            ability_cooldown: 100,
            ability_range: 30,
            ..b
        },
        UnitType::Factory => Unit { unit_type: UnitType::Factory, health: 75, max_health: 300, ..b },
        UnitType::Rocket => Unit { unit_type: UnitType::Rocket, health: 50, max_health: 200, ..b },
    }
}

/// The unit a research upgrade turns `u` into, at its current level; `None`
/// where its branch has no further level.
pub open spec fn research_step(u: Unit) -> Option<Unit> {
    let next = u.level + 1;
    match u.unit_type {
        UnitType::Worker => if u.level == 0 {
            Some(Unit { harvest_amount: (u.harvest_amount + 1) as u32, level: next as usize, ..u })
        } else if u.level == 1 || u.level == 2 {
            Some(Unit {
                build_health: (u.build_health + 1) as u32,
                repair_health: (u.repair_health + 1) as u32,
                level: next as usize,
                ..u
            })
        } else if u.level == 3 {
            Some(Unit {
                build_health: (u.build_health + 3) as u32,
                repair_health: (u.repair_health + 3) as u32,
                level: next as usize,
                ..u
            })
        } else {
            None
        },
        UnitType::Knight => if u.level == 0 || u.level == 1 {
            Some(Unit { defense: (u.defense + 5) as u32, level: next as usize, ..u })
        } else if u.level == 2 {
            Some(Unit { is_ability_unlocked: true, level: next as usize, ..u })
        } else {
            None
        },
        UnitType::Ranger => if u.level == 0 {
            Some(Unit { movement_cooldown: (u.movement_cooldown - 5) as u32, level: next as usize, ..u })
        } else if u.level == 1 {
            Some(Unit { vision_range: (u.vision_range + 30) as u32, level: next as usize, ..u })
        } else if u.level == 2 {
            Some(Unit { is_ability_unlocked: true, level: next as usize, ..u })
        } else {
            None
        },
        UnitType::Mage => if u.level <= 2 {
            Some(Unit { damage: (u.damage + 15) as i32, level: next as usize, ..u })
        } else if u.level == 3 {
            Some(Unit { is_ability_unlocked: true, level: next as usize, ..u })
        } else {
            None
        },
        UnitType::Healer => if u.level == 0 {
            Some(Unit { damage: (u.damage - 2) as i32, level: next as usize, ..u })
        } else if u.level == 1 {
            Some(Unit { damage: (u.damage - 5) as i32, level: next as usize, ..u })
        } else if u.level == 2 {
            Some(Unit { is_ability_unlocked: true, level: next as usize, ..u })
        } else {
            None
        },
        UnitType::Rocket => if u.level == 0 {
            Some(Unit { is_ability_unlocked: true, level: next as usize, ..u })
        } else if u.level == 1 {
            Some(Unit { travel_time_decrease: (u.travel_time_decrease + 20) as u32, level: next as usize, ..u })
        } else if u.level == 2 {
            Some(Unit { max_capacity: (u.max_capacity + 4) as usize, level: next as usize, ..u })
        } else {
            None
        },
        UnitType::Factory => None,
    }
}

/// Whether the research upgrade of `u` at its current level keeps the field
/// it changes within that field's range. A level with no upgrade, or an
/// upgrade that only unlocks an ability, always fits.
pub open spec fn research_fits(u: Unit) -> bool {
    match u.unit_type {
        UnitType::Worker => if u.level == 0 {
            u.harvest_amount + 1 <= u32::MAX
        } else if u.level == 1 || u.level == 2 {
            u.build_health + 1 <= u32::MAX && u.repair_health + 1 <= u32::MAX
        } else if u.level == 3 {
            u.build_health + 3 <= u32::MAX && u.repair_health + 3 <= u32::MAX
        } else {
            true
        },
        UnitType::Knight => (u.level == 0 || u.level == 1) ==> u.defense + 5 <= u32::MAX,
        UnitType::Ranger => (u.level == 0 ==> u.movement_cooldown >= 5) && (u.level == 1
            ==> u.vision_range + 30 <= u32::MAX),
        UnitType::Mage => u.level <= 2 ==> u.damage + 15 <= i32::MAX,
        UnitType::Healer => (u.level == 0 ==> u.damage - 2 >= i32::MIN) && (u.level == 1 ==> u.damage - 5
            >= i32::MIN),
        UnitType::Rocket => (u.level == 1 ==> u.travel_time_decrease + 20 <= u32::MAX) && (u.level == 2
            ==> u.max_capacity + 4 <= usize::MAX),
        UnitType::Factory => true,
    }
}

/// The unit after `n` research upgrades, if all of them exist.
pub open spec fn researched(u: Unit, n: nat) -> Option<Unit>
    decreases n,
{
    if n == 0 {
        Some(u)
    } else {
        match research_step(u) {
            Some(v) => researched(v, (n - 1) as nat),
            None => None,
        }
    }
}


/// The upgrade table of research: each level of a branch changes exactly
/// one thing of the unit besides its level, which goes up by one, and a
/// branch has no level past its last.
///
/// * Worker: level 0 harvests one more; levels 1 and 2 build and repair one
///   more; level 3 builds and repairs three more; there are 4 levels.
/// * Knight: levels 0 and 1 add 5 defense; level 2 unlocks javelin; 3 levels.
/// * Ranger: level 0 moves 5 faster; level 1 sees 30 further; level 2
///   unlocks snipe; 3 levels.
/// * Mage: levels 0 to 2 add 15 damage; level 3 unlocks blink; 4 levels.
/// * Healer: level 0 heals 2 more and level 1 heals 5 more (a healer's
///   damage is negative); level 2 unlocks overcharge; 3 levels.
/// * Rocket: level 0 unlocks rocketry; level 1 shortens flights by 20;
///   level 2 carries 4 more units; 3 levels.
/// * Factory: no research.
pub proof fn lemma_upgrade_table(u: Unit)
    requires
        research_fits(u),
    ensures
        research_step(u) is None <==> match u.unit_type {
            UnitType::Worker => u.level >= 4,
            UnitType::Knight => u.level >= 3,
            UnitType::Ranger => u.level >= 3,
            UnitType::Mage => u.level >= 4,
            UnitType::Healer => u.level >= 3,
            UnitType::Rocket => u.level >= 3,
            UnitType::Factory => true,
        },
        research_step(u) matches Some(v) ==> {
            &&& v.level == u.level + 1
            &&& u.unit_type == UnitType::Worker && u.level == 0 ==> v.harvest_amount == u.harvest_amount + 1
                && (Unit { harvest_amount: u.harvest_amount, level: u.level, ..v }) == u
            &&& u.unit_type == UnitType::Worker && (u.level == 1 || u.level == 2) ==> v.build_health
                == u.build_health + 1 && v.repair_health == u.repair_health + 1 && (Unit {
                build_health: u.build_health,
                repair_health: u.repair_health,
                level: u.level,
                ..v
            }) == u
            &&& u.unit_type == UnitType::Worker && u.level == 3 ==> v.build_health == u.build_health + 3
                && v.repair_health == u.repair_health + 3 && (Unit {
                build_health: u.build_health,
                repair_health: u.repair_health,
                level: u.level,
                ..v
            }) == u
            &&& u.unit_type == UnitType::Knight && u.level <= 1 ==> v.defense == u.defense + 5 && (Unit {
                defense: u.defense,
                level: u.level,
                ..v
            }) == u
            &&& u.unit_type == UnitType::Ranger && u.level == 0 ==> v.movement_cooldown == u.movement_cooldown
                - 5 && (Unit { movement_cooldown: u.movement_cooldown, level: u.level, ..v }) == u
            &&& u.unit_type == UnitType::Ranger && u.level == 1 ==> v.vision_range == u.vision_range + 30
                && (Unit { vision_range: u.vision_range, level: u.level, ..v }) == u
            &&& u.unit_type == UnitType::Mage && u.level <= 2 ==> v.damage == u.damage + 15 && (Unit {
                damage: u.damage,
                level: u.level,
                ..v
            }) == u
            &&& u.unit_type == UnitType::Healer && u.level == 0 ==> v.damage == u.damage - 2 && (Unit {
                damage: u.damage,
                level: u.level,
                ..v
            }) == u
            &&& u.unit_type == UnitType::Healer && u.level == 1 ==> v.damage == u.damage - 5 && (Unit {
                damage: u.damage,
                level: u.level,
                ..v
            }) == u
            &&& u.unit_type == UnitType::Rocket && u.level == 1 ==> v.travel_time_decrease
                == u.travel_time_decrease + 20 && (Unit {
                travel_time_decrease: u.travel_time_decrease,
                level: u.level,
                ..v
            }) == u
            &&& u.unit_type == UnitType::Rocket && u.level == 2 ==> v.max_capacity == u.max_capacity + 4
                && (Unit { max_capacity: u.max_capacity, level: u.level, ..v }) == u
            &&& ((u.unit_type == UnitType::Knight || u.unit_type == UnitType::Ranger || u.unit_type
                == UnitType::Healer) && u.level == 2) || (u.unit_type == UnitType::Mage && u.level == 3) || (
            u.unit_type == UnitType::Rocket && u.level == 0) ==> v.is_ability_unlocked
                && (Unit { is_ability_unlocked: u.is_ability_unlocked, level: u.level, ..v }) == u
        },
{
}

/// What else the end of a round does to a unit: a worker may act again; a
/// healer heals itself by its self-heal amount, up to its maximum health,
/// and any other unit keeps its health; nothing but the heats, the
/// worker's flag and the health changes.
pub proof fn lemma_round_end_rest(u: Unit)
    ensures
        !after_round(u).has_worker_acted,
        u.unit_type != UnitType::Healer ==> after_round(u).health == u.health,
        u.unit_type == UnitType::Healer && u.health + u.self_heal_amount < u.max_health ==> after_round(u).health
            == u.health + u.self_heal_amount,
        u.unit_type == UnitType::Healer && u.health + u.self_heal_amount >= u.max_health ==> after_round(u).health
            == u.max_health,
        (Unit {
            movement_heat: u.movement_heat,
            attack_heat: u.attack_heat,
            ability_heat: u.ability_heat,
            has_worker_acted: u.has_worker_acted,
            health: u.health,
            ..after_round(u)
        }) == u,
{
}

/// A unit after `n` rounds end, one after another.
pub open spec fn rounds_ended(u: Unit, n: nat) -> Unit
    decreases n,
{
    if n == 0 {
        u
    } else {
        after_round(rounds_ended(u, (n - 1) as nat))
    }
}

/// At the end of each round every heat of a unit drops by
/// [`HEAT_LOSS_PER_ROUND`], down to zero and no further: after `n` rounds a
/// heat `h` is `h - n * HEAT_LOSS_PER_ROUND`, or zero if that is negative.
/// So a unit that stops acting can always act again once enough rounds have
/// passed: its heat falls below [`MAX_HEAT_TO_ACT`].
pub proof fn lemma_heat_cools(u: Unit, n: nat)
    ensures
        rounds_ended(u, n).movement_heat == (if u.movement_heat >= n * HEAT_LOSS_PER_ROUND {
            u.movement_heat - n * HEAT_LOSS_PER_ROUND
        } else {
            0
        }),
        rounds_ended(u, n).attack_heat == (if u.attack_heat >= n * HEAT_LOSS_PER_ROUND {
            u.attack_heat - n * HEAT_LOSS_PER_ROUND
        } else {
            0
        }),
        rounds_ended(u, n).ability_heat == (if u.ability_heat >= n * HEAT_LOSS_PER_ROUND {
            u.ability_heat - n * HEAT_LOSS_PER_ROUND
        } else {
            0
        }),
        u.attack_heat < (n + 1) * HEAT_LOSS_PER_ROUND ==> rounds_ended(u, n).attack_heat < MAX_HEAT_TO_ACT,
        u.movement_heat < (n + 1) * HEAT_LOSS_PER_ROUND ==> rounds_ended(u, n).movement_heat < MAX_HEAT_TO_ACT,
        u.ability_heat < (n + 1) * HEAT_LOSS_PER_ROUND ==> rounds_ended(u, n).ability_heat < MAX_HEAT_TO_ACT,
    decreases n,
{
    if n > 0 {
        lemma_heat_cools(u, (n - 1) as nat);
        assert((n - 1) * HEAT_LOSS_PER_ROUND + HEAT_LOSS_PER_ROUND == n * HEAT_LOSS_PER_ROUND) by (nonlinear_arith);
        assert((n + 1) * HEAT_LOSS_PER_ROUND == n * HEAT_LOSS_PER_ROUND + HEAT_LOSS_PER_ROUND) by (nonlinear_arith);
    }
}

/// A research upgrade changes neither a unit's identity nor where it is,
/// its type or its garrison.
pub proof fn lemma_step_keeps(u: Unit)
    ensures
        research_step(u) is Some ==> {
            let v = research_step(u)->Some_0;
            &&& v.id == u.id
            &&& v.team == u.team
            &&& v.location == u.location
            &&& v.unit_type == u.unit_type
            &&& v.garrison == u.garrison
        },
{
}

/// Research changes neither a unit's identity nor where it is, its type or
/// its garrison.
pub proof fn lemma_researched_keeps(u: Unit, n: nat)
    requires
        researched(u, n) is Some,
    ensures
        researched(u, n)->Some_0.id == u.id,
        researched(u, n)->Some_0.team == u.team,
        researched(u, n)->Some_0.location == u.location,
        researched(u, n)->Some_0.unit_type == u.unit_type,
        researched(u, n)->Some_0.garrison == u.garrison,
    decreases n,
{
    if n > 0 {
        let v = research_step(u)->Some_0;
        lemma_researched_keeps(v, (n - 1) as nat);
    }
}

/// The starting unit of a type, with the given identity, before research.
pub open spec fn starting_unit(
    id: UnitID,
    team: Team,
    unit_type: UnitType,
    location: Location,
    g: Vec<UnitID>,
) -> Unit {
    Unit { id, team, location, ..default_unit_with(unit_type, g) }
}

/// `Ok(v)` when the unit is a robot, and `InappropriateUnitType` otherwise.
pub open spec fn if_robot<T>(u: Unit, v: T) -> Result<T, GameError> {
    if robot_type(u.unit_type) {
        Ok(v)
    } else {
        Err(GameError::InappropriateUnitType)
    }
}

/// `Ok(v)` when the unit is a structure, and `InappropriateUnitType` otherwise.
pub open spec fn if_structure<T>(u: Unit, v: T) -> Result<T, GameError> {
    if !robot_type(u.unit_type) {
        Ok(v)
    } else {
        Err(GameError::InappropriateUnitType)
    }
}

/// `Ok(v)` when the unit has the given type, and `InappropriateUnitType`
/// otherwise.
pub open spec fn if_type<T>(u: Unit, t: UnitType, v: T) -> Result<T, GameError> {
    if u.unit_type == t {
        Ok(v)
    } else {
        Err(GameError::InappropriateUnitType)
    }
}

/// The outcome of checking that a robot's heat lets it act.
pub open spec fn heat_check(u: Unit, heat: u32) -> Result<(), GameError> {
    if !robot_type(u.unit_type) {
        Err(GameError::InappropriateUnitType)
    } else if heat >= MAX_HEAT_TO_ACT {
        Err(GameError::Overheated)
    } else {
        Ok(())
    }
}

/// The outcome of checking that a robot's ability is unlocked.
pub open spec fn ability_unlocked_check(u: Unit) -> Result<(), GameError> {
    if !robot_type(u.unit_type) {
        Err(GameError::InappropriateUnitType)
    } else if !u.is_ability_unlocked {
        Err(GameError::ResearchNotUnlocked { unit_type: u.unit_type })
    } else {
        Ok(())
    }
}

/// The outcome of checking that a unit of type `t` has unlocked its ability.
pub open spec fn typed_ability_check(u: Unit, t: UnitType) -> Result<(), GameError> {
    if u.unit_type != t {
        Err(GameError::InappropriateUnitType)
    } else {
        ability_unlocked_check(u)
    }
}

/// The outcome of checking that a structure has been built.
pub open spec fn built_check(u: Unit) -> Result<(), GameError> {
    if robot_type(u.unit_type) {
        Err(GameError::InappropriateUnitType)
    } else if !u.is_built {
        Err(GameError::StructureNotYetBuilt)
    } else {
        Ok(())
    }
}

/// The outcome of checking that a structure can take another unit.
/// What a launch of the unit would meet first, if anything: the unit must
/// be a rocket, built, and not yet used.
pub open spec fn launch_ready_check(u: Unit) -> Result<(), GameError> {
    if u.unit_type != UnitType::Rocket {
        Err(GameError::InappropriateUnitType)
    } else if built_check(u) is Err {
        built_check(u)
    } else if u.is_used {
        Err(GameError::RocketUsed)
    } else {
        Ok(())
    }
}

pub open spec fn load_check(u: Unit) -> Result<(), GameError> {
    if built_check(u) is Err {
        built_check(u)
    } else if u.garrison@.len() == u.max_capacity {
        Err(GameError::GarrisonFull)
    } else {
        Ok(())
    }
}

/// The outcome of checking that a robot can attack (or heal) a target
/// location.
pub open spec fn attack_range_check(u: Unit, target: Location) -> Result<(), GameError> {
    if !robot_type(u.unit_type) {
        Err(GameError::InappropriateUnitType)
    } else if u.unit_type == UnitType::Ranger && loc_within(u.location, u.cannot_attack_range, target) {
        Err(GameError::OutOfRange)
    } else if !loc_within(u.location, u.attack_range, target) {
        Err(GameError::OutOfRange)
    } else {
        Ok(())
    }
}

/// Whether both locations are on the map, the second within `range` of the
/// first.
pub open spec fn loc_within(a: Location, range: u32, b: Location) -> bool {
    a is OnMap && b is OnMap && within_range(a->OnMap_0, range as int, b->OnMap_0)
}

/// Heat after a round of cooling down.
pub open spec fn cooled(heat: u32) -> u32 {
    if heat < HEAT_LOSS_PER_ROUND { 0 } else { (heat - HEAT_LOSS_PER_ROUND) as u32 }
}

/// The health a unit is left with after taking `damage` (a negative damage
/// heals, up to the maximum health); knights resist their defense.
pub open spec fn health_after_damage(u: Unit, damage: i32) -> u32 {
    if damage < 0 {
        healed_health(u, (-damage) as u32)
    } else {
        let d = if u.unit_type == UnitType::Knight {
            if damage - u.defense < 0 { 0 } else { damage - u.defense }
        } else {
            damage as int
        };
        if d < u.health { (u.health - d) as u32 } else { 0 }
    }
}

/// The health after healing by `amount`, capped at the maximum health.
pub open spec fn healed_health(u: Unit, amount: u32) -> u32 {
    if u.health + amount < u.max_health { (u.health + amount) as u32 } else { u.max_health }
}

/// The unit after a round ends: heats cool down, the worker may act again,
/// and a healer heals itself.
pub open spec fn after_round(u: Unit) -> Unit {
    let cooled_unit = Unit {
        movement_heat: cooled(u.movement_heat),
        attack_heat: cooled(u.attack_heat),
        ability_heat: cooled(u.ability_heat),
        has_worker_acted: false,
        ..u
    };
    if u.unit_type == UnitType::Healer {
        Unit { health: healed_health(cooled_unit, u.self_heal_amount), ..cooled_unit }
    } else {
        cooled_unit
    }
}

/// Research levels compose: `a` upgrades and then `b` more are `a + b`
/// upgrades.
pub proof fn lemma_researched_split(u: Unit, a: nat, b: nat)
    ensures
        researched(u, a + b) == match researched(u, a) {
            Some(v) => researched(v, b),
            None => None,
        },
    decreases a,
{
    if a > 0 {
        match research_step(u) {
            Some(v) => {
                lemma_researched_split(v, (a - 1) as nat, b);
                assert((a + b - 1) as nat == ((a - 1) as nat + b));
            },
            None => {},
        }
    }
}

/// Stats that stay small while a unit researches from its starting stats:
/// each upgrade moves a stat by at most 30.
pub open spec fn small_stats(u: Unit, steps: int) -> bool {
    &&& u.harvest_amount <= 100 + 30 * steps
    &&& u.build_health <= 100 + 30 * steps
    &&& u.repair_health <= 100 + 30 * steps
    &&& u.defense <= 100 + 30 * steps
    &&& u.vision_range <= 100 + 30 * steps
    &&& u.travel_time_decrease <= 100 + 30 * steps
    &&& u.max_capacity <= 100 + 30 * steps
    &&& -100 - 30 * steps <= u.damage <= 100 + 30 * steps
    &&& (u.unit_type == UnitType::Ranger && u.level == 0 ==> u.movement_cooldown == 20)
}

impl Unit {
    /// Create a new unit of the given type.
    ///
    /// * ResearchNotUnlocked - the research level does not exist for this
    ///   unit type.
    pub fn new(id: UnitID, team: Team, unit_type: UnitType, level: Level, location: Location) -> (r:
        Result<Unit, GameError>)
        ensures
            level <= unit_max_level(unit_type) ==> (r matches Ok(u) && researched(
                starting_unit(id, team, unit_type, location, u.garrison),
                level as nat,
            ) == Some(u) && u.garrison@ == Seq::<UnitID>::empty()),
            level > unit_max_level(unit_type) ==> r == Err::<Unit, GameError>(
                GameError::ResearchNotUnlocked { unit_type },
            ),
    {
        let mut unit = unit_type.default();
        unit.id = id;
        unit.team = team;
        unit.location = location;
        let ghost start = unit;
        assert(start == starting_unit(id, team, unit_type, location, unit.garrison));
        let mut i: usize = 0;
        while i < level
            invariant
                0 <= i <= level,
                i <= 4,
                unit.level == i,
                unit.unit_type == unit_type,
                i <= unit_max_level(unit_type),
                small_stats(unit, i as int),
                unit.garrison == start.garrison,
                unit.garrison@ == Seq::<UnitID>::empty(),
                start == starting_unit(id, team, unit_type, location, unit.garrison),
                researched(start, i as nat) == Some(unit),
            decreases level - i,
        {
            proof {
                lemma_researched_split(start, i as nat, 1);
            }
            let ghost before = unit;
            match unit.research() {
                Ok(()) => {
                    proof {
                        reveal_with_fuel(researched, 2);
                        assert(researched(before, 1) == research_step(before));
                    }
                },
                Err(e) => {
                    proof {
                        lemma_researched_split(start, (i + 1) as nat, (level - i - 1) as nat);
                    }
                    return Err(e);
                },
            }
            i = i + 1;
        }
        Ok(unit)
    }

    // ************************************************************************
    // ***************************** GENERAL METHODS **************************
    // ************************************************************************

    /// The unique ID of a unit.
    pub fn id(&self) -> (r: UnitID)
        ensures
            r == self.id,
    {
        self.id
    }

    /// The team the unit belongs to.
    pub fn team(&self) -> (r: Team)
        ensures
            r == self.team,
    {
        self.team
    }

    /// The current research level.
    pub fn research_level(&self) -> (r: Level)
        ensures
            r == self.level,
    {
        self.level
    }

    /// The unit type.
    pub fn unit_type(&self) -> (r: UnitType)
        ensures
            r == self.unit_type,
    {
        self.unit_type
    }

    /// The location of the unit.
    pub fn location(&self) -> (r: Location)
        ensures
            r == self.location,
    {
        self.location
    }

    /// The current health.
    pub fn health(&self) -> (r: u32)
        ensures
            r == self.health,
    {
        self.health
    }

    /// The maximum health.
    pub fn max_health(&self) -> (r: u32)
        ensures
            r == self.max_health,
    {
        self.max_health
    }

    /// The unit vision range.
    pub fn vision_range(&self) -> (r: u32)
        ensures
            r == self.vision_range,
    {
        self.vision_range
    }

    // ************************************************************************
    // *************************** HELPER METHODS *****************************
    // ************************************************************************

    /// Ok if the unit is a robot. Errors otherwise.
    ///
    /// * InappropriateUnitType - the unit is not a robot.
    pub fn ok_if_robot(&self) -> (r: Result<(), GameError>)
        ensures
            r == if_robot(*self, ()),
    {
        if self.unit_type.is_robot() {
            Ok(())
        } else {
            Err(GameError::InappropriateUnitType)
        }
    }

    /// Ok if the unit is a structure. Errors otherwise.
    ///
    /// * InappropriateUnitType - the unit is not a structure.
    pub fn ok_if_structure(&self) -> (r: Result<(), GameError>)
        ensures
            r == if_structure(*self, ()),
    {
        if self.unit_type.is_structure() {
            Ok(())
        } else {
            Err(GameError::InappropriateUnitType)
        }
    }

    /// Ok if the unit is the given type. Errors otherwise.
    ///
    /// * InappropriateUnitType - the unit is not the specified type.
    pub fn ok_if_unit_type(&self, unit_type: UnitType) -> (r: Result<(), GameError>)
        ensures
            r == if_type(*self, unit_type, ()),
    {
        if self.unit_type == unit_type {
            Ok(())
        } else {
            Err(GameError::InappropriateUnitType)
        }
    }

    // ************************************************************************
    // ****************** ROBOT MOVEMENT / COMBAT METHODS *********************
    // ************************************************************************

    /// The damage inflicted by the robot during a normal attack.
    ///
    /// * InappropriateUnitType - the unit is not a robot.
    pub fn damage(&self) -> (r: Result<i32, GameError>)
        ensures
            r == if_robot(*self, self.damage),
    {
        self.ok_if_robot()?;
        Ok(self.damage)
    }

    /// The attack range.
    ///
    /// * InappropriateUnitType - the unit is not a robot.
    pub fn attack_range(&self) -> (r: Result<u32, GameError>)
        ensures
            r == if_robot(*self, self.attack_range),
    {
        self.ok_if_robot()?;
        Ok(self.attack_range)
    }

    /// The movement heat.
    ///
    /// * InappropriateUnitType - the unit is not a robot.
    pub fn movement_heat(&self) -> (r: Result<u32, GameError>)
        ensures
            r == if_robot(*self, self.movement_heat),
    {
        self.ok_if_robot()?;
        Ok(self.movement_heat)
    }

    /// The attack heat.
    ///
    /// * InappropriateUnitType - the unit is not a robot.
    pub fn attack_heat(&self) -> (r: Result<u32, GameError>)
        ensures
            r == if_robot(*self, self.attack_heat),
    {
        self.ok_if_robot()?;
        Ok(self.attack_heat)
    }

    /// The movement cooldown.
    ///
    /// * InappropriateUnitType - the unit is not a robot.
    pub fn movement_cooldown(&self) -> (r: Result<u32, GameError>)
        ensures
            r == if_robot(*self, self.movement_cooldown),
    {
        self.ok_if_robot()?;
        Ok(self.movement_cooldown)
    }

    /// The attack cooldown.
    ///
    /// * InappropriateUnitType - the unit is not a robot.
    pub fn attack_cooldown(&self) -> (r: Result<u32, GameError>)
        ensures
            r == if_robot(*self, self.attack_cooldown),
    {
        self.ok_if_robot()?;
        Ok(self.attack_cooldown)
    }

    /// Ok if the unit is on the map.
    ///
    /// * UnitNotOnMap - the unit is not on the map.
    pub fn ok_if_on_map(&self) -> (r: Result<(), GameError>)
        ensures
            self.location is OnMap ==> r == Ok::<(), GameError>(()),
            !(self.location is OnMap) ==> r == Err::<(), GameError>(GameError::UnitNotOnMap),
    {
        if !self.location().is_on_map() {
            return Err(GameError::UnitNotOnMap);
        }
        Ok(())
    }

    /// Ok if the unit is ready to move. The movement heat must be
    /// lower than the maximum heat to attack.
    ///
    /// * InappropriateUnitType - the unit is not a robot.
    /// * Overheated - the unit is not ready to move.
    pub fn ok_if_move_ready(&self) -> (r: Result<(), GameError>)
        ensures
            r == heat_check(*self, self.movement_heat),
    {
        if self.movement_heat()? >= MAX_HEAT_TO_ACT {
            return Err(GameError::Overheated);
        }
        Ok(())
    }

    /// Updates the unit's location as it if has moved, and increases the
    /// movement heat.
    pub fn move_to(&mut self, location: MapLocation)
        requires
            old(self).movement_heat + old(self).movement_cooldown <= u32::MAX,
        ensures
            *final(self) == (Unit {
                movement_heat: (old(self).movement_heat + old(self).movement_cooldown) as u32,
                location: Location::OnMap(location),
                ..*old(self)
            }),
    {
        self.movement_heat = self.movement_heat + self.movement_cooldown;
        self.location = Location::OnMap(location);
    }

    /// Ok if the robot can attack the target location. Overloaded for the
    /// healer's heal.
    ///
    /// * InappropriateUnitType - the unit is not a robot.
    /// * OutOfRange - the target location is not in range.
    pub fn ok_if_within_attack_range(&self, target_loc: Location) -> (r: Result<(), GameError>)
        requires
            loc_dist_fits(self.location, target_loc),
        ensures
            r == attack_range_check(*self, target_loc),
    {
        self.ok_if_robot()?;
        if self.unit_type() == UnitType::Ranger {
            if self.location().is_within_range(self.cannot_attack_range, target_loc) {
                return Err(GameError::OutOfRange);
            }
        }
        if !self.location().is_within_range(self.attack_range, target_loc) {
            return Err(GameError::OutOfRange);
        }
        Ok(())
    }

    /// Ok if the unit is ready to attack. The attack heat must be lower than
    /// the maximum heat to act. Overloaded for the healer's heal.
    ///
    /// * InappropriateUnitType - the unit is not a robot.
    /// * Overheated - the unit is not ready to attack.
    pub fn ok_if_attack_ready(&self) -> (r: Result<(), GameError>)
        ensures
            r == heat_check(*self, self.attack_heat),
    {
        if self.attack_heat()? >= MAX_HEAT_TO_ACT {
            return Err(GameError::Overheated);
        }
        Ok(())
    }

    /// Updates the unit as if it has attacked, and increases the attack heat.
    /// Returns the damage done.
    pub fn use_attack(&mut self) -> (r: i32)
        requires
            old(self).attack_heat + old(self).attack_cooldown <= u32::MAX,
        ensures
            r == old(self).damage,
            *final(self) == (Unit {
                attack_heat: (old(self).attack_heat + old(self).attack_cooldown) as u32,
                ..*old(self)
            }),
    {
        self.attack_heat = self.attack_heat + self.attack_cooldown;
        self.damage
    }

    /// Take the amount of damage given, returning true if the unit has died.
    /// Returns false if the unit is still alive.
    pub fn take_damage(&mut self, damage: i32) -> (r: bool)
        requires
            damage > i32::MIN,
            damage < 0 ==> old(self).health + (-damage) <= u32::MAX,
            old(self).health <= i32::MAX,
            old(self).defense <= i32::MAX,
        ensures
            *final(self) == (Unit { health: health_after_damage(*old(self), damage), ..*old(self) }),
            r == (damage >= 0 && final(self).health == 0),
    {
        if damage < 0 {
            self.be_healed((-damage) as u32);
            return false;
        }
        let mut damage = damage;
        if self.unit_type() == UnitType::Knight {
            let d = damage - self.defense as i32;
            damage = if d < 0 { 0 } else { d };
        }
        let h = self.health as i32;
        let m = if damage < h { damage } else { h };
        self.health = self.health - m as u32;
        self.health == 0
    }

    /// Increases the unit's current health by the given amount, without healing
    /// beyond the unit's maximum health. Returns true if unit is healed to max.
    pub fn be_healed(&mut self, heal_amount: u32) -> (r: bool)
        requires
            old(self).health + heal_amount <= u32::MAX,
        ensures
            *final(self) == (Unit { health: healed_health(*old(self), heal_amount), ..*old(self) }),
            r == (final(self).health == old(self).max_health),
    {
        let h = self.health + heal_amount;
        self.health = if h < self.max_health { h } else { self.max_health };
        self.health == self.max_health
    }

    // ************************************************************************
    // *************************** ABILITY METHODS *****************************
    // ************************************************************************

    /// Whether the active ability is unlocked.
    ///
    /// * InappropriateUnitType - the unit is not a robot.
    pub fn is_ability_unlocked(&self) -> (r: Result<bool, GameError>)
        ensures
            r == if_robot(*self, self.is_ability_unlocked),
    {
        self.ok_if_robot()?;
        Ok(self.is_ability_unlocked)
    }

    /// The active ability heat.
    ///
    /// * InappropriateUnitType - the unit is not a robot.
    pub fn ability_heat(&self) -> (r: Result<u32, GameError>)
        ensures
            r == if_robot(*self, self.ability_heat),
    {
        self.ok_if_robot()?;
        Ok(self.ability_heat)
    }

    /// The active ability cooldown.
    ///
    /// * InappropriateUnitType - the unit is not a robot.
    pub fn ability_cooldown(&self) -> (r: Result<u32, GameError>)
        ensures
            r == if_robot(*self, self.ability_cooldown),
    {
        self.ok_if_robot()?;
        Ok(self.ability_cooldown)
    }

    /// The active ability range. This is the range in which: workers can
    /// replicate, knights can javelin, rangers can snipe, mages can blink,
    /// and healers can overcharge.
    ///
    /// * InappropriateUnitType - the unit is not a robot.
    pub fn ability_range(&self) -> (r: Result<u32, GameError>)
        ensures
            r == if_robot(*self, self.ability_range),
    {
        self.ok_if_robot()?;
        Ok(self.ability_range)
    }

    /// Ok if unit has unlocked its ability.
    ///
    /// * InappropriateUnitType - the unit is not a robot.
    /// * ResearchNotUnlocked - the ability is not researched.
    pub fn ok_if_ability_unlocked(&self) -> (r: Result<(), GameError>)
        ensures
            r == ability_unlocked_check(*self),
    {
        if !self.is_ability_unlocked()? {
            return Err(GameError::ResearchNotUnlocked { unit_type: self.unit_type });
        }
        Ok(())
    }

    /// Ok if unit can use its ability. The unit's ability heat must
    /// be lower than the maximum heat to act.
    ///
    /// * InappropriateUnitType - the unit is not a robot.
    /// * Overheated - the unit is not ready to use its ability.
    pub fn ok_if_ability_ready(&self) -> (r: Result<(), GameError>)
        ensures
            r == heat_check(*self, self.ability_heat),
    {
        if self.ability_heat()? >= MAX_HEAT_TO_ACT {
            return Err(GameError::Overheated);
        }
        Ok(())
    }

    /// Ok if the robot can use its ability on the target location.
    ///
    /// * InappropriateUnitType - the unit is not a robot.
    /// * OutOfRange - the target location is not in range.
    pub fn ok_if_within_ability_range(&self, target_loc: Location) -> (r: Result<(), GameError>)
        requires
            loc_dist_fits(self.location, target_loc),
        ensures
            !robot_type(self.unit_type) ==> r == Err::<(), GameError>(
                GameError::InappropriateUnitType,
            ),
            robot_type(self.unit_type) && !loc_within(self.location, self.ability_range, target_loc)
                ==> r == Err::<(), GameError>(GameError::OutOfRange),
            robot_type(self.unit_type) && loc_within(self.location, self.ability_range, target_loc)
                ==> r == Ok::<(), GameError>(()),
    {
        if !self.location().is_within_range(self.ability_range()?, target_loc) {
            return Err(GameError::OutOfRange);
        }
        Ok(())
    }

}

impl Unit {
    // ************************************************************************
    // *************************** WORKER METHODS *****************************
    // ************************************************************************

    /// Whether the worker has already acted (harveted, blueprinted, built, or
    /// repaired) this round.
    ///
    /// * InappropriateUnitType - the unit is not a worker.
    pub fn worker_has_acted(&self) -> (r: Result<bool, GameError>)
        ensures
            r == if_type(*self, UnitType::Worker, self.has_worker_acted),
    {
        self.ok_if_unit_type(UnitType::Worker)?;
        Ok(self.has_worker_acted)
    }

    /// The health restored when building a structure.
    ///
    /// * InappropriateUnitType - the unit is not a worker.
    pub fn worker_build_health(&self) -> (r: Result<u32, GameError>)
        ensures
            r == if_type(*self, UnitType::Worker, self.build_health),
    {
        self.ok_if_unit_type(UnitType::Worker)?;
        Ok(self.build_health)
    }

    /// The health restored when repairing a structure.
    ///
    /// * InappropriateUnitType - the unit is not a worker.
    pub fn worker_repair_health(&self) -> (r: Result<u32, GameError>)
        ensures
            r == if_type(*self, UnitType::Worker, self.repair_health),
    {
        self.ok_if_unit_type(UnitType::Worker)?;
        Ok(self.repair_health)
    }

    /// The maximum amount of karbonite harvested from a deposit in one turn.
    ///
    /// * InappropriateUnitType - the unit is not a worker.
    pub fn worker_harvest_amount(&self) -> (r: Result<u32, GameError>)
        ensures
            r == if_type(*self, UnitType::Worker, self.harvest_amount),
    {
        self.ok_if_unit_type(UnitType::Worker)?;
        Ok(self.harvest_amount)
    }

    /// Ok if the worker can perform a worker action (building, blueprinting,
    /// harvesting, or replicating).
    ///
    /// * Overheated - the worker is not ready to perform a worker action.
    pub fn ok_if_can_worker_act(&self) -> (r: Result<(), GameError>)
        ensures
            self.has_worker_acted ==> r == Err::<(), GameError>(GameError::Overheated),
            !self.has_worker_acted ==> r == Ok::<(), GameError>(()),
    {
        if self.has_worker_acted {
            return Err(GameError::Overheated);
        }
        Ok(())
    }

    /// Updates the unit as if it has performed a worker action.
    pub fn worker_act(&mut self)
        ensures
            *final(self) == (Unit { has_worker_acted: true, ..*old(self) }),
    {
        self.has_worker_acted = true;
    }

    /// Updates the worker as though it has replicated. In reality,
    /// just updates the worker's ability heat.
    pub fn replicate(&mut self)
        requires
            old(self).ability_heat + old(self).ability_cooldown <= u32::MAX,
        ensures
            *final(self) == (Unit {
                ability_heat: (old(self).ability_heat + old(self).ability_cooldown) as u32,
                ..*old(self)
            }),
    {
        self.ability_heat = self.ability_heat + self.ability_cooldown;
    }

    // ************************************************************************
    // *************************** KNIGHT METHODS *****************************
    // ************************************************************************

    /// The amount of damage resisted by a knight when attacked.
    ///
    /// * InappropriateUnitType - the unit is not a knight.
    pub fn knight_defense(&self) -> (r: Result<u32, GameError>)
        ensures
            r == if_type(*self, UnitType::Knight, self.defense),
    {
        self.ok_if_unit_type(UnitType::Knight)?;
        Ok(self.defense)
    }

    /// Ok if the unit can javelin.
    ///
    /// * InappropriateUnitType - the unit is not a knight.
    /// * ResearchNotUnlocked - the required technology is not unlocked.
    pub fn ok_if_javelin_unlocked(&self) -> (r: Result<(), GameError>)
        ensures
            r == typed_ability_check(*self, UnitType::Knight),
    {
        self.ok_if_unit_type(UnitType::Knight)?;
        self.ok_if_ability_unlocked()?;
        Ok(())
    }

    /// Updates the unit as if it has javelined, and returns the damage done.
    pub fn javelin(&mut self) -> (r: i32)
        requires
            old(self).ability_heat + old(self).ability_cooldown <= u32::MAX,
        ensures
            r == old(self).damage,
            *final(self) == (Unit {
                ability_heat: (old(self).ability_heat + old(self).ability_cooldown) as u32,
                ..*old(self)
            }),
    {
        self.ability_heat = self.ability_heat + self.ability_cooldown;
        self.damage
    }

    // ************************************************************************
    // *************************** RANGER METHODS *****************************
    // ************************************************************************

    /// The range within a ranger cannot attack.
    ///
    /// * InappropriateUnitType - the unit is not a ranger.
    pub fn ranger_cannot_attack_range(&self) -> (r: Result<u32, GameError>)
        ensures
            r == if_type(*self, UnitType::Ranger, self.cannot_attack_range),
    {
        self.ok_if_unit_type(UnitType::Ranger)?;
        Ok(self.cannot_attack_range)
    }

    /// The countdown for ranger's snipe, or None if the ranger is not sniping.
    ///
    /// * InappropriateUnitType - the unit is not a ranger.
    pub fn ranger_countdown_opt(&self) -> (r: Result<Option<u32>, GameError>)
        ensures
            r == if_type(
                *self,
                UnitType::Ranger,
                if self.target_location is Some { Some(self.countdown) } else { None },
            ),
    {
        self.ok_if_unit_type(UnitType::Ranger)?;
        if self.ranger_is_sniping()? {
            Ok(Some(self.countdown))
        } else {
            Ok(None)
        }
    }

    /// The countdown for ranger's snipe.
    ///
    /// * InappropriateUnitType - the unit is not a ranger.
    /// * NullValue - the ranger is not sniping.
    pub fn ranger_countdown(&self) -> (r: Result<u32, GameError>)
        ensures
            self.unit_type != UnitType::Ranger ==> r == Err::<u32, GameError>(
                GameError::InappropriateUnitType,
            ),
            self.unit_type == UnitType::Ranger && self.target_location is Some ==> r == Ok::<
                u32,
                GameError,
            >(self.countdown),
            self.unit_type == UnitType::Ranger && self.target_location is None ==> r == Err::<
                u32,
                GameError,
            >(GameError::NullValue),
    {
        self.ok_if_unit_type(UnitType::Ranger)?;
        if self.ranger_is_sniping()? {
            Ok(self.countdown)
        } else {
            Err(GameError::NullValue)
        }
    }

    /// The maximum countdown for ranger's snipe, which is the number of turns
    /// that must pass before the snipe is executed.
    ///
    /// * InappropriateUnitType - the unit is not a ranger.
    pub fn ranger_max_countdown(&self) -> (r: Result<u32, GameError>)
        ensures
            r == if_type(*self, UnitType::Ranger, self.max_countdown),
    {
        self.ok_if_unit_type(UnitType::Ranger)?;
        Ok(self.max_countdown)
    }

    /// The target location for ranger's snipe, or None if the ranger is not
    /// sniping.
    ///
    /// * InappropriateUnitType - the unit is not a ranger.
    pub fn ranger_target_location_opt(&self) -> (r: Result<Option<MapLocation>, GameError>)
        ensures
            r == if_type(*self, UnitType::Ranger, self.target_location),
    {
        self.ok_if_unit_type(UnitType::Ranger)?;
        Ok(self.target_location)
    }

    /// The target location for ranger's snipe.
    ///
    /// * InappropriateUnitType - the unit is not a ranger.
    /// * NullValue - the ranger is not sniping.
    pub fn ranger_target_location(&self) -> (r: Result<MapLocation, GameError>)
        ensures
            self.unit_type != UnitType::Ranger ==> r == Err::<MapLocation, GameError>(
                GameError::InappropriateUnitType,
            ),
            self.unit_type == UnitType::Ranger && self.target_location is Some ==> r == Ok::<
                MapLocation,
                GameError,
            >(self.target_location->0),
            self.unit_type == UnitType::Ranger && self.target_location is None ==> r == Err::<
                MapLocation,
                GameError,
            >(GameError::NullValue),
    {
        self.ok_if_unit_type(UnitType::Ranger)?;
        if let Some(l) = self.target_location {
            Ok(l)
        } else {
            Err(GameError::NullValue)
        }
    }

    /// Whether the ranger is sniping.
    ///
    /// * InappropriateUnitType - the unit is not a ranger.
    pub fn ranger_is_sniping(&self) -> (r: Result<bool, GameError>)
        ensures
            r == if_type(*self, UnitType::Ranger, self.target_location is Some),
    {
        self.ok_if_unit_type(UnitType::Ranger)?;
        Ok(self.target_location.is_some())
    }

    /// Ok if the unit can snipe.
    ///
    /// * InappropriateUnitType - the unit is not a ranger.
    /// * ResearchNotUnlocked - the required technology is not unlocked.
    pub fn ok_if_snipe_unlocked(&self) -> (r: Result<(), GameError>)
        ensures
            r == typed_ability_check(*self, UnitType::Ranger),
    {
        self.ok_if_unit_type(UnitType::Ranger)?;
        self.ok_if_ability_unlocked()?;
        Ok(())
    }

    /// Updates the unit as if it has begun sniping. The unit's ability heat
    /// does not increase until it has sniped.
    pub fn begin_snipe(&mut self, location: MapLocation)
        ensures
            *final(self) == (Unit {
                movement_heat: u32::MAX,
                attack_heat: u32::MAX,
                target_location: Some(location),
                countdown: old(self).max_countdown,
                ..*old(self)
            }),
    {
        self.movement_heat = u32::MAX;
        self.attack_heat = u32::MAX;
        self.target_location = Some(location);
        self.countdown = self.max_countdown;
    }

    /// Updates the unit as if it has sniped and returns the target location
    /// if it has finished sniping.
    pub fn process_snipe(&mut self) -> (r: Option<MapLocation>)
        requires
            old(self).target_location is Some ==> old(self).countdown >= 1,
            old(self).target_location is Some && old(self).countdown == 1 ==> old(self).ability_heat
                + old(self).ability_cooldown <= u32::MAX,
        ensures
            old(self).target_location is None ==> r is None && *final(self) == *old(self),
            old(self).target_location is Some && old(self).countdown > 1 ==> r is None
                && *final(self) == (Unit { countdown: (old(self).countdown - 1) as u32, ..*old(self) }),
            old(self).target_location is Some && old(self).countdown == 1 ==> r == old(self).target_location && *final(self) == (Unit {
                countdown: 0,
                attack_heat: 0,
                movement_heat: 0,
                target_location: None,
                ability_heat: (old(self).ability_heat + old(self).ability_cooldown) as u32,
                ..*old(self)
            }),
    {
        if self.target_location.is_some() {
            self.countdown = self.countdown - 1;
            if self.countdown > 0 {
                return None;
            }
            let target = self.target_location.unwrap();
            self.attack_heat = 0;
            self.movement_heat = 0;
            self.target_location = None;
            self.ability_heat = self.ability_heat + self.ability_cooldown;
            Some(target)
        } else {
            None
        }
    }

    // ************************************************************************
    // **************************** MAGE METHODS ******************************
    // ************************************************************************

    /// Ok if the unit can blink.
    ///
    /// * InappropriateUnitType - the unit is not a mage.
    /// * ResearchNotUnlocked - the required technology is not unlocked.
    pub fn ok_if_blink_unlocked(&self) -> (r: Result<(), GameError>)
        ensures
            r == typed_ability_check(*self, UnitType::Mage),
    {
        self.ok_if_unit_type(UnitType::Mage)?;
        self.ok_if_ability_unlocked()
    }

    /// Updates the unit as if it has blinked.
    pub fn blink(&mut self, location: MapLocation)
        requires
            old(self).ability_heat + old(self).ability_cooldown <= u32::MAX,
        ensures
            *final(self) == (Unit {
                ability_heat: (old(self).ability_heat + old(self).ability_cooldown) as u32,
                location: Location::OnMap(location),
                ..*old(self)
            }),
    {
        self.ability_heat = self.ability_heat + self.ability_cooldown;
        self.location = Location::OnMap(location);
    }

    // ************************************************************************
    // *************************** HEALER METHODS *****************************
    // ************************************************************************

    /// The amount of health passively restored to itself each round.
    ///
    /// * InappropriateUnitType - the unit is not a healer.
    pub fn healer_self_heal_amount(&self) -> (r: Result<u32, GameError>)
        ensures
            r == if_type(*self, UnitType::Healer, self.self_heal_amount),
    {
        self.ok_if_unit_type(UnitType::Healer)?;
        Ok(self.self_heal_amount)
    }

    /// Ok if the unit can overcharge.
    ///
    /// * InappropriateUnitType - the unit is not a healer.
    /// * ResearchNotUnlocked - the required technology is not unlocked.
    pub fn ok_if_overcharge_unlocked(&self) -> (r: Result<(), GameError>)
        ensures
            r == typed_ability_check(*self, UnitType::Healer),
    {
        self.ok_if_unit_type(UnitType::Healer)?;
        self.ok_if_ability_unlocked()
    }

    /// Ok if the unit can be overcharged: only robots can.
    ///
    /// * InappropriateUnitType - the unit is not a robot.
    pub fn ok_if_can_be_overcharged(&self) -> (r: Result<(), GameError>)
        ensures
            r == if_robot(*self, ()),
    {
        self.ok_if_robot()
    }

    /// Updates the unit as if it has overcharged.
    pub fn overcharge(&mut self)
        requires
            old(self).ability_heat + old(self).ability_cooldown <= u32::MAX,
        ensures
            *final(self) == (Unit {
                ability_heat: (old(self).ability_heat + old(self).ability_cooldown) as u32,
                ..*old(self)
            }),
    {
        self.ability_heat = self.ability_heat + self.ability_cooldown;
    }

    /// Resets a unit's move, attack, and ability cooldowns.
    pub fn be_overcharged(&mut self)
        ensures
            *final(self) == (Unit { movement_heat: 0, attack_heat: 0, ability_heat: 0, ..*old(self) }),
    {
        self.movement_heat = 0;
        self.attack_heat = 0;
        self.ability_heat = 0;
    }

    // ************************************************************************
    // ************************* STRUCTURE METHODS ****************************
    // ************************************************************************

    /// Whether this structure has been built.
    ///
    /// * InappropriateUnitType - the unit is not a structure.
    pub fn structure_is_built(&self) -> (r: Result<bool, GameError>)
        ensures
            r == if_structure(*self, self.is_built),
    {
        self.ok_if_structure()?;
        Ok(self.is_built)
    }

    /// The max capacity of a structure.
    ///
    /// * InappropriateUnitType - the unit is not a structure.
    pub fn structure_max_capacity(&self) -> (r: Result<usize, GameError>)
        ensures
            r == if_structure(*self, self.max_capacity),
    {
        self.ok_if_structure()?;
        Ok(self.max_capacity)
    }

    /// Returns the units in the structure's garrison.
    ///
    /// * InappropriateUnitType - the unit is not a structure.
    pub fn structure_garrison(&self) -> (r: Result<Vec<UnitID>, GameError>)
        ensures
            robot_type(self.unit_type) ==> r == Err::<Vec<UnitID>, GameError>(
                GameError::InappropriateUnitType,
            ),
            !robot_type(self.unit_type) ==> (r matches Ok(g) && g@ == self.garrison@),
    {
        self.ok_if_structure()?;
        Ok(self.garrison.clone())
    }

    /// Updates this structure as though a worker has just built it.
    pub fn be_built(&mut self, build_health: u32)
        requires
            old(self).health + build_health <= u32::MAX,
        ensures
            *final(self) == (Unit {
                health: healed_health(*old(self), build_health),
                is_built: old(self).is_built || healed_health(*old(self), build_health) == old(self).max_health,
                ..*old(self)
            }),
    {
        if self.be_healed(build_health) {
            self.is_built = true;
        }
    }

    /// Ok if the structure has been built.
    ///
    /// * InappropriateUnitType - the unit is not a structure.
    /// * StructureNotYetBuilt - the structure has not yet been built.
    pub fn ok_if_structure_built(&self) -> (r: Result<(), GameError>)
        ensures
            r == built_check(*self),
    {
        if !self.structure_is_built()? {
            return Err(GameError::StructureNotYetBuilt);
        }
        Ok(())
    }

    /// Returns OK if the structure can load a unit. The structure
    /// must have enough space.
    ///
    /// * InappropriateUnitType - the unit is not a structure.
    /// * StructureNotYetBuilt - the structure has not yet been built.
    /// * GarrisonFull - the unit's garrison is already full.
    pub fn ok_if_can_load(&self) -> (r: Result<(), GameError>)
        ensures
            r == load_check(*self),
    {
        self.ok_if_structure_built()?;
        if self.garrison.len() == self.max_capacity {
            return Err(GameError::GarrisonFull);
        }
        Ok(())
    }

    /// Updates the structure as if it has loaded a unit inside its garrison.
    /// Adds the unit ID to the garrison.
    pub fn load(&mut self, id: UnitID)
        ensures
            *final(self) == (Unit { garrison: final(self).garrison, ..*old(self) }),
            final(self).garrison@ == old(self).garrison@.push(id),
    {
        self.garrison.push(id);
    }

    /// Returns OK if the structure can unload a unit. The structure must be on
    /// a planet and it must have at least one unit to unload. Does not check
    /// whether the unit is ready to move.
    ///
    /// * InappropriateUnitType - the unit is not a structure.
    /// * StructureNotYetBuilt - the structure has not yet been built.
    /// * GarrisonEmpty - the unit's garrison is already empty.
    pub fn ok_if_can_unload_unit(&self) -> (r: Result<(), GameError>)
        ensures
            built_check(*self) is Err ==> r == built_check(*self),
            built_check(*self) is Ok && self.garrison@.len() == 0 ==> r == Err::<(), GameError>(
                GameError::GarrisonEmpty,
            ),
            built_check(*self) is Ok && self.garrison@.len() > 0 ==> r == Ok::<(), GameError>(()),
    {
        self.ok_if_structure_built()?;
        if self.garrison.len() == 0 {
            return Err(GameError::GarrisonEmpty);
        }
        Ok(())
    }

    /// Updates the structure as if it has unloaded a single unit from the
    /// structure, returning the unit ID.
    pub fn unload_unit(&mut self) -> (r: UnitID)
        requires
            old(self).garrison@.len() > 0,
        ensures
            r == old(self).garrison@[0],
            *final(self) == (Unit { garrison: final(self).garrison, ..*old(self) }),
            final(self).garrison@ == old(self).garrison@.drop_first(),
    {
        self.garrison.remove(0)
    }

    // ************************************************************************
    // ************************** FACTORY METHODS *****************************
    // ************************************************************************

    /// The unit type currently being produced by the factory, or None if the
    /// factory is not producing a unit.
    ///
    /// * InappropriateUnitType - the unit is not a factory.
    pub fn factory_unit_type(&self) -> (r: Result<Option<UnitType>, GameError>)
        ensures
            r == if_type(*self, UnitType::Factory, self.factory_unit_type),
    {
        self.ok_if_unit_type(UnitType::Factory)?;
        Ok(self.factory_unit_type)
    }

    /// The number of rounds left to produce a robot in this factory. Returns
    /// None if no unit is currently being produced.
    ///
    /// * InappropriateUnitType - the unit is not a factory.
    pub fn factory_rounds_left(&self) -> (r: Result<Option<Rounds>, GameError>)
        ensures
            r == if_type(*self, UnitType::Factory, self.factory_rounds_left),
    {
        self.ok_if_unit_type(UnitType::Factory)?;
        Ok(self.factory_rounds_left)
    }

    /// The maximum number of rounds left to produce a robot in this factory.
    ///
    /// * InappropriateUnitType - the unit is not a factory.
    pub fn factory_max_rounds_left(&self) -> (r: Result<Rounds, GameError>)
        ensures
            r == if_type(*self, UnitType::Factory, self.factory_max_rounds_left),
    {
        self.ok_if_unit_type(UnitType::Factory)?;
        Ok(self.factory_max_rounds_left)
    }

    /// Returns OK if the factory can produce a robot of this type.
    ///
    /// * InappropriateUnitType - the unit is not a factory or the unit type
    ///   is not a robot.
    /// * StructureNotYetBuilt - the structure has not yet been built.
    /// * FactoryBusy - the factory is already producing a unit.
    pub fn ok_if_can_produce_robot(&self, unit_type: UnitType) -> (r: Result<(), GameError>)
        ensures
            r == if self.unit_type != UnitType::Factory {
                Err(GameError::InappropriateUnitType)
            } else if !self.is_built {
                Err(GameError::StructureNotYetBuilt)
            } else if !robot_type(unit_type) {
                Err(GameError::InappropriateUnitType)
            } else if self.factory_unit_type is Some {
                Err(GameError::FactoryBusy)
            } else {
                Ok(())
            },
    {
        self.ok_if_unit_type(UnitType::Factory)?;
        self.ok_if_structure_built()?;
        if !unit_type.is_robot() {
            return Err(GameError::InappropriateUnitType);
        }
        if self.factory_unit_type.is_some() {
            return Err(GameError::FactoryBusy);
        }
        Ok(())
    }

    /// Starts producing a robot of this type.
    /// Assumes the unit can produce a robot.
    pub fn produce_robot(&mut self, unit_type: UnitType)
        ensures
            *final(self) == (Unit {
                factory_unit_type: Some(unit_type),
                factory_rounds_left: Some(old(self).factory_max_rounds_left),
                ..*old(self)
            }),
    {
        self.factory_unit_type = Some(unit_type);
        self.factory_rounds_left = Some(self.factory_max_rounds_left);
    }

    /// Ends a round for this factory. If the factory is currently producing a
    /// robot, decreases the number of rounds left. If the number of rounds is
    /// 0 and the factory can load a unit into the garrison, returns the unit
    /// type and resets the factory. If the factory cannot load a unit, does
    /// nothing.
    pub fn process_factory_round(&mut self) -> (r: Option<UnitType>)
        requires
            old(self).factory_rounds_left is Some ==> old(self).factory_rounds_left->0 >= 1,
            old(self).factory_rounds_left == Some(1u32) && load_check(*old(self)) is Ok
                ==> old(self).factory_unit_type is Some,
        ensures
            old(self).factory_rounds_left is None ==> r is None && *final(self) == *old(self),
            old(self).factory_rounds_left is Some && old(self).factory_rounds_left->0 > 1 ==> r is None
                && *final(self) == (Unit {
                factory_rounds_left: Some((old(self).factory_rounds_left->0 - 1) as u32),
                ..*old(self)
            }),
            old(self).factory_rounds_left == Some(1u32) && load_check(*old(self)) is Err ==> r is None
                && *final(self) == *old(self),
            old(self).factory_rounds_left == Some(1u32) && load_check(*old(self)) is Ok ==> r == old(self).factory_unit_type && *final(self) == (Unit {
                factory_rounds_left: None,
                factory_unit_type: None,
                ..*old(self)
            }),
    {
        if self.factory_rounds_left.is_none() {
            return None;
        }
        let rounds_left = self.factory_rounds_left.unwrap() - 1;
        if rounds_left != 0 {
            self.factory_rounds_left = Some(rounds_left);
            return None;
        }
        if self.ok_if_can_load().is_err() {
            return None;
        }
        let unit_type = self.factory_unit_type.unwrap();
        self.factory_rounds_left = None;
        self.factory_unit_type = None;
        Some(unit_type)
    }

    // ************************************************************************
    // *************************** ROCKET METHODS *****************************
    // ************************************************************************

    /// Whether the rocket has already been used.
    ///
    /// * InappropriateUnitType - the unit is not a rocket.
    pub fn rocket_is_used(&self) -> (r: Result<bool, GameError>)
        ensures
            r == if_type(*self, UnitType::Rocket, self.is_used),
    {
        self.ok_if_unit_type(UnitType::Rocket)?;
        Ok(self.is_used)
    }

    /// The damage a rocket deals to adjacent units upon landing.
    ///
    /// * InappropriateUnitType - the unit is not a rocket.
    pub fn rocket_blast_damage(&self) -> (r: Result<i32, GameError>)
        ensures
            r == if_type(*self, UnitType::Rocket, self.blast_damage),
    {
        self.ok_if_unit_type(UnitType::Rocket)?;
        Ok(self.blast_damage)
    }

    /// The number of rounds the rocket travel time is reduced by compared
    /// to the travel time determined by the orbit of the planets.
    ///
    /// * InappropriateUnitType - the unit is not a rocket.
    pub fn rocket_travel_time_decrease(&self) -> (r: Result<u32, GameError>)
        ensures
            r == if_type(*self, UnitType::Rocket, self.travel_time_decrease),
    {
        self.ok_if_unit_type(UnitType::Rocket)?;
        Ok(self.travel_time_decrease)
    }

    /// Ok if the rocket can launch. It must be built, and it must have
    /// not been used yet.
    ///
    /// * InappropriateUnitType - the unit is not a rocket.
    /// * StructureNotYetBuilt - the rocket has not yet been built.
    /// * RocketUsed - the rocket has already been used.
    pub fn ok_if_can_launch_rocket(&self) -> (r: Result<(), GameError>)
        ensures
            r == launch_ready_check(*self),
    {
        self.ok_if_unit_type(UnitType::Rocket)?;
        self.ok_if_structure_built()?;
        if self.is_used {
            return Err(GameError::RocketUsed);
        }
        Ok(())
    }

    /// Updates the rocket as if it has launched by changing its location and
    /// marking it as used.
    pub fn launch_rocket(&mut self)
        ensures
            *final(self) == (Unit { location: Location::InSpace, is_used: true, ..*old(self) }),
    {
        self.location = Location::InSpace;
        self.is_used = true;
    }

    /// Updates the rocket's location as if it has landed.
    pub fn land_rocket(&mut self, location: MapLocation)
        ensures
            *final(self) == (Unit { location: Location::OnMap(location), ..*old(self) }),
    {
        self.location = Location::OnMap(location);
    }

    /// Boards a rocket. The unit must be ready to move.
    pub fn board_rocket(&mut self, rocket_id: UnitID)
        requires
            old(self).movement_heat + old(self).movement_cooldown <= u32::MAX,
        ensures
            *final(self) == (Unit {
                movement_heat: (old(self).movement_heat + old(self).movement_cooldown) as u32,
                location: Location::InGarrison(rocket_id),
                ..*old(self)
            }),
    {
        self.movement_heat = self.movement_heat + self.movement_cooldown;
        self.location = Location::InGarrison(rocket_id);
    }

    // ************************************************************************
    // **************************** OTHER METHODS *****************************
    // ************************************************************************

    /// Research the next level.
    ///
    /// * ResearchNotUnlocked - the unit's branch has no further level.
    pub fn research(&mut self) -> (r: Result<(), GameError>)
        requires
            research_fits(*old(self)),
        ensures
            research_step(*old(self)) is Some ==> r == Ok::<(), GameError>(()) && *final(self)
                == research_step(*old(self))->0,
            research_step(*old(self)) is None ==> r == Err::<(), GameError>(
                GameError::ResearchNotUnlocked { unit_type: old(self).unit_type },
            ) && *final(self) == *old(self),
    {
        let err = Err(GameError::ResearchNotUnlocked { unit_type: self.unit_type });
        match self.unit_type {
            UnitType::Worker => {
                if self.level == 0 {
                    self.harvest_amount = self.harvest_amount + 1;
                } else if self.level == 1 || self.level == 2 {
                    self.build_health = self.build_health + 1;
                    self.repair_health = self.repair_health + 1;
                } else if self.level == 3 {
                    self.build_health = self.build_health + 3;
                    self.repair_health = self.repair_health + 3;
                } else {
                    return err;
                }
            },
            UnitType::Knight => {
                if self.level == 0 || self.level == 1 {
                    self.defense = self.defense + 5;
                } else if self.level == 2 {
                    self.is_ability_unlocked = true;
                } else {
                    return err;
                }
            },
            UnitType::Ranger => {
                if self.level == 0 {
                    self.movement_cooldown = self.movement_cooldown - 5;
                } else if self.level == 1 {
                    self.vision_range = self.vision_range + 30;
                } else if self.level == 2 {
                    self.is_ability_unlocked = true;
                } else {
                    return err;
                }
            },
            UnitType::Mage => {
                if self.level <= 2 {
                    self.damage = self.damage + 15;
                } else if self.level == 3 {
                    self.is_ability_unlocked = true;
                } else {
                    return err;
                }
            },
            UnitType::Healer => {
                if self.level == 0 {
                    self.damage = self.damage - 2;
                } else if self.level == 1 {
                    self.damage = self.damage - 5;
                } else if self.level == 2 {
                    self.is_ability_unlocked = true;
                } else {
                    return err;
                }
            },
            UnitType::Rocket => {
                if self.level == 0 {
                    self.is_ability_unlocked = true;
                } else if self.level == 1 {
                    self.travel_time_decrease = self.travel_time_decrease + 20;
                } else if self.level == 2 {
                    self.max_capacity = self.max_capacity + 4;
                } else {
                    return err;
                }
            },
            UnitType::Factory => {
                return err;
            },
        }
        self.level = self.level + 1;
        Ok(())
    }

    /// Process the end of the round.
    pub fn end_round(&mut self)
        requires
            old(self).unit_type == UnitType::Healer ==> old(self).health + old(self).self_heal_amount <= u32::MAX,
        ensures
            *final(self) == after_round(*old(self)),
    {
        self.movement_heat = self.movement_heat - if HEAT_LOSS_PER_ROUND < self.movement_heat {
            HEAT_LOSS_PER_ROUND
        } else {
            self.movement_heat
        };
        self.attack_heat = self.attack_heat - if HEAT_LOSS_PER_ROUND < self.attack_heat {
            HEAT_LOSS_PER_ROUND
        } else {
            self.attack_heat
        };
        self.ability_heat = self.ability_heat - if HEAT_LOSS_PER_ROUND < self.ability_heat {
            HEAT_LOSS_PER_ROUND
        } else {
            self.ability_heat
        };
        self.has_worker_acted = false;
        if self.unit_type == UnitType::Healer {
            let self_heal_amount = self.self_heal_amount;
            self.be_healed(self_heal_amount);
        }
    }
}

fn base_unit() -> (u: Unit)
    ensures
        u == base_unit_with(u.garrison),
        u.garrison@ == Seq::<UnitID>::empty(),
{
    Unit {
        id: 0,
        health: 0,
        location: Location::Unknown,
        max_health: 0,
        team: Team::Red,
        unit_type: UnitType::Worker,
        level: 0,
        movement_heat: 0,
        attack_heat: 0,
        damage: 0,
        attack_range: 0,
        vision_range: 0,
        movement_cooldown: 0,
        attack_cooldown: 0,
        is_ability_unlocked: false,
        ability_heat: 0,
        ability_cooldown: 0,
        ability_range: 0,
        is_built: false,
        max_capacity: 8,
        garrison: Vec::new(),
        has_worker_acted: false,
        build_health: 5,
        repair_health: 10,
        harvest_amount: 3,
        defense: 5,
        cannot_attack_range: 10,
        countdown: 0,
        max_countdown: 50,
        target_location: None,
        self_heal_amount: 1,
        factory_unit_type: None,
        factory_rounds_left: None,
        factory_max_rounds_left: 5,
        is_used: false,
        blast_damage: 50,
        travel_time_decrease: 0,
    }
}

impl Clone for Unit {
    fn clone(&self) -> (r: Self)
        ensures
            same_unit(r, *self),
    {
        Unit {
            id: self.id,
            team: self.team,
            level: self.level,
            unit_type: self.unit_type,
            location: self.location,
            health: self.health,
            max_health: self.max_health,
            vision_range: self.vision_range,
            damage: self.damage,
            attack_range: self.attack_range,
            movement_heat: self.movement_heat,
            attack_heat: self.attack_heat,
            movement_cooldown: self.movement_cooldown,
            attack_cooldown: self.attack_cooldown,
            is_ability_unlocked: self.is_ability_unlocked,
            ability_heat: self.ability_heat,
            ability_cooldown: self.ability_cooldown,
            ability_range: self.ability_range,
            has_worker_acted: self.has_worker_acted,
            build_health: self.build_health,
            repair_health: self.repair_health,
            harvest_amount: self.harvest_amount,
            defense: self.defense,
            cannot_attack_range: self.cannot_attack_range,
            countdown: self.countdown,
            max_countdown: self.max_countdown,
            target_location: self.target_location,
            self_heal_amount: self.self_heal_amount,
            is_built: self.is_built,
            max_capacity: self.max_capacity,
            garrison: self.garrison.clone(),
            factory_unit_type: self.factory_unit_type,
            factory_rounds_left: self.factory_rounds_left,
            factory_max_rounds_left: self.factory_max_rounds_left,
            is_used: self.is_used,
            blast_damage: self.blast_damage,
            travel_time_decrease: self.travel_time_decrease,
        }
    }
}

impl Default for Unit {
    fn default() -> (u: Unit)
        ensures
            u == base_unit_with(u.garrison),
            u.garrison@ == Seq::<UnitID>::empty(),
    {
        base_unit()
    }
}


/// Whether two lists of unit IDs hold the same IDs in the same order.
fn ids_eq(a: &Vec<UnitID>, b: &Vec<UnitID>) -> (r: bool)
    ensures
        r == (a@ == b@),
{
    if a.len() != b.len() {
        return false;
    }
    let mut i: usize = 0;
    while i < a.len()
        invariant
            0 <= i <= a@.len(),
            a@.len() == b@.len(),
            forall|k: int| 0 <= k < i ==> a@[k] == b@[k],
        decreases a@.len() - i,
    {
        if a[i] != b[i] {
            return false;
        }
        i = i + 1;
    }
    assert(a@ =~= b@);
    true
}

/// Whether two units agree in every property, their garrisons compared by
/// contents.
pub fn unit_eq(a: &Unit, b: &Unit) -> (r: bool)
    ensures
        r == same_unit(*a, *b),
{
    let target_eq = match (a.target_location, b.target_location) {
        (Some(x), Some(y)) => x == y,
        (None, None) => true,
        _ => false,
    };
    let factory_type_eq = match (a.factory_unit_type, b.factory_unit_type) {
        (Some(x), Some(y)) => x == y,
        (None, None) => true,
        _ => false,
    };
    let factory_rounds_eq = match (a.factory_rounds_left, b.factory_rounds_left) {
        (Some(x), Some(y)) => x == y,
        (None, None) => true,
        _ => false,
    };
    a.id == b.id && a.team == b.team && a.level == b.level && a.unit_type == b.unit_type && a.location == b.location
        && a.health == b.health && a.max_health == b.max_health && a.vision_range == b.vision_range && a.damage
        == b.damage && a.attack_range == b.attack_range && a.movement_heat == b.movement_heat && a.attack_heat
        == b.attack_heat && a.movement_cooldown == b.movement_cooldown && a.attack_cooldown == b.attack_cooldown
        && a.is_ability_unlocked == b.is_ability_unlocked && a.ability_heat == b.ability_heat && a.ability_cooldown
        == b.ability_cooldown && a.ability_range == b.ability_range && a.has_worker_acted == b.has_worker_acted
        && a.build_health == b.build_health && a.repair_health == b.repair_health && a.harvest_amount
        == b.harvest_amount && a.defense == b.defense && a.cannot_attack_range == b.cannot_attack_range && a.countdown
        == b.countdown && a.max_countdown == b.max_countdown && target_eq && a.self_heal_amount == b.self_heal_amount
        && a.is_built == b.is_built && a.max_capacity == b.max_capacity && ids_eq(&a.garrison, &b.garrison)
        && factory_type_eq && factory_rounds_eq && a.factory_max_rounds_left == b.factory_max_rounds_left
        && a.is_used == b.is_used && a.blast_damage == b.blast_damage && a.travel_time_decrease
        == b.travel_time_decrease
}

} // verus!

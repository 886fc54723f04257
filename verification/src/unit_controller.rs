//! Units described by a controller for each unit type: the stats and
//! research tree that are particular to a type live in its controller, and
//! the unit holds what all units share.
use vstd::prelude::*;
use crate::constants::{HEAT_LOSS_PER_ROUND, MAX_HEAT_TO_ACT};
use crate::error::GameError;
use crate::location::{adjacent, dist_fits, MapLocation};
use crate::research::Level;
use crate::world::Team;

verus! {

/// Percentage.
pub type Percent = u32;

/// The ID of a unit is assigned when the unit is spawned.
pub type UnitID = u32;

/// The different unit types, which include factories, rockets, and the robots.
#[derive(Debug, Clone, Copy, PartialEq, Eq, Structural, Hash)]
pub enum UnitType {
    /// Workers are the foundation of the civilization.
    Worker,
    /// Knights are a melee unit that is strong in numbers.
    Knight,
    /// Rangers are a ranged unit with good all-around combat.
    Ranger,
    /// Mages are a fragile but specialized ranged unit for large areas.
    Mage,
    /// Healers are a suport unit that can heal other units.
    Healer,
    /// Factories are the hub for producing combative robots.
    Factory,
    /// Rockets are the only unit that can move between planets.
    Rocket,
}

impl UnitType {
    /// List all the unit types.
    pub fn all() -> (r: Vec<UnitType>)
        ensures
            r@ == seq![
                UnitType::Worker,
                UnitType::Knight,
                UnitType::Ranger,
                UnitType::Mage,
                UnitType::Healer,
                UnitType::Factory,
                UnitType::Rocket,
            ],
    {
        vec![
            UnitType::Worker,
            UnitType::Knight,
            UnitType::Ranger,
            UnitType::Mage,
            UnitType::Healer,
            UnitType::Factory,
            UnitType::Rocket,
        ]
    }

    /// Return the default stats of the given unit type.
    fn default(&self) -> (r: UnitController)
        ensures
            is_default_controller(r),
            controller_type(r) == *self,
    {
        match *self {
            UnitType::Worker => UnitController::Worker(WorkerController::default()),
            UnitType::Knight => UnitController::Knight(KnightController::default()),
            UnitType::Ranger => UnitController::Ranger(RangerController::default()),
            UnitType::Mage => UnitController::Mage(MageController::default()),
            UnitType::Healer => UnitController::Healer(HealerController::default()),
            UnitType::Factory => UnitController::Factory(FactoryController::default()),
            UnitType::Rocket => UnitController::Rocket(RocketController::default()),
        }
    }
}

/// Implemented by all robot controllers. Robots include: Worker, Knight,
/// Ranger, Mage, Healer.
trait RobotController {
    /// The damage inflicted by the robot during a normal attack.
    fn damage(&self) -> i32;
    /// The distance squared, inclusive, of which a robot may attack.
    fn attack_range(&self) -> u32;
    /// The distance squared, inclusive, of which a robot may see.
    fn vision_range(&self) -> u32;
    /// The movement cooldown of the robot.
    fn movement_cooldown(&self) -> u32;
    /// The attack cooldown of the robot.
    fn attack_cooldown(&self) -> u32;
}

/// Workers are the foundation of the civilization.
#[derive(Debug, Clone, Copy, PartialEq, Eq, Structural)]
pub struct WorkerController {
    pub level: Level,
    pub max_health: u32,
    pub damage: i32,
    pub attack_range: u32,
    pub vision_range: u32,
    pub movement_cooldown: u32,
    pub attack_cooldown: u32,
    pub build_repair_health: u32,
    pub harvest_amount: u32,
}

impl RobotController for WorkerController {
    fn damage(&self) -> (r: i32)
        ensures
            r == self.damage,
    {
        self.damage
    }

    fn attack_range(&self) -> (r: u32)
        ensures
            r == self.attack_range,
    {
        self.attack_range
    }

    fn vision_range(&self) -> (r: u32)
        ensures
            r == self.vision_range,
    {
        self.vision_range
    }

    fn movement_cooldown(&self) -> (r: u32)
        ensures
            r == self.movement_cooldown,
    {
        self.movement_cooldown
    }

    fn attack_cooldown(&self) -> (r: u32)
        ensures
            r == self.attack_cooldown,
    {
        self.attack_cooldown
    }
}

/// The worker's stats at level 0.
pub open spec fn default_worker() -> WorkerController {
    WorkerController {
        level: 0,
        max_health: 100,
        damage: 0,
        attack_range: 0,
        vision_range: 50,
        movement_cooldown: 20,
        attack_cooldown: 0,
        build_repair_health: 5,
        harvest_amount: 3,
    }
}

/// The worker after one more level of research, if there is one.
pub open spec fn worker_researched(c: WorkerController) -> Option<WorkerController> {
    let next = (c.level + 1) as Level;
    if c.level == 0 {
        Some(WorkerController { harvest_amount: (c.harvest_amount + 1) as u32, level: next, ..c })
    } else if c.level == 1 || c.level == 2 {
        Some(WorkerController { build_repair_health: (c.build_repair_health + 1) as u32, level: next, ..c })
    } else if c.level == 3 {
        Some(WorkerController { build_repair_health: (c.build_repair_health + 3) as u32, level: next, ..c })
    } else {
        None
    }
}

impl WorkerController {
    /// Default worker stats.
    pub fn default() -> (r: WorkerController)
        ensures
            r == default_worker(),
    {
        WorkerController {
            level: 0,
            max_health: 100,
            damage: 0,
            attack_range: 0,
            vision_range: 50,
            movement_cooldown: 20,
            attack_cooldown: 0,
            build_repair_health: 5,
            harvest_amount: 3,
        }
    }

    /// The research level.
    pub fn level(&self) -> (r: Level)
        ensures
            r == self.level,
    {
        self.level
    }

    /// The maximum health.
    pub fn max_health(&self) -> (r: u32)
        ensures
            r == self.max_health,
    {
        self.max_health
    }

    /// The health restored when building or repairing a factory or rocket.
    pub fn build_repair_health(&self) -> (r: u32)
        ensures
            r == self.build_repair_health,
    {
        self.build_repair_health
    }

    /// The maximum amount of karbonite harvested from a deposit in one turn.
    pub fn harvest_amount(&self) -> (r: u32)
        ensures
            r == self.harvest_amount,
    {
        self.harvest_amount
    }

    /// The Worker's Tree
    ///
    /// 1. Gimme some of that Black Stuff: Workers harvest an additional +1
    ///    Karbonite from a deposit (not deducted from the deposit).
    /// 2. Time is of the Essence: Workers add 20% more health when repairing
    ///    or constructing a building.
    /// 3. Time is of the Essence II: Workers add another 20% more health when
    ///    repairing or constructing a building.
    /// 4. Time is of the Essence III: Workers add another 40% more health when
    ///    repairing or constructing a building.
    ///
    /// * ResearchLevelInvalid - every level has been researched.
    pub fn research(&mut self) -> (r: Result<(), GameError>)
        requires
            old(self).level == 0 ==> old(self).harvest_amount < u32::MAX,
            old(self).level == 1 || old(self).level == 2 ==> old(self).build_repair_health < u32::MAX,
            old(self).level == 3 ==> old(self).build_repair_health <= u32::MAX - 3,
        ensures
            worker_researched(*old(self)) matches Some(c) ==> r is Ok && *final(self) == c,
            worker_researched(*old(self)) is None ==> r == Err::<(), GameError>(
                GameError::ResearchLevelInvalid,
            ) && *final(self) == *old(self),
    {
        match self.level {
            0 => {
                self.harvest_amount = self.harvest_amount + 1;
            },
            1 => {
                self.build_repair_health = self.build_repair_health + 1;
            },
            2 => {
                self.build_repair_health = self.build_repair_health + 1;
            },
            3 => {
                self.build_repair_health = self.build_repair_health + 3;
            },
            _ => {
                return Err(GameError::ResearchLevelInvalid);
            },
        }
        self.level = self.level + 1;
        Ok(())
    }
}

/// Knights are a melee unit that is strong in numbers.
#[derive(Debug, Clone, Copy, PartialEq, Eq, Structural)]
pub struct KnightController {
    pub level: Level,
    pub max_health: u32,
    pub damage: i32,
    pub attack_range: u32,
    pub vision_range: u32,
    pub movement_cooldown: u32,
    pub attack_cooldown: u32,
    pub defense_per_robot: Percent,
    pub is_javelin_unlocked: bool,
    pub javelin_attack_range: u32,
    pub javelin_attack_cooldown: u32,
}

impl RobotController for KnightController {
    fn damage(&self) -> (r: i32)
        ensures
            r == self.damage,
    {
        self.damage
    }

    fn attack_range(&self) -> (r: u32)
        ensures
            r == self.attack_range,
    {
        self.attack_range
    }

    fn vision_range(&self) -> (r: u32)
        ensures
            r == self.vision_range,
    {
        self.vision_range
    }

    fn movement_cooldown(&self) -> (r: u32)
        ensures
            r == self.movement_cooldown,
    {
        self.movement_cooldown
    }

    fn attack_cooldown(&self) -> (r: u32)
        ensures
            r == self.attack_cooldown,
    {
        self.attack_cooldown
    }
}

/// The knight's stats at level 0.
pub open spec fn default_knight() -> KnightController {
    KnightController {
        level: 0,
        max_health: 250,
        damage: 100,
        attack_range: 1,
        vision_range: 50,
        movement_cooldown: 15,
        attack_cooldown: 20,
        defense_per_robot: 1,
        is_javelin_unlocked: false,
        javelin_attack_range: 10,
        javelin_attack_cooldown: 15,
    }
}

/// The knight after one more level of research, if there is one.
pub open spec fn knight_researched(c: KnightController) -> Option<KnightController> {
    let next = (c.level + 1) as Level;
    if c.level == 0 || c.level == 1 {
        Some(KnightController { defense_per_robot: (c.defense_per_robot + 1) as u32, level: next, ..c })
    } else if c.level == 2 {
        Some(KnightController { is_javelin_unlocked: true, level: next, ..c })
    } else {
        None
    }
}

impl KnightController {
    /// Default Knight stats.
    pub fn default() -> (r: KnightController)
        ensures
            r == default_knight(),
    {
        KnightController {
            level: 0,
            max_health: 250,
            damage: 100,
            attack_range: 1,
            vision_range: 50,
            movement_cooldown: 15,
            attack_cooldown: 20,
            defense_per_robot: 1,
            is_javelin_unlocked: false,
            javelin_attack_range: 10,
            javelin_attack_cooldown: 15,
        }
    }

    /// The research level.
    pub fn level(&self) -> (r: Level)
        ensures
            r == self.level,
    {
        self.level
    }

    /// The maximum health.
    pub fn max_health(&self) -> (r: u32)
        ensures
            r == self.max_health,
    {
        self.max_health
    }

    /// The decrease in attack on the knight per adjacent robot.
    pub fn defense_per_robot(&self) -> (r: Percent)
        ensures
            r == self.defense_per_robot,
    {
        self.defense_per_robot
    }

    /// Whether javelin is unlocked.
    pub fn is_javelin_unlocked(&self) -> (r: bool)
        ensures
            r == self.is_javelin_unlocked,
    {
        self.is_javelin_unlocked
    }

    /// Javelin attack range.
    pub fn javelin_attack_range(&self) -> (r: u32)
        ensures
            r == self.javelin_attack_range,
    {
        self.javelin_attack_range
    }

    /// Javelin attack cooldown.
    pub fn javelin_attack_cooldown(&self) -> (r: u32)
        ensures
            r == self.javelin_attack_cooldown,
    {
        self.javelin_attack_cooldown
    }

    /// The Knight's Tree
    ///
    /// 1. Greater Strength in Numbers: Decreases the strength of an attack
    ///    on a knight by an additional 1% for each adjacent robot.
    /// 2. Even Greater Strength in Numbers: Decreases the strength of an
    ///    attack on a knight by an additional 1% (total 2%) for each adjacent
    ///    robot.
    /// 3. Javelin: Unlocks "Javelin" for Knights.
    ///
    /// * ResearchLevelInvalid - every level has been researched.
    pub fn research(&mut self) -> (r: Result<(), GameError>)
        requires
            old(self).level == 0 || old(self).level == 1 ==> old(self).defense_per_robot < u32::MAX,
        ensures
            knight_researched(*old(self)) matches Some(c) ==> r is Ok && *final(self) == c,
            knight_researched(*old(self)) is None ==> r == Err::<(), GameError>(
                GameError::ResearchLevelInvalid,
            ) && *final(self) == *old(self),
    {
        match self.level {
            0 => {
                self.defense_per_robot = self.defense_per_robot + 1;
            },
            1 => {
                self.defense_per_robot = self.defense_per_robot + 1;
            },
            2 => {
                self.is_javelin_unlocked = true;
            },
            _ => {
                return Err(GameError::ResearchLevelInvalid);
            },
        }
        self.level = self.level + 1;
        Ok(())
    }
}

/// Rangers are a ranged unit with good all-around combat.
#[derive(Debug, Clone, Copy, PartialEq, Eq, Structural)]
pub struct RangerController {
    pub level: Level,
    pub max_health: u32,
    pub damage: i32,
    pub attack_range: u32,
    pub vision_range: u32,
    pub movement_cooldown: u32,
    pub attack_cooldown: u32,
    pub cannot_attack_range: u32,
    pub is_snipe_unlocked: bool,
    pub countdown: u32,
    pub target_location: Option<MapLocation>,
}

impl RobotController for RangerController {
    fn damage(&self) -> (r: i32)
        ensures
            r == self.damage,
    {
        self.damage
    }

    fn attack_range(&self) -> (r: u32)
        ensures
            r == self.attack_range,
    {
        self.attack_range
    }

    fn vision_range(&self) -> (r: u32)
        ensures
            r == self.vision_range,
    {
        self.vision_range
    }

    fn movement_cooldown(&self) -> (r: u32)
        ensures
            r == self.movement_cooldown,
    {
        self.movement_cooldown
    }

    fn attack_cooldown(&self) -> (r: u32)
        ensures
            r == self.attack_cooldown,
    {
        self.attack_cooldown
    }
}

/// The ranger's stats at level 0.
pub open spec fn default_ranger() -> RangerController {
    RangerController {
        level: 0,
        max_health: 200,
        damage: 70,
        attack_range: 50,
        vision_range: 70,
        movement_cooldown: 20,
        attack_cooldown: 20,
        cannot_attack_range: 10,
        is_snipe_unlocked: false,
        countdown: 0,
        target_location: None,
    }
}

/// The ranger after one more level of research, if there is one.
pub open spec fn ranger_researched(c: RangerController) -> Option<RangerController> {
    let next = (c.level + 1) as Level;
    if c.level == 0 {
        Some(RangerController { movement_cooldown: (c.movement_cooldown - 5) as u32, level: next, ..c })
    } else if c.level == 1 {
        Some(RangerController { vision_range: (c.vision_range + 30) as u32, level: next, ..c })
    } else if c.level == 2 {
        Some(RangerController { is_snipe_unlocked: true, level: next, ..c })
    } else {
        None
    }
}

impl RangerController {
    /// Default Ranger stats.
    pub fn default() -> (r: RangerController)
        ensures
            r == default_ranger(),
    {
        RangerController {
            level: 0,
            max_health: 200,
            damage: 70,
            attack_range: 50,
            vision_range: 70,
            movement_cooldown: 20,
            attack_cooldown: 20,
            cannot_attack_range: 10,
            is_snipe_unlocked: false,
            countdown: 0,
            target_location: None,
        }
    }

    /// The research level.
    pub fn level(&self) -> (r: Level)
        ensures
            r == self.level,
    {
        self.level
    }

    /// The maximum health.
    pub fn max_health(&self) -> (r: u32)
        ensures
            r == self.max_health,
    {
        self.max_health
    }

    /// The range within which the Ranger cannot attack.
    pub fn cannot_attack_range(&self) -> (r: u32)
        ensures
            r == self.cannot_attack_range,
    {
        self.cannot_attack_range
    }

    /// Whether the Ranger has unlocked snipe.
    pub fn is_snipe_unlocked(&self) -> (r: bool)
        ensures
            r == self.is_snipe_unlocked,
    {
        self.is_snipe_unlocked
    }

    /// The countdown of the Ranger's snipe.
    pub fn countdown(&self) -> (r: u32)
        ensures
            r == self.countdown,
    {
        self.countdown
    }

    /// The target location of the Ranger's snipe.
    pub fn target_location(&self) -> (r: Option<MapLocation>)
        ensures
            r == self.target_location,
    {
        self.target_location
    }

    /// The Ranger's Tree
    ///
    /// 1. Get in Fast: Decreases a Ranger's movement cooldown by 5.
    /// 2. Scopes: Increases a Ranger's vision range by 30.
    /// 3. Snipe: Unlocks "Snipe" for Rangers.
    ///
    /// * ResearchLevelInvalid - every level has been researched.
    pub fn research(&mut self) -> (r: Result<(), GameError>)
        requires
            old(self).level == 0 ==> old(self).movement_cooldown >= 5,
            old(self).level == 1 ==> old(self).vision_range <= u32::MAX - 30,
        ensures
            ranger_researched(*old(self)) matches Some(c) ==> r is Ok && *final(self) == c,
            ranger_researched(*old(self)) is None ==> r == Err::<(), GameError>(
                GameError::ResearchLevelInvalid,
            ) && *final(self) == *old(self),
    {
        match self.level {
            0 => {
                self.movement_cooldown = self.movement_cooldown - 5;
            },
            1 => {
                self.vision_range = self.vision_range + 30;
            },
            2 => {
                self.is_snipe_unlocked = true;
            },
            _ => {
                return Err(GameError::ResearchLevelInvalid);
            },
        }
        self.level = self.level + 1;
        Ok(())
    }
}

/// Mages are a fragile but specialized ranged unit for large areas.
#[derive(Debug, Clone, Copy, PartialEq, Eq, Structural)]
pub struct MageController {
    pub level: Level,
    pub max_health: u32,
    pub damage: i32,
    pub attack_range: u32,
    pub vision_range: u32,
    pub movement_cooldown: u32,
    pub attack_cooldown: u32,
    pub explode_multiplier: Percent,
    pub is_blink_unlocked: bool,
    pub blink_radius: u32,
}

impl RobotController for MageController {
    fn damage(&self) -> (r: i32)
        ensures
            r == self.damage,
    {
        self.damage
    }

    fn attack_range(&self) -> (r: u32)
        ensures
            r == self.attack_range,
    {
        self.attack_range
    }

    fn vision_range(&self) -> (r: u32)
        ensures
            r == self.vision_range,
    {
        self.vision_range
    }

    fn movement_cooldown(&self) -> (r: u32)
        ensures
            r == self.movement_cooldown,
    {
        self.movement_cooldown
    }

    fn attack_cooldown(&self) -> (r: u32)
        ensures
            r == self.attack_cooldown,
    {
        self.attack_cooldown
    }
}

/// The mage's stats at level 0.
pub open spec fn default_mage() -> MageController {
    MageController {
        level: 0,
        max_health: 100,
        damage: 150,
        attack_range: 30,
        vision_range: 30,
        movement_cooldown: 20,
        attack_cooldown: 20,
        explode_multiplier: 100,
        is_blink_unlocked: false,
        blink_radius: 5,
    }
}

/// The mage after one more level of research, if there is one.
pub open spec fn mage_researched(c: MageController) -> Option<MageController> {
    let next = (c.level + 1) as Level;
    if c.level == 0 || c.level == 1 {
        Some(MageController { damage: (c.damage + 15) as i32, level: next, ..c })
    } else if c.level == 2 {
        Some(MageController { explode_multiplier: (c.explode_multiplier + 50) as u32, level: next, ..c })
    } else if c.level == 3 {
        Some(MageController { is_blink_unlocked: true, level: next, ..c })
    } else {
        None
    }
}

impl MageController {
    /// Default Mage stats.
    pub fn default() -> (r: MageController)
        ensures
            r == default_mage(),
    {
        MageController {
            level: 0,
            max_health: 100,
            damage: 150,
            attack_range: 30,
            vision_range: 30,
            movement_cooldown: 20,
            attack_cooldown: 20,
            explode_multiplier: 100,
            is_blink_unlocked: false,
            blink_radius: 5,
        }
    }

    /// The research level.
    pub fn level(&self) -> (r: Level)
        ensures
            r == self.level,
    {
        self.level
    }

    /// The maximum health.
    pub fn max_health(&self) -> (r: u32)
        ensures
            r == self.max_health,
    {
        self.max_health
    }

    /// The explosion multiplier.
    pub fn explode_multiplier(&self) -> (r: Percent)
        ensures
            r == self.explode_multiplier,
    {
        self.explode_multiplier
    }

    /// Whether blink is unlocked.
    pub fn is_blink_unlocked(&self) -> (r: bool)
        ensures
            r == self.is_blink_unlocked,
    {
        self.is_blink_unlocked
    }

    /// The blink radius.
    pub fn blink_radius(&self) -> (r: u32)
        ensures
            r == self.blink_radius,
    {
        self.blink_radius
    }

    /// The Mage's Tree
    ///
    /// 1. Glass Cannon: Increases the damage of a Mage's attack by 15.
    /// 2. Glass Cannon II: Increases the damage of a Mage's attack by 15.
    /// 3. Blowback: Increases the explosion by 50%.
    /// 4. Blink: Unlocks "Blink" for Mages.
    ///
    /// * ResearchLevelInvalid - every level has been researched.
    pub fn research(&mut self) -> (r: Result<(), GameError>)
        requires
            old(self).level == 0 || old(self).level == 1 ==> old(self).damage <= i32::MAX - 15,
            old(self).level == 2 ==> old(self).explode_multiplier <= u32::MAX - 50,
        ensures
            mage_researched(*old(self)) matches Some(c) ==> r is Ok && *final(self) == c,
            mage_researched(*old(self)) is None ==> r == Err::<(), GameError>(
                GameError::ResearchLevelInvalid,
            ) && *final(self) == *old(self),
    {
        match self.level {
            0 => {
                self.damage = self.damage + 15;
            },
            1 => {
                self.damage = self.damage + 15;
            },
            2 => {
                self.explode_multiplier = self.explode_multiplier + 50;
            },
            3 => {
                self.is_blink_unlocked = true;
            },
            _ => {
                return Err(GameError::ResearchLevelInvalid);
            },
        }
        self.level = self.level + 1;
        Ok(())
    }
}

/// Healers are a suport unit that can heal other units.
#[derive(Debug, Clone, Copy, PartialEq, Eq, Structural)]
pub struct HealerController {
    pub level: Level,
    pub max_health: u32,
    pub damage: i32,
    pub attack_range: u32,
    pub vision_range: u32,
    pub movement_cooldown: u32,
    pub attack_cooldown: u32,
    pub self_heal_amount: u32,
    pub is_overcharge_unlocked: bool,
}

impl RobotController for HealerController {
    fn damage(&self) -> (r: i32)
        ensures
            r == self.damage,
    {
        self.damage
    }

    fn attack_range(&self) -> (r: u32)
        ensures
            r == self.attack_range,
    {
        self.attack_range
    }

    fn vision_range(&self) -> (r: u32)
        ensures
            r == self.vision_range,
    {
        self.vision_range
    }

    fn movement_cooldown(&self) -> (r: u32)
        ensures
            r == self.movement_cooldown,
    {
        self.movement_cooldown
    }

    fn attack_cooldown(&self) -> (r: u32)
        ensures
            r == self.attack_cooldown,
    {
        self.attack_cooldown
    }
}

/// The healer's stats at level 0.
pub open spec fn default_healer() -> HealerController {
    HealerController {
        level: 0,
        max_health: 100,
        damage: -10i32,
        attack_range: 30,
        vision_range: 50,
        movement_cooldown: 25,
        attack_cooldown: 10,
        self_heal_amount: 1,
        is_overcharge_unlocked: false,
    }
}

/// The healer after one more level of research, if there is one.
pub open spec fn healer_researched(c: HealerController) -> Option<HealerController> {
    let next = (c.level + 1) as Level;
    if c.level == 0 {
        Some(HealerController { damage: (c.damage - 2) as i32, level: next, ..c })
    } else if c.level == 1 {
        Some(HealerController { damage: (c.damage - 5) as i32, level: next, ..c })
    } else if c.level == 2 {
        Some(HealerController { is_overcharge_unlocked: true, level: next, ..c })
    } else {
        None
    }
}

impl HealerController {
    /// Default Healer stats.
    pub fn default() -> (r: HealerController)
        ensures
            r == default_healer(),
    {
        HealerController {
            level: 0,
            max_health: 100,
            damage: -10,
            attack_range: 30,
            vision_range: 50,
            movement_cooldown: 25,
            attack_cooldown: 10,
            self_heal_amount: 1,
            is_overcharge_unlocked: false,
        }
    }

    /// The research level.
    pub fn level(&self) -> (r: Level)
        ensures
            r == self.level,
    {
        self.level
    }

    /// The maximum health.
    pub fn max_health(&self) -> (r: u32)
        ensures
            r == self.max_health,
    {
        self.max_health
    }

    /// The amount of health passively restored to itself each round.
    pub fn self_heal_amount(&self) -> (r: u32)
        ensures
            r == self.self_heal_amount,
    {
        self.self_heal_amount
    }

    /// Whether the healer can overcharge.
    pub fn is_overcharge_unlocked(&self) -> (r: bool)
        ensures
            r == self.is_overcharge_unlocked,
    {
        self.is_overcharge_unlocked
    }

    /// The Healer's Tree
    ///
    /// 1. Spirit Water: Increases Healer’s healing ability by 2.
    /// 2. Spirit Water II: Increases Healer’s healing ability by 5.
    /// 3. Overcharge: Unlocks "Overcharge" for Healers.
    ///
    /// * ResearchLevelInvalid - every level has been researched.
    pub fn research(&mut self) -> (r: Result<(), GameError>)
        requires
            old(self).level == 0 ==> old(self).damage >= i32::MIN + 2,
            old(self).level == 1 ==> old(self).damage >= i32::MIN + 5,
        ensures
            healer_researched(*old(self)) matches Some(c) ==> r is Ok && *final(self) == c,
            healer_researched(*old(self)) is None ==> r == Err::<(), GameError>(
                GameError::ResearchLevelInvalid,
            ) && *final(self) == *old(self),
    {
        match self.level {
            0 => {
                self.damage = self.damage - 2;
            },
            1 => {
                self.damage = self.damage - 5;
            },
            2 => {
                self.is_overcharge_unlocked = true;
            },
            _ => {
                return Err(GameError::ResearchLevelInvalid);
            },
        }
        self.level = self.level + 1;
        Ok(())
    }
}

/// A copy of a list of copyable values.
fn copy_vec<T: Copy>(v: &Vec<T>) -> (r: Vec<T>)
    ensures
        r@ == v@,
{
    let mut r: Vec<T> = Vec::new();
    let mut i: usize = 0;
    while i < v.len()
        invariant
            0 <= i <= v@.len(),
            r@ == v@.take(i as int),
        decreases v@.len() - i,
    {
        r.push(v[i]);
        i = i + 1;
        assert(r@ =~= v@.take(i as int));
    }
    assert(v@.take(v@.len() as int) =~= v@);
    r
}

/// Factories are the hub for producing combative robots.
#[derive(Debug, Clone, PartialEq, Eq)]
pub struct FactoryController {
    pub level: Level,
    pub max_health: u32,
    pub production_queue: Vec<UnitType>,
    pub is_ready: bool,
}

impl FactoryController {
    /// Default Factory stats.
    pub fn default() -> (r: FactoryController)
        ensures
            r.level == 0,
            r.max_health == 1000,
            r.production_queue@ == Seq::<UnitType>::empty(),
            !r.is_ready,
    {
        FactoryController {
            level: 0,
            max_health: 1000,
            production_queue: Vec::new(),
            is_ready: false,
        }
    }

    /// The research level.
    pub fn level(&self) -> (r: Level)
        ensures
            r == self.level,
    {
        self.level
    }

    /// The maximum health.
    pub fn max_health(&self) -> (r: u32)
        ensures
            r == self.max_health,
    {
        self.max_health
    }

    /// The robots queued to be produced, in order.
    pub fn production_queue(&self) -> (r: Vec<UnitType>)
        ensures
            r@ == self.production_queue@,
    {
        copy_vec(&self.production_queue)
    }

    /// Whether the factory is ready to be used.
    pub fn is_ready(&self) -> (r: bool)
        ensures
            r == self.is_ready,
    {
        self.is_ready
    }

    /// The Factory's Tree is empty: there is no level to research.
    ///
    /// * ResearchLevelInvalid - always.
    pub fn research(&mut self) -> (r: Result<(), GameError>)
        ensures
            r == Err::<(), GameError>(GameError::ResearchLevelInvalid),
            *final(self) == *old(self),
    {
        Err(GameError::ResearchLevelInvalid)
    }
}

/// Rockets are the only unit that can move between planets.
#[derive(Debug, Clone, PartialEq, Eq)]
pub struct RocketController {
    pub level: Level,
    pub max_health: u32,
    pub used: bool,
    pub max_capacity: usize,
    pub is_rocketry_unlocked: bool,
    pub travel_time_multiplier: Percent,
    pub garrisoned_units: Vec<UnitID>,
    pub is_ready: bool,
}

/// The rocket's stats at level 0, with the given (empty) garrison.
pub open spec fn default_rocket(g: Vec<UnitID>) -> RocketController {
    RocketController {
        level: 0,
        max_health: 200,
        used: false,
        max_capacity: 8,
        is_rocketry_unlocked: false,
        travel_time_multiplier: 100,
        garrisoned_units: g,
        is_ready: false,
    }
}

/// The rocket after one more level of research, if there is one.
pub open spec fn rocket_researched(c: RocketController) -> Option<RocketController> {
    let next = (c.level + 1) as Level;
    if c.level == 0 {
        Some(RocketController { is_rocketry_unlocked: true, level: next, ..c })
    } else if c.level == 1 {
        Some(RocketController { travel_time_multiplier: (c.travel_time_multiplier - 20) as u32, level: next, ..c })
    } else if c.level == 2 {
        Some(RocketController { max_capacity: (c.max_capacity + 4) as usize, level: next, ..c })
    } else {
        None
    }
}

impl RocketController {
    /// Default Rocket stats.
    pub fn default() -> (r: RocketController)
        ensures
            r == default_rocket(r.garrisoned_units),
            r.garrisoned_units@ == Seq::<UnitID>::empty(),
    {
        RocketController {
            level: 0,
            max_health: 200,
            used: false,
            max_capacity: 8,
            is_rocketry_unlocked: false,
            travel_time_multiplier: 100,
            garrisoned_units: Vec::new(),
            is_ready: false,
        }
    }

    /// The research level.
    pub fn level(&self) -> (r: Level)
        ensures
            r == self.level,
    {
        self.level
    }

    /// The maximum health.
    pub fn max_health(&self) -> (r: u32)
        ensures
            r == self.max_health,
    {
        self.max_health
    }

    /// Whether the rocket has been used to travel to another planet.
    pub fn used(&self) -> (r: bool)
        ensures
            r == self.used,
    {
        self.used
    }

    /// The maximum number of robots it can hold at once.
    pub fn max_capacity(&self) -> (r: usize)
        ensures
            r == self.max_capacity,
    {
        self.max_capacity
    }

    /// Whether Rocketry has been researched.
    pub fn is_rocketry_unlocked(&self) -> (r: bool)
        ensures
            r == self.is_rocketry_unlocked,
    {
        self.is_rocketry_unlocked
    }

    /// The percentage of typical travel time required by a rocket.
    pub fn travel_time_multiplier(&self) -> (r: Percent)
        ensures
            r == self.travel_time_multiplier,
    {
        self.travel_time_multiplier
    }

    /// The units garrisoned inside a rocket, in the order they boarded.
    pub fn garrisoned_units(&self) -> (r: Vec<UnitID>)
        ensures
            r@ == self.garrisoned_units@,
    {
        copy_vec(&self.garrisoned_units)
    }

    /// Whether the unit is ready to be used.
    pub fn is_ready(&self) -> (r: bool)
        ensures
            r == self.is_ready,
    {
        self.is_ready
    }

    /// The Rocket's Tree
    ///
    /// 1. Rocketry: Unlocks rocket technology. Workers can now blueprint and
    ///    build rockets.
    /// 2. Rocket Boosters: Reduces rocket travel time by 20% compared to the
    ///    travel time determined by the orbit of the planets.
    /// 3. Increased Capacity: Allows rockets to garrison 50% more units per
    ///    rocket.
    ///
    /// * ResearchLevelInvalid - every level has been researched.
    pub fn research(&mut self) -> (r: Result<(), GameError>)
        requires
            old(self).level == 1 ==> old(self).travel_time_multiplier >= 20,
            old(self).level == 2 ==> old(self).max_capacity <= usize::MAX - 4,
        ensures
            rocket_researched(*old(self)) matches Some(c) ==> r is Ok && *final(self) == c,
            rocket_researched(*old(self)) is None ==> r == Err::<(), GameError>(
                GameError::ResearchLevelInvalid,
            ) && *final(self) == *old(self),
    {
        match self.level {
            0 => {
                self.is_rocketry_unlocked = true;
            },
            1 => {
                self.travel_time_multiplier = self.travel_time_multiplier - 20;
            },
            2 => {
                self.max_capacity = self.max_capacity + 4;
            },
            _ => {
                return Err(GameError::ResearchLevelInvalid);
            },
        }
        self.level = self.level + 1;
        Ok(())
    }

    /// Boards the unit by ID. Assumes the unit can board.
    pub fn push_unit(&mut self, id: UnitID)
        ensures
            final(self).garrisoned_units@ == old(self).garrisoned_units@.push(id),
            *final(self) == (RocketController { garrisoned_units: final(self).garrisoned_units, ..*old(self) }),
    {
        self.garrisoned_units.push(id);
    }

    /// Remove and returns the first unit to board by ID.
    ///
    /// * InvalidAction - there are no units.
    pub fn remove_first_unit(&mut self) -> (r: Result<UnitID, GameError>)
        ensures
            old(self).garrisoned_units@.len() == 0 ==> r == Err::<UnitID, GameError>(
                GameError::InvalidAction,
            ) && *final(self) == *old(self),
            old(self).garrisoned_units@.len() > 0 ==> r == Ok::<UnitID, GameError>(
                old(self).garrisoned_units@[0],
            ) && final(self).garrisoned_units@ == old(self).garrisoned_units@.drop_first(),
            *final(self) == (RocketController { garrisoned_units: final(self).garrisoned_units, ..*old(self) }),
    {
        if self.garrisoned_units.len() == 0 {
            return Err(GameError::InvalidAction);
        }
        let id = self.garrisoned_units.remove(0);
        assert(self.garrisoned_units@ =~= old(self).garrisoned_units@.drop_first());
        Ok(id)
    }

    /// Marks the rocket as used.
    pub fn mark_used(&mut self)
        ensures
            *final(self) == (RocketController { used: true, ..*old(self) }),
    {
        self.used = true;
    }
}

/// The controller of each unit type, which holds what is particular to it.
#[derive(Debug, Clone, PartialEq, Eq)]
pub enum UnitController {
    /// Workers are the foundation of the civilization.
    Worker(WorkerController),
    /// Knights are a melee unit that is strong in numbers.
    Knight(KnightController),
    /// Rangers are a ranged unit with good all-around combat.
    Ranger(RangerController),
    /// Mages are a fragile but specialized ranged unit for large areas.
    Mage(MageController),
    /// Healers are a suport unit that can heal other units.
    Healer(HealerController),
    /// Factories are the hub for producing combative robots.
    Factory(FactoryController),
    /// Rockets are the only unit that can move between planets.
    Rocket(RocketController),
}

/// The unit type a controller is for.
pub open spec fn controller_type(c: UnitController) -> UnitType {
    match c {
        UnitController::Worker(_) => UnitType::Worker,
        UnitController::Knight(_) => UnitType::Knight,
        UnitController::Ranger(_) => UnitType::Ranger,
        UnitController::Mage(_) => UnitType::Mage,
        UnitController::Healer(_) => UnitType::Healer,
        UnitController::Factory(_) => UnitType::Factory,
        UnitController::Rocket(_) => UnitType::Rocket,
    }
}

/// Whether a controller is that of a robot.
pub open spec fn is_robot(c: UnitController) -> bool {
    !(c is Factory || c is Rocket)
}

/// Whether a controller holds the default stats of its type.
pub open spec fn is_default_controller(c: UnitController) -> bool {
    match c {
        UnitController::Worker(w) => w == default_worker(),
        UnitController::Knight(k) => k == default_knight(),
        UnitController::Ranger(r) => r == default_ranger(),
        UnitController::Mage(m) => m == default_mage(),
        UnitController::Healer(h) => h == default_healer(),
        UnitController::Factory(f) => f.level == 0 && f.max_health == 1000 && f.production_queue@.len()
            == 0 && !f.is_ready,
        UnitController::Rocket(r) => r == default_rocket(r.garrisoned_units) && r.garrisoned_units@.len()
            == 0,
    }
}

/// The maximum health a controller gives its unit.
pub open spec fn controller_max_health(c: UnitController) -> u32 {
    match c {
        UnitController::Worker(w) => w.max_health,
        UnitController::Knight(k) => k.max_health,
        UnitController::Ranger(r) => r.max_health,
        UnitController::Mage(m) => m.max_health,
        UnitController::Healer(h) => h.max_health,
        UnitController::Factory(f) => f.max_health,
        UnitController::Rocket(r) => r.max_health,
    }
}

/// The controller after one more level of research, if there is one.
pub open spec fn controller_researched(c: UnitController) -> Option<UnitController> {
    match c {
        UnitController::Worker(w) => match worker_researched(w) {
            Some(x) => Some(UnitController::Worker(x)),
            None => None,
        },
        UnitController::Knight(k) => match knight_researched(k) {
            Some(x) => Some(UnitController::Knight(x)),
            None => None,
        },
        UnitController::Ranger(r) => match ranger_researched(r) {
            Some(x) => Some(UnitController::Ranger(x)),
            None => None,
        },
        UnitController::Mage(m) => match mage_researched(m) {
            Some(x) => Some(UnitController::Mage(x)),
            None => None,
        },
        UnitController::Healer(h) => match healer_researched(h) {
            Some(x) => Some(UnitController::Healer(x)),
            None => None,
        },
        UnitController::Factory(_) => None,
        UnitController::Rocket(r) => match rocket_researched(r) {
            Some(x) => Some(UnitController::Rocket(x)),
            None => None,
        },
    }
}

/// The controller after `n` more levels of research, if there are that many.
pub open spec fn controller_researched_n(c: UnitController, n: nat) -> Option<UnitController>
    decreases n,
{
    if n == 0 {
        Some(c)
    } else {
        match controller_researched(c) {
            Some(d) => controller_researched_n(d, (n - 1) as nat),
            None => None,
        }
    }
}

/// The research of the controller's next level keeps the field it changes
/// within its number type.
pub open spec fn research_fits(c: UnitController) -> bool {
    match c {
        UnitController::Worker(w) => (w.level == 0 ==> w.harvest_amount < u32::MAX) && (w.level == 1
            || w.level == 2 ==> w.build_repair_health < u32::MAX) && (w.level == 3 ==> w.build_repair_health
            <= u32::MAX - 3),
        UnitController::Knight(k) => k.level == 0 || k.level == 1 ==> k.defense_per_robot < u32::MAX,
        UnitController::Ranger(r) => (r.level == 0 ==> r.movement_cooldown >= 5) && (r.level == 1
            ==> r.vision_range <= u32::MAX - 30),
        UnitController::Mage(m) => (m.level == 0 || m.level == 1 ==> m.damage <= i32::MAX - 15) && (m.level
            == 2 ==> m.explode_multiplier <= u32::MAX - 50),
        UnitController::Healer(h) => (h.level == 0 ==> h.damage >= i32::MIN + 2) && (h.level == 1
            ==> h.damage >= i32::MIN + 5),
        UnitController::Factory(_) => true,
        UnitController::Rocket(r) => (r.level == 1 ==> r.travel_time_multiplier >= 20) && (r.level == 2
            ==> r.max_capacity <= usize::MAX - 4),
    }
}

/// A stat bound that grows by 100 with each level.
pub open spec fn stat_bound(level: Level) -> int {
    1000 + 100 * level
}

/// A bound that research never leaves from the defaults: the level is at
/// most 4, and each stat that research raises or lowers has moved by at
/// most 100 per level from the thousands.
pub open spec fn modest(c: UnitController) -> bool {
    match c {
        UnitController::Worker(w) => w.level <= 4 && w.harvest_amount <= stat_bound(w.level)
            && w.build_repair_health <= stat_bound(w.level),
        UnitController::Knight(k) => k.level <= 4 && k.defense_per_robot <= stat_bound(k.level),
        UnitController::Ranger(r) => r.level <= 4 && (r.level == 0 ==> r.movement_cooldown >= 5)
            && r.vision_range <= stat_bound(r.level),
        UnitController::Mage(m) => m.level <= 4 && -1000 <= m.damage <= stat_bound(m.level)
            && m.explode_multiplier <= stat_bound(m.level),
        UnitController::Healer(h) => h.level <= 4 && h.damage >= -stat_bound(h.level) && h.damage <= 1000,
        UnitController::Factory(_) => true,
        UnitController::Rocket(r) => r.level <= 4 && (r.level <= 1 ==> r.travel_time_multiplier
            >= 20) && r.max_capacity <= stat_bound(r.level),
    }
}

/// The research level of a controller.
pub open spec fn controller_level(c: UnitController) -> Level {
    match c {
        UnitController::Worker(w) => w.level,
        UnitController::Knight(k) => k.level,
        UnitController::Ranger(r) => r.level,
        UnitController::Mage(m) => m.level,
        UnitController::Healer(h) => h.level,
        UnitController::Factory(f) => f.level,
        UnitController::Rocket(r) => r.level,
    }
}

/// The number of research levels of each unit type.
pub open spec fn type_max_level(t: UnitType) -> Level {
    match t {
        UnitType::Worker => 4,
        UnitType::Knight => 3,
        UnitType::Ranger => 3,
        UnitType::Mage => 4,
        UnitType::Healer => 3,
        UnitType::Factory => 0,
        UnitType::Rocket => 3,
    }
}

proof fn lemma_modest_research(c: UnitController)
    requires
        modest(c),
        controller_level(c) <= type_max_level(controller_type(c)),
    ensures
        research_fits(c),
        controller_researched(c) is Some <==> controller_level(c) < type_max_level(controller_type(c)),
        controller_researched(c) is Some ==> {
            let d = controller_researched(c)->0;
            &&& modest(d)
            &&& controller_type(d) == controller_type(c)
            &&& controller_level(d) == controller_level(c) + 1
        },
{
    match c {
        UnitController::Worker(w) => {},
        UnitController::Knight(k) => {},
        UnitController::Ranger(r) => {},
        UnitController::Mage(m) => {},
        UnitController::Healer(h) => {},
        UnitController::Factory(f) => {},
        UnitController::Rocket(r) => {},
    }
}

proof fn lemma_default_modest(c: UnitController)
    requires
        is_default_controller(c),
    ensures
        modest(c),
        controller_level(c) == 0,
{
}

/// The movement cooldown a robot's controller gives it.
pub open spec fn controller_movement_cooldown(c: UnitController) -> u32 {
    match c {
        UnitController::Worker(w) => w.movement_cooldown,
        UnitController::Knight(k) => k.movement_cooldown,
        UnitController::Ranger(r) => r.movement_cooldown,
        UnitController::Mage(m) => m.movement_cooldown,
        UnitController::Healer(h) => h.movement_cooldown,
        _ => 0,
    }
}

/// The attack cooldown a robot's controller gives it.
pub open spec fn controller_attack_cooldown(c: UnitController) -> u32 {
    match c {
        UnitController::Worker(w) => w.attack_cooldown,
        UnitController::Knight(k) => k.attack_cooldown,
        UnitController::Ranger(r) => r.attack_cooldown,
        UnitController::Mage(m) => m.attack_cooldown,
        UnitController::Healer(h) => h.attack_cooldown,
        _ => 0,
    }
}

/// The damage a robot's controller gives it.
pub open spec fn controller_damage(c: UnitController) -> i32 {
    match c {
        UnitController::Worker(w) => w.damage,
        UnitController::Knight(k) => k.damage,
        UnitController::Ranger(r) => r.damage,
        UnitController::Mage(m) => m.damage,
        UnitController::Healer(h) => h.damage,
        _ => 0,
    }
}

/// `Ok(v)` for a robot, and `InappropriateUnitType` otherwise.
pub open spec fn robot_only<T>(c: UnitController, v: T) -> Result<T, GameError> {
    if is_robot(c) {
        Ok(v)
    } else {
        Err(GameError::InappropriateUnitType)
    }
}

/// `u` is `base` whose rocket controller `c` now holds the garrison `g`.
pub open spec fn regarrisoned(u: Unit, base: Unit, c: RocketController, g: Seq<UnitID>) -> bool {
    &&& u.controller is Rocket
    &&& u.controller->Rocket_0.garrisoned_units@ == g
    &&& u.controller->Rocket_0 == (RocketController {
        garrisoned_units: u.controller->Rocket_0.garrisoned_units,
        ..c
    })
    &&& u == (Unit { controller: u.controller, ..base })
}

/// A single unit in the game.
#[derive(Debug, Clone, PartialEq, Eq)]
pub struct Unit {
    pub id: UnitID,
    pub team: Team,
    pub location: Option<MapLocation>,
    pub health: u32,
    pub movement_heat: u32,
    pub attack_heat: u32,
    pub controller: UnitController,
}

impl Unit {
    /// Create a new unit of the given type, researched to the given level.
    /// Robots start at full health, structures at a quarter of it.
    ///
    /// * ResearchLevelInvalid - the unit type has fewer levels.
    pub fn new(id: UnitID, team: Team, unit_type: UnitType, level: Level, location: MapLocation) -> (r: Result<Unit, GameError>)
        ensures
            r is Ok <==> level <= type_max_level(unit_type),
            r matches Ok(u) ==> {
                &&& u.id == id
                &&& u.team == team
                &&& u.location == Some(location)
                &&& u.movement_heat == 0
                &&& u.attack_heat == 0
                &&& controller_type(u.controller) == unit_type
                &&& exists|c: UnitController| #![auto] is_default_controller(c) && controller_type(c)
                    == unit_type && controller_researched_n(c, level as nat) == Some(u.controller)
                    && u.health == (if is_robot(c) {
                    controller_max_health(c)
                } else {
                    controller_max_health(c) / 4
                })
            },
            r is Err ==> r == Err::<Unit, GameError>(GameError::ResearchLevelInvalid),
    {
        let controller = unit_type.default();
        let ghost c0 = controller;
        let health = match &controller {
            UnitController::Worker(c) => c.max_health(),
            UnitController::Knight(c) => c.max_health(),
            UnitController::Ranger(c) => c.max_health(),
            UnitController::Mage(c) => c.max_health(),
            UnitController::Healer(c) => c.max_health(),
            UnitController::Factory(c) => c.max_health() / 4,
            UnitController::Rocket(c) => c.max_health() / 4,
        };
        let mut unit = Unit {
            id: id,
            team: team,
            location: Some(location),
            health: health,
            movement_heat: 0,
            attack_heat: 0,
            controller: controller,
        };
        proof {
            lemma_default_modest(c0);
        }
        let mut i: usize = 0;
        while i < level
            invariant
                0 <= i <= level,
                unit.id == id,
                unit.team == team,
                unit.location == Some(location),
                unit.movement_heat == 0,
                unit.attack_heat == 0,
                unit.health == health,
                is_default_controller(c0),
                controller_type(c0) == unit_type,
                health == (if is_robot(c0) {
                    controller_max_health(c0)
                } else {
                    controller_max_health(c0) / 4
                }),
                controller_researched_n(c0, i as nat) == Some(unit.controller),
                modest(unit.controller),
                controller_type(unit.controller) == unit_type,
                controller_level(unit.controller) == i,
                i <= type_max_level(unit_type),
            decreases level - i,
        {
            proof {
                lemma_modest_research(unit.controller);
                lemma_researched_n_split(c0, i as nat);
                if i < level {
                    assert(controller_level(unit.controller) < type_max_level(unit_type) ==> true);
                }
            }
            let ghost before = unit.controller;
            match unit.research() {
                Ok(()) => {},
                    Err(e) => {
                    return Err(e);
                },
            }
            i = i + 1;
        }
        proof {
            assert(is_default_controller(c0) && controller_type(c0) == unit_type
                && controller_researched_n(c0, level as nat) == Some(unit.controller));
        }
        Ok(unit)
    }

    /// The unique ID of a unit.
    pub fn id(&self) -> (r: UnitID)
        ensures
            r == self.id,
    {
        self.id
    }

    /// The team the unit belongs to.
    pub fn team(&self) -> (r: Team)
        ensures
            r == self.team,
    {
        self.team
    }

    /// The unit type.
    pub fn unit_type(&self) -> (r: UnitType)
        ensures
            r == controller_type(self.controller),
    {
        match self.controller {
            UnitController::Worker(_) => UnitType::Worker,
            UnitController::Knight(_) => UnitType::Knight,
            UnitController::Ranger(_) => UnitType::Ranger,
            UnitController::Mage(_) => UnitType::Mage,
            UnitController::Healer(_) => UnitType::Healer,
            UnitController::Factory(_) => UnitType::Factory,
            UnitController::Rocket(_) => UnitType::Rocket,
        }
    }

    /// The location of the unit. None if the unit is traveling or in a rocket.
    pub fn location(&self) -> (r: Option<MapLocation>)
        ensures
            r == self.location,
    {
        self.location
    }

    /// The movement heat.
    ///
    /// * InappropriateUnitType - the unit is not a robot.
    pub fn movement_heat(&self) -> (r: Result<u32, GameError>)
        ensures
            r == robot_only(self.controller, self.movement_heat),
    {
        match self.controller {
            UnitController::Factory(_) | UnitController::Rocket(_) => Err(
                GameError::InappropriateUnitType,
            ),
            _ => Ok(self.movement_heat),
        }
    }

    /// The movement cooldown.
    ///
    /// * InappropriateUnitType - the unit is not a robot.
    pub fn movement_cooldown(&self) -> (r: Result<u32, GameError>)
        ensures
            r == robot_only(self.controller, controller_movement_cooldown(self.controller)),
    {
        match &self.controller {
            UnitController::Worker(c) => Ok(c.movement_cooldown()),
            UnitController::Knight(c) => Ok(c.movement_cooldown()),
            UnitController::Ranger(c) => Ok(c.movement_cooldown()),
            UnitController::Mage(c) => Ok(c.movement_cooldown()),
            UnitController::Healer(c) => Ok(c.movement_cooldown()),
            _ => Err(GameError::InappropriateUnitType),
        }
    }

    /// Whether the unit is ready to move.
    ///
    /// * InappropriateUnitType - the unit is not a robot.
    pub fn is_move_ready(&self) -> (r: Result<bool, GameError>)
        ensures
            r == robot_only(self.controller, self.movement_heat < MAX_HEAT_TO_ACT),
    {
        match self.movement_heat() {
            Ok(heat) => Ok(heat < MAX_HEAT_TO_ACT),
            Err(e) => Err(e),
        }
    }

    /// Moves the unit to this location.
    ///
    /// * InappropriateUnitType - the unit is not a robot.
    /// * InvalidAction - the unit is not ready to move.
    pub fn move_to(&mut self, location: Option<MapLocation>) -> (r: Result<(), GameError>)
        requires
            old(self).movement_heat + controller_movement_cooldown(old(self).controller) <= u32::MAX,
        ensures
            !is_robot(old(self).controller) ==> r == Err::<(), GameError>(
                GameError::InappropriateUnitType,
            ) && *final(self) == *old(self),
            is_robot(old(self).controller) && old(self).movement_heat >= MAX_HEAT_TO_ACT ==> r
                == Err::<(), GameError>(GameError::InvalidAction) && *final(self) == *old(self),
            is_robot(old(self).controller) && old(self).movement_heat < MAX_HEAT_TO_ACT ==> r
                is Ok && *final(self) == (Unit {
                movement_heat: (old(self).movement_heat + controller_movement_cooldown(
                    old(self).controller,
                )) as u32,
                location,
                ..*old(self)
            }),
    {
        let ready = match self.is_move_ready() {
            Ok(b) => b,
            Err(e) => {
                return Err(e);
            },
        };
        if ready {
            let cooldown = match self.movement_cooldown() {
                Ok(c) => c,
                Err(e) => {
                    return Err(e);
                },
            };
            self.movement_heat = self.movement_heat + cooldown;
            self.location = location;
            Ok(())
        } else {
            Err(GameError::InvalidAction)
        }
    }

    /// Whether the unit is adjacent to the location.
    pub fn is_adjacent_to(&self, location: Option<MapLocation>) -> (r: bool)
        requires
            self.location is Some && location is Some ==> dist_fits(
                self.location->0,
                location->0,
            ),
        ensures
            r == (self.location is Some && location is Some && adjacent(
                self.location->0,
                location->0,
            )),
    {
        let loc_a = match self.location() {
            Some(loc) => loc,
            None => {
                return false;
            },
        };
        let loc_b = match location {
            Some(loc) => loc,
            None => {
                return false;
            },
        };
        loc_a.is_adjacent_to(loc_b)
    }

    /// The current health.
    pub fn health(&self) -> (r: u32)
        ensures
            r == self.health,
    {
        self.health
    }

    /// The maximum health.
    pub fn max_health(&self) -> (r: u32)
        ensures
            r == controller_max_health(self.controller),
    {
        match &self.controller {
            UnitController::Worker(c) => c.max_health(),
            UnitController::Knight(c) => c.max_health(),
            UnitController::Ranger(c) => c.max_health(),
            UnitController::Mage(c) => c.max_health(),
            UnitController::Healer(c) => c.max_health(),
            UnitController::Factory(c) => c.max_health(),
            UnitController::Rocket(c) => c.max_health(),
        }
    }

    /// The attack heat.
    ///
    /// * InappropriateUnitType - the unit is not a robot.
    pub fn attack_heat(&self) -> (r: Result<u32, GameError>)
        ensures
            r == robot_only(self.controller, self.attack_heat),
    {
        match self.controller {
            UnitController::Factory(_) | UnitController::Rocket(_) => Err(
                GameError::InappropriateUnitType,
            ),
            _ => Ok(self.attack_heat),
        }
    }

    /// The attack cooldown.
    ///
    /// * InappropriateUnitType - the unit is not a robot.
    pub fn attack_cooldown(&self) -> (r: Result<u32, GameError>)
        ensures
            r == robot_only(self.controller, controller_attack_cooldown(self.controller)),
    {
        match &self.controller {
            UnitController::Worker(c) => Ok(c.attack_cooldown()),
            UnitController::Knight(c) => Ok(c.attack_cooldown()),
            UnitController::Ranger(c) => Ok(c.attack_cooldown()),
            UnitController::Mage(c) => Ok(c.attack_cooldown()),
            UnitController::Healer(c) => Ok(c.attack_cooldown()),
            _ => Err(GameError::InappropriateUnitType),
        }
    }

    /// Whether the unit is ready to attack.
    ///
    /// * InappropriateUnitType - the unit is not a robot.
    pub fn is_attack_ready(&self) -> (r: Result<bool, GameError>)
        ensures
            r == robot_only(self.controller, self.attack_heat < MAX_HEAT_TO_ACT),
    {
        match self.attack_heat() {
            Ok(heat) => Ok(heat < MAX_HEAT_TO_ACT),
            Err(e) => Err(e),
        }
    }

    /// The damage inflicted by the robot during a normal attack.
    ///
    /// * InappropriateUnitType - the unit is not a robot.
    pub fn damage(&self) -> (r: Result<i32, GameError>)
        ensures
            r == robot_only(self.controller, controller_damage(self.controller)),
    {
        match &self.controller {
            UnitController::Worker(c) => Ok(c.damage()),
            UnitController::Knight(c) => Ok(c.damage()),
            UnitController::Ranger(c) => Ok(c.damage()),
            UnitController::Mage(c) => Ok(c.damage()),
            UnitController::Healer(c) => Ok(c.damage()),
            _ => Err(GameError::InappropriateUnitType),
        }
    }

    /// Updates as if the unit has attacked, and returns the damage done. A
    /// unit attacks when it is ready to move.
    ///
    /// * InappropriateUnitType - the unit is not a robot.
    /// * InvalidAction - the unit is not ready to move.
    pub fn attack(&mut self) -> (r: Result<i32, GameError>)
        requires
            old(self).attack_heat + controller_attack_cooldown(old(self).controller) <= u32::MAX,
        ensures
            !is_robot(old(self).controller) ==> r == Err::<i32, GameError>(
                GameError::InappropriateUnitType,
            ) && *final(self) == *old(self),
            is_robot(old(self).controller) && old(self).movement_heat >= MAX_HEAT_TO_ACT ==> r
                == Err::<i32, GameError>(GameError::InvalidAction) && *final(self) == *old(self),
            is_robot(old(self).controller) && old(self).movement_heat < MAX_HEAT_TO_ACT ==> r
                == Ok::<i32, GameError>(controller_damage(old(self).controller)) && *final(self)
                == (Unit {
                attack_heat: (old(self).attack_heat + controller_attack_cooldown(
                    old(self).controller,
                )) as u32,
                ..*old(self)
            }),
    {
        let ready = match self.is_move_ready() {
            Ok(b) => b,
            Err(e) => {
                return Err(e);
            },
        };
        if ready {
            let cooldown = match self.attack_cooldown() {
                Ok(c) => c,
                Err(e) => {
                    return Err(e);
                },
            };
            self.attack_heat = self.attack_heat + cooldown;
            self.damage()
        } else {
            Err(GameError::InvalidAction)
        }
    }

    /// Take the amount of damage given, returning true if the unit has died.
    /// Returns false if the unit is still alive.
    pub fn take_damage(&mut self, damage: i32) -> (r: bool)
        requires
            damage >= 0,
            old(self).health <= i32::MAX,
        ensures
            final(self).health == (if damage < old(self).health {
                old(self).health - damage
            } else {
                0
            }),
            *final(self) == (Unit { health: final(self).health, ..*old(self) }),
            r == (final(self).health == 0),
    {
        let h = self.health as i32;
        let lost = if damage < h { damage } else { h };
        self.health = self.health - lost as u32;
        self.health == 0
    }

    /// Destroys the unit. Equivalent to removing it from the game.
    pub fn destroy(&mut self)
        ensures
            *final(self) == (Unit { location: None, ..*old(self) }),
    {
        self.location = None;
    }

    /// The max capacity of a rocket.
    ///
    /// * InappropriateUnitType - the unit is not a rocket.
    pub fn max_capacity(&self) -> (r: Result<usize, GameError>)
        ensures
            self.controller matches UnitController::Rocket(c) ==> r == Ok::<usize, GameError>(c.max_capacity),
            !(self.controller is Rocket) ==> r == Err::<usize, GameError>(GameError::InappropriateUnitType),
    {
        match &self.controller {
            UnitController::Rocket(c) => Ok(c.max_capacity()),
            _ => Err(GameError::InappropriateUnitType),
        }
    }

    /// Whether the rocket has already been used.
    ///
    /// * InappropriateUnitType - the unit is not a rocket.
    pub fn is_rocket_used(&self) -> (r: Result<bool, GameError>)
        ensures
            self.controller matches UnitController::Rocket(c) ==> r == Ok::<bool, GameError>(c.used),
            !(self.controller is Rocket) ==> r == Err::<bool, GameError>(GameError::InappropriateUnitType),
    {
        match &self.controller {
            UnitController::Rocket(c) => Ok(c.used()),
            _ => Err(GameError::InappropriateUnitType),
        }
    }

    /// Marks the rocket as used.
    ///
    /// * InappropriateUnitType - the unit is not a rocket.
    pub fn use_rocket(&mut self) -> (r: Result<(), GameError>)
        ensures
            old(self).controller matches UnitController::Rocket(c) ==> r is Ok && *final(self) == (Unit {
                controller: UnitController::Rocket(RocketController { used: true, ..c }),
                ..*old(self)
            }),
            !(old(self).controller is Rocket) ==> r == Err::<(), GameError>(
                GameError::InappropriateUnitType,
            ) && *final(self) == *old(self),
    {
        match &mut self.controller {
            UnitController::Rocket(c) => {
                c.mark_used();
                Ok(())
            },
            _ => Err(GameError::InappropriateUnitType),
        }
    }

    /// Returns the garrisoned units in a rocket, in the order they boarded.
    ///
    /// * InappropriateUnitType - the unit is not a rocket.
    pub fn garrisoned_units(&self) -> (r: Result<Vec<UnitID>, GameError>)
        ensures
            self.controller matches UnitController::Rocket(c) ==> r matches Ok(v) && v@ == c.garrisoned_units@,
            !(self.controller is Rocket) ==> r == Err::<Vec<UnitID>, GameError>(GameError::InappropriateUnitType),
    {
        match &self.controller {
            UnitController::Rocket(c) => Ok(c.garrisoned_units()),
            _ => Err(GameError::InappropriateUnitType),
        }
    }

    /// Whether the unit can garrison inside the rocket. The unit must be ready
    /// to move and adjacent to the rocket. The rocket must have enough space.
    ///
    /// * InappropriateUnitType - the unit is not a robot, or it is ready to
    ///   move and the other unit is not a rocket.
    pub fn can_garrison(&self, rocket: &Unit) -> (r: Result<bool, GameError>)
        requires
            self.location is Some && rocket.location is Some ==> dist_fits(
                self.location->0,
                rocket.location->0,
            ),
        ensures
            !is_robot(self.controller) ==> r == Err::<bool, GameError>(GameError::InappropriateUnitType),
            is_robot(self.controller) && self.movement_heat >= MAX_HEAT_TO_ACT ==> r == Ok::<bool, GameError>(false),
            is_robot(self.controller) && self.movement_heat < MAX_HEAT_TO_ACT ==> {
                &&& !(rocket.controller is Rocket) ==> r == Err::<bool, GameError>(GameError::InappropriateUnitType)
                &&& rocket.controller matches UnitController::Rocket(c) ==> r == Ok::<bool, GameError>(
                    c.garrisoned_units@.len() < c.max_capacity && self.team == rocket.team
                        && self.location is Some && rocket.location is Some && adjacent(
                        self.location->0,
                        rocket.location->0,
                    ),
                )
            },
    {
        let ready = match self.is_move_ready() {
            Ok(b) => b,
            Err(e) => {
                return Err(e);
            },
        };
        if !ready {
            return Ok(false);
        }
        let units = match rocket.garrisoned_units() {
            Ok(v) => v,
            Err(e) => {
                return Err(e);
            },
        };
        let capacity = match rocket.max_capacity() {
            Ok(c) => c,
            Err(e) => {
                return Err(e);
            },
        };
        Ok(units.len() < capacity && self.team == rocket.team && self.is_adjacent_to(rocket.location()))
    }

    /// Moves the unit with the given ID inside the rocket.
    ///
    /// * InappropriateUnitType - the unit is not a rocket.
    pub fn garrison(&mut self, id: UnitID) -> (r: Result<(), GameError>)
        ensures
            old(self).controller matches UnitController::Rocket(c) ==> r is Ok && regarrisoned(
                *final(self),
                *old(self),
                c,
                c.garrisoned_units@.push(id),
            ),
            !(old(self).controller is Rocket) ==> r == Err::<(), GameError>(
                GameError::InappropriateUnitType,
            ) && *final(self) == *old(self),
    {
        match &mut self.controller {
            UnitController::Rocket(c) => {
                c.push_unit(id);
            },
            _ => {
                return Err(GameError::InappropriateUnitType);
            },
        }
        Ok(())
    }

    /// Launches the rocket: it leaves the map.
    ///
    /// * InappropriateUnitType - the unit is not a rocket.
    pub fn launch_rocket(&mut self) -> (r: Result<(), GameError>)
        ensures
            old(self).controller is Rocket ==> r is Ok && *final(self) == (Unit {
                location: None,
                ..*old(self)
            }),
            !(old(self).controller is Rocket) ==> r == Err::<(), GameError>(
                GameError::InappropriateUnitType,
            ) && *final(self) == *old(self),
    {
        if self.unit_type() == UnitType::Rocket {
            self.location = None;
            Ok(())
        } else {
            Err(GameError::InappropriateUnitType)
        }
    }

    /// Lands the rocket at the location.
    ///
    /// * InappropriateUnitType - the unit is not a rocket.
    pub fn land_rocket(&mut self, location: MapLocation) -> (r: Result<(), GameError>)
        ensures
            old(self).controller is Rocket ==> r is Ok && *final(self) == (Unit {
                location: Some(location),
                ..*old(self)
            }),
            !(old(self).controller is Rocket) ==> r == Err::<(), GameError>(
                GameError::InappropriateUnitType,
            ) && *final(self) == *old(self),
    {
        if self.unit_type() == UnitType::Rocket {
            self.location = Some(location);
            Ok(())
        } else {
            Err(GameError::InappropriateUnitType)
        }
    }

    /// Whether the rocket can degarrison a unit. The rocket must be on a
    /// planet and it must have at least one unit to degarrison.
    ///
    /// * InappropriateUnitType - the unit is not a rocket.
    pub fn can_degarrison_unit(&self) -> (r: Result<bool, GameError>)
        ensures
            self.controller matches UnitController::Rocket(c) ==> r == Ok::<bool, GameError>(
                self.location is Some && c.garrisoned_units@.len() > 0,
            ),
            !(self.controller is Rocket) ==> r == Err::<bool, GameError>(GameError::InappropriateUnitType),
    {
        match &self.controller {
            UnitController::Rocket(c) => Ok(self.location().is_some() && c.garrisoned_units().len() > 0),
            _ => Err(GameError::InappropriateUnitType),
        }
    }

    /// Degarrisons a single unit from the rocket, and returns its ID: the
    /// first to have boarded.
    ///
    /// * InappropriateUnitType - the unit is not a rocket.
    /// * InvalidAction - there are no units.
    pub fn degarrison_unit(&mut self) -> (r: Result<UnitID, GameError>)
        ensures
            !(old(self).controller is Rocket) ==> r == Err::<UnitID, GameError>(
                GameError::InappropriateUnitType,
            ) && *final(self) == *old(self),
            old(self).controller matches UnitController::Rocket(c) ==> {
                &&& c.garrisoned_units@.len() == 0 ==> r == Err::<UnitID, GameError>(
                    GameError::InvalidAction,
                ) && *final(self) == *old(self)
                &&& c.garrisoned_units@.len() > 0 ==> r == Ok::<UnitID, GameError>(c.garrisoned_units@[0])
                    && regarrisoned(*final(self), *old(self), c, c.garrisoned_units@.drop_first())
            },
    {
        match &mut self.controller {
            UnitController::Rocket(c) => c.remove_first_unit(),
            _ => Err(GameError::InappropriateUnitType),
        }
    }

    /// Research the next level.
    ///
    /// * ResearchLevelInvalid - every level has been researched.
    pub fn research(&mut self) -> (r: Result<(), GameError>)
        requires
            research_fits(old(self).controller),
        ensures
            controller_researched(old(self).controller) matches Some(c) ==> r is Ok && *final(self)
                == (Unit { controller: c, ..*old(self) }),
            controller_researched(old(self).controller) is None ==> r == Err::<(), GameError>(
                GameError::ResearchLevelInvalid,
            ) && *final(self) == *old(self),
    {
        match &mut self.controller {
            UnitController::Worker(c) => c.research(),
            UnitController::Knight(c) => c.research(),
            UnitController::Ranger(c) => c.research(),
            UnitController::Mage(c) => c.research(),
            UnitController::Healer(c) => c.research(),
            UnitController::Factory(c) => c.research(),
            UnitController::Rocket(c) => c.research(),
        }
    }

    /// Process the end of the round: each heat cools by
    /// [`HEAT_LOSS_PER_ROUND`], down to 0.
    pub fn next_round(&mut self)
        ensures
            *final(self) == (Unit {
                movement_heat: (if old(self).movement_heat > HEAT_LOSS_PER_ROUND {
                    old(self).movement_heat - HEAT_LOSS_PER_ROUND
                } else {
                    0
                }) as u32,
                attack_heat: (if old(self).attack_heat > HEAT_LOSS_PER_ROUND {
                    old(self).attack_heat - HEAT_LOSS_PER_ROUND
                } else {
                    0
                }) as u32,
                ..*old(self)
            }),
    {
        let m = if HEAT_LOSS_PER_ROUND < self.movement_heat { HEAT_LOSS_PER_ROUND } else { self.movement_heat };
        self.movement_heat = self.movement_heat - m;
        let a = if HEAT_LOSS_PER_ROUND < self.attack_heat { HEAT_LOSS_PER_ROUND } else { self.attack_heat };
        self.attack_heat = self.attack_heat - a;
    }
}

proof fn lemma_researched_n_split(c: UnitController, n: nat)
    ensures
        controller_researched_n(c, n) matches Some(d) ==> controller_researched_n(c, n + 1)
            == controller_researched(d),
    decreases n,
{
    if n > 0 {
        if let Some(e) = controller_researched(c) {
            lemma_researched_n_split(e, (n - 1) as nat);
        }
    } else {
        reveal_with_fuel(controller_researched_n, 2);
    }
}

} // verus!

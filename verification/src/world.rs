//! The core battlecode engine: teams, players, and the game world.
use vstd::prelude::*;
use fnv::FnvHashMap;
use crate::constants::{APOCALYPSE_ROUND, COMMUNICATION_ARRAY_LENGTH, COMMUNICATION_DELAY, KARBONITE_DECREASE_RATIO, KARBONITE_PER_ROUND, KARBONITE_STARTING, ROUND_LIMIT};
use crate::error::GameError;
use crate::fnv_map::{
    fnv_new, id_map_get, id_map_insert, id_map_keys, id_map_remove, loc_map_get, loc_map_insert, loc_map_keys,
    loc_map_remove, planet_map_get, planet_map_insert, planet_map_remove, team_map_get,
    team_map_insert, team_map_remove,
};
use crate::id_generator::IDGenerator;
use crate::location::{Direction, Location, MapLocation, Planet, sq_dist, is_isqrt, isqrt, lemma_isqrt_bound};
use crate::map::{AsteroidPattern, GameMap, OrbitPattern, PlanetMap};
use crate::research::ResearchInfo;
use crate::rockets::{RocketLanding, RocketLandingInfo};
use crate::rng::random_u8;
use crate::schema::{Delta, StartTurnMessage, TurnMessage, ViewerDelta, ViewerUnitInfo};
use crate::team_array::{TeamArray, TeamArrayInfo};
use crate::unit::{same_unit, unit_eq, Unit, UnitID, UnitType};

verus! {

/// A round consists of a turn from each player.
pub type Rounds = u32;

/// There are two teams in Battlecode: Red and Blue.
#[derive(Debug, Clone, Copy, PartialEq, Eq, Structural, Hash)]
pub enum Team {
    Red,
    Blue,
}

impl Team {
    /// The team that is not this one.
    pub open spec fn spec_other(&self) -> Team {
        match *self {
            Team::Red => Team::Blue,
            Team::Blue => Team::Red,
        }
    }

    /// The other team.
    #[verifier::when_used_as_spec(spec_other)]
    pub fn other(&self) -> (r: Team)
        ensures
            r == self.spec_other(),
            r != *self,
    {
        match *self {
            Team::Red => Team::Blue,
            Team::Blue => Team::Red,
        }
    }
}

/// A player represents a program controlling some group of units.
#[derive(Debug, Clone, Copy, PartialEq, Eq, Structural, Hash)]
pub struct Player {
    /// The team of this player.
    pub team: Team,
    /// The planet for this player. Each team disjointly controls the robots on each planet.
    pub planet: Planet,
}

impl Player {
    /// Constructs a new player.
    pub fn new(team: Team, planet: Planet) -> (r: Player)
        ensures
            r == (Player { team, planet }),
    {
        Player { team: team, planet: planet }
    }

    /// All players, in the order they go in.
    pub fn all() -> (v: Vec<Player>)
        ensures
            v@ == seq![
                Player { team: Team::Red, planet: Planet::Earth },
                Player { team: Team::Blue, planet: Planet::Earth },
                Player { team: Team::Red, planet: Planet::Mars },
                Player { team: Team::Blue, planet: Planet::Mars },
            ],
    {
        vec![
            Player::new(Team::Red, Planet::Earth),
            Player::new(Team::Blue, Planet::Earth),
            Player::new(Team::Red, Planet::Mars),
            Player::new(Team::Blue, Planet::Mars),
        ]
    }

    /// The first player to move.
    pub fn first_to_move() -> (r: Player)
        ensures
            r == (Player { team: Team::Red, planet: Planet::Earth }),
    {
        Player::new(Team::Red, Planet::Earth)
    }
}


/// The rows of a grid, each as a sequence.
pub open spec fn grid_view<T>(g: Seq<Vec<T>>) -> Seq<Seq<T>> {
    g.map_values(|row: Vec<T>| row@)
}

/// A copy of a grid of copyable values.
pub fn copy_grid<T: Copy>(g: &Vec<Vec<T>>) -> (r: Vec<Vec<T>>)
    ensures
        grid_view(r@) == grid_view(g@),
{
    let mut out: Vec<Vec<T>> = Vec::new();
    let mut y: usize = 0;
    while y < g.len()
        invariant
            0 <= y <= g@.len(),
            out@.len() == y,
            forall|k: int| 0 <= k < y ==> (#[trigger] out@[k])@ == g@[k]@,
        decreases g@.len() - y,
    {
        let row = &g[y];
        let mut copy: Vec<T> = Vec::new();
        let mut x: usize = 0;
        while x < row.len()
            invariant
                0 <= x <= row@.len(),
                copy@ == row@.take(x as int),
            decreases row@.len() - x,
        {
            copy.push(row[x]);
            x = x + 1;
            assert(copy@ =~= row@.take(x as int));
        }
        assert(row@.take(row@.len() as int) =~= row@);
        out.push(copy);
        y = y + 1;
    }
    assert(grid_view(out@) =~= grid_view(g@));
    out
}

/// The state for one of the planets in a game.
#[derive(Debug)]
pub struct PlanetInfo {
    /// Visible locations. True if and only if visible, indexed by
    /// y-coordinate first.
    pub visible_locs: Vec<Vec<bool>>,
    /// The units in the vision range.
    pub units: FnvHashMap<UnitID, Unit>,
    /// All the units on the map, by map location.
    pub units_by_loc: FnvHashMap<MapLocation, UnitID>,
    /// The amount of Karbonite deposited on the specified square, indexed by
    /// y-coordinate first.
    pub karbonite: Vec<Vec<u32>>,
}

impl PlanetInfo {
    /// The index by location agrees with the units: each indexed location
    /// holds a unit standing there, each unit is stored under its own ID,
    /// and each unit standing on the map is indexed at its location.
    pub open spec fn indexed(&self) -> bool {
        &&& forall|l: MapLocation| #[trigger] self.units_by_loc@.contains_key(l) ==> {
            &&& self.units@.contains_key(self.units_by_loc@[l])
            &&& self.units@[self.units_by_loc@[l]].location == Location::OnMap(l)
        }
        &&& forall|id: UnitID| #[trigger] self.units@.contains_key(id) ==> {
            &&& self.units@[id].id == id
            &&& (self.units@[id].location is OnMap ==> {
                let l = self.units@[id].location->OnMap_0;
                self.units_by_loc@.contains_key(l) && self.units_by_loc@[l] == id
            })
        }
    }

    /// The grids have the dimensions of the map.
    pub open spec fn fits(&self, map: PlanetMap) -> bool {
        &&& self.karbonite@.len() == map.height
        &&& forall|y: int| 0 <= y < map.height ==> (#[trigger] self.karbonite@[y])@.len() == map.width
        &&& self.visible_locs@.len() == map.height
        &&& forall|y: int| 0 <= y < map.height ==> (#[trigger] self.visible_locs@[y])@.len() == map.width
    }

    /// Construct a planet with the given map, where the current karbonite
    /// deposits are initialized with the map's initial deposits.
    pub fn new(map: &PlanetMap) -> (r: PlanetInfo)
        ensures
            r.units@.dom().is_empty(),
            r.units_by_loc@.dom().is_empty(),
            r.indexed(),
            grid_view(r.karbonite@) == grid_view(map.initial_karbonite@),
            crate::map::grid_filled(r.visible_locs@, true, map.width as int, map.height as int),
    {
        let r = PlanetInfo {
            visible_locs: crate::map::filled_grid(true, map.width, map.height),
            units: fnv_new(),
            units_by_loc: fnv_new(),
            karbonite: copy_grid(&map.initial_karbonite),
        };
        proof {
            assert forall|l: MapLocation| #[trigger] r.units_by_loc@.contains_key(l) implies false by {
                assert(r.units_by_loc@.dom().contains(l));
            }
            assert forall|id: UnitID| #[trigger] r.units@.contains_key(id) implies false by {
                assert(r.units@.dom().contains(id));
            }
        }
        r
    }
}

/// Persistent info specific to a single team. Teams are only able to access
/// the team info of their own team.
#[derive(Debug)]
pub struct TeamInfo {
    /// Communication array histories for each planet.
    pub team_arrays: TeamArrayInfo,
    /// Rocket landings for this team.
    pub rocket_landings: RocketLandingInfo,
    /// The current state of research.
    pub research: ResearchInfo,
    /// The units on this team in space, or in a rocket that is in space.
    pub units_in_space: FnvHashMap<UnitID, Unit>,
    /// The karbonite in the team's resource pool.
    pub karbonite: u32,
}

impl TeamInfo {
    /// The parts of a team's state that have invariants keep them.
    pub open spec fn wf(&self) -> bool {
        &&& self.team_arrays.wf()
        &&& self.research.wf()
    }

    /// Construct a team with the default properties.
    pub fn new() -> (r: TeamInfo)
        ensures
            r.wf(),
            r.units_in_space@.dom().is_empty(),
            r.karbonite == KARBONITE_STARTING,
            r.rocket_landings.landings_view().dom().is_empty(),
            forall|b: UnitType| #[trigger] r.research.levels()[b] == 0,
            r.research.queue_view() == Seq::<UnitType>::empty(),
    {
        TeamInfo {
            team_arrays: TeamArrayInfo::new(),
            rocket_landings: RocketLandingInfo::new(),
            research: ResearchInfo::new(),
            units_in_space: fnv_new(),
            karbonite: KARBONITE_STARTING,
        }
    }
}

/// The full world of the Battlecode game.
///
/// The contents of the game world differ depending on whether it exists in
/// the engine that runs the game or in a player's engine, which holds only
/// what the player may see.
#[derive(Debug)]
pub struct GameWorld {
    /// The current round, starting at 1.
    round: Rounds,
    /// The player whose turn it is.
    player_to_move: Player,
    /// Unit ID generator.
    id_generator: IDGenerator,
    /// The asteroid strike pattern on Mars.
    pub asteroids: AsteroidPattern,
    /// The orbit pattern that determines a rocket's flight duration.
    orbit: OrbitPattern,
    /// The map of each planet.
    pub planet_maps: FnvHashMap<Planet, PlanetMap>,
    /// The state of each planet.
    pub planet_states: FnvHashMap<Planet, PlanetInfo>,
    /// The state of each team.
    pub team_states: FnvHashMap<Team, TeamInfo>,
    /// Additional messages to be sent to the viewer, flushed at the end of
    /// each round.
    viewer_changes: Vec<ViewerDelta>,
}

/// Whether each unit of a list stands on the map, and no two share an ID or
/// a square.
pub open spec fn units_placeable(units: Seq<Unit>) -> bool {
    &&& forall|i: int| 0 <= i < units.len() ==> (#[trigger] units[i]).location is OnMap
    &&& forall|i: int, j: int|
        0 <= i < j < units.len() ==> (#[trigger] units[i]).id != (#[trigger] units[j]).id
            && units[i].location != units[j].location
}

impl GameWorld {
    /// The current round.
    pub closed spec fn round_now(&self) -> Rounds {
        self.round
    }

    /// The player whose turn it is.
    pub closed spec fn mover(&self) -> Player {
        self.player_to_move
    }

    /// The asteroid pattern.
    pub closed spec fn asteroids_now(&self) -> AsteroidPattern {
        self.asteroids
    }

    /// The orbit pattern.
    pub closed spec fn orbit_now(&self) -> OrbitPattern {
        self.orbit
    }

    /// The ID generator.
    pub closed spec fn ids(&self) -> IDGenerator {
        self.id_generator
    }

    /// The messages kept for the viewer.
    pub closed spec fn viewer_log(&self) -> Seq<ViewerDelta> {
        self.viewer_changes@
    }

    /// The state of a planet.
    pub closed spec fn planet_of(&self, p: Planet) -> PlanetInfo {
        self.planet_states@[p]
    }

    /// The state of a team.
    pub closed spec fn team_of(&self, t: Team) -> TeamInfo {
        self.team_states@[t]
    }

    /// The map of a planet.
    pub closed spec fn map_of(&self, p: Planet) -> PlanetMap {
        self.planet_maps@[p]
    }

    /// Whether the world holds the state of a planet.
    pub closed spec fn has_planet(&self, p: Planet) -> bool {
        self.planet_states@.contains_key(p)
    }

    /// Whether the world holds the state of a team.
    pub closed spec fn has_team(&self, t: Team) -> bool {
        self.team_states@.contains_key(t)
    }

    /// The state of the current player's planet.
    pub open spec fn here(&self) -> PlanetInfo {
        self.planet_of(self.mover().planet)
    }

    /// The state of the current player's team.
    pub open spec fn us(&self) -> TeamInfo {
        self.team_of(self.mover().team)
    }

    /// The invariants of a world: both maps are known and are for their
    /// planets, the current player's planet and team have states, every
    /// planet state is indexed and fits its map, and every team state keeps
    /// its invariants.
    pub closed spec fn wf(&self) -> bool {
        &&& self.planet_maps@.contains_key(Planet::Earth)
        &&& self.planet_maps@.contains_key(Planet::Mars)
        &&& self.planet_maps@[Planet::Earth].planet == Planet::Earth
        &&& self.planet_maps@[Planet::Mars].planet == Planet::Mars
        &&& shaped(self.planet_maps@[Planet::Earth])
        &&& shaped(self.planet_maps@[Planet::Mars])
        &&& self.planet_states@.contains_key(self.mover().planet)
        &&& self.team_states@.contains_key(self.mover().team)
        &&& forall|p: Planet| #[trigger] self.planet_states@.contains_key(p) ==> {
            &&& self.planet_states@[p].indexed()
            &&& self.planet_states@[p].fits(self.planet_maps@[p])
        }
        &&& forall|t: Team| #[trigger] self.team_states@.contains_key(t) ==> self.team_states@[t].wf()
        &&& forall|t: Team, id: UnitID| #[trigger] self.team_states@[t].units_in_space@.contains_key(id)
            && self.team_states@.contains_key(t) ==> self.team_states@[t].units_in_space@[id].id == id
            && !(self.team_states@[t].units_in_space@[id].location is OnMap)
    }

    /// A world that holds both planets and both teams keeps the invariants
    /// of a world.
    pub proof fn lemma_full_wf(&self)
        requires
            self.full(),
        ensures
            self.wf(),
    {
    }

    /// A world that holds both planets and both teams, as the engine that
    /// runs the game does.
    pub closed spec fn full(&self) -> bool {
        &&& self.wf()
        &&& self.planet_states@.contains_key(Planet::Earth)
        &&& self.planet_states@.contains_key(Planet::Mars)
        &&& self.team_states@.contains_key(Team::Red)
        &&& self.team_states@.contains_key(Team::Blue)
    }

    /// The current round, starting at round 1 and up to `ROUND_LIMIT` rounds.
    /// A round consists of a turn from each team on each planet.
    pub fn round(&self) -> (r: Rounds)
        ensures
            r == self.round_now(),
    {
        self.round
    }

    /// The current planet.
    pub fn planet(&self) -> (r: Planet)
        ensures
            r == self.mover().planet,
    {
        self.player_to_move.planet
    }

    /// The team whose turn it is.
    pub fn team(&self) -> (r: Team)
        ensures
            r == self.mover().team,
    {
        self.player_to_move.team
    }

    /// The starting map of the given planet. Includes the map's planet,
    /// dimensions, impassable terrain, and initial units and karbonite.
    pub fn starting_map(&self, planet: Planet) -> (r: &PlanetMap)
        requires
            self.wf(),
        ensures
            *r == self.map_of(planet),
    {
        assert(planet == Planet::Earth || planet == Planet::Mars);
        planet_map_get(&self.planet_maps, planet).unwrap()
    }

    /// The state of the given planet.
    pub fn get_planet(&self, planet: Planet) -> (r: &PlanetInfo)
        requires
            self.has_planet(planet),
        ensures
            *r == self.planet_of(planet),
    {
        planet_map_get(&self.planet_states, planet).unwrap()
    }

    /// The state of the given team.
    pub fn get_team(&self, team: Team) -> (r: &TeamInfo)
        requires
            self.has_team(team),
        ensures
            *r == self.team_of(team),
    {
        team_map_get(&self.team_states, team).unwrap()
    }

    fn my_planet(&self) -> (r: &PlanetInfo)
        requires
            self.wf(),
        ensures
            *r == self.here(),
    {
        self.get_planet(self.planet())
    }

    fn my_team(&self) -> (r: &TeamInfo)
        requires
            self.wf(),
        ensures
            *r == self.us(),
    {
        self.get_team(self.team())
    }

    /// The karbonite in the team's resource pool.
    pub fn karbonite(&self) -> (r: u32)
        requires
            self.wf(),
        ensures
            r == self.us().karbonite,
    {
        self.my_team().karbonite
    }

    /// The karbonite in the given team's resource pool.
    pub fn manager_karbonite(&self, team: Team) -> (r: u32)
        requires
            self.has_team(team),
        ensures
            r == self.team_of(team).karbonite,
    {
        self.get_team(team).karbonite
    }
}

impl PlanetInfo {
    /// Adds a unit that stands on a free square under a new ID.
    fn add_unit(&mut self, unit: Unit)
        requires
            old(self).indexed(),
            unit.location is OnMap,
            !old(self).units@.contains_key(unit.id),
            !old(self).units_by_loc@.contains_key(unit.location->OnMap_0),
        ensures
            final(self).indexed(),
            final(self).units@ == old(self).units@.insert(unit.id, unit),
            final(self).units_by_loc@ == old(self).units_by_loc@.insert(unit.location->OnMap_0, unit.id),
            final(self).karbonite == old(self).karbonite,
            final(self).visible_locs == old(self).visible_locs,
    {
        let id = unit.id;
        let location = match unit.location {
            Location::OnMap(l) => l,
            _ => {
                assert(false);
                return;
            },
        };
        id_map_insert(&mut self.units, id, unit);
        loc_map_insert(&mut self.units_by_loc, location, id);
        proof {
            assert forall|l: MapLocation| #[trigger] self.units_by_loc@.contains_key(l) implies {
                &&& self.units@.contains_key(self.units_by_loc@[l])
                &&& self.units@[self.units_by_loc@[l]].location == Location::OnMap(l)
            } by {
                if l != location {
                    assert(old(self).units_by_loc@.contains_key(l));
                    assert(self.units_by_loc@[l] != id);
                }
            }
            assert forall|i: UnitID| #[trigger] self.units@.contains_key(i) implies {
                &&& self.units@[i].id == i
                &&& (self.units@[i].location is OnMap ==> {
                    let l = self.units@[i].location->OnMap_0;
                    self.units_by_loc@.contains_key(l) && self.units_by_loc@[l] == i
                })
            } by {
                if i != id {
                    assert(old(self).units@.contains_key(i));
                    if self.units@[i].location is OnMap {
                        assert(self.units@[i].location->OnMap_0 != location);
                    }
                }
            }
        }
    }
}

impl GameWorld {
    /// Everything but one planet's state is as in `old`.
    pub closed spec fn same_but_planet(&self, old: GameWorld, p: Planet) -> bool {
        &&& self.round == old.round
        &&& self.player_to_move == old.player_to_move
        &&& self.id_generator == old.id_generator
        &&& self.asteroids == old.asteroids
        &&& self.orbit == old.orbit
        &&& self.planet_maps == old.planet_maps
        &&& self.team_states == old.team_states
        &&& self.viewer_changes@ == old.viewer_changes@
        &&& self.planet_states@.dom() == old.planet_states@.dom()
        &&& forall|q: Planet| q != p ==> #[trigger] self.planet_states@[q] == old.planet_states@[q]
    }

    /// Takes a planet's state out of the world, to change it.
    fn take_planet(&mut self, p: Planet) -> (r: PlanetInfo)
        requires
            old(self).planet_states@.contains_key(p),
        ensures
            r == old(self).planet_states@[p],
            final(self).planet_states@ == old(self).planet_states@.remove(p),
            final(self).round == old(self).round,
            final(self).player_to_move == old(self).player_to_move,
            final(self).id_generator == old(self).id_generator,
            final(self).asteroids == old(self).asteroids,
            final(self).orbit == old(self).orbit,
            final(self).planet_maps == old(self).planet_maps,
            final(self).team_states == old(self).team_states,
            final(self).viewer_changes == old(self).viewer_changes,
    {
        planet_map_remove(&mut self.planet_states, p).unwrap()
    }

    /// Puts a planet's state back into the world.
    fn put_planet(&mut self, p: Planet, info: PlanetInfo)
        ensures
            final(self).planet_states@ == old(self).planet_states@.insert(p, info),
            final(self).round == old(self).round,
            final(self).player_to_move == old(self).player_to_move,
            final(self).id_generator == old(self).id_generator,
            final(self).asteroids == old(self).asteroids,
            final(self).orbit == old(self).orbit,
            final(self).planet_maps == old(self).planet_maps,
            final(self).team_states == old(self).team_states,
            final(self).viewer_changes == old(self).viewer_changes,
    {
        planet_map_insert(&mut self.planet_states, p, info);
    }

    /// Inserts a new unit into the internal data structures of the game
    /// world, on the planet it stands on.
    pub fn insert_unit(&mut self, unit: Unit)
        requires
            old(self).wf(),
            unit.location is OnMap,
            old(self).has_planet(unit.location->OnMap_0.planet),
            !old(self).planet_of(unit.location->OnMap_0.planet).units@.contains_key(unit.id),
            !old(self).planet_of(unit.location->OnMap_0.planet).units_by_loc@.contains_key(
                unit.location->OnMap_0,
            ),
        ensures
            final(self).wf(),
            final(self).same_but_planet(*old(self), unit.location->OnMap_0.planet),
            final(self).planet_of(unit.location->OnMap_0.planet).units@ == old(self).planet_of(
                unit.location->OnMap_0.planet,
            ).units@.insert(unit.id, unit),
            final(self).planet_of(unit.location->OnMap_0.planet).units_by_loc@ == old(self).planet_of(unit.location->OnMap_0.planet).units_by_loc@.insert(
                unit.location->OnMap_0,
                unit.id,
            ),
            final(self).planet_of(unit.location->OnMap_0.planet).karbonite == old(self).planet_of(
                unit.location->OnMap_0.planet,
            ).karbonite,
            final(self).planet_of(unit.location->OnMap_0.planet).visible_locs == old(self).planet_of(
                unit.location->OnMap_0.planet,
            ).visible_locs,
    {
        let p = match unit.location {
            Location::OnMap(l) => l.planet,
            _ => {
                assert(false);
                return;
            },
        };
        let mut info = self.take_planet(p);
        info.add_unit(unit);
        self.put_planet(p, info);
        proof {
            assert forall|q: Planet| #[trigger] self.planet_states@.contains_key(q) implies {
                &&& self.planet_states@[q].indexed()
                &&& self.planet_states@[q].fits(self.planet_maps@[q])
            } by {
                if q != p {
                    assert(old(self).planet_states@.contains_key(q));
                }
            }
        }
    }
}

/// Each unit of `a` is a copy of the unit of `b` at the same place.
pub open spec fn copies(a: Seq<Unit>, b: Seq<Unit>) -> bool {
    &&& a.len() == b.len()
    &&& forall|i: int| 0 <= i < a.len() ==> same_unit(#[trigger] a[i], b[i])
}

/// Copies each unit of a list.
fn copy_units(v: &Vec<Unit>) -> (r: Vec<Unit>)
    ensures
        copies(r@, v@),
{
    let mut out: Vec<Unit> = Vec::new();
    let mut i: usize = 0;
    while i < v.len()
        invariant
            0 <= i <= v@.len(),
            out@.len() == i,
            forall|k: int| 0 <= k < i ==> same_unit(#[trigger] out@[k], v@[k]),
        decreases v@.len() - i,
    {
        out.push(v[i].clone());
        i = i + 1;
    }
    out
}

proof fn lemma_copies_keep(a: Seq<Unit>, b: Seq<Unit>)
    requires
        copies(a, b),
    ensures
        units_placeable(b) ==> units_placeable(a),
        forall|p: Planet| all_on_planet(b, p) ==> #[trigger] all_on_planet(a, p),
{
    assert forall|i: int| 0 <= i < a.len() implies (#[trigger] a[i]).id == b[i].id && a[i].location == b[i].location by {
        assert(same_unit(a[i], b[i]));
    }
}

proof fn lemma_copies_hold(info: PlanetInfo, a: Seq<Unit>, b: Seq<Unit>)
    requires
        copies(a, b),
        holds_exactly(info, a),
    ensures
        holds_exactly(info, b),
{
    assert forall|i: int| 0 <= i < a.len() implies (#[trigger] a[i]).id == b[i].id by {
        assert(same_unit(a[i], b[i]));
    }
    assert forall|id: UnitID| #[trigger] info.units@.contains_key(id) <==> exists|i: int|
        0 <= i < b.len() && (#[trigger] b[i]).id == id by {
        if info.units@.contains_key(id) {
            let i = choose|i: int| 0 <= i < a.len() && (#[trigger] a[i]).id == id;
            assert(b[i].id == id);
        }
        if exists|i: int| 0 <= i < b.len() && (#[trigger] b[i]).id == id {
            let i = choose|i: int| 0 <= i < b.len() && (#[trigger] b[i]).id == id;
            assert(a[i].id == id);
        }
    }
    assert forall|i: int| 0 <= i < b.len() implies same_unit(info.units@[(#[trigger] b[i]).id], b[i]) by {
        assert(same_unit(info.units@[a[i].id], a[i]));
        assert(same_unit(a[i], b[i]));
    }
}

/// A map whose karbonite and terrain grids have the map's dimensions, and
/// whose squares all have coordinates an `i32` holds.
pub open spec fn shaped(m: PlanetMap) -> bool {
    &&& m.width <= i32::MAX
    &&& m.height <= i32::MAX
    &&& m.initial_karbonite@.len() == m.height
    &&& forall|y: int| 0 <= y < m.height ==> (#[trigger] m.initial_karbonite@[y])@.len() == m.width
    &&& m.is_passable_terrain@.len() == m.height
    &&& forall|y: int| 0 <= y < m.height ==> (#[trigger] m.is_passable_terrain@[y])@.len() == m.width
}

/// The units of a list stand on the given planet.
pub open spec fn all_on_planet(units: Seq<Unit>, p: Planet) -> bool {
    forall|i: int| 0 <= i < units.len() ==> (#[trigger] units[i]).location is OnMap
        && units[i].location->OnMap_0.planet == p
}

/// The planet state holds exactly the units of the list, each under its
/// ID, indexed at its square.
pub open spec fn holds_exactly(info: PlanetInfo, units: Seq<Unit>) -> bool {
    &&& forall|id: UnitID| #[trigger] info.units@.contains_key(id) <==> exists|i: int|
        0 <= i < units.len() && (#[trigger] units[i]).id == id
    &&& forall|i: int| 0 <= i < units.len() ==> same_unit(
        info.units@[(#[trigger] units[i]).id],
        units[i],
    )
}

impl GameWorld {
    /// Puts each unit of the list on the given empty planet.
    fn insert_all(&mut self, units: &Vec<Unit>, p: Planet)
        requires
            old(self).wf(),
            old(self).has_planet(p),
            old(self).planet_of(p).units@.dom().is_empty(),
            old(self).planet_of(p).units_by_loc@.dom().is_empty(),
            units_placeable(units@),
            all_on_planet(units@, p),
        ensures
            final(self).wf(),
            final(self).same_but_planet(*old(self), p),
            holds_exactly(final(self).planet_of(p), units@),
            final(self).planet_of(p).karbonite == old(self).planet_of(p).karbonite,
    {
        let mut i: usize = 0;
        while i < units.len()
            invariant
                0 <= i <= units@.len(),
                self.wf(),
                self.has_planet(p),
                self.same_but_planet(*old(self), p),
                units_placeable(units@),
                all_on_planet(units@, p),
                self.planet_of(p).karbonite == old(self).planet_of(p).karbonite,
                holds_exactly(self.planet_of(p), units@.take(i as int)),
                forall|l: MapLocation| #[trigger] self.planet_of(p).units_by_loc@.contains_key(l) ==> exists|j: int|
                    0 <= j < i && (#[trigger] units@[j]).location == Location::OnMap(l),
            decreases units@.len() - i,
        {
            let u = units[i].clone();
            let ghost info0 = self.planet_of(p);
            proof {
                if info0.units@.contains_key(u.id) {
                    let j = choose|j: int| 0 <= j < i && (#[trigger] units@.take(i as int)[j]).id == u.id;
                    assert(units@.take(i as int)[j] == units@[j]);
                    assert(units@[j].id != units@[i as int].id);
                }
                let l = u.location->OnMap_0;
                if info0.units_by_loc@.contains_key(l) {
                    let j = choose|j: int| 0 <= j < i && (#[trigger] units@[j]).location == Location::OnMap(l);
                    assert(units@[j].location != units@[i as int].location);
                }
            }
            self.insert_unit(u);
            proof {
                let t = units@.take(i + 1);
                assert(t =~= units@.take(i as int).push(units@[i as int]));
                assert forall|id: UnitID| #[trigger] self.planet_of(p).units@.contains_key(id) <==> exists|k: int|
                    0 <= k < t.len() && (#[trigger] t[k]).id == id by {
                    if self.planet_of(p).units@.contains_key(id) {
                        if id == u.id {
                            assert(t[i as int].id == id);
                        } else {
                            assert(info0.units@.contains_key(id));
                            let k = choose|k: int| 0 <= k < i && (#[trigger] units@.take(i as int)[k]).id == id;
                            assert(t[k] == units@.take(i as int)[k]);
                        }
                    }
                    if exists|k: int| 0 <= k < t.len() && (#[trigger] t[k]).id == id {
                        let k = choose|k: int| 0 <= k < t.len() && (#[trigger] t[k]).id == id;
                        if k < i {
                            assert(units@.take(i as int)[k] == t[k]);
                        }
                    }
                }
                assert forall|k: int| 0 <= k < t.len() implies same_unit(
                    self.planet_of(p).units@[(#[trigger] t[k]).id],
                    t[k],
                ) by {
                    if k < i {
                        assert(units@.take(i as int)[k] == t[k]);
                        assert(t[k].id != u.id);
                    }
                }
                assert forall|l: MapLocation| #[trigger] self.planet_of(p).units_by_loc@.contains_key(l) implies exists|j: int|
                    0 <= j < i + 1 && (#[trigger] units@[j]).location == Location::OnMap(l) by {
                    if l != u.location->OnMap_0 {
                        assert(info0.units_by_loc@.contains_key(l));
                    } else {
                        assert(units@[i as int].location == Location::OnMap(l));
                    }
                }
            }
            i = i + 1;
        }
        assert(units@.take(units@.len() as int) =~= units@);
    }

    /// A world with no units, for the given maps, before the first turn.
    fn empty_world(map: GameMap) -> (r: (GameWorld, Vec<Unit>, Vec<Unit>))
        requires
            map.earth_map.planet == Planet::Earth,
            map.mars_map.planet == Planet::Mars,
            shaped(map.earth_map),
            shaped(map.mars_map),
        ensures
            r.0.full(),
            r.0.round_now() == 1,
            r.0.mover() == (Player { team: Team::Red, planet: Planet::Earth }),
            r.0.ids().seed_view() == map.seed && r.0.ids().index_view() == 2,
            r.0.planet_of(Planet::Earth).units@.dom().is_empty(),
            r.0.planet_of(Planet::Earth).units_by_loc@.dom().is_empty(),
            r.0.planet_of(Planet::Mars).units@.dom().is_empty(),
            r.0.planet_of(Planet::Mars).units_by_loc@.dom().is_empty(),
            r.0.team_of(Team::Red).karbonite == KARBONITE_STARTING,
            r.0.team_of(Team::Blue).karbonite == KARBONITE_STARTING,
            copies(r.1@, map.earth_map.initial_units@),
            copies(r.2@, map.mars_map.initial_units@),
    {
        let earth_info = PlanetInfo::new(&map.earth_map);
        let mars_info = PlanetInfo::new(&map.mars_map);
        let mut planet_states = fnv_new();
        planet_map_insert(&mut planet_states, Planet::Earth, earth_info);
        planet_map_insert(&mut planet_states, Planet::Mars, mars_info);
        let mut team_states = fnv_new();
        team_map_insert(&mut team_states, Team::Red, TeamInfo::new());
        team_map_insert(&mut team_states, Team::Blue, TeamInfo::new());
        let GameMap { seed, earth_map, mars_map, asteroids, orbit } = map;
        let ghost em = earth_map;
        let ghost mm = mars_map;
        let earth_units = copy_units(&earth_map.initial_units);
        let mars_units = copy_units(&mars_map.initial_units);
        let mut planet_maps = fnv_new();
        planet_map_insert(&mut planet_maps, Planet::Earth, earth_map);
        planet_map_insert(&mut planet_maps, Planet::Mars, mars_map);
        let world = GameWorld {
            round: 1,
            player_to_move: Player::first_to_move(),
            id_generator: IDGenerator::new(seed),
            asteroids: asteroids,
            orbit: orbit,
            planet_maps: planet_maps,
            planet_states: planet_states,
            team_states: team_states,
            viewer_changes: Vec::new(),
        };
        proof {
            assert forall|p: Planet| #[trigger] world.planet_states@.contains_key(p) implies {
                &&& world.planet_states@[p].indexed()
                &&& world.planet_states@[p].fits(world.planet_maps@[p])
            } by {
                let m = world.planet_maps@[p];
                let info = world.planet_states@[p];
                assert(p == Planet::Earth || p == Planet::Mars);
                assert(info.karbonite@.len() == grid_view(info.karbonite@).len());
                assert(m.initial_karbonite@.len() == grid_view(m.initial_karbonite@).len());
                assert forall|y: int| 0 <= y < m.height implies (#[trigger] info.karbonite@[y])@.len() == m.width by {
                    assert(grid_view(info.karbonite@)[y] == info.karbonite@[y]@);
                    assert(grid_view(m.initial_karbonite@)[y] == m.initial_karbonite@[y]@);
                }
            }
            assert forall|t: Team| #[trigger] world.team_states@.contains_key(t) implies world.team_states@[t].wf() by {
                assert(t == Team::Red || t == Team::Blue);
            }
        }
        (world, earth_units, mars_units)
    }

    /// Initialize a new game world with maps from both planets, and each
    /// map's initial units on it.
    pub fn new(map: GameMap) -> (r: GameWorld)
        requires
            map.earth_map.planet == Planet::Earth,
            map.mars_map.planet == Planet::Mars,
            shaped(map.earth_map),
            shaped(map.mars_map),
            units_placeable(map.earth_map.initial_units@),
            units_placeable(map.mars_map.initial_units@),
            all_on_planet(map.earth_map.initial_units@, Planet::Earth),
            all_on_planet(map.mars_map.initial_units@, Planet::Mars),
        ensures
            r.full(),
            r.round_now() == 1,
            r.mover() == (Player { team: Team::Red, planet: Planet::Earth }),
            r.ids().seed_view() == map.seed && r.ids().index_view() == 2,
            holds_exactly(r.planet_of(Planet::Earth), map.earth_map.initial_units@),
            holds_exactly(r.planet_of(Planet::Mars), map.mars_map.initial_units@),
            r.team_of(Team::Red).karbonite == KARBONITE_STARTING,
            r.team_of(Team::Blue).karbonite == KARBONITE_STARTING,
    {
        let ghost earth0 = map.earth_map.initial_units@;
        let ghost mars0 = map.mars_map.initial_units@;
        let (mut world, earth_units, mars_units) = GameWorld::empty_world(map);
        proof {
            lemma_copies_keep(earth_units@, earth0);
            lemma_copies_keep(mars_units@, mars0);
        }
        world.insert_all(&earth_units, Planet::Earth);
        world.insert_all(&mars_units, Planet::Mars);
        proof {
            lemma_copies_hold(world.planet_of(Planet::Earth), earth_units@, earth0);
            lemma_copies_hold(world.planet_of(Planet::Mars), mars_units@, mars0);
        }
        world
    }

    /// A test world with the test maps and no units.
    pub fn test_world() -> (r: GameWorld)
        ensures
            r.full(),
            r.round_now() == 1,
            r.mover() == (Player { team: Team::Red, planet: Planet::Earth }),
            r.planet_of(Planet::Earth).units@.dom().is_empty(),
            r.planet_of(Planet::Mars).units@.dom().is_empty(),
    {
        let map = GameMap::test_map();
        let (world, _e, _m) = GameWorld::empty_world(map);
        world
    }
}

/// Whether `l` is a square of the map.
pub open spec fn on_grid(m: PlanetMap, l: MapLocation) -> bool {
    &&& l.planet == m.planet
    &&& 0 <= l.x < m.width
    &&& 0 <= l.y < m.height
}

/// Location `a` comes before `b`: by x-coordinate, then by y-coordinate.
pub open spec fn loc_before(a: MapLocation, b: MapLocation) -> bool {
    a.x < b.x || (a.x == b.x && a.y < b.y)
}

/// A square of the map within distance squared `r2` of `c`.
pub open spec fn near_square(m: PlanetMap, c: MapLocation, r2: int, l: MapLocation) -> bool {
    on_grid(m, l) && sq_dist(c, l) <= r2
}

/// A location within distance squared `n` of `c` lies in the square box of
/// half-width `k` around `c`, where `k` is the whole square root of `n`.
proof fn lemma_in_box(n: int, k: int, c: MapLocation, l: MapLocation)
    requires
        is_isqrt(n, k),
        sq_dist(c, l) <= n,
    ensures
        c.x - k <= l.x <= c.x + k,
        c.y - k <= l.y <= c.y + k,
{
    let dx = l.x - c.x;
    let dy = l.y - c.y;
    assert(dx * dx >= 0 && dy * dy >= 0) by (nonlinear_arith);
    assert(sq_dist(c, l) == dx * dx + dy * dy) by (nonlinear_arith)
        requires dx == l.x - c.x, dy == l.y - c.y;
    lemma_isqrt_bound(n, k, dx);
    lemma_isqrt_bound(n, k, dy);
}

impl GameWorld {
    /// Returns all the locations of the map within distance squared
    /// `radius_squared`, inclusive, of this location, on the same planet.
    ///
    /// The locations are ordered first by the x-coordinate, then the
    /// y-coordinate.
    pub fn all_locations_within(&self, location: MapLocation, radius_squared: u32) -> (r: Vec<MapLocation>)
        requires
            self.wf(),
        ensures
            forall|i: int| 0 <= i < r@.len() ==> near_square(
                self.map_of(location.planet),
                location,
                radius_squared as int,
                #[trigger] r@[i],
            ),
            forall|l: MapLocation| near_square(self.map_of(location.planet), location, radius_squared as int, l)
                ==> #[trigger] r@.contains(l),
            forall|i: int, j: int| 0 <= i < j < r@.len() ==> loc_before(#[trigger] r@[i], #[trigger] r@[j]),
    {
        let map = self.starting_map(location.planet);
        let ghost m = *map;
        let ghost n = radius_squared as int;
        let rad = isqrt(radius_squared);
        let radius = rad as i64;
        let lx = location.x as i64;
        let ly = location.y as i64;
        let width = map.width as i128;
        let height = map.height as i128;
        let min_x: i64 = if lx - radius > 0 { lx - radius } else { 0 };
        let top_x: i64 = if lx + radius < 2147483647 { lx + radius } else { 2147483647 };
        let max_x: i64 = if (top_x as i128) < width - 1 { top_x } else { (width - 1) as i64 };
        let min_y: i64 = if ly - radius > 0 { ly - radius } else { 0 };
        let top_y: i64 = if ly + radius < 2147483647 { ly + radius } else { 2147483647 };
        let max_y: i64 = if (top_y as i128) < height - 1 { top_y } else { (height - 1) as i64 };
        proof {
            assert forall|l: MapLocation| near_square(m, location, n, l) implies min_x <= l.x <= max_x
                && min_y <= l.y <= max_y by {
                lemma_in_box(n, rad as int, location, l);
            }
        }
        let mut locations: Vec<MapLocation> = Vec::new();
        let mut x: i64 = min_x;
        while x <= max_x
            invariant
                min_x <= x,
                x <= max_x + 1 || x == min_x,
                0 <= min_x,
                max_x < m.width,
                max_x <= lx + radius,
                max_x <= 2147483647,
                lx - radius <= min_x,
                0 <= min_y,
                max_y < m.height,
                max_y <= ly + radius,
                max_y <= 2147483647,
                ly - radius <= min_y,
                0 <= radius <= 65536,
                lx == location.x,
                ly == location.y,
                n == radius_squared,
                m.planet == location.planet,
                forall|l: MapLocation| near_square(m, location, n, l) ==> min_x <= l.x <= max_x && min_y
                    <= l.y <= max_y,
                forall|i: int| 0 <= i < locations@.len() ==> near_square(m, location, n, #[trigger] locations@[i])
                    && locations@[i].x < x,
                forall|l: MapLocation| near_square(m, location, n, l) && l.x < x ==> #[trigger] locations@.contains(l),
                forall|i: int, j: int| 0 <= i < j < locations@.len() ==> loc_before(#[trigger] locations@[i], #[trigger] locations@[j]),
            decreases max_x + 1 - x,
        {
            let mut y: i64 = min_y;
            while y <= max_y
                invariant
                    min_x <= x <= max_x,
                    min_y <= y,
                    y <= max_y + 1 || y == min_y,
                    0 <= min_x,
                    0 <= min_y,
                    max_x < m.width,
                    max_y < m.height,
                    max_x <= lx + radius,
                    max_x <= 2147483647,
                    lx - radius <= min_x,
                    max_y <= ly + radius,
                    max_y <= 2147483647,
                    ly - radius <= min_y,
                    0 <= radius <= 65536,
                    lx == location.x,
                    ly == location.y,
                    n == radius_squared,
                    m.planet == location.planet,
                    forall|l: MapLocation| near_square(m, location, n, l) ==> min_x <= l.x <= max_x && min_y
                        <= l.y <= max_y,
                    forall|i: int| 0 <= i < locations@.len() ==> near_square(m, location, n, #[trigger] locations@[i])
                        && (locations@[i].x < x || (locations@[i].x == x && locations@[i].y < y)),
                    forall|l: MapLocation| near_square(m, location, n, l) && (l.x < x || (l.x == x && l.y < y))
                        ==> #[trigger] locations@.contains(l),
                    forall|i: int, j: int| 0 <= i < j < locations@.len() ==> loc_before(#[trigger] locations@[i], #[trigger] locations@[j]),
                decreases max_y + 1 - y,
            {
                let dx: i64 = x - lx;
                let dy: i64 = y - ly;
                proof {
                    assert(dx * dx <= 65536 * 65536) by (nonlinear_arith)
                        requires -65536 <= dx <= 65536;
                    assert(dy * dy <= 65536 * 65536) by (nonlinear_arith)
                        requires -65536 <= dy <= 65536;
                    assert(dx * dx >= 0 && dy * dy >= 0) by (nonlinear_arith);
                }
                let d2: i64 = dx * dx + dy * dy;
                let loc = MapLocation { planet: location.planet, x: x as i32, y: y as i32 };
                assert(sq_dist(location, loc) == d2) by (nonlinear_arith)
                    requires dx == loc.x - location.x, dy == loc.y - location.y, d2 == dx * dx + dy * dy;
                let ghost before = locations@;
                if d2 <= radius_squared as i64 {
                    locations.push(loc);
                    proof {
                        assert forall|l: MapLocation| near_square(m, location, n, l) && (l.x < x || (l.x == x
                            && l.y < y + 1)) implies #[trigger] locations@.contains(l) by {
                            if l == loc {
                                assert(locations@[before.len() as int] == loc);
                            } else {
                                assert(before.contains(l));
                                let k = choose|k: int| 0 <= k < before.len() && before[k] == l;
                                assert(locations@[k] == l);
                            }
                        }
                    }
                } else {
                    proof {
                        assert forall|l: MapLocation| near_square(m, location, n, l) && (l.x < x || (l.x == x
                            && l.y < y + 1)) implies #[trigger] locations@.contains(l) by {
                            if l.x == x && l.y == y {
                                assert(l == loc);
                            }
                        }
                    }
                }
                y = y + 1;
            }
            x = x + 1;
        }
        locations
    }
}

/// Whether the location is a square of the map of the given size.
pub open spec fn inside(l: MapLocation, m: PlanetMap) -> bool {
    0 <= l.x && 0 <= l.y && l.x < m.width && l.y < m.height
}

impl GameWorld {
    /// The current planet's state fits its map and keeps its index.
    pub proof fn lemma_here_fits(&self)
        requires
            self.wf(),
        ensures
            self.has_planet(self.mover().planet),
            self.has_team(self.mover().team),
            self.here().fits(self.map_of(self.mover().planet)),
            self.here().indexed(),
            self.us().wf(),
            forall|id: UnitID| #[trigger] self.us().units_in_space@.contains_key(id) ==> self.us().units_in_space@[id].id == id
                && !(self.us().units_in_space@[id].location is OnMap),
            self.map_of(self.mover().planet).planet == self.mover().planet,
            shaped(self.map_of(self.mover().planet)),
    {
        assert(self.planet_states@.contains_key(self.mover().planet));
        assert(self.team_states@.contains_key(self.mover().team));
    }

    /// Whether the unit can be seen: on the current planet within the vision
    /// range, or the current team's in space.
    pub open spec fn sees_unit(&self, id: UnitID) -> bool {
        self.here().units@.contains_key(id) || self.us().units_in_space@.contains_key(id)
    }

    /// The unit with that ID that the current player sees.
    pub open spec fn seen_unit(&self, id: UnitID) -> Unit {
        if self.here().units@.contains_key(id) {
            self.here().units@[id]
        } else {
            self.us().units_in_space@[id]
        }
    }

    /// What sensing a location gives: off the map when it is on another
    /// planet or outside the map; not visible when out of the vision range.
    pub open spec fn sense_check(&self, l: MapLocation) -> Result<(), GameError> {
        if self.mover().planet != l.planet || !inside(l, self.map_of(l.planet)) {
            Err(GameError::LocationOffMap)
        } else if !self.here().visible_locs@[l.y as int]@[l.x as int] {
            Err(GameError::LocationNotVisible)
        } else {
            Ok(())
        }
    }

    /// The single unit with this ID, as a reference.
    ///
    /// * NoSuchUnit - the unit does not exist (inside the vision range).
    pub fn unit_ref(&self, id: UnitID) -> (r: Result<&Unit, GameError>)
        requires
            self.wf(),
        ensures
            self.sees_unit(id) ==> r == Ok::<&Unit, GameError>(&self.seen_unit(id)),
            !self.sees_unit(id) ==> r == Err::<&Unit, GameError>(GameError::NoSuchUnit),
    {
        if let Some(unit) = id_map_get(&self.my_planet().units, id) {
            Ok(unit)
        } else if let Some(unit) = id_map_get(&self.my_team().units_in_space, id) {
            Ok(unit)
        } else {
            Err(GameError::NoSuchUnit)
        }
    }

    /// The single unit with this ID, copied. Use this method to get detailed
    /// statistics on a unit: heat, cooldowns, and properties of special
    /// abilities like units garrisoned in a rocket.
    ///
    /// * NoSuchUnit - the unit does not exist (inside the vision range).
    pub fn unit(&self, id: UnitID) -> (r: Result<Unit, GameError>)
        requires
            self.wf(),
        ensures
            self.sees_unit(id) <==> r is Ok,
            r is Ok ==> same_unit(r->Ok_0, self.seen_unit(id)),
            !self.sees_unit(id) ==> r == Err::<Unit, GameError>(GameError::NoSuchUnit),
    {
        match self.unit_ref(id) {
            Ok(u) => Ok(u.clone()),
            Err(e) => Err(e),
        }
    }

    /// Gets this unit from space or the current planet, checking that it is
    /// on the current team.
    ///
    /// * NoSuchUnit - the unit does not exist (inside the vision range).
    /// * TeamNotAllowed - the unit is not on the current player's team.
    pub fn my_unit(&self, id: UnitID) -> (r: Result<&Unit, GameError>)
        requires
            self.wf(),
        ensures
            !self.sees_unit(id) ==> r == Err::<&Unit, GameError>(GameError::NoSuchUnit),
            self.sees_unit(id) && self.seen_unit(id).team != self.mover().team ==> r == Err::<&Unit, GameError>(
                GameError::TeamNotAllowed,
            ),
            self.sees_unit(id) && self.seen_unit(id).team == self.mover().team ==> r == Ok::<&Unit, GameError>(
                &self.seen_unit(id),
            ),
    {
        let unit = self.unit_ref(id)?;
        if unit.team == self.team() {
            Ok(unit)
        } else {
            Err(GameError::TeamNotAllowed)
        }
    }

    /// Whether there is a unit with this ID within the vision range.
    pub fn can_sense_unit(&self, id: UnitID) -> (r: bool)
        requires
            self.wf(),
        ensures
            r == self.sees_unit(id),
    {
        self.unit_ref(id).is_ok()
    }

    /// Gets this unit from either planet or from either team's units in
    /// space, in that order.
    ///
    /// * NoSuchUnit - the unit does not exist.
    pub fn get_unit(&self, id: UnitID) -> (r: Result<&Unit, GameError>)
        requires
            self.full(),
        ensures
            self.planet_of(Planet::Earth).units@.contains_key(id) ==> r == Ok::<&Unit, GameError>(
                &self.planet_of(Planet::Earth).units@[id],
            ),
            !self.planet_of(Planet::Earth).units@.contains_key(id) && self.planet_of(Planet::Mars).units@.contains_key(id)
                ==> r == Ok::<&Unit, GameError>(&self.planet_of(Planet::Mars).units@[id]),
            !self.planet_of(Planet::Earth).units@.contains_key(id) && !self.planet_of(Planet::Mars).units@.contains_key(id)
                && self.team_of(Team::Red).units_in_space@.contains_key(id) ==> r == Ok::<&Unit, GameError>(
                &self.team_of(Team::Red).units_in_space@[id],
            ),
            !self.planet_of(Planet::Earth).units@.contains_key(id) && !self.planet_of(Planet::Mars).units@.contains_key(id)
                && !self.team_of(Team::Red).units_in_space@.contains_key(id) && self.team_of(Team::Blue).units_in_space@.contains_key(id)
                ==> r == Ok::<&Unit, GameError>(&self.team_of(Team::Blue).units_in_space@[id]),
            !self.planet_of(Planet::Earth).units@.contains_key(id) && !self.planet_of(Planet::Mars).units@.contains_key(id)
                && !self.team_of(Team::Red).units_in_space@.contains_key(id) && !self.team_of(Team::Blue).units_in_space@.contains_key(id)
                ==> r == Err::<&Unit, GameError>(GameError::NoSuchUnit),
    {
        if let Some(unit) = id_map_get(&self.get_planet(Planet::Earth).units, id) {
            Ok(unit)
        } else if let Some(unit) = id_map_get(&self.get_planet(Planet::Mars).units, id) {
            Ok(unit)
        } else if let Some(unit) = id_map_get(&self.get_team(Team::Red).units_in_space, id) {
            Ok(unit)
        } else if let Some(unit) = id_map_get(&self.get_team(Team::Blue).units_in_space, id) {
            Ok(unit)
        } else {
            Err(GameError::NoSuchUnit)
        }
    }

    /// * LocationOffMap - the location is off the map.
    /// * LocationNotVisible - the location is outside the vision range.
    pub fn ok_if_can_sense_location(&self, location: MapLocation) -> (r: Result<(), GameError>)
        requires
            self.wf(),
        ensures
            r == self.sense_check(location),
    {
        if self.planet() != location.planet {
            return Err(GameError::LocationOffMap);
        }
        if location.x < 0 || location.y < 0 {
            return Err(GameError::LocationOffMap);
        }
        let map = self.starting_map(location.planet);
        if location.x as usize >= map.width || location.y as usize >= map.height {
            return Err(GameError::LocationOffMap);
        }
        let x = location.x as usize;
        let y = location.y as usize;
        let info = self.my_planet();
        proof {
            self.lemma_here_fits();
        }
        if !info.visible_locs[y][x] {
            return Err(GameError::LocationNotVisible);
        }
        Ok(())
    }

    /// Whether the location is on the map and within the vision range.
    pub fn can_sense_location(&self, location: MapLocation) -> (r: bool)
        requires
            self.wf(),
        ensures
            r == (self.sense_check(location) is Ok),
    {
        self.ok_if_can_sense_location(location).is_ok()
    }

    /// The karbonite at the given location.
    ///
    /// * LocationOffMap - the location is off the map.
    /// * LocationNotVisible - the location is outside the vision range.
    pub fn karbonite_at(&self, location: MapLocation) -> (r: Result<u32, GameError>)
        requires
            self.wf(),
        ensures
            self.sense_check(location) is Err ==> r == Err::<u32, GameError>(self.sense_check(location)->Err_0),
            self.sense_check(location) is Ok ==> r == Ok::<u32, GameError>(
                self.here().karbonite@[location.y as int]@[location.x as int],
            ),
    {
        self.ok_if_can_sense_location(location)?;
        proof {
            self.lemma_here_fits();
        }
        Ok(self.my_planet().karbonite[location.y as usize][location.x as usize])
    }
}

/// A unit passes the optional team and type filters.
pub open spec fn passes(u: Unit, team: Option<Team>, ty: Option<UnitType>) -> bool {
    (team is None || u.team == team->0) && (ty is None || u.unit_type == ty->0)
}

/// The location of a unit on the map (meaningful for units on the map).
pub open spec fn map_loc(u: Unit) -> MapLocation {
    u.location->OnMap_0
}

impl GameWorld {
    /// A square of the map near `c` that holds a unit the player sees.
    pub open spec fn occupied_near(&self, c: MapLocation, r2: int, l: MapLocation) -> bool {
        near_square(self.map_of(c.planet), c, r2, l) && self.here().units_by_loc@.contains_key(l)
    }

    /// The unit the player sees standing at the location.
    pub open spec fn unit_at(&self, l: MapLocation) -> Unit {
        self.here().units@[self.here().units_by_loc@[l]]
    }

    /// The units on the squares within `radius` of `location`, ordered by
    /// location, that pass the filters.
    fn sense_filtered(&self, location: MapLocation, radius: u32, team: Option<Team>, ty: Option<UnitType>) -> (r: Vec<Unit>)
        requires
            self.wf(),
        ensures
            forall|i: int| 0 <= i < r@.len() ==> {
                &&& (#[trigger] r@[i]).location is OnMap
                &&& self.occupied_near(location, radius as int, map_loc(r@[i]))
                &&& same_unit(r@[i], self.unit_at(map_loc(r@[i])))
                &&& passes(r@[i], team, ty)
            },
            forall|l: MapLocation| #[trigger] self.occupied_near(location, radius as int, l) && passes(
                self.unit_at(l),
                team,
                ty,
            ) ==> exists|i: int| 0 <= i < r@.len() && (#[trigger] r@[i]).location == Location::OnMap(l),
            forall|i: int, j: int| 0 <= i < j < r@.len() ==> loc_before(map_loc(#[trigger] r@[i]), map_loc(#[trigger] r@[j])),
    {
        let locs = self.all_locations_within(location, radius);
        let info = self.my_planet();
        proof {
            self.lemma_here_fits();
        }
        let mut units: Vec<Unit> = Vec::new();
        let mut k: usize = 0;
        while k < locs.len()
            invariant
                self.wf(),
                *info == self.here(),
                info.indexed(),
                0 <= k <= locs@.len(),
                forall|i: int| 0 <= i < locs@.len() ==> near_square(
                    self.map_of(location.planet),
                    location,
                    radius as int,
                    #[trigger] locs@[i],
                ),
                forall|l: MapLocation| near_square(self.map_of(location.planet), location, radius as int, l)
                    ==> #[trigger] locs@.contains(l),
                forall|i: int, j: int| 0 <= i < j < locs@.len() ==> loc_before(#[trigger] locs@[i], #[trigger] locs@[j]),
                forall|i: int| 0 <= i < units@.len() ==> {
                    &&& (#[trigger] units@[i]).location is OnMap
                    &&& self.occupied_near(location, radius as int, map_loc(units@[i]))
                    &&& same_unit(units@[i], self.unit_at(map_loc(units@[i])))
                    &&& passes(units@[i], team, ty)
                    &&& exists|m: int| 0 <= m < k && map_loc(units@[i]) == #[trigger] locs@[m]
                },
                forall|m: int| 0 <= m < k && #[trigger] self.occupied_near(location, radius as int, locs@[m]) && passes(
                    self.unit_at(locs@[m]),
                    team,
                    ty,
                ) ==> exists|i: int| 0 <= i < units@.len() && (#[trigger] units@[i]).location == Location::OnMap(locs@[m]),
                forall|i: int, j: int| 0 <= i < j < units@.len() ==> loc_before(map_loc(#[trigger] units@[i]), map_loc(#[trigger] units@[j])),
                forall|i: int| 0 <= i < units@.len() ==> exists|m: int| 0 <= m < k && map_loc(#[trigger] units@[i]) == locs@[m],
            decreases locs@.len() - k,
        {
            let l = locs[k];
            let ghost before = units@;
            if let Some(id) = loc_map_get(&info.units_by_loc, l) {
                let unit = id_map_get(&info.units, *id).unwrap();
                if (team.is_none() || unit.team == team.unwrap()) && (ty.is_none() || unit.unit_type == ty.unwrap()) {
                    let u = unit.clone();
                    units.push(u);
                    proof {
                        assert(units@[before.len() as int] == u);
                        assert(map_loc(u) == l);
                        assert(self.occupied_near(location, radius as int, l));
                        assert forall|i: int| 0 <= i < before.len() implies loc_before(map_loc(#[trigger] before[i]), l) by {
                            let m = choose|m: int| 0 <= m < k && map_loc(before[i]) == locs@[m];
                            assert(loc_before(locs@[m], locs@[k as int]));
                        }
                        assert forall|i: int| 0 <= i < units@.len() implies exists|m: int| 0 <= m < k + 1 && map_loc(#[trigger] units@[i]) == locs@[m] by {
                            if i < before.len() {
                                assert(units@[i] == before[i]);
                                let m = choose|m: int| 0 <= m < k && map_loc(before[i]) == locs@[m];
                            } else {
                                assert(map_loc(units@[i]) == locs@[k as int]);
                            }
                        }
                    }
                }
            }
            proof {
                assert forall|m: int| 0 <= m < k + 1 && #[trigger] self.occupied_near(location, radius as int, locs@[m]) && passes(
                    self.unit_at(locs@[m]),
                    team,
                    ty,
                ) implies exists|i: int| 0 <= i < units@.len() && (#[trigger] units@[i]).location == Location::OnMap(locs@[m]) by {
                    if m < k {
                        let i = choose|i: int| 0 <= i < before.len() && (#[trigger] before[i]).location == Location::OnMap(locs@[m]);
                        assert(units@[i] == before[i]);
                    } else {
                        assert(units@[before.len() as int].location == Location::OnMap(locs@[m]));
                    }
                }
            }
            k = k + 1;
        }
        proof {
            assert forall|l: MapLocation| #[trigger] self.occupied_near(location, radius as int, l) && passes(
                self.unit_at(l),
                team,
                ty,
            ) implies exists|i: int| 0 <= i < units@.len() && (#[trigger] units@[i]).location == Location::OnMap(l) by {
                assert(locs@.contains(l));
                let m = choose|m: int| 0 <= m < locs@.len() && locs@[m] == l;
                assert(self.occupied_near(location, radius as int, locs@[m]));
            }
        }
        units
    }

    /// Sense units near the location within the given radius, inclusive, in
    /// distance squared. The units are within the vision range.
    pub fn sense_nearby_units(&self, location: MapLocation, radius: u32) -> (r: Vec<Unit>)
        requires
            self.wf(),
        ensures
            forall|i: int| 0 <= i < r@.len() ==> {
                &&& (#[trigger] r@[i]).location is OnMap
                &&& self.occupied_near(location, radius as int, map_loc(r@[i]))
                &&& same_unit(r@[i], self.unit_at(map_loc(r@[i])))
            },
            forall|l: MapLocation| #[trigger] self.occupied_near(location, radius as int, l) ==> exists|i: int|
                0 <= i < r@.len() && (#[trigger] r@[i]).location == Location::OnMap(l),
            forall|i: int, j: int| 0 <= i < j < r@.len() ==> loc_before(map_loc(#[trigger] r@[i]), map_loc(#[trigger] r@[j])),
    {
        let r = self.sense_filtered(location, radius, None, None);
        proof {
            assert forall|l: MapLocation| #[trigger] self.occupied_near(location, radius as int, l) implies exists|i: int|
                0 <= i < r@.len() && (#[trigger] r@[i]).location == Location::OnMap(l) by {
                assert(passes(self.unit_at(l), None, None));
            }
        }
        r
    }

    /// Sense units near the location within the given radius, inclusive, in
    /// distance squared. The units are within the vision range. Additionally
    /// filters the units by team.
    pub fn sense_nearby_units_by_team(&self, location: MapLocation, radius: u32, team: Team) -> (r: Vec<Unit>)
        requires
            self.wf(),
        ensures
            forall|i: int| 0 <= i < r@.len() ==> {
                &&& (#[trigger] r@[i]).location is OnMap
                &&& self.occupied_near(location, radius as int, map_loc(r@[i]))
                &&& same_unit(r@[i], self.unit_at(map_loc(r@[i])))
                &&& r@[i].team == team
            },
            forall|l: MapLocation| #[trigger] self.occupied_near(location, radius as int, l) && self.unit_at(l).team
                == team ==> exists|i: int| 0 <= i < r@.len() && (#[trigger] r@[i]).location == Location::OnMap(l),
            forall|i: int, j: int| 0 <= i < j < r@.len() ==> loc_before(map_loc(#[trigger] r@[i]), map_loc(#[trigger] r@[j])),
    {
        let r = self.sense_filtered(location, radius, Some(team), None);
        proof {
            assert forall|l: MapLocation| #[trigger] self.occupied_near(location, radius as int, l) && self.unit_at(l).team
                == team implies exists|i: int| 0 <= i < r@.len() && (#[trigger] r@[i]).location == Location::OnMap(l) by {
                assert(passes(self.unit_at(l), Some(team), None));
            }
        }
        r
    }

    /// Sense units near the location within the given radius, inclusive, in
    /// distance squared. The units are within the vision range. Additionally
    /// filters the units by unit type.
    pub fn sense_nearby_units_by_type(&self, location: MapLocation, radius: u32, unit_type: UnitType) -> (r: Vec<Unit>)
        requires
            self.wf(),
        ensures
            forall|i: int| 0 <= i < r@.len() ==> {
                &&& (#[trigger] r@[i]).location is OnMap
                &&& self.occupied_near(location, radius as int, map_loc(r@[i]))
                &&& same_unit(r@[i], self.unit_at(map_loc(r@[i])))
                &&& r@[i].unit_type == unit_type
            },
            forall|l: MapLocation| #[trigger] self.occupied_near(location, radius as int, l) && self.unit_at(
                l,
            ).unit_type == unit_type ==> exists|i: int| 0 <= i < r@.len() && (#[trigger] r@[i]).location
                == Location::OnMap(l),
            forall|i: int, j: int| 0 <= i < j < r@.len() ==> loc_before(map_loc(#[trigger] r@[i]), map_loc(#[trigger] r@[j])),
    {
        let r = self.sense_filtered(location, radius, None, Some(unit_type));
        proof {
            assert forall|l: MapLocation| #[trigger] self.occupied_near(location, radius as int, l) && self.unit_at(
                l,
            ).unit_type == unit_type implies exists|i: int| 0 <= i < r@.len() && (#[trigger] r@[i]).location
                == Location::OnMap(l) by {
                assert(passes(self.unit_at(l), None, Some(unit_type)));
            }
        }
        r
    }

    /// The unit at the location, if it exists.
    ///
    /// * LocationOffMap - the location is off the map.
    /// * LocationNotVisible - the location is outside the vision range.
    pub fn sense_unit_at_location(&self, location: MapLocation) -> (r: Result<Option<Unit>, GameError>)
        requires
            self.wf(),
        ensures
            self.sense_check(location) is Err ==> r == Err::<Option<Unit>, GameError>(self.sense_check(location)->Err_0),
            self.sense_check(location) is Ok && !self.here().units_by_loc@.contains_key(location) ==> r == Ok::<
                Option<Unit>,
                GameError,
            >(None),
            self.sense_check(location) is Ok && self.here().units_by_loc@.contains_key(location) ==> r is Ok
                && r->Ok_0 is Some && same_unit(r->Ok_0->Some_0, self.unit_at(location)),
    {
        self.ok_if_can_sense_location(location)?;
        let info = self.my_planet();
        proof {
            self.lemma_here_fits();
        }
        match loc_map_get(&info.units_by_loc, location) {
            Some(id) => {
                let unit = id_map_get(&info.units, *id).unwrap();
                Ok(Some(unit.clone()))
            },
            None => Ok(None),
        }
    }

    /// Whether the location is clear for a unit to occupy, either by movement
    /// or by construction.
    ///
    /// * LocationOffMap - the location is off the map.
    /// * LocationNotVisible - the location is outside the vision range.
    pub fn is_occupiable(&self, location: MapLocation) -> (r: Result<bool, GameError>)
        requires
            self.wf(),
        ensures
            self.sense_check(location) is Err ==> r == Err::<bool, GameError>(self.sense_check(location)->Err_0),
            self.sense_check(location) is Ok ==> r == Ok::<bool, GameError>(
                self.map_of(location.planet).is_passable_terrain@[location.y as int]@[location.x as int]
                    && !self.here().units_by_loc@.contains_key(location),
            ),
    {
        self.ok_if_can_sense_location(location)?;
        let map = self.starting_map(location.planet);
        let passable = map.is_passable_terrain[location.y as usize][location.x as usize];
        Ok(passable && !loc_map_get(&self.my_planet().units_by_loc, location).is_some())
    }
}


/// Each unit of the map is stored under its own ID.
pub open spec fn keyed_by_id(m: Map<UnitID, Unit>) -> bool {
    forall|id: UnitID| #[trigger] m.contains_key(id) ==> m[id].id == id
}

/// The list holds a copy of each unit of the map once, in some order.
pub open spec fn lists_units(r: Seq<Unit>, m: Map<UnitID, Unit>) -> bool {
    &&& forall|i: int| 0 <= i < r.len() ==> m.contains_key((#[trigger] r[i]).id) && same_unit(r[i], m[r[i].id])
    &&& forall|i: int, j: int| 0 <= i < j < r.len() ==> (#[trigger] r[i]).id != (#[trigger] r[j]).id
    &&& forall|id: UnitID| #[trigger] m.contains_key(id) ==> exists|i: int| 0 <= i < r.len() && (#[trigger] r[i]).id == id
}

/// A copy of each unit of the map, in the map's order.
fn copy_unit_map(m: &FnvHashMap<UnitID, Unit>) -> (r: Vec<Unit>)
    requires
        keyed_by_id(m@),
    ensures
        lists_units(r@, m@),
{
    let keys = id_map_keys(m);
    let mut out: Vec<Unit> = Vec::new();
    let mut i: usize = 0;
    while i < keys.len()
        invariant
            keyed_by_id(m@),
            keys@.no_duplicates(),
            forall|k: UnitID| #[trigger] keys@.contains(k) <==> m@.contains_key(k),
            0 <= i <= keys@.len(),
            out@.len() == i,
            forall|j: int| 0 <= j < i ==> (#[trigger] out@[j]).id == keys@[j] && same_unit(out@[j], m@[keys@[j]]),
        decreases keys@.len() - i,
    {
        let k = keys[i];
        assert(keys@.contains(k));
        let u = id_map_get(m, k).unwrap();
        out.push(u.clone());
        i = i + 1;
    }
    proof {
        assert forall|a: int, b: int| 0 <= a < b < out@.len() implies (#[trigger] out@[a]).id != (#[trigger] out@[b]).id by {
            assert(keys@[a] != keys@[b]);
        }
        assert forall|a: int| 0 <= a < out@.len() implies m@.contains_key((#[trigger] out@[a]).id) by {
            assert(keys@.contains(keys@[a]));
        }
        assert forall|id: UnitID| #[trigger] m@.contains_key(id) implies exists|j: int| 0 <= j < out@.len() && (#[trigger] out@[j]).id == id by {
            assert(keys@.contains(id));
            let j = choose|j: int| 0 <= j < keys@.len() && keys@[j] == id;
            assert(out@[j].id == id);
        }
    }
    out
}

impl GameWorld {
    /// All the units within the vision range, in no particular order.
    /// Does not include units in space.
    pub fn units(&self) -> (r: Vec<Unit>)
        requires
            self.wf(),
        ensures
            lists_units(r@, self.here().units@),
    {
        proof {
            self.lemma_here_fits();
        }
        copy_unit_map(&self.my_planet().units)
    }

    /// All the units within the vision range, as references, in no
    /// particular order. Does not include units in space.
    pub fn units_ref(&self) -> (r: Vec<&Unit>)
        requires
            self.wf(),
        ensures
            forall|i: int| 0 <= i < r@.len() ==> self.here().units@.contains_key((#[trigger] r@[i]).id) && *r@[i]
                == self.here().units@[r@[i].id],
            forall|i: int, j: int| 0 <= i < j < r@.len() ==> (#[trigger] r@[i]).id != (#[trigger] r@[j]).id,
            forall|id: UnitID| #[trigger] self.here().units@.contains_key(id) ==> exists|i: int| 0 <= i < r@.len()
                && (#[trigger] r@[i]).id == id,
    {
        let info = self.my_planet();
        proof {
            self.lemma_here_fits();
        }
        let keys = id_map_keys(&info.units);
        let mut out: Vec<&Unit> = Vec::new();
        let mut i: usize = 0;
        while i < keys.len()
            invariant
                info.indexed(),
                *info == self.here(),
                keys@.no_duplicates(),
                forall|k: UnitID| #[trigger] keys@.contains(k) <==> info.units@.contains_key(k),
                0 <= i <= keys@.len(),
                out@.len() == i,
                forall|j: int| 0 <= j < i ==> (#[trigger] out@[j]).id == keys@[j] && *out@[j] == info.units@[keys@[j]],
            decreases keys@.len() - i,
        {
            let k = keys[i];
            assert(keys@.contains(k));
            let u = id_map_get(&info.units, k).unwrap();
            out.push(u);
            i = i + 1;
        }
        proof {
            assert forall|a: int, b: int| 0 <= a < b < out@.len() implies (#[trigger] out@[a]).id != (#[trigger] out@[b]).id by {
                assert(keys@[a] != keys@[b]);
            }
            assert forall|a: int| 0 <= a < out@.len() implies info.units@.contains_key((#[trigger] out@[a]).id) by {
                assert(keys@.contains(keys@[a]));
            }
            assert forall|id: UnitID| #[trigger] info.units@.contains_key(id) implies exists|j: int| 0 <= j < out@.len()
                && (#[trigger] out@[j]).id == id by {
                assert(keys@.contains(id));
                let j = choose|j: int| 0 <= j < keys@.len() && keys@[j] == id;
                assert(out@[j].id == id);
            }
        }
        out
    }

    /// All the units within the vision range, by ID.
    /// Does not include units in space.
    pub fn units_by_id(&self) -> (r: FnvHashMap<UnitID, Unit>)
        requires
            self.wf(),
        ensures
            r@.dom() == self.here().units@.dom(),
            forall|id: UnitID| #[trigger] r@.contains_key(id) ==> same_unit(r@[id], self.here().units@[id]),
    {
        proof {
            self.lemma_here_fits();
        }
        let list = copy_unit_map(&self.my_planet().units);
        let ghost m = self.here().units@;
        let mut out: FnvHashMap<UnitID, Unit> = fnv_new();
        let mut i: usize = 0;
        while i < list.len()
            invariant
                lists_units(list@, m),
                0 <= i <= list@.len(),
                forall|id: UnitID| #[trigger] out@.contains_key(id) <==> exists|j: int| 0 <= j < i && (#[trigger] list@[j]).id == id,
                forall|id: UnitID| #[trigger] out@.contains_key(id) ==> same_unit(out@[id], m[id]),
            decreases list@.len() - i,
        {
            let u = list[i].clone();
            let ghost before = out@;
            id_map_insert(&mut out, u.id, u);
            proof {
                assert forall|id: UnitID| #[trigger] out@.contains_key(id) <==> exists|j: int| 0 <= j < i + 1 && (#[trigger] list@[j]).id == id by {
                    if id == list@[i as int].id {
                        assert(list@[i as int].id == id);
                    } else if out@.contains_key(id) {
                        assert(before.contains_key(id));
                    } else if exists|j: int| 0 <= j < i + 1 && (#[trigger] list@[j]).id == id {
                        let j = choose|j: int| 0 <= j < i + 1 && (#[trigger] list@[j]).id == id;
                        assert(j < i);
                    }
                }
            }
            i = i + 1;
        }
        proof {
            assert(out@.dom() =~= m.dom());
        }
        out
    }

    /// All the units within the vision range, by location.
    /// Does not include units in garrisons or in space.
    pub fn units_by_loc(&self) -> (r: FnvHashMap<MapLocation, UnitID>)
        requires
            self.wf(),
        ensures
            r@ == self.here().units_by_loc@,
    {
        let info = self.my_planet();
        let keys = loc_map_keys(&info.units_by_loc);
        let mut out: FnvHashMap<MapLocation, UnitID> = fnv_new();
        let mut i: usize = 0;
        while i < keys.len()
            invariant
                keys@.no_duplicates(),
                forall|k: MapLocation| #[trigger] keys@.contains(k) <==> info.units_by_loc@.contains_key(k),
                0 <= i <= keys@.len(),
                forall|k: MapLocation| #[trigger] out@.contains_key(k) <==> exists|j: int| 0 <= j < i && keys@[j] == k,
                forall|k: MapLocation| #[trigger] out@.contains_key(k) ==> out@[k] == info.units_by_loc@[k],
            decreases keys@.len() - i,
        {
            let k = keys[i];
            assert(keys@.contains(k));
            let v = *loc_map_get(&info.units_by_loc, k).unwrap();
            let ghost before = out@;
            loc_map_insert(&mut out, k, v);
            proof {
                assert forall|q: MapLocation| #[trigger] out@.contains_key(q) <==> exists|j: int| 0 <= j < i + 1 && keys@[j] == q by {
                    if q == k {
                        assert(keys@[i as int] == q);
                    } else if exists|j: int| 0 <= j < i + 1 && keys@[j] == q {
                        let j = choose|j: int| 0 <= j < i + 1 && keys@[j] == q;
                        assert(j < i);
                    }
                }
            }
            i = i + 1;
        }
        proof {
            assert forall|k: MapLocation| #[trigger] info.units_by_loc@.contains_key(k) implies out@.contains_key(k) by {
                assert(keys@.contains(k));
                let j = choose|j: int| 0 <= j < keys@.len() && keys@[j] == k;
            }
            assert forall|k: MapLocation| #[trigger] out@.contains_key(k) implies info.units_by_loc@.contains_key(k) by {
                let j = choose|j: int| 0 <= j < i && keys@[j] == k;
                assert(keys@.contains(keys@[j]));
            }
            assert(out@ =~= info.units_by_loc@);
        }
        out
    }

    /// All the units of this team that are in space. You cannot see units
    /// on the other team that are in space.
    pub fn units_in_space(&self) -> (r: Vec<Unit>)
        requires
            self.wf(),
        ensures
            lists_units(r@, self.us().units_in_space@),
    {
        proof {
            self.lemma_here_fits();
        }
        copy_unit_map(&self.my_team().units_in_space)
    }
}

impl GameWorld {
    /// Everything but the state of planet `p` and the viewer's log is as in
    /// `old`.
    pub closed spec fn same_but_planet_log(&self, old: GameWorld, p: Planet) -> bool {
        &&& self.round == old.round
        &&& self.player_to_move == old.player_to_move
        &&& self.id_generator == old.id_generator
        &&& self.asteroids == old.asteroids
        &&& self.orbit == old.orbit
        &&& self.planet_maps == old.planet_maps
        &&& self.team_states == old.team_states
        &&& self.planet_states@.dom() == old.planet_states@.dom()
        &&& forall|q: Planet| q != p ==> #[trigger] self.planet_states@[q] == old.planet_states@[q]
    }

    /// The asteroid pattern, the planet maps and the viewer's log are as in
    /// `old`.
    pub closed spec fn frame_kept(&self, old: GameWorld) -> bool {
        &&& self.asteroids == old.asteroids
        &&& self.planet_maps == old.planet_maps
        &&& self.viewer_changes@ == old.viewer_changes@
    }

    /// Everything but the state of team `t` is as in `old`.
    pub closed spec fn same_but_team(&self, old: GameWorld, t: Team) -> bool {
        &&& self.round == old.round
        &&& self.player_to_move == old.player_to_move
        &&& self.id_generator == old.id_generator
        &&& self.asteroids == old.asteroids
        &&& self.orbit == old.orbit
        &&& self.planet_maps == old.planet_maps
        &&& self.planet_states == old.planet_states
        &&& self.viewer_changes@ == old.viewer_changes@
        &&& self.team_states@.dom() == old.team_states@.dom()
        &&& forall|q: Team| q != t ==> #[trigger] self.team_states@[q] == old.team_states@[q]
    }

    /// Takes a team's state out of the world, to change it.
    fn take_team(&mut self, t: Team) -> (r: TeamInfo)
        requires
            old(self).team_states@.contains_key(t),
        ensures
            r == old(self).team_states@[t],
            final(self).team_states@ == old(self).team_states@.remove(t),
            final(self).round == old(self).round,
            final(self).player_to_move == old(self).player_to_move,
            final(self).id_generator == old(self).id_generator,
            final(self).asteroids == old(self).asteroids,
            final(self).orbit == old(self).orbit,
            final(self).planet_maps == old(self).planet_maps,
            final(self).planet_states == old(self).planet_states,
            final(self).viewer_changes == old(self).viewer_changes,
    {
        team_map_remove(&mut self.team_states, t).unwrap()
    }

    /// Puts a team's state back into the world.
    fn put_team(&mut self, t: Team, info: TeamInfo)
        ensures
            final(self).team_states@ == old(self).team_states@.insert(t, info),
            final(self).round == old(self).round,
            final(self).player_to_move == old(self).player_to_move,
            final(self).id_generator == old(self).id_generator,
            final(self).asteroids == old(self).asteroids,
            final(self).orbit == old(self).orbit,
            final(self).planet_maps == old(self).planet_maps,
            final(self).planet_states == old(self).planet_states,
            final(self).viewer_changes == old(self).viewer_changes,
    {
        team_map_insert(&mut self.team_states, t, info);
    }

    /// Putting back a changed team state that keeps its invariants keeps the
    /// world well formed.
    proof fn lemma_team_changed(&self, old: GameWorld, t: Team)
        requires
            old.wf(),
            old.team_states@.contains_key(t),
            self.same_but_team(old, t),
            self.team_states@.contains_key(t),
            self.team_states@[t].wf(),
            keyed_by_id(self.team_states@[t].units_in_space@),
            forall|id: UnitID| #[trigger] self.team_states@[t].units_in_space@.contains_key(id)
                ==> !(self.team_states@[t].units_in_space@[id].location is OnMap),
        ensures
            self.wf(),
            old.full() ==> self.full(),
    {
        assert forall|q: Team| #[trigger] self.team_states@.contains_key(q) implies self.team_states@[q].wf() by {
            if q != t {
                assert(old.team_states@.contains_key(q));
            }
        }
        assert forall|q: Team, id: UnitID| #[trigger] self.team_states@[q].units_in_space@.contains_key(id)
            && self.team_states@.contains_key(q) implies self.team_states@[q].units_in_space@[id].id == id
            && !(self.team_states@[q].units_in_space@[id].location is OnMap) by {
            if q != t {
                assert(old.team_states@.contains_key(q));
                assert(old.team_states@[q].units_in_space@.contains_key(id));
            }
        }
    }

    /// The research info of the current team, including what branch is
    /// currently being researched, the number of rounds left.
    pub fn research_info(&self) -> (r: ResearchInfo)
        requires
            self.wf(),
        ensures
            r.wf(),
            r.levels() == self.us().research.levels(),
            r.queue_view() == self.us().research.queue_view(),
            r.rounds() == self.us().research.rounds(),
    {
        proof {
            self.lemma_here_fits();
        }
        self.my_team().research.clone()
    }

    /// What resetting the research queue does: its result and the world after it.
    pub open spec fn reset_research_outcome(&self, next: GameWorld, r: bool) -> bool {
        &&& next.same_but_team(*self, self.mover().team)
        &&& r == (self.us().research.queue_view().len() != 0)
        &&& next.us().research.levels() == self.us().research.levels()
        &&& next.us().research.queue_view() =~= Seq::<UnitType>::empty()
        &&& next.us().research.rounds() is None
        &&& next.us().karbonite == self.us().karbonite
    }

    /// Resets the research queue to be empty. Returns true if the queue was
    /// not empty before, and false otherwise.
    pub fn reset_research(&mut self) -> (r: bool)
        requires
            old(self).wf(),
        ensures
            final(self).wf(),
            old(self).reset_research_outcome(*final(self), r),
    {
        proof {
            self.lemma_here_fits();
        }
        let t = self.team();
        let mut info = self.take_team(t);
        let r = info.research.reset_queue();
        self.put_team(t, info);
        proof {
            self.lemma_team_changed(*old(self), t);
        }
        r
    }

    /// What queueing a research branch does: its result and the world after it.
    pub open spec fn queue_research_outcome(&self, branch: UnitType, next: GameWorld, r: bool) -> bool {
        &&& next.same_but_team(*self, self.mover().team)
        &&& next.us().karbonite == self.us().karbonite
        &&& r == (self.us().research.planned_level(branch) + 1 <= crate::research::max_level(branch))
        &&& !r ==> next.us().research == self.us().research
        &&& r ==> next.us().research.levels() == self.us().research.levels()
        &&& r ==> next.us().research.queue_view() =~= self.us().research.queue_view().push(branch)
    }

    /// Adds a branch to the back of the queue, if it is a valid upgrade, and
    /// starts research if it is the first in the queue.
    ///
    /// Returns whether the branch was successfully added.
    pub fn queue_research(&mut self, branch: UnitType) -> (r: bool)
        requires
            old(self).wf(),
        ensures
            final(self).wf(),
            old(self).queue_research_outcome(branch, *final(self), r),
    {
        proof {
            self.lemma_here_fits();
        }
        let t = self.team();
        let mut info = self.take_team(t);
        let r = info.research.add_to_queue(&branch);
        self.put_team(t, info);
        proof {
            self.lemma_team_changed(*old(self), t);
        }
        r
    }

    /// Gets a read-only version of this planet's team array. If the given
    /// planet is different from the planet of the player, reads the version
    /// of the planet's team array from COMMUNICATION_DELAY rounds prior.
    pub fn get_team_array(&self, planet: Planet) -> (r: &TeamArray)
        requires
            self.wf(),
        ensures
            planet == self.mover().planet ==> r@ == self.us().team_arrays.history_of(planet)[0],
            planet != self.mover().planet ==> r@ == self.us().team_arrays.history_of(planet).last(),
    {
        proof {
            self.lemma_here_fits();
        }
        if planet == self.planet() {
            self.my_team().team_arrays.first_array(planet)
        } else {
            self.my_team().team_arrays.last_array(planet)
        }
    }

    /// What writing the team array does: its result and the world after it.
    pub open spec fn write_team_array_outcome(&self, index: usize, value: i32, next: GameWorld, r: Result<(), GameError>) -> bool {
        &&& next.same_but_team(*self, self.mover().team)
        &&& next.us().karbonite == self.us().karbonite
        &&& ({
                    let p = self.mover().planet;
                    let h = self.us().team_arrays.history_of(p);
                    &&& index < h[0].len() ==> r == Ok::<(), GameError>(()) && next.us().team_arrays.history_of(p)
                        == h.update(0, h[0].update(index as int, value))
                    &&& index >= h[0].len() ==> r == Err::<(), GameError>(GameError::ArrayOutOfBounds)
                        && next == *self
                    &&& next.us().team_arrays.history_of(p.other()) == self.us().team_arrays.history_of(
                        p.other(),
                    )
                })
    }

    /// Writes the value at the index of this planet's team array.
    ///
    /// * ArrayOutOfBounds - the index of the array is out of
    ///   bounds. It must be within [0, COMMUNICATION_ARRAY_LENGTH).
    pub fn write_team_array(&mut self, index: usize, value: i32) -> (r: Result<(), GameError>)
        requires
            old(self).wf(),
        ensures
            final(self).wf(),
            old(self).write_team_array_outcome(index, value, *final(self), r),
    {
        proof {
            self.lemma_here_fits();
        }
        let t = self.team();
        let planet = self.planet();
        if index >= self.get_team_array(planet).len() {
            return Err(GameError::ArrayOutOfBounds);
        }
        let mut info = self.take_team(t);
        let r = info.team_arrays.write(planet, index, value);
        self.put_team(t, info);
        proof {
            self.lemma_team_changed(*old(self), t);
        }
        r
    }

    /// The rocket landings of the current team.
    pub fn rocket_landings(&self) -> (r: RocketLandingInfo)
        requires
            self.wf(),
        ensures
            r.landings_view() == self.us().rocket_landings.landings_view(),
    {
        proof {
            self.lemma_here_fits();
        }
        self.my_team().rocket_landings.clone()
    }

    /// The asteroid strike pattern on Mars.
    pub fn asteroid_pattern(&self) -> (r: AsteroidPattern)
        ensures
            r.strikes() == self.asteroids_now().strikes(),
    {
        self.asteroids.copy()
    }

    /// The orbit pattern that determines a rocket's flight duration.
    pub fn orbit_pattern(&self) -> (r: OrbitPattern)
        ensures
            r == self.orbit_now(),
    {
        self.orbit
    }

    /// Each round a team gains `KARBONITE_PER_ROUND` karbonite, less one
    /// part in `KARBONITE_DECREASE_RATIO` of what it holds (at most all of
    /// the gain).
    pub fn process_karbonite(&mut self, team: Team)
        requires
            old(self).wf(),
            old(self).has_team(team),
            old(self).team_of(team).karbonite + KARBONITE_PER_ROUND <= u32::MAX,
        ensures
            final(self).wf(),
            final(self).same_but_team(*old(self), team),
            final(self).team_of(team) == (TeamInfo {
                karbonite: (old(self).team_of(team).karbonite + KARBONITE_PER_ROUND - min_u32(
                    KARBONITE_PER_ROUND,
                    old(self).team_of(team).karbonite / KARBONITE_DECREASE_RATIO,
                )) as u32,
                ..old(self).team_of(team)
            }),
    {
        let mut info = self.take_team(team);
        let current = info.karbonite;
        let lost = if KARBONITE_PER_ROUND < current / KARBONITE_DECREASE_RATIO {
            KARBONITE_PER_ROUND
        } else {
            current / KARBONITE_DECREASE_RATIO
        };
        info.karbonite = current + (KARBONITE_PER_ROUND - lost);
        self.put_team(team, info);
        proof {
            self.lemma_team_changed(*old(self), team);
            assert(self.team_states@[team] == self.team_of(team));
        }
    }
}

/// The smaller of two numbers.
pub open spec fn min_u32(a: u32, b: u32) -> int {
    if a < b { a as int } else { b as int }
}

/// The index by location agrees with the units: each indexed location
/// holds a unit standing there, each unit is stored under its own ID, and
/// each unit standing on the map is indexed at its location.
pub open spec fn index_ok(units: Map<UnitID, Unit>, by_loc: Map<MapLocation, UnitID>) -> bool {
    &&& forall|l: MapLocation| #[trigger] by_loc.contains_key(l) ==> {
        &&& units.contains_key(by_loc[l])
        &&& units[by_loc[l]].location == Location::OnMap(l)
    }
    &&& forall|id: UnitID| #[trigger] units.contains_key(id) ==> {
        &&& units[id].id == id
        &&& (units[id].location is OnMap ==> {
            let l = units[id].location->OnMap_0;
            by_loc.contains_key(l) && by_loc[l] == id
        })
    }
}

/// Replacing a unit by a new state of it with the same ID and place keeps
/// the index right.
pub proof fn lemma_same_place(units: Map<UnitID, Unit>, by_loc: Map<MapLocation, UnitID>, u: Unit)
    requires
        index_ok(units, by_loc),
        units.contains_key(u.id),
        units[u.id].location == u.location,
    ensures
        index_ok(units.remove(u.id).insert(u.id, u), by_loc),
        index_ok(units.insert(u.id, u), by_loc),
{
    assert(units.remove(u.id).insert(u.id, u) =~= units.insert(u.id, u));
    let n = units.insert(u.id, u);
    assert forall|l: MapLocation| #[trigger] by_loc.contains_key(l) implies {
        &&& n.contains_key(by_loc[l])
        &&& n[by_loc[l]].location == Location::OnMap(l)
    } by {
    }
    assert forall|id: UnitID| #[trigger] n.contains_key(id) implies {
        &&& n[id].id == id
        &&& (n[id].location is OnMap ==> {
            let l = n[id].location->OnMap_0;
            by_loc.contains_key(l) && by_loc[l] == id
        })
    } by {
        if id != u.id {
            assert(units.contains_key(id));
        }
    }
}

/// `b` is `a` with the unit under `id` replaced by a copy of `u`.
pub open spec fn updated_with(b: Map<UnitID, Unit>, a: Map<UnitID, Unit>, id: UnitID, u: Unit) -> bool {
    &&& b.dom() == a.dom().insert(id)
    &&& same_unit(b[id], u)
    &&& forall|k: UnitID| k != id && #[trigger] a.contains_key(k) ==> b[k] == a[k]
}

/// The index by location after a unit moves from `from` to `to`.
pub open spec fn reindexed(
    by_loc: Map<MapLocation, UnitID>,
    id: UnitID,
    from: Location,
    to: Location,
) -> Map<MapLocation, UnitID> {
    let without = if from is OnMap { by_loc.remove(from->OnMap_0) } else { by_loc };
    if to is OnMap { without.insert(to->OnMap_0, id) } else { without }
}

impl PlanetInfo {
    /// Replaces a unit of the planet by a new state of it, which may stand
    /// elsewhere, on a square that no other unit holds.
    pub fn set_unit(&mut self, unit: Unit)
        requires
            old(self).indexed(),
            old(self).units@.contains_key(unit.id),
            unit.location is OnMap ==> !old(self).units_by_loc@.contains_key(unit.location->OnMap_0)
                || old(self).units_by_loc@[unit.location->OnMap_0] == unit.id,
        ensures
            final(self).indexed(),
            final(self).units@ == old(self).units@.insert(unit.id, unit),
            final(self).units_by_loc@ == reindexed(
                old(self).units_by_loc@,
                unit.id,
                old(self).units@[unit.id].location,
                unit.location,
            ),
            final(self).karbonite == old(self).karbonite,
            final(self).visible_locs == old(self).visible_locs,
    {
        let id = unit.id;
        let from = id_map_get(&self.units, id).unwrap().location;
        let to = unit.location;
        let ghost old_u = self.units@[id];
        match from {
            Location::OnMap(l) => {
                loc_map_remove(&mut self.units_by_loc, l);
            },
            _ => {},
        }
        match to {
            Location::OnMap(l) => {
                loc_map_insert(&mut self.units_by_loc, l, id);
            },
            _ => {},
        }
        id_map_insert(&mut self.units, id, unit);
        proof {
            assert forall|l: MapLocation| #[trigger] self.units_by_loc@.contains_key(l) implies {
                &&& self.units@.contains_key(self.units_by_loc@[l])
                &&& self.units@[self.units_by_loc@[l]].location == Location::OnMap(l)
            } by {
                if !(to is OnMap && l == to->OnMap_0) {
                    assert(old(self).units_by_loc@.contains_key(l));
                    if old(self).units_by_loc@[l] == id {
                        assert(old_u.location == Location::OnMap(l));
                        assert(from == Location::OnMap(l));
                        assert(false);
                    }
                }
            }
            assert forall|i: UnitID| #[trigger] self.units@.contains_key(i) implies {
                &&& self.units@[i].id == i
                &&& (self.units@[i].location is OnMap ==> {
                    let l = self.units@[i].location->OnMap_0;
                    self.units_by_loc@.contains_key(l) && self.units_by_loc@[l] == i
                })
            } by {
                if i != id {
                    assert(old(self).units@.contains_key(i));
                    if old(self).units@[i].location is OnMap {
                        let l = old(self).units@[i].location->OnMap_0;
                        assert(old(self).units_by_loc@[l] == i);
                        if to is OnMap && l == to->OnMap_0 {
                            assert(false);
                        }
                        if from is OnMap && l == from->OnMap_0 {
                            assert(old(self).units_by_loc@[l] == id);
                        }
                    }
                }
            }
        }
    }

    /// Puts back a unit taken out of the planet, in a new state that may
    /// stand elsewhere, on a square that no other unit holds.
    fn relocate(&mut self, u: Unit, from: Location, Ghost(prev): Ghost<Unit>)
        requires
            index_ok(old(self).units@.insert(u.id, prev), old(self).units_by_loc@),
            prev.location == from,
            !old(self).units@.contains_key(u.id),
            prev.id == u.id,
            u.location is OnMap ==> !old(self).units_by_loc@.contains_key(u.location->OnMap_0)
                || old(self).units_by_loc@[u.location->OnMap_0] == u.id,
        ensures
            final(self).indexed(),
            final(self).units@ == old(self).units@.insert(u.id, u),
            final(self).units_by_loc@ == reindexed(old(self).units_by_loc@, u.id, prev.location, u.location),
            final(self).karbonite == old(self).karbonite,
            final(self).visible_locs == old(self).visible_locs,
    {
        let id = u.id;
        let ghost full = self.units@.insert(id, prev);
        let ghost by0 = self.units_by_loc@;
        match from {
            Location::OnMap(l) => {
                loc_map_remove(&mut self.units_by_loc, l);
            },
            _ => {},
        }
        match u.location {
            Location::OnMap(l) => {
                loc_map_insert(&mut self.units_by_loc, l, id);
            },
            _ => {},
        }
        id_map_insert(&mut self.units, id, u);
        proof {
            let to = u.location;
            let from = prev.location;
            assert forall|l: MapLocation| #[trigger] self.units_by_loc@.contains_key(l) implies {
                &&& self.units@.contains_key(self.units_by_loc@[l])
                &&& self.units@[self.units_by_loc@[l]].location == Location::OnMap(l)
            } by {
                if !(to is OnMap && l == to->OnMap_0) {
                    assert(by0.contains_key(l));
                    assert(full.contains_key(by0[l]));
                    if by0[l] == id {
                        assert(prev.location == Location::OnMap(l));
                        assert(false);
                    }
                }
            }
            assert forall|i: UnitID| #[trigger] self.units@.contains_key(i) implies {
                &&& self.units@[i].id == i
                &&& (self.units@[i].location is OnMap ==> {
                    let l = self.units@[i].location->OnMap_0;
                    self.units_by_loc@.contains_key(l) && self.units_by_loc@[l] == i
                })
            } by {
                if i != id {
                    assert(full.contains_key(i));
                    if full[i].location is OnMap {
                        let l = full[i].location->OnMap_0;
                        assert(by0[l] == i);
                        if to is OnMap && l == to->OnMap_0 {
                            assert(false);
                        }
                        if from is OnMap && l == from->OnMap_0 {
                            assert(full.contains_key(id));
                            assert(full[id] == prev);
                            assert(by0[l] == id);
                        }
                    }
                }
            }
        }
    }

    /// Removes a unit from the planet, and from the index if it stands on
    /// the map.
    pub fn erase(&mut self, id: UnitID)
        requires
            old(self).indexed(),
        ensures
            final(self).indexed(),
            final(self).units@ == old(self).units@.remove(id),
            old(self).units@.contains_key(id) ==> final(self).units_by_loc@ == reindexed(
                old(self).units_by_loc@,
                id,
                old(self).units@[id].location,
                Location::Unknown,
            ),
            !old(self).units@.contains_key(id) ==> final(self).units_by_loc@ == old(self).units_by_loc@,
            final(self).karbonite == old(self).karbonite,
            final(self).visible_locs == old(self).visible_locs,
    {
        match id_map_remove(&mut self.units, id) {
            Some(u) => {
                match u.location {
                    Location::OnMap(l) => {
                        loc_map_remove(&mut self.units_by_loc, l);
                    },
                    _ => {},
                }
                proof {
                    assert forall|l: MapLocation| #[trigger] self.units_by_loc@.contains_key(l) implies {
                        &&& self.units@.contains_key(self.units_by_loc@[l])
                        &&& self.units@[self.units_by_loc@[l]].location == Location::OnMap(l)
                    } by {
                        assert(old(self).units_by_loc@.contains_key(l));
                        if old(self).units_by_loc@[l] == id {
                            assert(u.location == Location::OnMap(l));
                        }
                    }
                    assert forall|i: UnitID| #[trigger] self.units@.contains_key(i) implies {
                        &&& self.units@[i].id == i
                        &&& (self.units@[i].location is OnMap ==> {
                            let l = self.units@[i].location->OnMap_0;
                            self.units_by_loc@.contains_key(l) && self.units_by_loc@[l] == i
                        })
                    } by {
                        assert(old(self).units@.contains_key(i));
                        if old(self).units@[i].location is OnMap {
                            let l = old(self).units@[i].location->OnMap_0;
                            assert(old(self).units_by_loc@[l] == i);
                        }
                    }
                }
            },
            None => {
                proof {
                    assert(self.units@ =~= old(self).units@);
                }
            },
        }
    }
}

impl GameWorld {
    /// Putting back a changed planet state that keeps its index and fits its
    /// map keeps the world well formed.
    proof fn lemma_planet_changed(&self, old: GameWorld, p: Planet)
        requires
            old.wf(),
            old.planet_states@.contains_key(p),
            self.same_but_planet(old, p),
            self.planet_states@.contains_key(p),
            self.planet_states@[p].indexed(),
            self.planet_states@[p].fits(self.planet_maps@[p]),
        ensures
            self.wf(),
            old.full() ==> self.full(),
    {
        assert forall|q: Planet| #[trigger] self.planet_states@.contains_key(q) implies {
            &&& self.planet_states@[q].indexed()
            &&& self.planet_states@[q].fits(self.planet_maps@[q])
        } by {
            if q != p {
                assert(old.planet_states@.contains_key(q));
            }
        }
    }

    /// Replacing one planet's state by one that keeps its index and fits its
    /// map, whatever else changed but the maps, the teams and the mover,
    /// keeps the world well formed.
    proof fn lemma_planet_replaced(&self, old: GameWorld, p: Planet)
        requires
            old.wf(),
            old.planet_states@.contains_key(p),
            self.planet_maps == old.planet_maps,
            self.team_states == old.team_states,
            self.player_to_move == old.player_to_move,
            self.planet_states@.dom() == old.planet_states@.dom(),
            forall|q: Planet| q != p ==> #[trigger] self.planet_states@[q] == old.planet_states@[q],
            self.planet_states@[p].indexed(),
            self.planet_states@[p].fits(self.planet_maps@[p]),
        ensures
            self.wf(),
            old.full() ==> self.full(),
    {
        assert forall|q: Planet| #[trigger] self.planet_states@.contains_key(q) implies {
            &&& self.planet_states@[q].indexed()
            &&& self.planet_states@[q].fits(self.planet_maps@[q])
        } by {
            if q != p {
                assert(old.planet_states@.contains_key(q));
            }
        }
    }

    /// What a move of the robot in the direction would meet first, if
    /// anything: the robot unknown or not the player's, not on the map, or
    /// a destination off the map, out of sight or not free.
    pub open spec fn move_check(&self, id: UnitID, d: Direction) -> Result<(), GameError> {
        if !self.sees_unit(id) {
            Err(GameError::NoSuchUnit)
        } else if self.seen_unit(id).team != self.mover().team {
            Err(GameError::TeamNotAllowed)
        } else if !(self.seen_unit(id).location is OnMap) {
            Err(GameError::UnitNotOnMap)
        } else if !crate::location::translate_fits(
            map_loc(self.seen_unit(id)),
            crate::location::dir_dx(d),
            crate::location::dir_dy(d),
        ) {
            Err(GameError::LocationOffMap)
        } else {
            let dest = crate::location::step(map_loc(self.seen_unit(id)), d);
            if self.sense_check(dest) is Err {
                self.sense_check(dest)
            } else if !self.map_of(dest.planet).is_passable_terrain@[dest.y as int]@[dest.x as int]
                || self.here().units_by_loc@.contains_key(dest) {
                Err(GameError::LocationNotEmpty)
            } else {
                Ok(())
            }
        }
    }

    /// Whether the player's robot may move now: it must be known, the
    /// player's, a robot, and cool enough.
    pub open spec fn move_ready_check(&self, id: UnitID) -> Result<(), GameError> {
        if !self.sees_unit(id) {
            Err(GameError::NoSuchUnit)
        } else if self.seen_unit(id).team != self.mover().team {
            Err(GameError::TeamNotAllowed)
        } else {
            crate::unit::heat_check(self.seen_unit(id), self.seen_unit(id).movement_heat)
        }
    }

    /// * NoSuchUnit - the robot does not exist (within the vision range).
    /// * TeamNotAllowed - the robot is not on the current player's team.
    /// * UnitNotOnMap - the robot is not on the map.
    /// * LocationNotVisible - the location is outside the vision range.
    /// * LocationOffMap - the location is off the map.
    /// * LocationNotEmpty - the location is occupied by a unit or terrain.
    pub fn ok_if_can_move(&self, robot_id: UnitID, direction: Direction) -> (r: Result<(), GameError>)
        requires
            self.wf(),
        ensures
            r == self.move_check(robot_id, direction),
    {
        let unit = self.my_unit(robot_id)?;
        let loc = unit.location.map_location()?;
        let dx = direction.dx() as i64;
        let dy = direction.dy() as i64;
        if (loc.x as i64) + dx < i32::MIN as i64 || (loc.x as i64) + dx > i32::MAX as i64 || (loc.y as i64)
            + dy < i32::MIN as i64 || (loc.y as i64) + dy > i32::MAX as i64 {
            return Err(GameError::LocationOffMap);
        }
        let new_location = loc.add(direction);
        self.ok_if_can_sense_location(new_location)?;
        if !self.is_occupiable(new_location).unwrap() {
            return Err(GameError::LocationNotEmpty);
        }
        Ok(())
    }

    /// Whether the robot can move in the given direction, without taking into
    /// account the unit's movement heat. Takes into account only the map
    /// terrain, positions of other robots, and the edge of the game map.
    pub fn can_move(&self, robot_id: UnitID, direction: Direction) -> (r: bool)
        requires
            self.wf(),
        ensures
            r == (self.move_check(robot_id, direction) is Ok),
    {
        self.ok_if_can_move(robot_id, direction).is_ok()
    }

    /// * NoSuchUnit - the unit does not exist (inside the vision range).
    /// * TeamNotAllowed - the unit is not on the current player's team.
    /// * Overheated - the robot is not ready to move again.
    pub fn ok_if_move_ready(&self, robot_id: UnitID) -> (r: Result<(), GameError>)
        requires
            self.wf(),
        ensures
            r == self.move_ready_check(robot_id),
    {
        self.my_unit(robot_id)?.ok_if_move_ready()
    }

    /// Whether the robot is ready to move. Tests whether the robot's attack
    /// heat is sufficiently low.
    pub fn is_move_ready(&self, robot_id: UnitID) -> (r: bool)
        requires
            self.wf(),
        ensures
            r == (self.move_ready_check(robot_id) is Ok),
    {
        self.ok_if_move_ready(robot_id).is_ok()
    }

    /// What moving a robot does: its result and the world after it.
    pub open spec fn move_robot_outcome(&self, robot_id: UnitID, direction: Direction, next: GameWorld, r: Result<(), GameError>) -> bool {
        &&& self.move_check(robot_id, direction) is Err ==> r == self.move_check(robot_id, direction)
                    && next == *self
        &&& self.move_check(robot_id, direction) is Ok && self.move_ready_check(robot_id) is Err ==> r
                    == self.move_ready_check(robot_id) && next == *self
        &&& ({
                    let u = self.seen_unit(robot_id);
                    self.move_check(robot_id, direction) is Ok && self.move_ready_check(robot_id) is Ok ==> {
                        &&& u.movement_heat + u.movement_cooldown > u32::MAX ==> r == Err::<(), GameError>(
                            GameError::InternalEngineError,
                        ) && next == *self
                        &&& u.movement_heat + u.movement_cooldown <= u32::MAX ==> {
                            let moved = Unit {
                                movement_heat: (u.movement_heat + u.movement_cooldown) as u32,
                                location: Location::OnMap(crate::location::step(map_loc(u), direction)),
                                ..u
                            };
                            &&& r == Ok::<(), GameError>(())
                            &&& next.same_but_planet(*self, self.mover().planet)
                            &&& updated_with(next.here().units@, self.here().units@, robot_id, moved)
                            &&& next.here().units_by_loc@ =~= reindexed(
                                self.here().units_by_loc@,
                                robot_id,
                                u.location,
                                moved.location,
                            )
                            &&& next.here().karbonite == self.here().karbonite
                            &&& next.here().visible_locs == self.here().visible_locs
                        }
                    }
                })
    }

    /// Moves the robot in the given direction.
    ///
    /// * NoSuchUnit - the robot does not exist (within the vision range).
    /// * TeamNotAllowed - the robot is not on the current player's team.
    /// * UnitNotOnMap - the robot is not on the map.
    /// * LocationNotVisible - the location is outside the vision range.
    /// * LocationOffMap - the location is off the map.
    /// * LocationNotEmpty - the location is occupied by a unit or terrain.
    /// * Overheated - the robot is not ready to move again.
    /// * InternalEngineError - the robot's heat would overflow.
    pub fn move_robot(&mut self, robot_id: UnitID, direction: Direction) -> (r: Result<(), GameError>)
        requires
            old(self).wf(),
        ensures
            final(self).wf(),
            old(self).full() ==> final(self).full(),
            old(self).move_robot_outcome(robot_id, direction, *final(self), r),
    {
        self.ok_if_can_move(robot_id, direction)?;
        self.ok_if_move_ready(robot_id)?;
        proof {
            self.lemma_here_fits();
        }
        let p = self.planet();
        let unit = id_map_get(&self.my_planet().units, robot_id).unwrap();
        if unit.movement_heat > u32::MAX - unit.movement_cooldown {
            return Err(GameError::InternalEngineError);
        }
        let mut moved = unit.clone();
        let dest = match unit.location {
            Location::OnMap(l) => l.add(direction),
            _ => {
                return Err(GameError::InternalEngineError);
            },
        };
        moved.move_to(dest);
        let mut info = self.take_planet(p);
        proof {
            assert(moved.id == robot_id);
            assert(info.units@.contains_key(robot_id));
        }
        info.set_unit(moved);
        self.put_planet(p, info);
        proof {
            assert(self.same_but_planet(*old(self), p));
            self.lemma_planet_changed(*old(self), p);
        }
        Ok(())
    }
}

/// The index by location without the entries of the given units.
pub open spec fn index_without(by_loc: Map<MapLocation, UnitID>, gone: Set<UnitID>) -> Map<MapLocation, UnitID> {
    by_loc.restrict(Set::new(|l: MapLocation| by_loc.contains_key(l) && !gone.contains(by_loc[l])))
}

/// The units that go with a destroyed unit: itself, and its garrison if it
/// is a rocket or a factory.
pub open spec fn doomed(u: Unit) -> Set<UnitID> {
    if u.unit_type == UnitType::Rocket || u.unit_type == UnitType::Factory {
        u.garrison@.to_set().insert(u.id)
    } else {
        set![u.id]
    }
}

impl PlanetInfo {
    /// Removes the units with the given IDs, and their index entries.
    pub fn erase_all(&mut self, ids: &Vec<UnitID>)
        requires
            old(self).indexed(),
        ensures
            final(self).indexed(),
            final(self).units@ == old(self).units@.remove_keys(ids@.to_set()),
            final(self).units_by_loc@ == index_without(old(self).units_by_loc@, ids@.to_set()),
            final(self).karbonite == old(self).karbonite,
            final(self).visible_locs == old(self).visible_locs,
    {
        let ghost b0 = self.units_by_loc@;
        let ghost u0 = self.units@;
        let mut i: usize = 0;
        while i < ids.len()
            invariant
                self.indexed(),
                0 <= i <= ids@.len(),
                self.units@ == u0.remove_keys(ids@.take(i as int).to_set()),
                self.units_by_loc@ == index_without(b0, ids@.take(i as int).to_set()),
                self.karbonite == old(self).karbonite,
                self.visible_locs == old(self).visible_locs,
                old(self).indexed(),
                u0 == old(self).units@,
                b0 == old(self).units_by_loc@,
            decreases ids@.len() - i,
        {
            let g = ids[i];
            let ghost before_b = self.units_by_loc@;
            let ghost before_u = self.units@;
            let ghost done = ids@.take(i as int).to_set();
            self.erase(g);
            proof {
                assert(ids@.take(i + 1) =~= ids@.take(i as int).push(g));
                let now = ids@.take(i + 1).to_set();
                assert(now =~= done.insert(g)) by {
                    ids@.take(i as int).lemma_push_to_set_commute(g);
                }
                assert(self.units@ =~= u0.remove_keys(now));
                assert forall|l: MapLocation| #[trigger] self.units_by_loc@.contains_key(l) == index_without(b0, now).contains_key(l)
                    && (self.units_by_loc@.contains_key(l) ==> self.units_by_loc@[l] == b0[l]) by {
                    if before_u.contains_key(g) && before_u[g].location is OnMap {
                        let gl = before_u[g].location->OnMap_0;
                        if before_b.contains_key(l) && before_b[l] == g {
                            assert(before_u[before_b[l]].location == Location::OnMap(l));
                        }
                    } else if before_b.contains_key(l) && before_b[l] == g {
                        assert(before_u.contains_key(g));
                    }
                }
                assert(self.units_by_loc@ =~= index_without(b0, now));
            }
            i = i + 1;
        }
        proof {
            assert(ids@.take(ids@.len() as int) =~= ids@);
        }
    }
}

/// The IDs of the units that go with a destroyed unit, the unit last.
fn doomed_ids(u: &Unit) -> (r: Vec<UnitID>)
    ensures
        r@.to_set() == doomed(*u),
{
    let mut ids: Vec<UnitID> = Vec::new();
    if u.unit_type == UnitType::Rocket || u.unit_type == UnitType::Factory {
        let mut i: usize = 0;
        while i < u.garrison.len()
            invariant
                0 <= i <= u.garrison@.len(),
                ids@ == u.garrison@.take(i as int),
            decreases u.garrison@.len() - i,
        {
            ids.push(u.garrison[i]);
            i = i + 1;
            assert(ids@ =~= u.garrison@.take(i as int));
        }
        assert(u.garrison@.take(u.garrison@.len() as int) =~= u.garrison@);
    }
    let ghost g = ids@;
    ids.push(u.id);
    proof {
        g.lemma_push_to_set_commute(u.id);
        if !(u.unit_type == UnitType::Rocket || u.unit_type == UnitType::Factory) {
            assert(g =~= Seq::<UnitID>::empty());
            assert(g.to_set() =~= Set::<UnitID>::empty());
            assert(ids@.to_set() =~= set![u.id]);
        }
    }
    ids
}

impl TeamInfo {
    /// Removes the units with the given IDs from space.
    fn erase_in_space(&mut self, ids: &Vec<UnitID>)
        ensures
            *final(self) == (TeamInfo { units_in_space: final(self).units_in_space, ..*old(self) }),
            final(self).units_in_space@ == old(self).units_in_space@.remove_keys(ids@.to_set()),
    {
        let mut i: usize = 0;
        while i < ids.len()
            invariant
                0 <= i <= ids@.len(),
                *self == (TeamInfo { units_in_space: self.units_in_space, ..*old(self) }),
                self.units_in_space@ == old(self).units_in_space@.remove_keys(ids@.take(i as int).to_set()),
            decreases ids@.len() - i,
        {
            let g = ids[i];
            id_map_remove(&mut self.units_in_space, g);
            proof {
                assert(ids@.take(i + 1) =~= ids@.take(i as int).push(g));
                ids@.take(i as int).lemma_push_to_set_commute(g);
                assert(self.units_in_space@ =~= old(self).units_in_space@.remove_keys(ids@.take(i + 1).to_set()));
            }
            i = i + 1;
        }
        proof {
            assert(ids@.take(ids@.len() as int) =~= ids@);
        }
    }
}

impl GameWorld {
    /// A unit that can be destroyed: on the map or in space.
    pub open spec fn destroyable(&self, id: UnitID) -> bool {
        self.sees_unit(id) && (self.seen_unit(id).location is OnMap || self.seen_unit(id).location is InSpace)
    }

    /// The world after destroying the unit `id`: on the map, it goes from
    /// the planet with its garrison if it is a rocket or a factory; in
    /// space, it goes with its garrison from the team's units in space.
    pub open spec fn destroyed(&self, old: GameWorld, id: UnitID) -> bool {
        let u = old.seen_unit(id);
        &&& u.location is OnMap ==> {
            &&& self.same_but_planet(old, old.mover().planet)
            &&& self.here().units@ == old.here().units@.remove_keys(doomed(u))
            &&& self.here().units_by_loc@ == index_without(old.here().units_by_loc@, doomed(u))
            &&& self.here().karbonite == old.here().karbonite
            &&& self.here().visible_locs == old.here().visible_locs
        }
        &&& u.location is InSpace ==> {
            &&& self.same_but_team(old, old.mover().team)
            &&& self.us().units_in_space@ == old.us().units_in_space@.remove_keys(u.garrison@.to_set().insert(id))
            &&& self.us() == (TeamInfo { units_in_space: self.us().units_in_space, ..old.us() })
        }
    }

    /// Destroys a unit. Removes any traces of it.
    ///
    /// If the unit is a rocket or factory, also destroys units in its garrison.
    pub fn destroy_unit(&mut self, id: UnitID)
        requires
            old(self).wf(),
            old(self).destroyable(id),
        ensures
            final(self).wf(),
            old(self).full() ==> final(self).full(),
            final(self).destroyed(*old(self), id),
    {
        proof {
            self.lemma_here_fits();
        }
        let unit = self.unit_ref(id).unwrap();
        match unit.location {
            Location::OnMap(_) => {
                let ids = doomed_ids(unit);
                let p = self.planet();
                let mut info = self.take_planet(p);
                info.erase_all(&ids);
                self.put_planet(p, info);
                proof {
                    assert(self.same_but_planet(*old(self), p));
                    self.lemma_planet_changed(*old(self), p);
                }
            },
            _ => {
                let mut ids: Vec<UnitID> = Vec::new();
                let mut i: usize = 0;
                while i < unit.garrison.len()
                    invariant
                        0 <= i <= unit.garrison@.len(),
                        ids@ == unit.garrison@.take(i as int),
                    decreases unit.garrison@.len() - i,
                {
                    ids.push(unit.garrison[i]);
                    i = i + 1;
                    assert(ids@ =~= unit.garrison@.take(i as int));
                }
                assert(unit.garrison@.take(unit.garrison@.len() as int) =~= unit.garrison@);
                let ghost g = ids@;
                ids.push(id);
                proof {
                    g.lemma_push_to_set_commute(id);
                }
                let t = self.team();
                let mut info = self.take_team(t);
                info.erase_in_space(&ids);
                self.put_team(t, info);
                proof {
                    assert(self.same_but_team(*old(self), t));
                    self.lemma_team_changed(*old(self), t);
                }
            },
        }
    }

    /// What disintegrating a unit does: its result and the world after it.
    pub open spec fn disintegrate_unit_outcome(&self, id: UnitID, next: GameWorld, r: Result<(), GameError>) -> bool {
        &&& !self.sees_unit(id) ==> r == Err::<(), GameError>(GameError::NoSuchUnit) && next
                    == *self
        &&& self.sees_unit(id) && self.seen_unit(id).team != self.mover().team ==> r == Err::<
                    (),
                    GameError,
                >(GameError::TeamNotAllowed) && next == *self
        &&& self.sees_unit(id) && self.seen_unit(id).team == self.mover().team ==> r == Ok::<
                    (),
                    GameError,
                >(()) && next.destroyed(*self, id)
    }

    /// Disintegrates the unit and removes it from the map. If the unit is a
    /// factory or a rocket, also disintegrates any units garrisoned inside it.
    ///
    /// * NoSuchUnit - the unit does not exist (inside the vision range).
    /// * TeamNotAllowed - the unit is not on the current player's team.
    pub fn disintegrate_unit(&mut self, id: UnitID) -> (r: Result<(), GameError>)
        requires
            old(self).wf(),
            old(self).sees_unit(id) && old(self).seen_unit(id).team == old(self).mover().team ==> old(self).destroyable(id),
        ensures
            final(self).wf(),
            old(self).full() ==> final(self).full(),
            old(self).disintegrate_unit_outcome(id, *final(self), r),
    {
        self.my_unit(id)?;
        self.destroy_unit(id);
        Ok(())
    }
}

impl GameWorld {
    /// Creates and inserts a new unit into the game world, so that it can be
    /// referenced by ID, with its team's research level for its type.
    ///
    /// * ResearchNotUnlocked - the team's level is not one of the type.
    /// * LocationNotEmpty - another unit stands at the location.
    /// * InternalEngineError - no unit ID is left, or the new ID is taken.
    pub fn create_unit(&mut self, team: Team, location: MapLocation, unit_type: UnitType) -> (r: Result<UnitID, GameError>)
        requires
            old(self).wf(),
            old(self).has_team(team),
            old(self).has_planet(location.planet),
        ensures
            final(self).wf(),
            old(self).full() ==> final(self).full(),
            final(self).round_now() == old(self).round_now(),
            final(self).mover() == old(self).mover(),
            final(self).ids().seed_view() == old(self).ids().seed_view(),
            final(self).same_but_ids(*old(self), location.planet, team),
            final(self).planet_of(location.planet).visible_locs == old(self).planet_of(location.planet).visible_locs,
            r is Ok ==> {
                let id = r->Ok_0;
                let u = final(self).planet_of(location.planet).units@[id];
                let level = old(self).team_of(team).research.levels()[unit_type];
                &&& !old(self).planet_of(location.planet).units@.contains_key(id)
                &&& !old(self).planet_of(location.planet).units_by_loc@.contains_key(location)
                &&& crate::unit::researched(
                    crate::unit::starting_unit(id, team, unit_type, Location::OnMap(location), u.garrison),
                    level as nat,
                ) == Some(u)
                &&& u.garrison@ == Seq::<UnitID>::empty()
                &&& final(self).planet_of(location.planet).units@ == old(self).planet_of(location.planet).units@.insert(id, u)
                &&& final(self).planet_of(location.planet).units_by_loc@ == old(self).planet_of(
                    location.planet,
                ).units_by_loc@.insert(location, id)
                &&& final(self).planet_of(location.planet).karbonite == old(self).planet_of(location.planet).karbonite
                &&& forall|q: Planet| q != location.planet ==> #[trigger] final(self).planet_of(q) == old(self).planet_of(q)
                &&& forall|t: Team| #[trigger] final(self).team_of(t) == old(self).team_of(t)
            },
            old(self).ids().index_view() == u16::MAX ==> r == Err::<UnitID, GameError>(GameError::InternalEngineError),
            r is Err ==> r->Err_0 == GameError::InternalEngineError || (r->Err_0 == (GameError::ResearchNotUnlocked {
                unit_type,
            }) && old(self).team_of(team).research.levels()[unit_type] > crate::unit::unit_max_level(unit_type))
                || (r->Err_0 == GameError::LocationNotEmpty && old(self).planet_of(location.planet).units_by_loc@.contains_key(
                location,
            )),
            old(self).team_of(team).research.levels()[unit_type] <= crate::unit::unit_max_level(unit_type)
                && !old(self).planet_of(location.planet).units_by_loc@.contains_key(location) ==> r is Ok || r == Err::<
                UnitID,
                GameError,
            >(GameError::InternalEngineError),
            r is Err ==> (forall|q: Planet| #[trigger] final(self).planet_of(q) == old(self).planet_of(q)) && (forall|t: Team|
                #[trigger] final(self).team_of(t) == old(self).team_of(t)),
    {
        let ghost old_index = self.id_generator.index_view();
        let next = self.id_generator.try_next_id();
        let id = match next {
            Some(id) => id,
            None => {
                return Err(GameError::InternalEngineError);
            },
        };
        proof {
            assert(self.team_states@.contains_key(team));
        }
        let level = self.get_team(team).research.get_level(&unit_type);
        let unit = Unit::new(id, team, unit_type, level, Location::OnMap(location))?;
        proof {
            crate::unit::lemma_researched_keeps(
                crate::unit::starting_unit(id, team, unit_type, Location::OnMap(location), unit.garrison),
                level as nat,
            );
        }
        let info = self.get_planet(location.planet);
        if id_map_get(&info.units, id).is_some() {
            return Err(GameError::InternalEngineError);
        }
        if loc_map_get(&info.units_by_loc, location).is_some() {
            return Err(GameError::LocationNotEmpty);
        }
        let ghost before = *self;
        self.insert_unit(unit);
        proof {
            assert(self.same_but_planet(before, location.planet));
        }
        Ok(id)
    }
}

/// The units of a planet and their index by location.
pub type PlanetUnits = (Map<UnitID, Unit>, Map<MapLocation, UnitID>);

/// Every unit's health and defense fit in an `i32`, as damage is dealt in
/// `i32`.
pub open spec fn tame(units: Map<UnitID, Unit>) -> bool {
    forall|id: UnitID| #[trigger] units.contains_key(id) ==> units[id].health <= i32::MAX && units[id].defense
        <= i32::MAX
}

/// The unit can take `dmg` damage in the range the engine computes in.
pub open spec fn takes(u: Unit, dmg: i32) -> bool {
    &&& u.health <= i32::MAX
    &&& u.defense <= i32::MAX
    &&& dmg < 0 ==> u.health + (-dmg) <= u32::MAX
}

/// The units after the unit `id`, if there, takes `dmg` damage (a negative
/// damage heals): it is destroyed, with its garrison if it is a rocket or a
/// factory, when damage brings its health to zero.
pub open spec fn hit_unit(v: PlanetUnits, id: UnitID, dmg: i32) -> PlanetUnits {
    if !v.0.contains_key(id) {
        v
    } else {
        let u = v.0[id];
        let h = crate::unit::health_after_damage(u, dmg);
        if dmg >= 0 && h == 0 {
            (v.0.remove_keys(doomed(u)), index_without(v.1, doomed(u)))
        } else {
            (v.0.insert(id, Unit { health: h, ..u }), v.1)
        }
    }
}

/// The units after the unit at `l`, if any, takes `dmg` damage.
pub open spec fn hit_at(v: PlanetUnits, l: MapLocation, dmg: i32) -> PlanetUnits {
    if v.1.contains_key(l) {
        hit_unit(v, v.1[l], dmg)
    } else {
        v
    }
}

/// The units after the squares around `c` in the first `k` directions, in
/// the order of `Direction::all`, take `dmg` damage each.
pub open spec fn splash(v: PlanetUnits, c: MapLocation, dmg: i32, k: nat) -> PlanetUnits
    decreases k,
{
    if k == 0 {
        v
    } else {
        let before = splash(v, c, dmg, (k - 1) as nat);
        let d = crate::location::all_directions()[k - 1];
        if crate::location::translate_fits(c, crate::location::dir_dx(d), crate::location::dir_dy(d)) {
            hit_at(before, crate::location::step(c, d), dmg)
        } else {
            before
        }
    }
}

impl PlanetInfo {
    /// The units and their index.
    pub open spec fn pair(&self) -> PlanetUnits {
        (self.units@, self.units_by_loc@)
    }

    /// The unit `id`, if on the planet, takes `dmg` damage, and is destroyed
    /// with its garrison when its health reaches zero.
    pub fn hit(&mut self, id: UnitID, dmg: i32)
        requires
            old(self).indexed(),
            dmg > i32::MIN,
            old(self).units@.contains_key(id) ==> takes(old(self).units@[id], dmg),
        ensures
            final(self).indexed(),
            dmg >= 0 && tame(old(self).units@) ==> tame(final(self).units@),
            final(self).pair() == hit_unit(old(self).pair(), id, dmg),
            final(self).karbonite == old(self).karbonite,
            final(self).visible_locs == old(self).visible_locs,
    {
        match id_map_remove(&mut self.units, id) {
            None => {
                proof {
                    assert(self.units@ =~= old(self).units@);
                }
            },
            Some(mut unit) => {
                let dead = unit.take_damage(dmg);
                let ids = doomed_ids(&unit);
                id_map_insert(&mut self.units, id, unit);
                proof {
                    assert forall|l: MapLocation| #[trigger] self.units_by_loc@.contains_key(l) implies {
                        &&& self.units@.contains_key(self.units_by_loc@[l])
                        &&& self.units@[self.units_by_loc@[l]].location == Location::OnMap(l)
                    } by {
                        assert(old(self).units_by_loc@.contains_key(l));
                    }
                    assert forall|i: UnitID| #[trigger] self.units@.contains_key(i) implies {
                        &&& self.units@[i].id == i
                        &&& (self.units@[i].location is OnMap ==> {
                            let l = self.units@[i].location->OnMap_0;
                            self.units_by_loc@.contains_key(l) && self.units_by_loc@[l] == i
                        })
                    } by {
                        assert(old(self).units@.contains_key(i));
                    }
                }
                if dead {
                    self.erase_all(&ids);
                }
            },
        }
    }

    /// The unit at the location, if any, takes `dmg` damage.
    pub fn hit_location(&mut self, location: MapLocation, dmg: i32)
        requires
            old(self).indexed(),
            tame(old(self).units@),
            dmg >= 0,
        ensures
            final(self).indexed(),
            tame(final(self).units@),
            final(self).pair() == hit_at(old(self).pair(), location, dmg),
            final(self).karbonite == old(self).karbonite,
            final(self).visible_locs == old(self).visible_locs,
    {
        let found = loc_map_get(&self.units_by_loc, location);
        match found {
            Some(id) => {
                let id = *id;
                self.hit(id, dmg);
            },
            None => {},
        }
    }

    /// The squares around `c` each take `dmg` damage, in the order of
    /// `Direction::all`.
    pub fn splash_around(&mut self, c: MapLocation, dmg: i32)
        requires
            old(self).indexed(),
            tame(old(self).units@),
            dmg >= 0,
        ensures
            final(self).indexed(),
            tame(final(self).units@),
            final(self).pair() == splash(old(self).pair(), c, dmg, 8),
            final(self).karbonite == old(self).karbonite,
            final(self).visible_locs == old(self).visible_locs,
    {
        let dirs = Direction::all();
        let mut k: usize = 0;
        while k < dirs.len()
            invariant
                dirs@ == crate::location::all_directions(),
                0 <= k <= 8,
                self.indexed(),
                tame(self.units@),
                dmg >= 0,
                self.pair() == splash(old(self).pair(), c, dmg, k as nat),
                self.karbonite == old(self).karbonite,
                self.visible_locs == old(self).visible_locs,
            decreases 8 - k,
        {
            let d = dirs[k];
            let dx = d.dx() as i64;
            let dy = d.dy() as i64;
            if (c.x as i64) + dx >= i32::MIN as i64 && (c.x as i64) + dx <= i32::MAX as i64 && (c.y as i64) + dy
                >= i32::MIN as i64 && (c.y as i64) + dy <= i32::MAX as i64 {
                let l = c.add(d);
                self.hit_location(l, dmg);
            }
            k = k + 1;
        }
    }
}

impl PlanetInfo {
    /// The unit `id` spends an attack: its attack heat rises by its
    /// cooldown. Returns its damage.
    fn spend_attack(&mut self, id: UnitID) -> (r: i32)
        requires
            old(self).indexed(),
            old(self).units@.contains_key(id),
            old(self).units@[id].attack_heat + old(self).units@[id].attack_cooldown <= u32::MAX,
        ensures
            final(self).indexed(),
            r == old(self).units@[id].damage,
            final(self).units@ == old(self).units@.insert(
                id,
                Unit {
                    attack_heat: (old(self).units@[id].attack_heat + old(self).units@[id].attack_cooldown) as u32,
                    ..old(self).units@[id]
                },
            ),
            final(self).units_by_loc == old(self).units_by_loc,
            final(self).karbonite == old(self).karbonite,
            final(self).visible_locs == old(self).visible_locs,
    {
        let mut unit = id_map_remove(&mut self.units, id).unwrap();
        let dmg = unit.use_attack();
        id_map_insert(&mut self.units, id, unit);
        proof {
            assert forall|l: MapLocation| #[trigger] self.units_by_loc@.contains_key(l) implies {
                &&& self.units@.contains_key(self.units_by_loc@[l])
                &&& self.units@[self.units_by_loc@[l]].location == Location::OnMap(l)
            } by {
                assert(old(self).units_by_loc@.contains_key(l));
            }
            assert forall|i: UnitID| #[trigger] self.units@.contains_key(i) implies {
                &&& self.units@[i].id == i
                &&& (self.units@[i].location is OnMap ==> {
                    let l = self.units@[i].location->OnMap_0;
                    self.units_by_loc@.contains_key(l) && self.units_by_loc@[l] == i
                })
            } by {
                assert(old(self).units@.contains_key(i));
            }
        }
        dmg
    }

    /// Whether every unit of the planet has a health and defense that fit
    /// in an `i32`.
    fn is_tame(&self) -> (r: bool)
        ensures
            r == tame(self.units@),
    {
        all_tame(&self.units)
    }
}

/// Whether every unit of the map has a health and defense that fit in an
/// `i32`.
fn all_tame(units: &FnvHashMap<UnitID, Unit>) -> (r: bool)
    ensures
        r == tame(units@),
{
    let keys = id_map_keys(units);
    let mut i: usize = 0;
    while i < keys.len()
        invariant
            forall|k: UnitID| #[trigger] keys@.contains(k) <==> units@.contains_key(k),
            0 <= i <= keys@.len(),
            forall|j: int| 0 <= j < i ==> units@[#[trigger] keys@[j]].health <= i32::MAX
                && units@[keys@[j]].defense <= i32::MAX,
        decreases keys@.len() - i,
    {
        let k = keys[i];
        assert(keys@.contains(k));
        let u = id_map_get(units, k).unwrap();
        if u.health > i32::MAX as u32 || u.defense > i32::MAX as u32 {
            return false;
        }
        i = i + 1;
    }
    proof {
        assert forall|id: UnitID| #[trigger] units@.contains_key(id) implies units@[id].health <= i32::MAX
            && units@[id].defense <= i32::MAX by {
            assert(keys@.contains(id));
            let j = choose|j: int| 0 <= j < keys@.len() && keys@[j] == id;
            assert(units@[keys@[j]].health <= i32::MAX);
        }
    }
    true
}

impl GameWorld {
    /// What an attack by the robot on the target would meet first, if
    /// anything.
    pub open spec fn attack_check(&self, robot_id: UnitID, target_id: UnitID) -> Result<(), GameError> {
        let u = self.seen_unit(robot_id);
        let t = self.seen_unit(target_id);
        if !self.sees_unit(robot_id) {
            Err(GameError::NoSuchUnit)
        } else if u.team != self.mover().team {
            Err(GameError::TeamNotAllowed)
        } else if u.unit_type == UnitType::Healer {
            Err(GameError::InappropriateUnitType)
        } else if !(u.location is OnMap) {
            Err(GameError::UnitNotOnMap)
        } else if !self.sees_unit(target_id) {
            Err(GameError::NoSuchUnit)
        } else if !(t.location is OnMap) {
            Err(GameError::UnitNotOnMap)
        } else if !crate::location::loc_dist_fits(u.location, t.location) {
            Err(GameError::InternalEngineError)
        } else {
            crate::unit::attack_range_check(u, t.location)
        }
    }

    /// Whether the robot is ready to attack.
    pub open spec fn attack_ready_check(&self, robot_id: UnitID) -> Result<(), GameError> {
        let u = self.seen_unit(robot_id);
        if !self.sees_unit(robot_id) {
            Err(GameError::NoSuchUnit)
        } else if u.team != self.mover().team {
            Err(GameError::TeamNotAllowed)
        } else if u.unit_type == UnitType::Healer {
            Err(GameError::InappropriateUnitType)
        } else {
            crate::unit::heat_check(u, u.attack_heat)
        }
    }

    /// The planet's units after the robot attacks the target: the robot's
    /// attack heat rises, a mage also hits the squares around the target,
    /// then the target takes the robot's damage.
    pub open spec fn after_attack(&self, robot_id: UnitID, target_id: UnitID) -> PlanetUnits {
        let u = self.seen_unit(robot_id);
        let spent = Unit { attack_heat: (u.attack_heat + u.attack_cooldown) as u32, ..u };
        let v0 = (self.here().units@.insert(robot_id, spent), self.here().units_by_loc@);
        let v1 = if u.unit_type == UnitType::Mage {
            splash(v0, map_loc(self.seen_unit(target_id)), u.damage, 8)
        } else {
            v0
        };
        hit_unit(v1, target_id, u.damage)
    }

    /// * NoSuchUnit - the unit does not exist (inside the vision range).
    /// * TeamNotAllowed - the unit is not on the current player's team.
    /// * InappropriateUnitType - the unit is not a robot, or is a healer.
    /// * UnitNotOnMap - the unit or target is not on the map.
    /// * OutOfRange - the target location is not in range.
    pub fn ok_if_can_attack(&self, robot_id: UnitID, target_id: UnitID) -> (r: Result<(), GameError>)
        requires
            self.wf(),
        ensures
            r == self.attack_check(robot_id, target_id),
    {
        let robot = self.my_unit(robot_id)?;
        if robot.unit_type == UnitType::Healer {
            return Err(GameError::InappropriateUnitType);
        }
        robot.ok_if_on_map()?;
        let target = self.unit_ref(target_id)?;
        target.ok_if_on_map()?;
        let a = robot.location.map_location().unwrap();
        let b = target.location.map_location().unwrap();
        if a.planet == b.planet {
            let dx = a.x as i128 - b.x as i128;
            let dy = a.y as i128 - b.y as i128;
            assert(dx * dx <= 0x1_0000_0000_0000_0000 && dy * dy <= 0x1_0000_0000_0000_0000) by (nonlinear_arith)
                requires -0x1_0000_0000 <= dx <= 0x1_0000_0000, -0x1_0000_0000 <= dy <= 0x1_0000_0000;
            assert(dx * dx >= 0 && dy * dy >= 0) by (nonlinear_arith);
            if dx * dx + dy * dy > i32::MAX as i128 {
                return Err(GameError::InternalEngineError);
            }
            assert(crate::location::sq_dist(a, b) == dx * dx + dy * dy) by (nonlinear_arith)
                requires dx == a.x - b.x, dy == a.y - b.y;
        }
        robot.ok_if_within_attack_range(target.location)
    }

    /// Whether the robot can attack the given unit, without taking into
    /// account the robot's attack heat. Takes into account only the robot's
    /// attack range, and the location of the robot and target.
    ///
    /// Healers cannot attack, and should use `can_heal()` instead.
    pub fn can_attack(&self, robot_id: UnitID, target_id: UnitID) -> (r: bool)
        requires
            self.wf(),
        ensures
            r == (self.attack_check(robot_id, target_id) is Ok),
    {
        self.ok_if_can_attack(robot_id, target_id).is_ok()
    }

    /// * NoSuchUnit - the unit does not exist (inside the vision range).
    /// * TeamNotAllowed - the unit is not on the current player's team.
    /// * InappropriateUnitType - the unit is not a robot, or is a healer.
    /// * Overheated - the unit is not ready to attack.
    pub fn ok_if_attack_ready(&self, robot_id: UnitID) -> (r: Result<(), GameError>)
        requires
            self.wf(),
        ensures
            r == self.attack_ready_check(robot_id),
    {
        let robot = self.my_unit(robot_id)?;
        if robot.unit_type == UnitType::Healer {
            return Err(GameError::InappropriateUnitType);
        }
        robot.ok_if_attack_ready()
    }

    /// Whether the robot is ready to attack. Tests whether the robot's attack
    /// heat is sufficiently low.
    ///
    /// Healers cannot attack, and should use `is_heal_ready()` instead.
    pub fn is_attack_ready(&self, robot_id: UnitID) -> (r: bool)
        requires
            self.wf(),
        ensures
            r == (self.attack_ready_check(robot_id) is Ok),
    {
        self.ok_if_attack_ready(robot_id).is_ok()
    }

    /// What an attack does: its result and the world after it.
    pub open spec fn attack_outcome(&self, robot_id: UnitID, target_id: UnitID, next: GameWorld, r: Result<(), GameError>) -> bool {
        &&& self.attack_check(robot_id, target_id) is Err ==> r == self.attack_check(robot_id, target_id)
                    && next == *self
        &&& self.attack_check(robot_id, target_id) is Ok && self.attack_ready_check(robot_id) is Err
                    ==> r == self.attack_ready_check(robot_id) && next == *self
        &&& ({
                    let u = self.seen_unit(robot_id);
                    let sane = u.attack_heat + u.attack_cooldown <= u32::MAX && u.damage >= 0 && tame(
                        self.here().units@,
                    );
                    self.attack_check(robot_id, target_id) is Ok && self.attack_ready_check(robot_id) is Ok ==> {
                        &&& !sane ==> r == Err::<(), GameError>(GameError::InternalEngineError) && next == *self
                        &&& sane ==> {
                            &&& r == Ok::<(), GameError>(())
                            &&& next.same_but_planet(*self, self.mover().planet)
                            &&& next.here().pair() == self.after_attack(robot_id, target_id)
                            &&& next.here().karbonite == self.here().karbonite
                            &&& next.here().visible_locs == self.here().visible_locs
                        }
                    }
                })
    }

    /// Commands a robot to attack a unit, dealing the robot's standard amount
    /// of damage. A mage also deals it to the squares around the target.
    ///
    /// Healers cannot attack, and should use `heal()` instead.
    ///
    /// * NoSuchUnit - the unit does not exist (inside the vision range).
    /// * TeamNotAllowed - the unit is not on the current player's team.
    /// * InappropriateUnitType - the unit is not a robot, or is a healer.
    /// * UnitNotOnMap - the unit or target is not on the map.
    /// * OutOfRange - the target location is not in range.
    /// * Overheated - the unit is not ready to attack.
    /// * InternalEngineError - a heat, health or damage is out of the range
    ///   the engine computes in.
    #[verifier::spinoff_prover]
    #[verifier::rlimit(40)]
    pub fn attack(&mut self, robot_id: UnitID, target_id: UnitID) -> (r: Result<(), GameError>)
        requires
            old(self).wf(),
        ensures
            final(self).wf(),
            old(self).full() ==> final(self).full(),
            old(self).attack_outcome(robot_id, target_id, *final(self), r),
    {
        self.ok_if_can_attack(robot_id, target_id)?;
        self.ok_if_attack_ready(robot_id)?;
        proof {
            self.lemma_here_fits();
        }
        let p = self.planet();
        let robot = id_map_get(&self.my_planet().units, robot_id).unwrap();
        if robot.attack_heat > u32::MAX - robot.attack_cooldown || robot.damage < 0 || !self.my_planet().is_tame() {
            return Err(GameError::InternalEngineError);
        }
        let is_mage = robot.unit_type == UnitType::Mage;
        let epicenter = id_map_get(&self.my_planet().units, target_id).unwrap().location.map_location().unwrap();
        let ghost w = *old(self);
        let mut info = self.take_planet(p);
        let damage = info.spend_attack(robot_id);
        proof {
            assert(info.pair() == (w.here().units@.insert(
                robot_id,
                Unit { attack_heat: (w.seen_unit(robot_id).attack_heat + w.seen_unit(robot_id).attack_cooldown) as u32, ..w.seen_unit(robot_id) },
            ), w.here().units_by_loc@));
            assert(tame(info.units@));
        }
        if is_mage {
            info.splash_around(epicenter, damage);
        }
        info.hit(target_id, damage);
        self.put_planet(p, info);
        proof {
            assert(self.same_but_planet(*old(self), p));
            self.lemma_planet_changed(*old(self), p);
        }
        Ok(())
    }
}

impl PlanetInfo {
    /// Sets the karbonite at a square.
    pub fn set_karbonite(&mut self, x: usize, y: usize, value: u32)
        requires
            y < old(self).karbonite@.len(),
            x < old(self).karbonite@[y as int]@.len(),
        ensures
            final(self).karbonite@.len() == old(self).karbonite@.len(),
            forall|j: int| 0 <= j < old(self).karbonite@.len() ==> (#[trigger] final(self).karbonite@[j])@ == (if j
                == y {
                old(self).karbonite@[j]@.update(x as int, value)
            } else {
                old(self).karbonite@[j]@
            }),
            final(self).units == old(self).units,
            final(self).units_by_loc == old(self).units_by_loc,
            final(self).visible_locs == old(self).visible_locs,
    {
        let mut row: Vec<u32> = Vec::new();
        self.karbonite.set_and_swap(y, &mut row);
        row.set(x, value);
        self.karbonite.set(y, row);
    }
}

impl GameWorld {
    /// Everything but the state of planet `p` and of team `t` is as in
    /// `old`.
    pub closed spec fn same_but(&self, old: GameWorld, p: Planet, t: Team) -> bool {
        &&& self.round == old.round
        &&& self.player_to_move == old.player_to_move
        &&& self.id_generator == old.id_generator
        &&& self.asteroids == old.asteroids
        &&& self.orbit == old.orbit
        &&& self.planet_maps == old.planet_maps
        &&& self.viewer_changes@ == old.viewer_changes@
        &&& self.planet_states@.dom() == old.planet_states@.dom()
        &&& forall|q: Planet| q != p ==> #[trigger] self.planet_states@[q] == old.planet_states@[q]
        &&& self.team_states@.dom() == old.team_states@.dom()
        &&& forall|q: Team| q != t ==> #[trigger] self.team_states@[q] == old.team_states@[q]
    }

    /// The square that a unit's step in the direction reaches.
    pub open spec fn dest_of(&self, id: UnitID, d: Direction) -> MapLocation {
        crate::location::step(map_loc(self.seen_unit(id)), d)
    }

    /// The checks of a worker action in a direction: the worker must be
    /// known, the player's, a worker that has not acted, and on the map,
    /// and the square in the direction on the map and in sight.
    pub open spec fn worker_dir_check(&self, id: UnitID, d: Direction) -> Result<(), GameError> {
        let u = self.seen_unit(id);
        if !self.sees_unit(id) {
            Err(GameError::NoSuchUnit)
        } else if u.team != self.mover().team {
            Err(GameError::TeamNotAllowed)
        } else if u.unit_type != UnitType::Worker {
            Err(GameError::InappropriateUnitType)
        } else if u.has_worker_acted {
            Err(GameError::Overheated)
        } else if !(u.location is OnMap) {
            Err(GameError::UnitNotOnMap)
        } else if !crate::location::translate_fits(
            map_loc(u),
            crate::location::dir_dx(d),
            crate::location::dir_dy(d),
        ) {
            Err(GameError::LocationOffMap)
        } else {
            self.sense_check(self.dest_of(id, d))
        }
    }

    /// The karbonite at a square of the current planet.
    pub open spec fn karbonite_here(&self, l: MapLocation) -> u32 {
        self.here().karbonite@[l.y as int]@[l.x as int]
    }

    /// What harvesting would meet first, if anything.
    pub open spec fn harvest_check(&self, id: UnitID, d: Direction) -> Result<(), GameError> {
        if self.worker_dir_check(id, d) is Err {
            self.worker_dir_check(id, d)
        } else if self.karbonite_here(self.dest_of(id, d)) == 0 {
            Err(GameError::KarboniteDepositEmpty)
        } else {
            Ok(())
        }
    }

    /// The worker's own checks, then the square in the direction.
    fn ok_if_worker_dir(&self, worker_id: UnitID, direction: Direction) -> (r: Result<MapLocation, GameError>)
        requires
            self.wf(),
        ensures
            r is Ok <==> self.worker_dir_check(worker_id, direction) is Ok,
            r is Ok ==> r->Ok_0 == self.dest_of(worker_id, direction),
            r is Err ==> r == Err::<MapLocation, GameError>(self.worker_dir_check(worker_id, direction)->Err_0),
    {
        let unit = self.my_unit(worker_id)?;
        unit.ok_if_unit_type(UnitType::Worker)?;
        unit.ok_if_can_worker_act()?;
        let loc = unit.location.map_location()?;
        let dx = direction.dx() as i64;
        let dy = direction.dy() as i64;
        if (loc.x as i64) + dx < i32::MIN as i64 || (loc.x as i64) + dx > i32::MAX as i64 || (loc.y as i64)
            + dy < i32::MIN as i64 || (loc.y as i64) + dy > i32::MAX as i64 {
            return Err(GameError::LocationOffMap);
        }
        let dest = loc.add(direction);
        self.ok_if_can_sense_location(dest)?;
        Ok(dest)
    }

    /// * NoSuchUnit, TeamNotAllowed, InappropriateUnitType, Overheated,
    ///   UnitNotOnMap, LocationOffMap, LocationNotVisible,
    ///   KarboniteDepositEmpty - as for `harvest`.
    pub fn ok_if_can_harvest(&self, worker_id: UnitID, direction: Direction) -> (r: Result<(), GameError>)
        requires
            self.wf(),
        ensures
            r == self.harvest_check(worker_id, direction),
    {
        let dest = self.ok_if_worker_dir(worker_id, direction)?;
        if self.karbonite_at(dest)? == 0 {
            return Err(GameError::KarboniteDepositEmpty);
        }
        Ok(())
    }

    /// Whether the worker is ready to harvest, and the given direction contains
    /// karbonite to harvest. The worker cannot already have performed an action
    /// this round.
    pub fn can_harvest(&self, worker_id: UnitID, direction: Direction) -> (r: bool)
        requires
            self.wf(),
        ensures
            r == (self.harvest_check(worker_id, direction) is Ok),
    {
        self.ok_if_can_harvest(worker_id, direction).is_ok()
    }

    /// What a harvest does: its result and the world after it.
    pub open spec fn harvest_outcome(&self, worker_id: UnitID, direction: Direction, next: GameWorld, r: Result<(), GameError>) -> bool {
        &&& self.harvest_check(worker_id, direction) is Err ==> r == self.harvest_check(worker_id, direction)
                    && next == *self
        &&& ({
                    let u = self.seen_unit(worker_id);
                    let dest = self.dest_of(worker_id, direction);
                    let k = self.karbonite_here(dest);
                    let amount = if k < u.harvest_amount { k } else { u.harvest_amount };
                    self.harvest_check(worker_id, direction) is Ok ==> {
                        &&& self.us().karbonite + amount > u32::MAX ==> r == Err::<(), GameError>(
                            GameError::InternalEngineError,
                        ) && next == *self
                        &&& self.us().karbonite + amount <= u32::MAX ==> {
                            &&& r == Ok::<(), GameError>(())
                            &&& next.same_but(*self, self.mover().planet, self.mover().team)
                            &&& next.here().units@ =~= self.here().units@.insert(
                                worker_id,
                                Unit { has_worker_acted: true, ..u },
                            )
                            &&& next.here().units_by_loc == self.here().units_by_loc
                            &&& next.here().visible_locs == self.here().visible_locs
                            &&& next.here().karbonite@.len() == self.here().karbonite@.len()
                            &&& forall|j: int| 0 <= j < self.here().karbonite@.len() ==> (#[trigger] next.here().karbonite@[j])@ == (if j == dest.y {
                                self.here().karbonite@[j]@.update(dest.x as int, (k - amount) as u32)
                            } else {
                                self.here().karbonite@[j]@
                            })
                            &&& next.us() == (TeamInfo {
                                karbonite: (self.us().karbonite + amount) as u32,
                                ..self.us()
                            })
                        }
                    }
                })
    }

    /// Harvests up to the worker's harvest amount of karbonite from the given
    /// location, adding it to the team's resource pool.
    ///
    /// * NoSuchUnit - the worker does not exist (within the vision range).
    /// * TeamNotAllowed - the worker is not on the current player's team.
    /// * InappropriateUnitType - the unit is not a worker.
    /// * Overheated - the worker has already performed an action this turn.
    /// * UnitNotOnMap - the worker is not on the map.
    /// * LocationOffMap - the location in the target direction is off the map.
    /// * LocationNotVisible - the location is not in the vision range.
    /// * KarboniteDepositEmpty - the location described contains no Karbonite.
    /// * InternalEngineError - the team's karbonite would overflow.
    #[verifier::spinoff_prover]
    #[verifier::rlimit(40)]
    pub fn harvest(&mut self, worker_id: UnitID, direction: Direction) -> (r: Result<(), GameError>)
        requires
            old(self).wf(),
        ensures
            final(self).wf(),
            old(self).full() ==> final(self).full(),
            old(self).harvest_outcome(worker_id, direction, *final(self), r),
    {
        self.ok_if_can_harvest(worker_id, direction)?;
        proof {
            self.lemma_here_fits();
        }
        let p = self.planet();
        let t = self.team();
        let dest = self.ok_if_worker_dir(worker_id, direction).unwrap();
        let k = self.karbonite_at(dest).unwrap();
        let worker = id_map_get(&self.my_planet().units, worker_id).unwrap();
        let amount = if k < worker.harvest_amount { k } else { worker.harvest_amount };
        if self.my_team().karbonite > u32::MAX - amount {
            return Err(GameError::InternalEngineError);
        }
        let ghost w = *old(self);
        let mut info = self.take_planet(p);
        let mut unit = id_map_remove(&mut info.units, worker_id).unwrap();
        unit.worker_act();
        id_map_insert(&mut info.units, worker_id, unit);
        proof {
            assert forall|l: MapLocation| #[trigger] info.units_by_loc@.contains_key(l) implies {
                &&& info.units@.contains_key(info.units_by_loc@[l])
                &&& info.units@[info.units_by_loc@[l]].location == Location::OnMap(l)
            } by {
                assert(w.here().units_by_loc@.contains_key(l));
            }
            assert forall|i: UnitID| #[trigger] info.units@.contains_key(i) implies {
                &&& info.units@[i].id == i
                &&& (info.units@[i].location is OnMap ==> {
                    let l = info.units@[i].location->OnMap_0;
                    info.units_by_loc@.contains_key(l) && info.units_by_loc@[l] == i
                })
            } by {
                assert(w.here().units@.contains_key(i));
            }
        }
        info.set_karbonite(dest.x as usize, dest.y as usize, k - amount);
        self.put_planet(p, info);
        proof {
            assert(self.same_but_planet(w, p));
            self.lemma_planet_changed(w, p);
            assert(self.here().units@ =~= w.here().units@.insert(
                worker_id,
                Unit { has_worker_acted: true, ..w.seen_unit(worker_id) },
            ));
        }
        let ghost w2 = *self;
        let mut team_info = self.take_team(t);
        team_info.karbonite = team_info.karbonite + amount;
        self.put_team(t, team_info);
        proof {
            assert(self.same_but_team(w2, t));
            self.lemma_team_changed(w2, t);
            assert(self.team_states@[t] == self.team_of(t));
        }
        Ok(())
    }
}

/// Whether the distance squared between two locations, where both are on
/// the map of one planet, fits in an `i32`.
fn loc_dist_fits_exec(a: Location, b: Location) -> (r: bool)
    ensures
        r == crate::location::loc_dist_fits(a, b),
{
    match (a, b) {
        (Location::OnMap(x), Location::OnMap(y)) => {
            if x.planet != y.planet {
                return true;
            }
            let dx = x.x as i128 - y.x as i128;
            let dy = x.y as i128 - y.y as i128;
            assert(dx * dx <= 0x1_0000_0000_0000_0000 && dy * dy <= 0x1_0000_0000_0000_0000) by (nonlinear_arith)
                requires -0x1_0000_0000 <= dx <= 0x1_0000_0000, -0x1_0000_0000 <= dy <= 0x1_0000_0000;
            assert(dx * dx >= 0 && dy * dy >= 0) by (nonlinear_arith);
            assert(crate::location::sq_dist(x, y) == dx * dx + dy * dy) by (nonlinear_arith)
                requires dx == x.x - y.x, dy == x.y - y.y;
            dx * dx + dy * dy <= i32::MAX as i128
        },
        _ => true,
    }
}

impl PlanetInfo {
    /// Replaces a unit by a new state of it at the same place.
    fn put_back(&mut self, u: Unit)
        requires
            index_ok(old(self).units@.insert(u.id, u), old(self).units_by_loc@),
        ensures
            final(self).indexed(),
            final(self).units@ == old(self).units@.insert(u.id, u),
            final(self).units_by_loc == old(self).units_by_loc,
            final(self).karbonite == old(self).karbonite,
            final(self).visible_locs == old(self).visible_locs,
    {
        let id = u.id;
        id_map_insert(&mut self.units, id, u);
    }
}

impl GameWorld {
    /// The checks shared by building and repairing: both units known and
    /// the player's, a worker on the map that has not acted.
    pub open spec fn worker_pair_check(&self, w: UnitID, s: UnitID) -> Result<(), GameError> {
        let wu = self.seen_unit(w);
        if !self.sees_unit(w) {
            Err(GameError::NoSuchUnit)
        } else if wu.team != self.mover().team {
            Err(GameError::TeamNotAllowed)
        } else if !self.sees_unit(s) {
            Err(GameError::NoSuchUnit)
        } else if self.seen_unit(s).team != self.mover().team {
            Err(GameError::TeamNotAllowed)
        } else if wu.unit_type != UnitType::Worker {
            Err(GameError::InappropriateUnitType)
        } else if !(wu.location is OnMap) {
            Err(GameError::UnitNotOnMap)
        } else if wu.has_worker_acted {
            Err(GameError::Overheated)
        } else if !crate::location::loc_dist_fits(wu.location, self.seen_unit(s).location) {
            Err(GameError::InternalEngineError)
        } else {
            Ok(())
        }
    }

    /// What building would meet first, if anything.
    pub open spec fn build_check(&self, w: UnitID, b: UnitID) -> Result<(), GameError> {
        let wu = self.seen_unit(w);
        let bu = self.seen_unit(b);
        if self.worker_pair_check(w, b) is Err {
            self.worker_pair_check(w, b)
        } else if !crate::unit::loc_within(wu.location, wu.ability_range, bu.location) {
            Err(GameError::OutOfRange)
        } else if !(bu.unit_type == UnitType::Factory || bu.unit_type == UnitType::Rocket) {
            Err(GameError::InappropriateUnitType)
        } else if bu.is_built {
            Err(GameError::StructureAlreadyBuilt)
        } else {
            Ok(())
        }
    }

    /// What repairing would meet first, if anything.
    pub open spec fn repair_check(&self, w: UnitID, s: UnitID) -> Result<(), GameError> {
        let wu = self.seen_unit(w);
        let su = self.seen_unit(s);
        if self.worker_pair_check(w, s) is Err {
            self.worker_pair_check(w, s)
        } else if !(wu.location is OnMap && su.location is OnMap && crate::location::adjacent(
            map_loc(wu),
            map_loc(su),
        )) {
            Err(GameError::OutOfRange)
        } else if !(su.unit_type == UnitType::Factory || su.unit_type == UnitType::Rocket) {
            Err(GameError::InappropriateUnitType)
        } else if !su.is_built {
            Err(GameError::StructureNotYetBuilt)
        } else {
            Ok(())
        }
    }

    fn ok_if_worker_pair(&self, worker_id: UnitID, other_id: UnitID) -> (r: Result<(), GameError>)
        requires
            self.wf(),
        ensures
            r == self.worker_pair_check(worker_id, other_id),
    {
        let worker = self.my_unit(worker_id)?;
        let other = self.my_unit(other_id)?;
        worker.ok_if_unit_type(UnitType::Worker)?;
        worker.ok_if_on_map()?;
        worker.ok_if_can_worker_act()?;
        if !loc_dist_fits_exec(worker.location, other.location) {
            return Err(GameError::InternalEngineError);
        }
        Ok(())
    }

    /// * NoSuchUnit, TeamNotAllowed, UnitNotOnMap, InappropriateUnitType,
    ///   Overheated, OutOfRange, StructureAlreadyBuilt - as for `build`.
    pub fn ok_if_can_build(&self, worker_id: UnitID, blueprint_id: UnitID) -> (r: Result<(), GameError>)
        requires
            self.wf(),
        ensures
            r == self.build_check(worker_id, blueprint_id),
    {
        self.ok_if_worker_pair(worker_id, blueprint_id)?;
        let worker = self.my_unit(worker_id).unwrap();
        let blueprint = self.my_unit(blueprint_id).unwrap();
        worker.ok_if_within_ability_range(blueprint.location)?;
        if blueprint.structure_is_built()? {
            return Err(GameError::StructureAlreadyBuilt);
        }
        Ok(())
    }

    /// Whether the worker can build a blueprint with the given ID. The worker
    /// and the blueprint must be adjacent to each other. The worker cannot
    /// already have performed an action this round.
    pub fn can_build(&self, worker_id: UnitID, blueprint_id: UnitID) -> (r: bool)
        requires
            self.wf(),
        ensures
            r == (self.build_check(worker_id, blueprint_id) is Ok),
    {
        self.ok_if_can_build(worker_id, blueprint_id).is_ok()
    }

    /// What building on a blueprint does: its result and the world after it.
    pub open spec fn build_outcome(&self, worker_id: UnitID, blueprint_id: UnitID, next: GameWorld, r: Result<(), GameError>) -> bool {
        &&& self.build_check(worker_id, blueprint_id) is Err ==> r == self.build_check(worker_id, blueprint_id)
                    && next == *self
        &&& ({
                    let wu = self.seen_unit(worker_id);
                    let bu = self.seen_unit(blueprint_id);
                    self.build_check(worker_id, blueprint_id) is Ok ==> {
                        &&& bu.health + wu.build_health > u32::MAX ==> r == Err::<(), GameError>(
                            GameError::InternalEngineError,
                        ) && next == *self
                        &&& bu.health + wu.build_health <= u32::MAX ==> {
                            &&& r == Ok::<(), GameError>(())
                            &&& next.same_but_planet(*self, self.mover().planet)
                            &&& next.here().units@ =~= self.here().units@.insert(
                                worker_id,
                                Unit { has_worker_acted: true, ..wu },
                            ).insert(
                                blueprint_id,
                                Unit {
                                    health: crate::unit::healed_health(bu, wu.build_health),
                                    is_built: bu.is_built || crate::unit::healed_health(bu, wu.build_health)
                                        == bu.max_health,
                                    ..bu
                                },
                            )
                            &&& next.here().units_by_loc == self.here().units_by_loc
                            &&& next.here().karbonite == self.here().karbonite
                            &&& next.here().visible_locs == self.here().visible_locs
                        }
                    }
                })
    }

    /// Builds a given blueprint, increasing its health by the worker's build
    /// amount. If raised to maximum health, the blueprint becomes a completed
    /// structure.
    ///
    /// * NoSuchUnit - either unit does not exist (within the vision range).
    /// * TeamNotAllowed - either unit is not on the current player's team.
    /// * UnitNotOnMap - the worker is not on the map.
    /// * InappropriateUnitType - the unit is not a worker, or the blueprint
    ///   is not a structure.
    /// * Overheated - the worker has already performed an action this turn.
    /// * OutOfRange - the worker is not adjacent to the blueprint.
    /// * StructureAlreadyBuilt - the blueprint has already been completed.
    /// * InternalEngineError - the blueprint's health would overflow.
    pub fn build(&mut self, worker_id: UnitID, blueprint_id: UnitID) -> (r: Result<(), GameError>)
        requires
            old(self).wf(),
        ensures
            final(self).wf(),
            old(self).full() ==> final(self).full(),
            old(self).build_outcome(worker_id, blueprint_id, *final(self), r),
    {
        self.ok_if_can_build(worker_id, blueprint_id)?;
        proof {
            self.lemma_here_fits();
        }
        let p = self.planet();
        let build_health = id_map_get(&self.my_planet().units, worker_id).unwrap().build_health;
        if id_map_get(&self.my_planet().units, blueprint_id).unwrap().health > u32::MAX - build_health {
            return Err(GameError::InternalEngineError);
        }
        let mut info = self.take_planet(p);
        let mut worker = id_map_remove(&mut info.units, worker_id).unwrap();
        worker.worker_act();
        id_map_insert(&mut info.units, worker_id, worker);
        proof {
            lemma_same_place(old(self).here().units@, old(self).here().units_by_loc@, info.units@[worker_id]);
        }
        let ghost mid = info.units@;
        let mut blueprint = id_map_remove(&mut info.units, blueprint_id).unwrap();
        blueprint.be_built(build_health);
        proof {
            lemma_same_place(mid, info.units_by_loc@, blueprint);
        }
        info.put_back(blueprint);
        proof {
            assert(info.units@ == old(self).here().units@.insert(worker_id, info.units@[worker_id]).insert(
                blueprint_id,
                info.units@[blueprint_id],
            ));
        }
        self.put_planet(p, info);
        proof {
            assert(self.same_but_planet(*old(self), p));
            self.lemma_planet_changed(*old(self), p);
        }
        Ok(())
    }

    /// * NoSuchUnit, TeamNotAllowed, UnitNotOnMap, InappropriateUnitType,
    ///   Overheated, OutOfRange, StructureNotYetBuilt - as for `repair`.
    pub fn ok_if_can_repair(&self, worker_id: UnitID, structure_id: UnitID) -> (r: Result<(), GameError>)
        requires
            self.wf(),
        ensures
            r == self.repair_check(worker_id, structure_id),
    {
        self.ok_if_worker_pair(worker_id, structure_id)?;
        let worker = self.my_unit(worker_id).unwrap();
        let structure = self.my_unit(structure_id).unwrap();
        if !worker.location.is_adjacent_to(structure.location) {
            return Err(GameError::OutOfRange);
        }
        if !structure.structure_is_built()? {
            return Err(GameError::StructureNotYetBuilt);
        }
        Ok(())
    }

    /// Whether the given worker can repair the given strucutre. Tests that the worker
    /// is able to execute a worker action, that the structure is built, and that the
    /// structure is within range.
    pub fn can_repair(&self, worker_id: UnitID, structure_id: UnitID) -> (r: bool)
        requires
            self.wf(),
        ensures
            r == (self.repair_check(worker_id, structure_id) is Ok),
    {
        self.ok_if_can_repair(worker_id, structure_id).is_ok()
    }

    /// What a repair does: its result and the world after it.
    pub open spec fn repair_outcome(&self, worker_id: UnitID, structure_id: UnitID, next: GameWorld, r: Result<(), GameError>) -> bool {
        &&& self.repair_check(worker_id, structure_id) is Err ==> r == self.repair_check(worker_id, structure_id)
                    && next == *self
        &&& ({
                    let wu = self.seen_unit(worker_id);
                    let su = self.seen_unit(structure_id);
                    self.repair_check(worker_id, structure_id) is Ok ==> {
                        &&& su.health + wu.repair_health > u32::MAX ==> r == Err::<(), GameError>(
                            GameError::InternalEngineError,
                        ) && next == *self
                        &&& su.health + wu.repair_health <= u32::MAX ==> {
                            &&& r == Ok::<(), GameError>(())
                            &&& next.same_but_planet(*self, self.mover().planet)
                            &&& next.here().units@ =~= self.here().units@.insert(
                                worker_id,
                                Unit { has_worker_acted: true, ..wu },
                            ).insert(
                                structure_id,
                                Unit { health: crate::unit::healed_health(su, wu.repair_health), ..su },
                            )
                            &&& next.here().units_by_loc == self.here().units_by_loc
                            &&& next.here().karbonite == self.here().karbonite
                            &&& next.here().visible_locs == self.here().visible_locs
                        }
                    }
                })
    }

    /// Commands the worker to repair a structure, repleneshing health to it. This
    /// can only be done to structures which have been fully built.
    ///
    /// * NoSuchUnit - either unit does not exist (within the vision range).
    /// * TeamNotAllowed - either unit is not on the current player's team.
    /// * UnitNotOnMap - the worker is not on the map.
    /// * InappropriateUnitType - the unit is not a worker, or the target
    ///   is not a structure.
    /// * Overheated - the worker has already performed an action this turn.
    /// * OutOfRange - the worker is not adjacent to the structure.
    /// * StructureNotYetBuilt - the structure has not been completed.
    /// * InternalEngineError - the structure's health would overflow.
    pub fn repair(&mut self, worker_id: UnitID, structure_id: UnitID) -> (r: Result<(), GameError>)
        requires
            old(self).wf(),
        ensures
            final(self).wf(),
            old(self).full() ==> final(self).full(),
            old(self).repair_outcome(worker_id, structure_id, *final(self), r),
    {
        self.ok_if_can_repair(worker_id, structure_id)?;
        proof {
            self.lemma_here_fits();
        }
        let p = self.planet();
        let repair_health = id_map_get(&self.my_planet().units, worker_id).unwrap().repair_health;
        if id_map_get(&self.my_planet().units, structure_id).unwrap().health > u32::MAX - repair_health {
            return Err(GameError::InternalEngineError);
        }
        let mut info = self.take_planet(p);
        let mut worker = id_map_remove(&mut info.units, worker_id).unwrap();
        worker.worker_act();
        id_map_insert(&mut info.units, worker_id, worker);
        proof {
            lemma_same_place(old(self).here().units@, old(self).here().units_by_loc@, info.units@[worker_id]);
        }
        let ghost mid = info.units@;
        let mut structure = id_map_remove(&mut info.units, structure_id).unwrap();
        structure.be_healed(repair_health);
        proof {
            lemma_same_place(mid, info.units_by_loc@, structure);
        }
        info.put_back(structure);
        proof {
            assert(info.units@ == old(self).here().units@.insert(worker_id, info.units@[worker_id]).insert(
                structure_id,
                info.units@[structure_id],
            ));
        }
        self.put_planet(p, info);
        proof {
            assert(self.same_but_planet(*old(self), p));
            self.lemma_planet_changed(*old(self), p);
        }
        Ok(())
    }
}

impl GameWorld {
    /// The robot's ability checks: known, the player's, of the type, with
    /// the ability unlocked.
    pub open spec fn ability_owner_check(&self, id: UnitID, t: UnitType) -> Result<(), GameError> {
        if !self.sees_unit(id) {
            Err(GameError::NoSuchUnit)
        } else if self.seen_unit(id).team != self.mover().team {
            Err(GameError::TeamNotAllowed)
        } else {
            crate::unit::typed_ability_check(self.seen_unit(id), t)
        }
    }

    /// Whether the robot's ability of the given type is ready.
    pub open spec fn ability_ready_check(&self, id: UnitID, t: UnitType) -> Result<(), GameError> {
        if self.ability_owner_check(id, t) is Err {
            self.ability_owner_check(id, t)
        } else {
            crate::unit::heat_check(self.seen_unit(id), self.seen_unit(id).ability_heat)
        }
    }

    fn ok_if_ability_ready_for(&self, id: UnitID, t: UnitType) -> (r: Result<(), GameError>)
        requires
            self.wf(),
        ensures
            r == self.ability_ready_check(id, t),
    {
        let unit = self.my_unit(id)?;
        unit.ok_if_unit_type(t)?;
        unit.ok_if_ability_unlocked()?;
        unit.ok_if_ability_ready()
    }

    /// What a javelin would meet first, if anything.
    pub open spec fn javelin_check(&self, k: UnitID, t: UnitID) -> Result<(), GameError> {
        let ku = self.seen_unit(k);
        let tu = self.seen_unit(t);
        if !self.sees_unit(k) {
            Err(GameError::NoSuchUnit)
        } else if ku.team != self.mover().team {
            Err(GameError::TeamNotAllowed)
        } else if !self.sees_unit(t) {
            Err(GameError::NoSuchUnit)
        } else if !(ku.location is OnMap) {
            Err(GameError::UnitNotOnMap)
        } else if crate::unit::typed_ability_check(ku, UnitType::Knight) is Err {
            crate::unit::typed_ability_check(ku, UnitType::Knight)
        } else if !crate::location::loc_dist_fits(ku.location, tu.location) {
            Err(GameError::InternalEngineError)
        } else if !crate::unit::loc_within(ku.location, ku.ability_range, tu.location) {
            Err(GameError::OutOfRange)
        } else {
            Ok(())
        }
    }

    /// * NoSuchUnit, TeamNotAllowed, UnitNotOnMap, InappropriateUnitType,
    ///   ResearchNotUnlocked, OutOfRange - as for `javelin`.
    pub fn ok_if_can_javelin(&self, knight_id: UnitID, target_id: UnitID) -> (r: Result<(), GameError>)
        requires
            self.wf(),
        ensures
            r == self.javelin_check(knight_id, target_id),
    {
        let knight = self.my_unit(knight_id)?;
        let target = self.unit_ref(target_id)?;
        knight.ok_if_on_map()?;
        knight.ok_if_javelin_unlocked()?;
        if !loc_dist_fits_exec(knight.location, target.location) {
            return Err(GameError::InternalEngineError);
        }
        knight.ok_if_within_ability_range(target.location)
    }

    /// Whether the knight can javelin the given robot, without taking into
    /// account the knight's ability heat.
    pub fn can_javelin(&self, knight_id: UnitID, target_id: UnitID) -> (r: bool)
        requires
            self.wf(),
        ensures
            r == (self.javelin_check(knight_id, target_id) is Ok),
    {
        self.ok_if_can_javelin(knight_id, target_id).is_ok()
    }

    /// Whether the knight is ready to javelin. Tests whether the knight's
    /// ability heat is sufficiently low.
    pub fn is_javelin_ready(&self, knight_id: UnitID) -> (r: bool)
        requires
            self.wf(),
        ensures
            r == (self.ability_ready_check(knight_id, UnitType::Knight) is Ok),
    {
        self.ok_if_ability_ready_for(knight_id, UnitType::Knight).is_ok()
    }

    /// What a javelin throw does: its result and the world after it.
    pub open spec fn javelin_outcome(&self, knight_id: UnitID, target_id: UnitID, next: GameWorld, r: Result<(), GameError>) -> bool {
        &&& self.javelin_check(knight_id, target_id) is Err ==> r == self.javelin_check(knight_id, target_id)
                    && next == *self
        &&& self.javelin_check(knight_id, target_id) is Ok && self.ability_ready_check(
                    knight_id,
                    UnitType::Knight,
                ) is Err ==> r == self.ability_ready_check(knight_id, UnitType::Knight) && next
                    == *self
        &&& ({
                    let k = self.seen_unit(knight_id);
                    let spent = Unit { ability_heat: (k.ability_heat + k.ability_cooldown) as u32, ..k };
                    let v0 = (self.here().units@.insert(knight_id, spent), self.here().units_by_loc@);
                    let sane = k.ability_heat + k.ability_cooldown <= u32::MAX && k.damage >= 0 && (v0.0.contains_key(
                        target_id,
                    ) ==> takes(v0.0[target_id], k.damage));
                    self.javelin_check(knight_id, target_id) is Ok && self.ability_ready_check(
                        knight_id,
                        UnitType::Knight,
                    ) is Ok ==> {
                        &&& !sane ==> r == Err::<(), GameError>(GameError::InternalEngineError) && next == *self
                        &&& sane ==> {
                            &&& r == Ok::<(), GameError>(())
                            &&& next.same_but_planet(*self, self.mover().planet)
                            &&& next.here().pair() == hit_unit(v0, target_id, k.damage)
                            &&& next.here().karbonite == self.here().karbonite
                            &&& next.here().visible_locs == self.here().visible_locs
                        }
                    }
                })
    }

    /// Javelins the robot, dealing the knight's standard damage.
    ///
    /// * NoSuchUnit - either unit does not exist (inside the vision range).
    /// * TeamNotAllowed - the knight is not on the current player's team.
    /// * UnitNotOnMap - the knight is not on the map.
    /// * InappropriateUnitType - the unit is not a knight.
    /// * ResearchNotUnlocked - you do not have the needed research to use javelin.
    /// * OutOfRange - the target does not lie within ability range of the knight.
    /// * Overheated - the knight is not ready to use javelin again.
    /// * InternalEngineError - a heat, health or damage is out of the range
    ///   the engine computes in.
    #[verifier::spinoff_prover]
    #[verifier::rlimit(40)]
    pub fn javelin(&mut self, knight_id: UnitID, target_id: UnitID) -> (r: Result<(), GameError>)
        requires
            old(self).wf(),
        ensures
            final(self).wf(),
            old(self).full() ==> final(self).full(),
            old(self).javelin_outcome(knight_id, target_id, *final(self), r),
    {
        self.ok_if_can_javelin(knight_id, target_id)?;
        self.ok_if_ability_ready_for(knight_id, UnitType::Knight)?;
        proof {
            self.lemma_here_fits();
        }
        let p = self.planet();
        let knight = id_map_get(&self.my_planet().units, knight_id).unwrap();
        if knight.ability_heat > u32::MAX - knight.ability_cooldown || knight.damage < 0 {
            return Err(GameError::InternalEngineError);
        }
        let damage = knight.damage;
        let ghost k = *knight;
        let ghost spent = Unit { ability_heat: (k.ability_heat + k.ability_cooldown) as u32, ..k };
        let ghost v0 = (old(self).here().units@.insert(knight_id, spent), old(self).here().units_by_loc@);
        if target_id != knight_id {
            match id_map_get(&self.my_planet().units, target_id) {
                Some(t) => {
                    if t.health > i32::MAX as u32 || t.defense > i32::MAX as u32 {
                        return Err(GameError::InternalEngineError);
                    }
                },
                None => {},
            }
        } else {
            if knight.health > i32::MAX as u32 || knight.defense > i32::MAX as u32 {
                return Err(GameError::InternalEngineError);
            }
        }
        let mut info = self.take_planet(p);
        let mut unit = id_map_remove(&mut info.units, knight_id).unwrap();
        unit.javelin();
        proof {
            lemma_same_place(old(self).here().units@, old(self).here().units_by_loc@, unit);
        }
        info.put_back(unit);
        assert(info.pair() == v0);
        info.hit(target_id, damage);
        self.put_planet(p, info);
        proof {
            assert(self.same_but_planet(*old(self), p));
            self.lemma_planet_changed(*old(self), p);
        }
        Ok(())
    }

    /// What beginning a snipe would meet first, if anything.
    pub open spec fn snipe_check(&self, id: UnitID, location: MapLocation) -> Result<(), GameError> {
        let u = self.seen_unit(id);
        if !self.sees_unit(id) {
            Err(GameError::NoSuchUnit)
        } else if u.team != self.mover().team {
            Err(GameError::TeamNotAllowed)
        } else if !(u.location is OnMap) {
            Err(GameError::UnitNotOnMap)
        } else if crate::unit::typed_ability_check(u, UnitType::Ranger) is Err {
            crate::unit::typed_ability_check(u, UnitType::Ranger)
        } else if !self.map_of(self.mover().planet).on_map(location) {
            Err(GameError::LocationOffMap)
        } else {
            Ok(())
        }
    }

    /// * NoSuchUnit, TeamNotAllowed, UnitNotOnMap, InappropriateUnitType,
    ///   ResearchNotUnlocked, LocationOffMap - as for `begin_snipe`.
    pub fn ok_if_can_begin_snipe(&self, ranger_id: UnitID, location: MapLocation) -> (r: Result<(), GameError>)
        requires
            self.wf(),
        ensures
            r == self.snipe_check(ranger_id, location),
    {
        let ranger = self.my_unit(ranger_id)?;
        ranger.ok_if_on_map()?;
        ranger.ok_if_snipe_unlocked()?;
        let planet = self.planet();
        if !self.starting_map(planet).on_map(location) {
            return Err(GameError::LocationOffMap);
        }
        Ok(())
    }

    /// Whether the ranger can begin to snipe the given location, without
    /// taking into account the ranger's ability heat.
    pub fn can_begin_snipe(&self, ranger_id: UnitID, location: MapLocation) -> (r: bool)
        requires
            self.wf(),
        ensures
            r == (self.snipe_check(ranger_id, location) is Ok),
    {
        self.ok_if_can_begin_snipe(ranger_id, location).is_ok()
    }

    /// Whether the ranger is ready to begin snipe. Tests whether the ranger's
    /// ability heat is sufficiently low.
    pub fn is_begin_snipe_ready(&self, ranger_id: UnitID) -> (r: bool)
        requires
            self.wf(),
        ensures
            r == (self.ability_ready_check(ranger_id, UnitType::Ranger) is Ok),
    {
        self.ok_if_ability_ready_for(ranger_id, UnitType::Ranger).is_ok()
    }

    /// What beginning a snipe does: its result and the world after it.
    pub open spec fn begin_snipe_outcome(&self, ranger_id: UnitID, location: MapLocation, next: GameWorld, r: Result<(), GameError>) -> bool {
        &&& self.snipe_check(ranger_id, location) is Err ==> r == self.snipe_check(ranger_id, location)
                    && next == *self
        &&& self.snipe_check(ranger_id, location) is Ok && self.ability_ready_check(
                    ranger_id,
                    UnitType::Ranger,
                ) is Err ==> r == self.ability_ready_check(ranger_id, UnitType::Ranger) && next
                    == *self
        &&& ({
                    let u = self.seen_unit(ranger_id);
                    self.snipe_check(ranger_id, location) is Ok && self.ability_ready_check(
                        ranger_id,
                        UnitType::Ranger,
                    ) is Ok ==> {
                        &&& r == Ok::<(), GameError>(())
                        &&& next.same_but_planet(*self, self.mover().planet)
                        &&& next.here().units@ =~= self.here().units@.insert(
                            ranger_id,
                            Unit {
                                movement_heat: u32::MAX,
                                attack_heat: u32::MAX,
                                target_location: Some(location),
                                countdown: u.max_countdown,
                                ..u
                            },
                        )
                        &&& next.here().units_by_loc == self.here().units_by_loc
                        &&& next.here().karbonite == self.here().karbonite
                        &&& next.here().visible_locs == self.here().visible_locs
                    }
                })
    }

    /// Begins the countdown to snipe a given location. Maximizes the units
    /// attack and movement heats until the ranger has sniped.
    ///
    /// * NoSuchUnit - either unit does not exist (inside the vision range).
    /// * TeamNotAllowed - the ranger is not on the current player's team.
    /// * UnitNotOnMap - the ranger is not on the map.
    /// * InappropriateUnitType - the unit is not a ranger.
    /// * ResearchNotUnlocked - you do not have the needed research to use snipe.
    /// * LocationOffMap - the target is not on the map of this planet.
    /// * Overheated - the ranger is not ready to use snipe again.
    pub fn begin_snipe(&mut self, ranger_id: UnitID, location: MapLocation) -> (r: Result<(), GameError>)
        requires
            old(self).wf(),
        ensures
            final(self).wf(),
            old(self).full() ==> final(self).full(),
            old(self).begin_snipe_outcome(ranger_id, location, *final(self), r),
    {
        self.ok_if_can_begin_snipe(ranger_id, location)?;
        self.ok_if_ability_ready_for(ranger_id, UnitType::Ranger)?;
        proof {
            self.lemma_here_fits();
        }
        let p = self.planet();
        let mut info = self.take_planet(p);
        let mut unit = id_map_remove(&mut info.units, ranger_id).unwrap();
        unit.begin_snipe(location);
        proof {
            lemma_same_place(old(self).here().units@, old(self).here().units_by_loc@, unit);
        }
        info.put_back(unit);
        self.put_planet(p, info);
        proof {
            assert(self.same_but_planet(*old(self), p));
            self.lemma_planet_changed(*old(self), p);
        }
        Ok(())
    }

    /// What a blink would meet first, if anything.
    pub open spec fn blink_check(&self, id: UnitID, location: MapLocation) -> Result<(), GameError> {
        let u = self.seen_unit(id);
        if !self.sees_unit(id) {
            Err(GameError::NoSuchUnit)
        } else if u.team != self.mover().team {
            Err(GameError::TeamNotAllowed)
        } else if !(u.location is OnMap) {
            Err(GameError::UnitNotOnMap)
        } else if crate::unit::typed_ability_check(u, UnitType::Mage) is Err {
            crate::unit::typed_ability_check(u, UnitType::Mage)
        } else if !crate::location::loc_dist_fits(u.location, Location::OnMap(location)) {
            Err(GameError::InternalEngineError)
        } else if !crate::unit::loc_within(u.location, u.ability_range, Location::OnMap(location)) {
            Err(GameError::OutOfRange)
        } else if self.sense_check(location) is Err {
            self.sense_check(location)
        } else if !self.map_of(location.planet).is_passable_terrain@[location.y as int]@[location.x as int]
            || self.here().units_by_loc@.contains_key(location) {
            Err(GameError::LocationNotEmpty)
        } else {
            Ok(())
        }
    }

    /// * NoSuchUnit, TeamNotAllowed, UnitNotOnMap, InappropriateUnitType,
    ///   ResearchNotUnlocked, OutOfRange, LocationOffMap, LocationNotVisible,
    ///   LocationNotEmpty - as for `blink`.
    pub fn ok_if_can_blink(&self, mage_id: UnitID, location: MapLocation) -> (r: Result<(), GameError>)
        requires
            self.wf(),
        ensures
            r == self.blink_check(mage_id, location),
    {
        let mage = self.my_unit(mage_id)?;
        mage.ok_if_on_map()?;
        mage.ok_if_blink_unlocked()?;
        if !loc_dist_fits_exec(mage.location, Location::OnMap(location)) {
            return Err(GameError::InternalEngineError);
        }
        mage.ok_if_within_ability_range(Location::OnMap(location))?;
        if !self.is_occupiable(location)? {
            return Err(GameError::LocationNotEmpty);
        }
        Ok(())
    }

    /// Whether the mage can blink to the given location, without taking into
    /// account the mage's ability heat.
    pub fn can_blink(&self, mage_id: UnitID, location: MapLocation) -> (r: bool)
        requires
            self.wf(),
        ensures
            r == (self.blink_check(mage_id, location) is Ok),
    {
        self.ok_if_can_blink(mage_id, location).is_ok()
    }

    /// Whether the mage is ready to blink. Tests whether the mage's ability
    /// heat is sufficiently low.
    pub fn is_blink_ready(&self, mage_id: UnitID) -> (r: bool)
        requires
            self.wf(),
        ensures
            r == (self.ability_ready_check(mage_id, UnitType::Mage) is Ok),
    {
        self.ok_if_ability_ready_for(mage_id, UnitType::Mage).is_ok()
    }

    /// What a blink does: its result and the world after it.
    pub open spec fn blink_outcome(&self, mage_id: UnitID, location: MapLocation, next: GameWorld, r: Result<(), GameError>) -> bool {
        &&& self.blink_check(mage_id, location) is Err ==> r == self.blink_check(mage_id, location)
                    && next == *self
        &&& self.blink_check(mage_id, location) is Ok && self.ability_ready_check(mage_id, UnitType::Mage)
                    is Err ==> r == self.ability_ready_check(mage_id, UnitType::Mage) && next == *self
        &&& ({
                    let u = self.seen_unit(mage_id);
                    self.blink_check(mage_id, location) is Ok && self.ability_ready_check(
                        mage_id,
                        UnitType::Mage,
                    ) is Ok ==> {
                        &&& u.ability_heat + u.ability_cooldown > u32::MAX ==> r == Err::<(), GameError>(
                            GameError::InternalEngineError,
                        ) && next == *self
                        &&& u.ability_heat + u.ability_cooldown <= u32::MAX ==> {
                            let moved = Unit {
                                ability_heat: (u.ability_heat + u.ability_cooldown) as u32,
                                location: Location::OnMap(location),
                                ..u
                            };
                            &&& r == Ok::<(), GameError>(())
                            &&& next.same_but_planet(*self, self.mover().planet)
                            &&& next.here().units@ =~= self.here().units@.insert(mage_id, moved)
                            &&& next.here().units_by_loc@ =~= reindexed(
                                self.here().units_by_loc@,
                                mage_id,
                                u.location,
                                moved.location,
                            )
                            &&& next.here().karbonite == self.here().karbonite
                            &&& next.here().visible_locs == self.here().visible_locs
                        }
                    }
                })
    }

    /// Blinks the mage to the given location.
    ///
    /// * NoSuchUnit - the mage does not exist (inside the vision range).
    /// * TeamNotAllowed - the mage is not on the current player's team.
    /// * UnitNotOnMap - the mage is not on the map.
    /// * InappropriateUnitType - the unit is not a mage.
    /// * ResearchNotUnlocked - you do not have the needed research to use blink.
    /// * OutOfRange - the target does not lie within ability range of the mage.
    /// * LocationOffMap - the target location is not on this planet's map.
    /// * LocationNotVisible - the target location is outside the vision range.
    /// * LocationNotEmpty - the target location is already occupied.
    /// * Overheated - the mage is not ready to use blink again.
    /// * InternalEngineError - the mage's heat would overflow.
    pub fn blink(&mut self, mage_id: UnitID, location: MapLocation) -> (r: Result<(), GameError>)
        requires
            old(self).wf(),
        ensures
            final(self).wf(),
            old(self).full() ==> final(self).full(),
            old(self).blink_outcome(mage_id, location, *final(self), r),
    {
        self.ok_if_can_blink(mage_id, location)?;
        self.ok_if_ability_ready_for(mage_id, UnitType::Mage)?;
        proof {
            self.lemma_here_fits();
        }
        let p = self.planet();
        let mage = id_map_get(&self.my_planet().units, mage_id).unwrap();
        if mage.ability_heat > u32::MAX - mage.ability_cooldown {
            return Err(GameError::InternalEngineError);
        }
        let mut info = self.take_planet(p);
        let mut unit = id_map_remove(&mut info.units, mage_id).unwrap();
        let ghost before = unit;
        let from = unit.location;
        proof {
            assert(old(self).here().units@ =~= info.units@.insert(mage_id, before));
        }
        unit.blink(location);
        info.relocate(unit, from, Ghost(before));
        proof {
            assert(info.units@ =~= old(self).here().units@.insert(mage_id, unit));
        }
        self.put_planet(p, info);
        proof {
            assert(self.same_but_planet(*old(self), p));
            self.lemma_planet_changed(*old(self), p);
        }
        Ok(())
    }
}

impl GameWorld {
    /// What a heal would meet first, if anything.
    pub open spec fn heal_check(&self, h: UnitID, r: UnitID) -> Result<(), GameError> {
        let hu = self.seen_unit(h);
        let ru = self.seen_unit(r);
        if !self.sees_unit(h) {
            Err(GameError::NoSuchUnit)
        } else if hu.team != self.mover().team {
            Err(GameError::TeamNotAllowed)
        } else if !(hu.location is OnMap) {
            Err(GameError::UnitNotOnMap)
        } else if !self.sees_unit(r) {
            Err(GameError::NoSuchUnit)
        } else if ru.team != self.mover().team {
            Err(GameError::TeamNotAllowed)
        } else if !(ru.location is OnMap) {
            Err(GameError::UnitNotOnMap)
        } else if !crate::location::loc_dist_fits(hu.location, ru.location) {
            Err(GameError::InternalEngineError)
        } else if crate::unit::attack_range_check(hu, ru.location) is Err {
            crate::unit::attack_range_check(hu, ru.location)
        } else if !crate::unit::robot_type(ru.unit_type) {
            Err(GameError::InappropriateUnitType)
        } else {
            Ok(())
        }
    }

    /// Whether the healer is ready to heal.
    pub open spec fn heal_ready_check(&self, h: UnitID) -> Result<(), GameError> {
        if !self.sees_unit(h) {
            Err(GameError::NoSuchUnit)
        } else if self.seen_unit(h).team != self.mover().team {
            Err(GameError::TeamNotAllowed)
        } else {
            crate::unit::heat_check(self.seen_unit(h), self.seen_unit(h).attack_heat)
        }
    }

    /// * NoSuchUnit, TeamNotAllowed, UnitNotOnMap, InappropriateUnitType,
    ///   OutOfRange - as for `heal`.
    pub fn ok_if_can_heal(&self, healer_id: UnitID, robot_id: UnitID) -> (r: Result<(), GameError>)
        requires
            self.wf(),
        ensures
            r == self.heal_check(healer_id, robot_id),
    {
        let healer = self.my_unit(healer_id)?;
        healer.ok_if_on_map()?;
        let robot = self.my_unit(robot_id)?;
        if !robot.location.is_on_map() {
            return Err(GameError::UnitNotOnMap);
        }
        if !loc_dist_fits_exec(healer.location, robot.location) {
            return Err(GameError::InternalEngineError);
        }
        healer.ok_if_within_attack_range(robot.location)?;
        robot.ok_if_robot()
    }

    /// Whether the healer can heal the given robot, without taking into
    /// account the healer's attack heat.
    pub fn can_heal(&self, healer_id: UnitID, robot_id: UnitID) -> (r: bool)
        requires
            self.wf(),
        ensures
            r == (self.heal_check(healer_id, robot_id) is Ok),
    {
        self.ok_if_can_heal(healer_id, robot_id).is_ok()
    }

    /// Whether the healer is ready to heal. Tests whether the healer's attack
    /// heat is sufficiently low.
    pub fn is_heal_ready(&self, healer_id: UnitID) -> (r: bool)
        requires
            self.wf(),
        ensures
            r == (self.heal_ready_check(healer_id) is Ok),
    {
        match self.my_unit(healer_id) {
            Ok(u) => u.ok_if_attack_ready().is_ok(),
            Err(_) => false,
        }
    }

    /// What a heal does: its result and the world after it.
    pub open spec fn heal_outcome(&self, healer_id: UnitID, robot_id: UnitID, next: GameWorld, r: Result<(), GameError>) -> bool {
        &&& self.heal_check(healer_id, robot_id) is Err ==> r == self.heal_check(healer_id, robot_id)
                    && next == *self
        &&& self.heal_check(healer_id, robot_id) is Ok && self.heal_ready_check(healer_id) is Err ==> r
                    == self.heal_ready_check(healer_id) && next == *self
        &&& ({
                    let h = self.seen_unit(healer_id);
                    let spent = Unit { attack_heat: (h.attack_heat + h.attack_cooldown) as u32, ..h };
                    let v0 = (self.here().units@.insert(healer_id, spent), self.here().units_by_loc@);
                    let sane = h.attack_heat + h.attack_cooldown <= u32::MAX && h.damage > i32::MIN && takes(
                        v0.0[robot_id],
                        h.damage,
                    );
                    self.heal_check(healer_id, robot_id) is Ok && self.heal_ready_check(healer_id) is Ok ==> {
                        &&& !sane ==> r == Err::<(), GameError>(GameError::InternalEngineError) && next == *self
                        &&& sane ==> {
                            &&& r == Ok::<(), GameError>(())
                            &&& next.same_but_planet(*self, self.mover().planet)
                            &&& next.here().pair() == hit_unit(v0, robot_id, h.damage)
                            &&& next.here().karbonite == self.here().karbonite
                            &&& next.here().visible_locs == self.here().visible_locs
                        }
                    }
                })
    }

    /// Commands the healer to heal the target robot: the target takes the
    /// healer's damage, which is negative.
    ///
    /// * NoSuchUnit - either unit does not exist (inside the vision range).
    /// * InappropriateUnitType - the target is not a robot.
    /// * TeamNotAllowed - either robot is not on the current player's team.
    /// * UnitNotOnMap - either unit is not on the map.
    /// * OutOfRange - the target does not lie within "attack" range of the healer.
    /// * Overheated - the healer is not ready to heal again.
    /// * InternalEngineError - a heat or health is out of the range the
    ///   engine computes in.
    #[verifier::spinoff_prover]
    #[verifier::rlimit(40)]
    pub fn heal(&mut self, healer_id: UnitID, robot_id: UnitID) -> (r: Result<(), GameError>)
        requires
            old(self).wf(),
        ensures
            final(self).wf(),
            old(self).full() ==> final(self).full(),
            old(self).heal_outcome(healer_id, robot_id, *final(self), r),
    {
        self.ok_if_can_heal(healer_id, robot_id)?;
        if !self.is_heal_ready(healer_id) {
            return self.my_unit(healer_id).unwrap().ok_if_attack_ready();
        }
        proof {
            self.lemma_here_fits();
        }
        let p = self.planet();
        let healer = id_map_get(&self.my_planet().units, healer_id).unwrap();
        if healer.attack_heat > u32::MAX - healer.attack_cooldown || healer.damage == i32::MIN {
            return Err(GameError::InternalEngineError);
        }
        let damage = healer.damage;
        let ghost hu = *healer;
        let ghost spent = Unit { attack_heat: (hu.attack_heat + hu.attack_cooldown) as u32, ..hu };
        let target = if robot_id == healer_id {
            healer
        } else {
            id_map_get(&self.my_planet().units, robot_id).unwrap()
        };
        let th = if robot_id == healer_id { healer.health } else { target.health };
        if th > i32::MAX as u32 || target.defense > i32::MAX as u32 || (damage < 0 && th as u64 + (-(damage as i64)) as u64 > u32::MAX as u64) {
            return Err(GameError::InternalEngineError);
        }
        let mut info = self.take_planet(p);
        let mut unit = id_map_remove(&mut info.units, healer_id).unwrap();
        unit.use_attack();
        proof {
            lemma_same_place(old(self).here().units@, old(self).here().units_by_loc@, unit);
        }
        info.put_back(unit);
        let ghost before_hit = info.pair();
        proof {
            assert(before_hit.0 =~= old(self).here().units@.insert(healer_id, spent));
        }
        info.hit(robot_id, damage);
        self.put_planet(p, info);
        proof {
            assert(self.same_but_planet(*old(self), p));
            self.lemma_planet_changed(*old(self), p);
            assert(self.here().pair() == hit_unit(
                (old(self).here().units@.insert(healer_id, spent), old(self).here().units_by_loc@),
                robot_id,
                damage,
            ));
        }
        Ok(())
    }

    /// What an overcharge would meet first, if anything.
    pub open spec fn overcharge_check(&self, h: UnitID, r: UnitID) -> Result<(), GameError> {
        let hu = self.seen_unit(h);
        let ru = self.seen_unit(r);
        if !self.sees_unit(h) {
            Err(GameError::NoSuchUnit)
        } else if hu.team != self.mover().team {
            Err(GameError::TeamNotAllowed)
        } else if !self.sees_unit(r) {
            Err(GameError::NoSuchUnit)
        } else if ru.team != self.mover().team {
            Err(GameError::TeamNotAllowed)
        } else if !(hu.location is OnMap) {
            Err(GameError::UnitNotOnMap)
        } else if !crate::unit::robot_type(ru.unit_type) {
            Err(GameError::InappropriateUnitType)
        } else if crate::unit::typed_ability_check(hu, UnitType::Healer) is Err {
            crate::unit::typed_ability_check(hu, UnitType::Healer)
        } else if !crate::location::loc_dist_fits(hu.location, ru.location) {
            Err(GameError::InternalEngineError)
        } else if !crate::unit::loc_within(hu.location, hu.ability_range, ru.location) {
            Err(GameError::OutOfRange)
        } else {
            Ok(())
        }
    }

    /// * NoSuchUnit, TeamNotAllowed, UnitNotOnMap, InappropriateUnitType,
    ///   ResearchNotUnlocked, OutOfRange - as for `overcharge`.
    pub fn ok_if_can_overcharge(&self, healer_id: UnitID, robot_id: UnitID) -> (r: Result<(), GameError>)
        requires
            self.wf(),
        ensures
            r == self.overcharge_check(healer_id, robot_id),
    {
        let healer = self.my_unit(healer_id)?;
        let robot = self.my_unit(robot_id)?;
        healer.ok_if_on_map()?;
        robot.ok_if_can_be_overcharged()?;
        healer.ok_if_overcharge_unlocked()?;
        if !loc_dist_fits_exec(healer.location, robot.location) {
            return Err(GameError::InternalEngineError);
        }
        healer.ok_if_within_ability_range(robot.location)
    }

    /// Whether the healer can overcharge the given robot, without taking into
    /// account the healer's ability heat.
    pub fn can_overcharge(&self, healer_id: UnitID, robot_id: UnitID) -> (r: bool)
        requires
            self.wf(),
        ensures
            r == (self.overcharge_check(healer_id, robot_id) is Ok),
    {
        self.ok_if_can_overcharge(healer_id, robot_id).is_ok()
    }

    /// Whether the healer is ready to overcharge. Tests whether the healer's
    /// ability heat is sufficiently low.
    pub fn is_overcharge_ready(&self, healer_id: UnitID) -> (r: bool)
        requires
            self.wf(),
        ensures
            r == (self.ability_ready_check(healer_id, UnitType::Healer) is Ok),
    {
        self.ok_if_ability_ready_for(healer_id, UnitType::Healer).is_ok()
    }

    /// What an overcharge does: its result and the world after it.
    pub open spec fn overcharge_outcome(&self, healer_id: UnitID, robot_id: UnitID, next: GameWorld, r: Result<(), GameError>) -> bool {
        &&& self.overcharge_check(healer_id, robot_id) is Err ==> r == self.overcharge_check(healer_id, robot_id)
                    && next == *self
        &&& self.overcharge_check(healer_id, robot_id) is Ok && self.ability_ready_check(
                    healer_id,
                    UnitType::Healer,
                ) is Err ==> r == self.ability_ready_check(healer_id, UnitType::Healer) && next
                    == *self
        &&& ({
                    let h = self.seen_unit(healer_id);
                    let spent = Unit { ability_heat: (h.ability_heat + h.ability_cooldown) as u32, ..h };
                    let v1 = self.here().units@.insert(healer_id, spent);
                    let charged = Unit { movement_heat: 0, attack_heat: 0, ability_heat: 0, ..v1[robot_id] };
                    self.overcharge_check(healer_id, robot_id) is Ok && self.ability_ready_check(
                        healer_id,
                        UnitType::Healer,
                    ) is Ok ==> {
                        &&& h.ability_heat + h.ability_cooldown > u32::MAX ==> r == Err::<(), GameError>(
                            GameError::InternalEngineError,
                        ) && next == *self
                        &&& h.ability_heat + h.ability_cooldown <= u32::MAX ==> {
                            &&& r == Ok::<(), GameError>(())
                            &&& next.same_but_planet(*self, self.mover().planet)
                            &&& next.here().units@ =~= v1.insert(robot_id, charged)
                            &&& next.here().units_by_loc == self.here().units_by_loc
                            &&& next.here().karbonite == self.here().karbonite
                            &&& next.here().visible_locs == self.here().visible_locs
                        }
                    }
                })
    }

    /// Overcharges the robot, resetting the robot's heats. The robot must
    /// be on the same team as you.
    ///
    /// * NoSuchUnit - either unit does not exist (inside the vision range).
    /// * TeamNotAllowed - either robot is not on the current player's team.
    /// * UnitNotOnMap - the healer is not on the map.
    /// * InappropriateUnitType - the unit is not a healer, or the target is not
    ///   a robot.
    /// * ResearchNotUnlocked - you do not have the needed research to use overcharge.
    /// * OutOfRange - the target does not lie within ability range of the healer.
    /// * Overheated - the healer is not ready to use overcharge again.
    /// * InternalEngineError - the healer's heat would overflow.
    #[verifier::spinoff_prover]
    #[verifier::rlimit(40)]
    pub fn overcharge(&mut self, healer_id: UnitID, robot_id: UnitID) -> (r: Result<(), GameError>)
        requires
            old(self).wf(),
        ensures
            final(self).wf(),
            old(self).full() ==> final(self).full(),
            old(self).overcharge_outcome(healer_id, robot_id, *final(self), r),
    {
        self.ok_if_can_overcharge(healer_id, robot_id)?;
        self.ok_if_ability_ready_for(healer_id, UnitType::Healer)?;
        proof {
            self.lemma_here_fits();
        }
        let p = self.planet();
        let healer = id_map_get(&self.my_planet().units, healer_id).unwrap();
        if healer.ability_heat > u32::MAX - healer.ability_cooldown {
            return Err(GameError::InternalEngineError);
        }
        let mut info = self.take_planet(p);
        let mut unit = id_map_remove(&mut info.units, healer_id).unwrap();
        unit.overcharge();
        proof {
            lemma_same_place(old(self).here().units@, old(self).here().units_by_loc@, unit);
        }
        info.put_back(unit);
        let ghost mid = info.units@;
        let mut robot = id_map_remove(&mut info.units, robot_id).unwrap();
        robot.be_overcharged();
        proof {
            lemma_same_place(mid, info.units_by_loc@, robot);
        }
        info.put_back(robot);
        self.put_planet(p, info);
        proof {
            assert(self.same_but_planet(*old(self), p));
            self.lemma_planet_changed(*old(self), p);
            let h = old(self).seen_unit(healer_id);
            let v1 = old(self).here().units@.insert(
                healer_id,
                Unit { ability_heat: (h.ability_heat + h.ability_cooldown) as u32, ..h },
            );
            assert(mid =~= v1);
            assert(self.here().units@ =~= v1.insert(
                robot_id,
                Unit { movement_heat: 0, attack_heat: 0, ability_heat: 0, ..v1[robot_id] },
            ));
        }
        Ok(())
    }
}

impl GameWorld {
    /// What loading the robot into the structure would meet first, if
    /// anything.
    pub open spec fn load_check(&self, s: UnitID, r: UnitID) -> Result<(), GameError> {
        let su = self.seen_unit(s);
        let ru = self.seen_unit(r);
        if !self.sees_unit(r) {
            Err(GameError::NoSuchUnit)
        } else if ru.team != self.mover().team {
            Err(GameError::TeamNotAllowed)
        } else if !self.sees_unit(s) {
            Err(GameError::NoSuchUnit)
        } else if su.team != self.mover().team {
            Err(GameError::TeamNotAllowed)
        } else if !(ru.location is OnMap) || !(su.location is OnMap) {
            Err(GameError::UnitNotOnMap)
        } else if crate::unit::heat_check(ru, ru.movement_heat) is Err {
            crate::unit::heat_check(ru, ru.movement_heat)
        } else if crate::unit::load_check(su) is Err {
            crate::unit::load_check(su)
        } else if !crate::location::loc_dist_fits(su.location, ru.location) {
            Err(GameError::InternalEngineError)
        } else if !crate::location::adjacent(map_loc(su), map_loc(ru)) {
            Err(GameError::OutOfRange)
        } else {
            Ok(())
        }
    }

    /// * NoSuchUnit, TeamNotAllowed, UnitNotOnMap, Overheated,
    ///   InappropriateUnitType, StructureNotYetBuilt, GarrisonFull,
    ///   OutOfRange - as for `load`.
    pub fn ok_if_can_load(&self, structure_id: UnitID, robot_id: UnitID) -> (r: Result<(), GameError>)
        requires
            self.wf(),
        ensures
            r == self.load_check(structure_id, robot_id),
    {
        let robot = self.my_unit(robot_id)?;
        let structure = self.my_unit(structure_id)?;
        robot.ok_if_on_map()?;
        structure.ok_if_on_map()?;
        robot.ok_if_move_ready()?;
        structure.ok_if_can_load()?;
        if !loc_dist_fits_exec(structure.location, robot.location) {
            return Err(GameError::InternalEngineError);
        }
        if !structure.location.is_adjacent_to(robot.location) {
            return Err(GameError::OutOfRange);
        }
        Ok(())
    }

    /// Whether the robot can be loaded into the given structure's garrison.
    pub fn can_load(&self, structure_id: UnitID, robot_id: UnitID) -> (r: bool)
        requires
            self.wf(),
        ensures
            r == (self.load_check(structure_id, robot_id) is Ok),
    {
        self.ok_if_can_load(structure_id, robot_id).is_ok()
    }

    /// What loading a robot into a structure does: its result and the world after it.
    pub open spec fn load_outcome(&self, structure_id: UnitID, robot_id: UnitID, next: GameWorld, r: Result<(), GameError>) -> bool {
        &&& self.load_check(structure_id, robot_id) is Err ==> r == self.load_check(structure_id, robot_id)
                    && next == *self
        &&& ({
                    let su = self.seen_unit(structure_id);
                    let ru = self.seen_unit(robot_id);
                    let boarded = Unit {
                        movement_heat: (ru.movement_heat + ru.movement_cooldown) as u32,
                        location: Location::InGarrison(structure_id),
                        ..ru
                    };
                    let fs = next.here().units@[structure_id];
                    self.load_check(structure_id, robot_id) is Ok ==> {
                        &&& ru.movement_heat + ru.movement_cooldown > u32::MAX ==> r == Err::<(), GameError>(
                            GameError::InternalEngineError,
                        ) && next == *self
                        &&& ru.movement_heat + ru.movement_cooldown <= u32::MAX ==> {
                            &&& r == Ok::<(), GameError>(())
                            &&& next.same_but_planet(*self, self.mover().planet)
                            &&& next.here().units@ =~= self.here().units@.insert(robot_id, boarded).insert(
                                structure_id,
                                fs,
                            )
                            &&& fs == Unit { garrison: fs.garrison, ..su }
                            &&& fs.garrison@ =~= su.garrison@.push(robot_id)
                            &&& next.here().units_by_loc@ =~= self.here().units_by_loc@.remove(map_loc(ru))
                            &&& next.here().karbonite == self.here().karbonite
                            &&& next.here().visible_locs == self.here().visible_locs
                        }
                    }
                })
    }

    /// Loads the robot into the garrison of the structure.
    ///
    /// * NoSuchUnit - either unit does not exist (inside the vision range).
    /// * TeamNotAllowed - either unit is not on the current player's team.
    /// * UnitNotOnMap - either unit is not on the map.
    /// * Overheated - the robot is not ready to move again.
    /// * InappropriateUnitType - the first unit is not a structure, or the
    ///   second unit is not a robot.
    /// * StructureNotYetBuilt - the structure has not yet been completed.
    /// * GarrisonFull - the structure's garrison is already full.
    /// * OutOfRange - the robot is not adjacent to the structure.
    /// * InternalEngineError - the robot's heat would overflow.
    #[verifier::spinoff_prover]
    #[verifier::rlimit(40)]
    pub fn load(&mut self, structure_id: UnitID, robot_id: UnitID) -> (r: Result<(), GameError>)
        requires
            old(self).wf(),
        ensures
            final(self).wf(),
            old(self).full() ==> final(self).full(),
            old(self).load_outcome(structure_id, robot_id, *final(self), r),
    {
        self.ok_if_can_load(structure_id, robot_id)?;
        proof {
            self.lemma_here_fits();
        }
        let p = self.planet();
        let robot = id_map_get(&self.my_planet().units, robot_id).unwrap();
        if robot.movement_heat > u32::MAX - robot.movement_cooldown {
            return Err(GameError::InternalEngineError);
        }
        let mut info = self.take_planet(p);
        let mut unit = id_map_remove(&mut info.units, robot_id).unwrap();
        let ghost before = unit;
        let from = unit.location;
        proof {
            assert(old(self).here().units@ =~= info.units@.insert(robot_id, before));
        }
        unit.board_rocket(structure_id);
        info.relocate(unit, from, Ghost(before));
        let ghost mid = info.units@;
        let mut structure = id_map_remove(&mut info.units, structure_id).unwrap();
        structure.load(robot_id);
        proof {
            lemma_same_place(mid, info.units_by_loc@, structure);
        }
        info.put_back(structure);
        let ghost fs = structure;
        self.put_planet(p, info);
        proof {
            assert(self.same_but_planet(*old(self), p));
            self.lemma_planet_changed(*old(self), p);
            assert(mid =~= old(self).here().units@.insert(robot_id, unit));
            assert(self.here().units@ =~= old(self).here().units@.insert(robot_id, unit).insert(structure_id, fs));
        }
        Ok(())
    }

    /// What unloading the structure's first robot in the direction would
    /// meet first, if anything.
    pub open spec fn unload_check(&self, s: UnitID, d: Direction) -> Result<(), GameError> {
        let su = self.seen_unit(s);
        let rid = su.garrison@[0];
        if !self.sees_unit(s) {
            Err(GameError::NoSuchUnit)
        } else if su.team != self.mover().team {
            Err(GameError::TeamNotAllowed)
        } else if !(su.location is OnMap) {
            Err(GameError::UnitNotOnMap)
        } else if crate::unit::built_check(su) is Err {
            crate::unit::built_check(su)
        } else if su.garrison@.len() == 0 {
            Err(GameError::GarrisonEmpty)
        } else if !self.sees_unit(rid) {
            Err(GameError::NoSuchUnit)
        } else if self.seen_unit(rid).team != self.mover().team {
            Err(GameError::TeamNotAllowed)
        } else if !crate::location::translate_fits(
            map_loc(su),
            crate::location::dir_dx(d),
            crate::location::dir_dy(d),
        ) {
            Err(GameError::LocationOffMap)
        } else if self.sense_check(self.dest_of(s, d)) is Err {
            self.sense_check(self.dest_of(s, d))
        } else if !self.map_of(self.dest_of(s, d).planet).is_passable_terrain@[self.dest_of(s, d).y as int]@[self.dest_of(
            s,
            d,
        ).x as int] || self.here().units_by_loc@.contains_key(self.dest_of(s, d)) {
            Err(GameError::LocationNotEmpty)
        } else {
            crate::unit::heat_check(self.seen_unit(rid), self.seen_unit(rid).movement_heat)
        }
    }

    /// * NoSuchUnit, TeamNotAllowed, UnitNotOnMap, InappropriateUnitType,
    ///   StructureNotYetBuilt, GarrisonEmpty, LocationOffMap,
    ///   LocationNotVisible, LocationNotEmpty, Overheated - as for `unload`.
    pub fn ok_if_can_unload(&self, structure_id: UnitID, direction: Direction) -> (r: Result<(), GameError>)
        requires
            self.wf(),
        ensures
            r == self.unload_check(structure_id, direction),
    {
        let structure = self.my_unit(structure_id)?;
        structure.ok_if_on_map()?;
        structure.ok_if_can_unload_unit()?;
        let robot = self.my_unit(structure.garrison[0])?;
        let loc = structure.location.map_location()?;
        let dx = direction.dx() as i64;
        let dy = direction.dy() as i64;
        if (loc.x as i64) + dx < i32::MIN as i64 || (loc.x as i64) + dx > i32::MAX as i64 || (loc.y as i64)
            + dy < i32::MIN as i64 || (loc.y as i64) + dy > i32::MAX as i64 {
            return Err(GameError::LocationOffMap);
        }
        let dest = loc.add(direction);
        if !self.is_occupiable(dest)? {
            return Err(GameError::LocationNotEmpty);
        }
        robot.ok_if_move_ready()
    }

    /// Tests whether the given structure is able to unload a unit in the
    /// given direction.
    pub fn can_unload(&self, structure_id: UnitID, direction: Direction) -> (r: bool)
        requires
            self.wf(),
        ensures
            r == (self.unload_check(structure_id, direction) is Ok),
    {
        self.ok_if_can_unload(structure_id, direction).is_ok()
    }

    /// What unloading a structure does: its result and the world after it.
    pub open spec fn unload_outcome(&self, structure_id: UnitID, direction: Direction, next: GameWorld, r: Result<(), GameError>) -> bool {
        &&& self.unload_check(structure_id, direction) is Err ==> r == self.unload_check(structure_id, direction)
                    && next == *self
        &&& ({
                    let su = self.seen_unit(structure_id);
                    let rid = su.garrison@[0];
                    let ru = self.seen_unit(rid);
                    let dest = self.dest_of(structure_id, direction);
                    let sane = self.here().units@.contains_key(rid) && rid != structure_id && ru.movement_heat
                        + ru.movement_cooldown <= u32::MAX;
                    let fs = next.here().units@[structure_id];
                    self.unload_check(structure_id, direction) is Ok ==> {
                        &&& !sane ==> r == Err::<(), GameError>(GameError::InternalEngineError) && next == *self
                        &&& sane ==> {
                            let placed = Unit {
                                movement_heat: (ru.movement_heat + ru.movement_cooldown) as u32,
                                location: Location::OnMap(dest),
                                ..ru
                            };
                            &&& r == Ok::<(), GameError>(())
                            &&& next.same_but_planet(*self, self.mover().planet)
                            &&& next.here().units@ =~= self.here().units@.insert(structure_id, fs).insert(
                                rid,
                                placed,
                            )
                            &&& fs == Unit { garrison: fs.garrison, ..su }
                            &&& fs.garrison@ =~= su.garrison@.drop_first()
                            &&& next.here().units_by_loc@ =~= reindexed(
                                self.here().units_by_loc@,
                                rid,
                                ru.location,
                                placed.location,
                            )
                            &&& next.here().karbonite == self.here().karbonite
                            &&& next.here().visible_locs == self.here().visible_locs
                        }
                    }
                })
    }

    /// Unloads a robot from the garrison of the specified structure into an
    /// adjacent space. Robots are unloaded in the order they were loaded.
    ///
    /// * NoSuchUnit - the unit does not exist (inside the vision range).
    /// * TeamNotAllowed - either unit is not on the current player's team.
    /// * UnitNotOnMap - the structure is not on the map.
    /// * InappropriateUnitType - the unit is not a structure.
    /// * StructureNotYetBuilt - the structure has not yet been completed.
    /// * GarrisonEmpty - the structure's garrison is already empty.
    /// * LocationOffMap - the location in the target direction is off the map.
    /// * LocationNotEmpty - the location in the target direction is already
    ///   occupied.
    /// * Overheated - the robot inside the structure is not ready to move again.
    /// * InternalEngineError - the robot is not on this planet, or its heat
    ///   would overflow.
    #[verifier::spinoff_prover]
    #[verifier::rlimit(40)]
    pub fn unload(&mut self, structure_id: UnitID, direction: Direction) -> (r: Result<(), GameError>)
        requires
            old(self).wf(),
        ensures
            final(self).wf(),
            old(self).full() ==> final(self).full(),
            old(self).unload_outcome(structure_id, direction, *final(self), r),
    {
        self.ok_if_can_unload(structure_id, direction)?;
        proof {
            self.lemma_here_fits();
        }
        let p = self.planet();
        let structure = id_map_get(&self.my_planet().units, structure_id).unwrap();
        let robot_id = structure.garrison[0];
        let dest = structure.location.map_location().unwrap().add(direction);
        if robot_id == structure_id {
            return Err(GameError::InternalEngineError);
        }
        match id_map_get(&self.my_planet().units, robot_id) {
            Some(robot) => {
                if robot.movement_heat > u32::MAX - robot.movement_cooldown {
                    return Err(GameError::InternalEngineError);
                }
            },
            None => {
                return Err(GameError::InternalEngineError);
            },
        }
        let mut info = self.take_planet(p);
        let mut s_unit = id_map_remove(&mut info.units, structure_id).unwrap();
        s_unit.unload_unit();
        proof {
            lemma_same_place(old(self).here().units@, old(self).here().units_by_loc@, s_unit);
        }
        info.put_back(s_unit);
        let ghost mid = info.units@;
        let mut robot = id_map_remove(&mut info.units, robot_id).unwrap();
        let ghost before = robot;
        let from = robot.location;
        proof {
            assert(mid =~= info.units@.insert(robot_id, before));
        }
        robot.move_to(dest);
        info.relocate(robot, from, Ghost(before));
        self.put_planet(p, info);
        proof {
            assert(self.same_but_planet(*old(self), p));
            self.lemma_planet_changed(*old(self), p);
        }
        Ok(())
    }

    /// What starting production would meet first, if anything.
    pub open spec fn produce_check(&self, f: UnitID, t: UnitType) -> Result<(), GameError> {
        let fu = self.seen_unit(f);
        if !self.sees_unit(f) {
            Err(GameError::NoSuchUnit)
        } else if fu.team != self.mover().team {
            Err(GameError::TeamNotAllowed)
        } else if fu.unit_type != UnitType::Factory {
            Err(GameError::InappropriateUnitType)
        } else if !fu.is_built {
            Err(GameError::StructureNotYetBuilt)
        } else if !crate::unit::robot_type(t) {
            Err(GameError::InappropriateUnitType)
        } else if fu.factory_unit_type is Some {
            Err(GameError::FactoryBusy)
        } else if self.us().karbonite < crate::unit::type_value(t) {
            Err(GameError::InsufficientKarbonite)
        } else {
            Ok(())
        }
    }

    /// * NoSuchUnit, TeamNotAllowed, InappropriateUnitType,
    ///   StructureNotYetBuilt, FactoryBusy, InsufficientKarbonite - as for
    ///   `produce_robot`.
    pub fn ok_if_can_produce_robot(&self, factory_id: UnitID, robot_type: UnitType) -> (r: Result<(), GameError>)
        requires
            self.wf(),
        ensures
            r == self.produce_check(factory_id, robot_type),
    {
        let factory = self.my_unit(factory_id)?;
        factory.ok_if_can_produce_robot(robot_type)?;
        let cost = robot_type.factory_cost().unwrap();
        if self.karbonite() < cost {
            return Err(GameError::InsufficientKarbonite);
        }
        Ok(())
    }

    /// Whether the factory can produce a robot of the given type.
    pub fn can_produce_robot(&self, factory_id: UnitID, robot_type: UnitType) -> (r: bool)
        requires
            self.wf(),
        ensures
            r == (self.produce_check(factory_id, robot_type) is Ok),
    {
        self.ok_if_can_produce_robot(factory_id, robot_type).is_ok()
    }

    /// What starting a robot in a factory does: its result and the world after it.
    pub open spec fn produce_robot_outcome(&self, factory_id: UnitID, robot_type: UnitType, next: GameWorld, r: Result<(), GameError>) -> bool {
        &&& self.produce_check(factory_id, robot_type) is Err ==> r == self.produce_check(factory_id, robot_type)
                    && next == *self
        &&& ({
                    let fu = self.seen_unit(factory_id);
                    self.produce_check(factory_id, robot_type) is Ok ==> {
                        &&& !self.here().units@.contains_key(factory_id) ==> r == Err::<(), GameError>(
                            GameError::InternalEngineError,
                        ) && next == *self
                        &&& self.here().units@.contains_key(factory_id) ==> {
                            &&& r == Ok::<(), GameError>(())
                            &&& next.same_but(*self, self.mover().planet, self.mover().team)
                            &&& next.here().units@ =~= self.here().units@.insert(
                                factory_id,
                                Unit {
                                    factory_unit_type: Some(robot_type),
                                    factory_rounds_left: Some(fu.factory_max_rounds_left),
                                    ..fu
                                },
                            )
                            &&& next.here().units_by_loc == self.here().units_by_loc
                            &&& next.here().karbonite == self.here().karbonite
                            &&& next.here().visible_locs == self.here().visible_locs
                            &&& next.us() == (TeamInfo {
                                karbonite: (self.us().karbonite - crate::unit::type_value(robot_type)) as u32,
                                ..self.us()
                            })
                        }
                    }
                })
    }

    /// Starts producing the robot of the given type, paying its cost.
    ///
    /// * NoSuchUnit - the factory does not exist (inside the vision range).
    /// * TeamNotAllowed - the factory is not on the current player's team.
    /// * InappropriateUnitType - the unit is not a factory, or the unit type
    ///   is not a robot.
    /// * StructureNotYetBuilt - the factory has not yet been completed.
    /// * FactoryBusy - the factory is already producing a unit.
    /// * InsufficientKarbonite - your team does not have enough Karbonite to
    ///   produce the given robot.
    /// * InternalEngineError - the factory is not on this planet.
    pub fn produce_robot(&mut self, factory_id: UnitID, robot_type: UnitType) -> (r: Result<(), GameError>)
        requires
            old(self).wf(),
        ensures
            final(self).wf(),
            old(self).full() ==> final(self).full(),
            old(self).produce_robot_outcome(factory_id, robot_type, *final(self), r),
    {
        self.ok_if_can_produce_robot(factory_id, robot_type)?;
        proof {
            self.lemma_here_fits();
        }
        if id_map_get(&self.my_planet().units, factory_id).is_none() {
            return Err(GameError::InternalEngineError);
        }
        let p = self.planet();
        let t = self.team();
        let cost = robot_type.factory_cost().unwrap();
        let mut info = self.take_planet(p);
        let mut factory = id_map_remove(&mut info.units, factory_id).unwrap();
        factory.produce_robot(robot_type);
        proof {
            lemma_same_place(old(self).here().units@, old(self).here().units_by_loc@, factory);
        }
        info.put_back(factory);
        self.put_planet(p, info);
        proof {
            assert(self.same_but_planet(*old(self), p));
            self.lemma_planet_changed(*old(self), p);
        }
        let ghost w2 = *self;
        let mut team_info = self.take_team(t);
        team_info.karbonite = team_info.karbonite - cost;
        self.put_team(t, team_info);
        proof {
            assert(self.same_but_team(w2, t));
            self.lemma_team_changed(w2, t);
            assert(self.team_states@[t] == self.team_of(t));
        }
        Ok(())
    }
}

/// The planet holds a new unit at `l` of the team and type, as
/// `create_unit` makes it, and nothing else has changed on it.
pub open spec fn spawned(after: PlanetInfo, before: PlanetInfo, l: MapLocation, team: Team, t: UnitType, level: int) -> bool {
    exists|id: UnitID| {
        let u = #[trigger] after.units@[id];
        &&& !before.units@.contains_key(id)
        &&& crate::unit::researched(
            crate::unit::starting_unit(id, team, t, Location::OnMap(l), u.garrison),
            level as nat,
        ) == Some(u)
        &&& u.garrison@ == Seq::<UnitID>::empty()
        &&& after.units@ == before.units@.insert(id, u)
        &&& after.units_by_loc@ == before.units_by_loc@.insert(l, id)
    }
}

impl GameWorld {
    /// What blueprinting would meet first, if anything.
    pub open spec fn blueprint_check(&self, w: UnitID, t: UnitType, d: Direction) -> Result<(), GameError> {
        let wu = self.seen_unit(w);
        let dest = self.dest_of(w, d);
        if !self.sees_unit(w) {
            Err(GameError::NoSuchUnit)
        } else if wu.team != self.mover().team {
            Err(GameError::TeamNotAllowed)
        } else if wu.unit_type != UnitType::Worker {
            Err(GameError::InappropriateUnitType)
        } else if !(t == UnitType::Factory || t == UnitType::Rocket) {
            Err(GameError::InappropriateUnitType)
        } else if wu.has_worker_acted {
            Err(GameError::Overheated)
        } else if !(wu.location is OnMap) {
            Err(GameError::UnitNotOnMap)
        } else if !crate::location::translate_fits(
            map_loc(wu),
            crate::location::dir_dx(d),
            crate::location::dir_dy(d),
        ) {
            Err(GameError::LocationOffMap)
        } else if self.sense_check(dest) is Err {
            self.sense_check(dest)
        } else if !self.map_of(dest.planet).is_passable_terrain@[dest.y as int]@[dest.x as int]
            || self.here().units_by_loc@.contains_key(dest) {
            Err(GameError::LocationNotEmpty)
        } else if dest.planet == Planet::Mars {
            Err(GameError::CannotBuildOnMars)
        } else if t == UnitType::Rocket && self.us().research.levels()[t] < 1 {
            Err(GameError::ResearchNotUnlocked { unit_type: UnitType::Rocket })
        } else if self.us().karbonite < crate::unit::type_value(t) {
            Err(GameError::InsufficientKarbonite)
        } else {
            Ok(())
        }
    }

    /// * NoSuchUnit, TeamNotAllowed, InappropriateUnitType, Overheated,
    ///   UnitNotOnMap, LocationOffMap, LocationNotVisible, LocationNotEmpty,
    ///   CannotBuildOnMars, ResearchNotUnlocked, InsufficientKarbonite - as
    ///   for `blueprint`.
    pub fn ok_if_can_blueprint(&self, worker_id: UnitID, unit_type: UnitType, direction: Direction) -> (r: Result<(), GameError>)
        requires
            self.wf(),
        ensures
            r == self.blueprint_check(worker_id, unit_type, direction),
    {
        let unit = self.my_unit(worker_id)?;
        unit.ok_if_unit_type(UnitType::Worker)?;
        if !unit_type.is_structure() {
            return Err(GameError::InappropriateUnitType);
        }
        unit.ok_if_can_worker_act()?;
        let loc = unit.location.map_location()?;
        let dx = direction.dx() as i64;
        let dy = direction.dy() as i64;
        if (loc.x as i64) + dx < i32::MIN as i64 || (loc.x as i64) + dx > i32::MAX as i64 || (loc.y as i64)
            + dy < i32::MIN as i64 || (loc.y as i64) + dy > i32::MAX as i64 {
            return Err(GameError::LocationOffMap);
        }
        let build_loc = loc.add(direction);
        if !self.is_occupiable(build_loc)? {
            return Err(GameError::LocationNotEmpty);
        }
        if build_loc.planet == Planet::Mars {
            return Err(GameError::CannotBuildOnMars);
        }
        proof {
            self.lemma_here_fits();
        }
        if unit_type == UnitType::Rocket && self.my_team().research.get_level(&unit_type) < 1 {
            return Err(GameError::ResearchNotUnlocked { unit_type: UnitType::Rocket });
        }
        if self.karbonite() < unit_type.blueprint_cost().unwrap() {
            return Err(GameError::InsufficientKarbonite);
        }
        Ok(())
    }

    /// Whether the worker can blueprint a structure of the given type.
    pub fn can_blueprint(&self, worker_id: UnitID, unit_type: UnitType, direction: Direction) -> (r: bool)
        requires
            self.wf(),
        ensures
            r == (self.blueprint_check(worker_id, unit_type, direction) is Ok),
    {
        self.ok_if_can_blueprint(worker_id, unit_type, direction).is_ok()
    }

    /// Everything but the ID generator, the state of planet `p` and that of
    /// team `t` is as in `old`; the generator keeps its seed.
    pub closed spec fn same_but_ids(&self, old: GameWorld, p: Planet, t: Team) -> bool {
        &&& self.round == old.round
        &&& self.player_to_move == old.player_to_move
        &&& self.id_generator.seed_view() == old.id_generator.seed_view()
        &&& self.asteroids == old.asteroids
        &&& self.orbit == old.orbit
        &&& self.planet_maps == old.planet_maps
        &&& self.viewer_changes@ == old.viewer_changes@
        &&& self.planet_states@.dom() == old.planet_states@.dom()
        &&& forall|q: Planet| q != p ==> #[trigger] self.planet_states@[q] == old.planet_states@[q]
        &&& self.team_states@.dom() == old.team_states@.dom()
        &&& forall|q: Team| q != t ==> #[trigger] self.team_states@[q] == old.team_states@[q]
    }

    /// The world after a worker's action that made a new unit at `dest`
    /// and paid `cost`: the worker is now `acted`, the new unit is as
    /// `create_unit` makes it, with the team's research level, and the
    /// karbonite at `dest` is `k`.
    pub open spec fn made_unit(
        &self,
        old: GameWorld,
        worker_id: UnitID,
        acted: Unit,
        dest: MapLocation,
        t: UnitType,
        cost: int,
        k: u32,
    ) -> bool {
        let level = old.us().research.levels()[t];
        &&& self.same_but_ids(old, old.mover().planet, old.mover().team)
        &&& exists|id: UnitID| {
            let u = #[trigger] self.here().units@[id];
            &&& !old.here().units@.contains_key(id)
            &&& crate::unit::researched(
                crate::unit::starting_unit(id, old.mover().team, t, Location::OnMap(dest), u.garrison),
                level as nat,
            ) == Some(u)
            &&& u.garrison@ == Seq::<UnitID>::empty()
            &&& self.here().units@ == old.here().units@.insert(worker_id, acted).insert(id, u)
            &&& self.here().units_by_loc@ == old.here().units_by_loc@.insert(dest, id)
        }
        &&& self.here().visible_locs == old.here().visible_locs
        &&& self.here().karbonite@.len() == old.here().karbonite@.len()
        &&& forall|j: int| 0 <= j < old.here().karbonite@.len() ==> (#[trigger] self.here().karbonite@[j])@ == (if j
            == dest.y {
            old.here().karbonite@[j]@.update(dest.x as int, k)
        } else {
            old.here().karbonite@[j]@
        })
        &&& self.us() == (TeamInfo { karbonite: (old.us().karbonite - cost) as u32, ..old.us() })
    }

    /// Makes a new unit of the player's team at a free square of the current
    /// planet, then marks the worker's action, sets the karbonite at the
    /// square and pays the cost.
    #[verifier::spinoff_prover]
    #[verifier::rlimit(40)]
    fn make_unit(
        &mut self,
        worker_id: UnitID,
        acted_heat: u32,
        dest: MapLocation,
        t: UnitType,
        cost: u32,
        k: u32,
    ) -> (r: Result<(), GameError>)
        requires
            old(self).wf(),
            old(self).here().units@.contains_key(worker_id),
            dest.planet == old(self).mover().planet,
            inside(dest, old(self).map_of(dest.planet)),
            !old(self).here().units_by_loc@.contains_key(dest),
            old(self).us().karbonite >= cost,
        ensures
            final(self).wf(),
            old(self).full() ==> final(self).full(),
            r is Err ==> r == Err::<(), GameError>(GameError::InternalEngineError) && final(self).round_now()
                == old(self).round_now() && final(self).mover() == old(self).mover() && (forall|q: Planet|
                #[trigger] final(self).planet_of(q) == old(self).planet_of(q)) && (forall|q: Team|
                #[trigger] final(self).team_of(q) == old(self).team_of(q)),
            r is Ok ==> final(self).made_unit(
                *old(self),
                worker_id,
                Unit { has_worker_acted: true, ability_heat: acted_heat, ..old(self).here().units@[worker_id] },
                dest,
                t,
                cost as int,
                k,
            ),
    {
        proof {
            self.lemma_here_fits();
        }
        let p = self.planet();
        let team = self.team();
        let ghost w0 = *self;
        let created = self.create_unit(team, dest, t);
        let id = match created {
            Ok(id) => id,
            Err(_) => {
                return Err(GameError::InternalEngineError);
            },
        };
        let ghost w1 = *self;
        proof {
            self.lemma_here_fits();
        }
        let mut info = self.take_planet(p);
        let mut worker = id_map_remove(&mut info.units, worker_id).unwrap();
        worker.worker_act();
        worker.ability_heat = acted_heat;
        proof {
            lemma_same_place(w1.here().units@, w1.here().units_by_loc@, worker);
        }
        info.put_back(worker);
        info.set_karbonite(dest.x as usize, dest.y as usize, k);
        self.put_planet(p, info);
        proof {
            assert(self.same_but_planet(w1, p));
            self.lemma_planet_changed(w1, p);
        }
        let ghost w2 = *self;
        let mut team_info = self.take_team(team);
        team_info.karbonite = team_info.karbonite - cost;
        self.put_team(team, team_info);
        proof {
            assert(self.same_but_team(w2, team));
            self.lemma_team_changed(w2, team);
            assert(self.team_states@[team] == self.team_of(team));
            let u = w1.planet_of(p).units@[id];
            let acted = Unit { has_worker_acted: true, ability_heat: acted_heat, ..w0.here().units@[worker_id] };
            assert(self.here().units@ =~= w0.here().units@.insert(worker_id, acted).insert(id, u));
            assert(self.here().units@[id] == u);
            assert(self.same_but_ids(w0, p, team));
            assert(!w0.here().units@.contains_key(id));
            assert(u.garrison@ == Seq::<UnitID>::empty());
            assert(crate::unit::researched(
                crate::unit::starting_unit(id, team, t, Location::OnMap(dest), u.garrison),
                w0.us().research.levels()[t] as nat,
            ) == Some(u));
            assert(self.here().units_by_loc@ == w0.here().units_by_loc@.insert(dest, id));
            assert(self.us() == (TeamInfo { karbonite: (w0.us().karbonite - cost) as u32, ..w0.us() }));
            assert(self.here().visible_locs == w0.here().visible_locs);
        }
        Ok(())
    }

    /// What laying a blueprint does: its result and the world after it.
    pub open spec fn blueprint_outcome(&self, worker_id: UnitID, unit_type: UnitType, direction: Direction, next: GameWorld, r: Result<(), GameError>) -> bool {
        &&& self.blueprint_check(worker_id, unit_type, direction) is Err ==> r == self.blueprint_check(
                    worker_id,
                    unit_type,
                    direction,
                ) && next == *self
        &&& self.blueprint_check(worker_id, unit_type, direction) is Ok && r is Err ==> r == Err::<(), GameError>(
                    GameError::InternalEngineError,
                ) && (forall|q: Planet| #[trigger] next.planet_of(q) == self.planet_of(q)) && (forall|q: Team|
                    #[trigger] next.team_of(q) == self.team_of(q))
        &&& ({
                    let wu = self.seen_unit(worker_id);
                    r is Ok ==> next.made_unit(
                        *self,
                        worker_id,
                        Unit { has_worker_acted: true, ..wu },
                        self.dest_of(worker_id, direction),
                        unit_type,
                        crate::unit::type_value(unit_type) as int,
                        0,
                    )
                })
    }

    /// Blueprints a unit of the given type in the given direction. Subtract
    /// cost of that unit from the team's resource pool, and removes the
    /// Karbonite at that location from the map.
    ///
    /// * NoSuchUnit - the worker does not exist (within the vision range).
    /// * TeamNotAllowed - the worker is not on the current player's team.
    /// * InappropriateUnitType - the unit is not a worker, or the unit type
    ///   is not a structure.
    /// * Overheated - the worker has already performed an action this turn.
    /// * UnitNotOnMap - the unit is not on the map.
    /// * LocationOffMap - the location in the target direction is off the map.
    /// * LocationNotVisible - the location is outside the vision range.
    /// * LocationNotEmpty - the location in the target direction is already
    ///   occupied.
    /// * CannotBuildOnMars - you cannot blueprint a structure on Mars.
    /// * ResearchNotUnlocked - you do not have the needed research to blueprint rockets.
    /// * InsufficientKarbonite - your team does not have enough Karbonite to
    ///   build the requested structure.
    /// * InternalEngineError - the new structure could not be made (no unit
    ///   ID is left).
    pub fn blueprint(&mut self, worker_id: UnitID, unit_type: UnitType, direction: Direction) -> (r: Result<(), GameError>)
        requires
            old(self).wf(),
        ensures
            final(self).wf(),
            old(self).full() ==> final(self).full(),
            old(self).blueprint_outcome(worker_id, unit_type, direction, *final(self), r),
    {
        self.ok_if_can_blueprint(worker_id, unit_type, direction)?;
        proof {
            self.lemma_here_fits();
        }
        let worker = id_map_get(&self.my_planet().units, worker_id).unwrap();
        let heat = worker.ability_heat;
        let build_loc = worker.location.map_location().unwrap().add(direction);
        let cost = unit_type.blueprint_cost().unwrap();
        self.make_unit(worker_id, heat, build_loc, unit_type, cost, 0)
    }

    /// What replicating would meet first, if anything.
    pub open spec fn replicate_check(&self, w: UnitID, d: Direction) -> Result<(), GameError> {
        let wu = self.seen_unit(w);
        let dest = self.dest_of(w, d);
        if !self.sees_unit(w) {
            Err(GameError::NoSuchUnit)
        } else if wu.team != self.mover().team {
            Err(GameError::TeamNotAllowed)
        } else if crate::unit::heat_check(wu, wu.ability_heat) is Err {
            crate::unit::heat_check(wu, wu.ability_heat)
        } else if wu.unit_type != UnitType::Worker {
            Err(GameError::InappropriateUnitType)
        } else if self.us().karbonite < crate::constants::REPLICATE_WORKER_COST {
            Err(GameError::InsufficientKarbonite)
        } else if !(wu.location is OnMap) {
            Err(GameError::UnitNotOnMap)
        } else if !crate::location::translate_fits(
            map_loc(wu),
            crate::location::dir_dx(d),
            crate::location::dir_dy(d),
        ) {
            Err(GameError::LocationOffMap)
        } else if self.sense_check(dest) is Err {
            self.sense_check(dest)
        } else if !self.map_of(dest.planet).is_passable_terrain@[dest.y as int]@[dest.x as int]
            || self.here().units_by_loc@.contains_key(dest) {
            Err(GameError::LocationNotEmpty)
        } else {
            Ok(())
        }
    }

    /// * NoSuchUnit, TeamNotAllowed, InappropriateUnitType, Overheated,
    ///   InsufficientKarbonite, UnitNotOnMap, LocationOffMap,
    ///   LocationNotVisible, LocationNotEmpty - as for `replicate`.
    pub fn ok_if_can_replicate(&self, worker_id: UnitID, direction: Direction) -> (r: Result<(), GameError>)
        requires
            self.wf(),
        ensures
            r == self.replicate_check(worker_id, direction),
    {
        let worker = self.my_unit(worker_id)?;
        worker.ok_if_ability_ready()?;
        if self.karbonite() < worker.unit_type.replicate_cost()? {
            return Err(GameError::InsufficientKarbonite);
        }
        let loc = worker.location.map_location()?;
        let dx = direction.dx() as i64;
        let dy = direction.dy() as i64;
        if (loc.x as i64) + dx < i32::MIN as i64 || (loc.x as i64) + dx > i32::MAX as i64 || (loc.y as i64)
            + dy < i32::MIN as i64 || (loc.y as i64) + dy > i32::MAX as i64 {
            return Err(GameError::LocationOffMap);
        }
        let dest = loc.add(direction);
        if !self.is_occupiable(dest)? {
            return Err(GameError::LocationNotEmpty);
        }
        Ok(())
    }

    /// Whether the worker is ready to replicate.
    pub fn can_replicate(&self, worker_id: UnitID, direction: Direction) -> (r: bool)
        requires
            self.wf(),
        ensures
            r == (self.replicate_check(worker_id, direction) is Ok),
    {
        self.ok_if_can_replicate(worker_id, direction).is_ok()
    }

    /// What a replication does: its result and the world after it.
    pub open spec fn replicate_outcome(&self, worker_id: UnitID, direction: Direction, next: GameWorld, r: Result<(), GameError>) -> bool {
        &&& self.replicate_check(worker_id, direction) is Err ==> r == self.replicate_check(worker_id, direction)
                    && next == *self
        &&& self.replicate_check(worker_id, direction) is Ok && r is Err ==> r == Err::<(), GameError>(
                    GameError::InternalEngineError,
                ) && (forall|q: Planet| #[trigger] next.planet_of(q) == self.planet_of(q)) && (forall|q: Team|
                    #[trigger] next.team_of(q) == self.team_of(q))
        &&& ({
                    let wu = self.seen_unit(worker_id);
                    let dest = self.dest_of(worker_id, direction);
                    r is Ok ==> wu.ability_heat + wu.ability_cooldown <= u32::MAX && next.made_unit(
                        *self,
                        worker_id,
                        Unit {
                            has_worker_acted: true,
                            ability_heat: (wu.ability_heat + wu.ability_cooldown) as u32,
                            ..wu
                        },
                        dest,
                        UnitType::Worker,
                        crate::constants::REPLICATE_WORKER_COST as int,
                        self.karbonite_here(dest),
                    )
                })
    }

    /// Replicates a worker in the given direction. Subtracts the cost of the
    /// worker from the team's resource pool.
    ///
    /// * NoSuchUnit - the worker does not exist (within the vision range).
    /// * TeamNotAllowed - the worker is not on the current player's team.
    /// * InappropriateUnitType - the unit is not a worker.
    /// * Overheated - the worker is not ready to replicate again.
    /// * InsufficientKarbonite - your team does not have enough Karbonite for
    ///   the worker to replicate.
    /// * UnitNotOnMap - the worker is not on the map.
    /// * LocationOffMap - the location in the target direction is off the map.
    /// * LocationNotVisible - the location is outside the vision range.
    /// * LocationNotEmpty - the location in the target direction is already
    ///   occupied.
    /// * InternalEngineError - the worker's heat would overflow, or the new
    ///   worker could not be made (no unit ID is left).
    pub fn replicate(&mut self, worker_id: UnitID, direction: Direction) -> (r: Result<(), GameError>)
        requires
            old(self).wf(),
        ensures
            final(self).wf(),
            old(self).full() ==> final(self).full(),
            old(self).replicate_outcome(worker_id, direction, *final(self), r),
    {
        self.ok_if_can_replicate(worker_id, direction)?;
        proof {
            self.lemma_here_fits();
        }
        let worker = id_map_get(&self.my_planet().units, worker_id).unwrap();
        if worker.ability_heat > u32::MAX - worker.ability_cooldown {
            return Err(GameError::InternalEngineError);
        }
        let heat = worker.ability_heat + worker.ability_cooldown;
        let dest = worker.location.map_location().unwrap().add(direction);
        let k = self.karbonite_at(dest).unwrap();
        self.make_unit(worker_id, heat, dest, UnitType::Worker, crate::constants::REPLICATE_WORKER_COST, k)
    }
}

/// A unit at the end of a round: it cools down and may act again, and a
/// healer heals itself (where its health stays in range).
pub open spec fn round_ended(u: Unit) -> Unit {
    if u.unit_type == UnitType::Healer && u.health + u.self_heal_amount > u32::MAX {
        u
    } else {
        crate::unit::after_round(u)
    }
}

/// A unit after its team completes research of `branch`: a unit of that
/// branch (and of the team, if given) moves up a level where one exists.
pub open spec fn upgraded(u: Unit, team: Option<Team>, branch: UnitType) -> Unit {
    if u.unit_type == branch && (team is None || u.team == team->0) && crate::unit::research_fits(u)
        && crate::unit::research_step(u) is Some {
        crate::unit::research_step(u)->0
    } else {
        u
    }
}

/// Every unit of the map after the round ends.
pub open spec fn map_round_ended(m: Map<UnitID, Unit>) -> Map<UnitID, Unit> {
    Map::new(|k: UnitID| m.contains_key(k), |k: UnitID| round_ended(m[k]))
}

/// Every unit of the map after research of `branch` completes.
pub open spec fn map_upgraded(m: Map<UnitID, Unit>, team: Option<Team>, branch: UnitType) -> Map<UnitID, Unit> {
    Map::new(|k: UnitID| m.contains_key(k), |k: UnitID| upgraded(m[k], team, branch))
}

/// Ends the round for every unit of the map.
fn end_round_all(m: &mut FnvHashMap<UnitID, Unit>)
    ensures
        final(m)@ == map_round_ended(old(m)@),
{
    let keys = id_map_keys(m);
    let ghost m0 = m@;
    let mut i: usize = 0;
    while i < keys.len()
        invariant
            keys@.no_duplicates(),
            forall|k: UnitID| #[trigger] keys@.contains(k) <==> m0.contains_key(k),
            0 <= i <= keys@.len(),
            m@.dom() == m0.dom(),
            forall|k: UnitID| #[trigger] m@.contains_key(k) ==> m@[k] == (if exists|j: int| 0 <= j < i && keys@[j]
                == k {
                round_ended(m0[k])
            } else {
                m0[k]
            }),
        decreases keys@.len() - i,
    {
        let k = keys[i];
        assert(keys@.contains(k));
        let mut u = id_map_remove(m, k).unwrap();
        if !(u.unit_type == UnitType::Healer && u.health > u32::MAX - u.self_heal_amount) {
            u.end_round();
        }
        id_map_insert(m, k, u);
        proof {
            assert forall|q: UnitID| #[trigger] m@.contains_key(q) implies m@[q] == (if exists|j: int| 0 <= j < i + 1
                && keys@[j] == q {
                round_ended(m0[q])
            } else {
                m0[q]
            }) by {
                if q == k {
                    assert(keys@[i as int] == q);
                    if exists|j: int| 0 <= j < i && keys@[j] == q {
                        let j = choose|j: int| 0 <= j < i && keys@[j] == q;
                        assert(keys@[j] == keys@[i as int]);
                    }
                } else {
                    if exists|j: int| 0 <= j < i + 1 && keys@[j] == q {
                        let j = choose|j: int| 0 <= j < i + 1 && keys@[j] == q;
                        assert(j != i);
                    }
                }
            }
        }
        i = i + 1;
    }
    proof {
        assert forall|k: UnitID| #[trigger] m@.contains_key(k) implies m@[k] == round_ended(m0[k]) by {
            assert(keys@.contains(k));
            let j = choose|j: int| 0 <= j < keys@.len() && keys@[j] == k;
        }
        assert(m@ =~= map_round_ended(m0));
    }
}

/// Applies the completed research of `branch` to every unit of the map of
/// that branch (and team, if given).
fn upgrade_all(m: &mut FnvHashMap<UnitID, Unit>, team: Option<Team>, branch: UnitType)
    ensures
        final(m)@ == map_upgraded(old(m)@, team, branch),
{
    let keys = id_map_keys(m);
    let ghost m0 = m@;
    let mut i: usize = 0;
    while i < keys.len()
        invariant
            keys@.no_duplicates(),
            forall|k: UnitID| #[trigger] keys@.contains(k) <==> m0.contains_key(k),
            0 <= i <= keys@.len(),
            m@.dom() == m0.dom(),
            forall|k: UnitID| #[trigger] m@.contains_key(k) ==> m@[k] == (if exists|j: int| 0 <= j < i && keys@[j]
                == k {
                upgraded(m0[k], team, branch)
            } else {
                m0[k]
            }),
        decreases keys@.len() - i,
    {
        let k = keys[i];
        assert(keys@.contains(k));
        let mut u = id_map_remove(m, k).unwrap();
        if u.unit_type == branch && (team.is_none() || u.team == team.unwrap()) && research_fits_exec(&u) {
            let _ = u.research();
        }
        id_map_insert(m, k, u);
        proof {
            assert forall|q: UnitID| #[trigger] m@.contains_key(q) implies m@[q] == (if exists|j: int| 0 <= j < i + 1
                && keys@[j] == q {
                upgraded(m0[q], team, branch)
            } else {
                m0[q]
            }) by {
                if q == k {
                    assert(keys@[i as int] == q);
                    if exists|j: int| 0 <= j < i && keys@[j] == q {
                        let j = choose|j: int| 0 <= j < i && keys@[j] == q;
                        assert(keys@[j] == keys@[i as int]);
                    }
                } else {
                    if exists|j: int| 0 <= j < i + 1 && keys@[j] == q {
                        let j = choose|j: int| 0 <= j < i + 1 && keys@[j] == q;
                        assert(j != i);
                    }
                }
            }
        }
        i = i + 1;
    }
    proof {
        assert forall|k: UnitID| #[trigger] m@.contains_key(k) implies m@[k] == upgraded(m0[k], team, branch) by {
            assert(keys@.contains(k));
            let j = choose|j: int| 0 <= j < keys@.len() && keys@[j] == k;
        }
        assert(m@ =~= map_upgraded(m0, team, branch));
    }
}

/// Whether a research upgrade of the unit stays within the range of its
/// fields.
fn research_fits_exec(u: &Unit) -> (r: bool)
    ensures
        r == crate::unit::research_fits(*u),
{
    match u.unit_type {
        UnitType::Worker => if u.level == 0 {
            u.harvest_amount < u32::MAX
        } else if u.level == 1 || u.level == 2 {
            u.build_health < u32::MAX && u.repair_health < u32::MAX
        } else if u.level == 3 {
            u.build_health <= u32::MAX - 3 && u.repair_health <= u32::MAX - 3
        } else {
            true
        },
        UnitType::Knight => !(u.level == 0 || u.level == 1) || u.defense <= u32::MAX - 5,
        UnitType::Ranger => (u.level != 0 || u.movement_cooldown >= 5) && (u.level != 1 || u.vision_range
            <= u32::MAX - 30),
        UnitType::Mage => u.level > 2 || u.damage <= i32::MAX - 15,
        UnitType::Healer => (u.level != 0 || u.damage >= i32::MIN + 2) && (u.level != 1 || u.damage >= i32::MIN
            + 5),
        UnitType::Rocket => (u.level != 1 || u.travel_time_decrease <= u32::MAX - 20) && (u.level != 2
            || u.max_capacity <= usize::MAX - 4),
        UnitType::Factory => true,
    }
}

/// Changing units without moving them keeps the index right.
proof fn lemma_places_kept(a: Map<UnitID, Unit>, b: Map<UnitID, Unit>, by_loc: Map<MapLocation, UnitID>)
    requires
        index_ok(a, by_loc),
        b.dom() == a.dom(),
        forall|k: UnitID| #[trigger] b.contains_key(k) ==> b[k].id == a[k].id && b[k].location == a[k].location,
    ensures
        index_ok(b, by_loc),
{
    assert forall|l: MapLocation| #[trigger] by_loc.contains_key(l) implies {
        &&& b.contains_key(by_loc[l])
        &&& b[by_loc[l]].location == Location::OnMap(l)
    } by {
        assert(a.contains_key(by_loc[l]));
    }
    assert forall|id: UnitID| #[trigger] b.contains_key(id) implies {
        &&& b[id].id == id
        &&& (b[id].location is OnMap ==> {
            let l = b[id].location->OnMap_0;
            by_loc.contains_key(l) && by_loc[l] == id
        })
    } by {
        assert(a.contains_key(id));
    }
}

impl GameWorld {
    /// The world after the asteroid of the current round, if any, strikes:
    /// the viewer hears of it, and unless a structure stands there, the
    /// karbonite of the square grows by the asteroid's (where the square is
    /// on the map and the sum fits).
    pub open spec fn struck(&self, old: GameWorld) -> bool {
        let strikes = old.asteroids_now().strikes();
        let round = old.round_now();
        if !strikes.contains_key(round) {
            *self == old
        } else {
            let a = strikes[round];
            let l = a.location;
            let info = old.planet_of(l.planet);
            let blocked = info.units_by_loc@.contains_key(l) && (info.units@[info.units_by_loc@[l]].unit_type
                == UnitType::Factory || info.units@[info.units_by_loc@[l]].unit_type == UnitType::Rocket);
            let fits = inside(l, old.map_of(l.planet)) && info.karbonite@[l.y as int]@[l.x as int] + a.karbonite
                <= u32::MAX;
            &&& self.viewer_log() == old.viewer_log().push(ViewerDelta::AsteroidStrike { location: l })
            &&& self.same_but_planet_log(old, l.planet)
            &&& (blocked || !fits) ==> self.planet_of(l.planet) == info
            &&& (!blocked && fits) ==> {
                &&& self.planet_of(l.planet).units == info.units
                &&& self.planet_of(l.planet).units_by_loc == info.units_by_loc
                &&& self.planet_of(l.planet).visible_locs == info.visible_locs
                &&& self.planet_of(l.planet).karbonite@.len() == info.karbonite@.len()
                &&& forall|j: int| 0 <= j < info.karbonite@.len() ==> (#[trigger] self.planet_of(
                    l.planet,
                ).karbonite@[j])@ == (if j == l.y {
                    info.karbonite@[j]@.update(l.x as int, (info.karbonite@[j]@[l.x as int] + a.karbonite) as u32)
                } else {
                    info.karbonite@[j]@
                })
            }
        }
    }

    /// Strikes the asteroid of the current round, if there is one.
    fn process_asteroids(&mut self)
        requires
            old(self).full(),
        ensures
            final(self).full(),
            final(self).struck(*old(self)),
    {
        if !self.asteroids.has_asteroid(self.round) {
            return;
        }
        let a = *self.asteroids.asteroid(self.round).unwrap();
        let l = a.location;
        self.viewer_changes.push(ViewerDelta::AsteroidStrike { location: l });
        let ghost w1 = *self;
        proof {
            assert(self.planet_states@.contains_key(l.planet));
        }
        let info = self.get_planet(l.planet);
        match loc_map_get(&info.units_by_loc, l) {
            Some(id) => {
                let t = id_map_get(&info.units, *id).unwrap().unit_type;
                if t == UnitType::Factory || t == UnitType::Rocket {
                    proof {
                        assert(self.same_but_planet_log(*old(self), l.planet));
                    }
                    return;
                }
            },
            None => {},
        }
        let map = self.starting_map(l.planet);
        if l.x < 0 || l.y < 0 || l.x as usize >= map.width || l.y as usize >= map.height {
            proof {
                assert(self.same_but_planet_log(*old(self), l.planet));
            }
            return;
        }
        let x = l.x as usize;
        let y = l.y as usize;
        let current = info.karbonite[y][x];
        if current > u32::MAX - a.karbonite {
            proof {
                assert(self.same_but_planet_log(*old(self), l.planet));
            }
            return;
        }
        let mut planet_info = self.take_planet(l.planet);
        planet_info.set_karbonite(x, y, current + a.karbonite);
        self.put_planet(l.planet, planet_info);
        proof {
            assert(self.same_but_planet(w1, l.planet));
            self.lemma_planet_changed(w1, l.planet);
            assert(self.same_but_planet_log(*old(self), l.planet));
        }
    }

    /// Updates a team's research and, when an upgrade completes, upgrades
    /// the team's units of that branch on both planets and in space.
    pub fn process_research(&mut self, team: Team)
        requires
            old(self).full(),
        ensures
            final(self).full(),
            final(self).round_now() == old(self).round_now(),
            final(self).mover() == old(self).mover(),
            ({
                let res = old(self).team_of(team).research;
                let nres = final(self).team_of(team).research;
                &&& nres.wf()
                &&& res.rounds() is None ==> nres == res
                &&& res.rounds() is Some && res.rounds()->0 > 1 ==> nres.levels() == res.levels()
                    && nres.queue_view() == res.queue_view() && nres.rounds() == Some((res.rounds()->0 - 1) as u32)
                &&& res.rounds() is Some && res.rounds()->0 <= 1 ==> nres.levels() == crate::research::levels_after_front(
                    res.levels(),
                    res.queue_view(),
                ) && nres.queue_view() == res.queue_view().drop_first() && nres.rounds() == crate::research::front_cost(
                    nres.levels(),
                    nres.queue_view(),
                )
            }),
            final(self).team_of(team).karbonite == old(self).team_of(team).karbonite,
            final(self).team_of(team.other()) == old(self).team_of(team.other()),
            final(self).frame_kept(*old(self)),
            forall|p: Planet| #[trigger] final(self).planet_of(p).karbonite == old(self).planet_of(p).karbonite,
            forall|p: Planet| #[trigger] final(self).planet_of(p).units_by_loc == old(self).planet_of(p).units_by_loc,
            forall|p: Planet, id: UnitID| #[trigger] old(self).planet_of(p).units@.contains_key(id) ==> final(self).planet_of(
                p,
            ).units@.contains_key(id) && final(self).planet_of(p).units@[id].unit_type == old(self).planet_of(
                p,
            ).units@[id].unit_type,
            ({
                let res = old(self).team_of(team).research;
                let done = res.rounds() is Some && res.rounds()->0 <= 1;
                let b = res.queue_view()[0];
                &&& !done ==> (forall|p: Planet| #[trigger] final(self).planet_of(p) == old(self).planet_of(p))
                    && final(self).team_of(team).units_in_space == old(self).team_of(team).units_in_space
                &&& done ==> (forall|p: Planet| #[trigger] final(self).planet_of(p).units@ == map_upgraded(
                    old(self).planet_of(p).units@,
                    Some(team),
                    b,
                )) && (forall|p: Planet| #[trigger] final(self).planet_of(p).units_by_loc == old(self).planet_of(
                    p,
                ).units_by_loc) && final(self).team_of(team).units_in_space@ == map_upgraded(
                    old(self).team_of(team).units_in_space@,
                    None,
                    b,
                )
            }),
    {
        let ghost w0 = *self;
        let mut info = self.take_team(team);
        let done = info.research.update();
        match done {
            None => {
                self.put_team(team, info);
                proof {
                    assert(self.same_but_team(w0, team));
                    self.lemma_team_changed(w0, team);
                    assert(team.other() != team);
                }
            },
            Some(branch) => {
                upgrade_all(&mut info.units_in_space, None, branch);
                proof {
                    assert forall|id: UnitID| #[trigger] info.units_in_space@.contains_key(id) implies info.units_in_space@[id].id
                        == id && !(info.units_in_space@[id].location is OnMap) by {
                        assert(w0.team_of(team).units_in_space@.contains_key(id));
                        crate::unit::lemma_step_keeps(w0.team_of(team).units_in_space@[id]);
                    }
                }
                self.put_team(team, info);
                proof {
                    assert(self.same_but_team(w0, team));
                    self.lemma_team_changed(w0, team);
                }
                self.upgrade_planet(Planet::Earth, team, branch);
                self.upgrade_planet(Planet::Mars, team, branch);
                proof {
                    assert forall|p: Planet| #[trigger] self.planet_of(p).units@ == map_upgraded(
                        w0.planet_of(p).units@,
                        Some(team),
                        branch,
                    ) by {
                        assert(p == Planet::Earth || p == Planet::Mars);
                    }
                    assert(team.other() != team);
                }
            },
        }
    }

    /// Upgrades the team's units of the branch on the planet.
    fn upgrade_planet(&mut self, p: Planet, team: Team, branch: UnitType)
        requires
            old(self).full(),
        ensures
            final(self).full(),
            final(self).same_but_planet(*old(self), p),
            final(self).planet_of(p).units@ == map_upgraded(old(self).planet_of(p).units@, Some(team), branch),
            final(self).planet_of(p).units_by_loc == old(self).planet_of(p).units_by_loc,
            final(self).planet_of(p).karbonite == old(self).planet_of(p).karbonite,
            final(self).planet_of(p).visible_locs == old(self).planet_of(p).visible_locs,
    {
        proof {
            assert(self.planet_states@.contains_key(p));
        }
        let ghost w0 = *self;
        let mut info = self.take_planet(p);
        let ghost before = info.units@;
        upgrade_all(&mut info.units, Some(team), branch);
        proof {
            assert(info.units@.dom() =~= before.dom());
            assert forall|k: UnitID| #[trigger] info.units@.contains_key(k) implies info.units@[k].id == before[k].id
                && info.units@[k].location == before[k].location by {
                crate::unit::lemma_step_keeps(before[k]);
            }
            lemma_places_kept(before, info.units@, info.units_by_loc@);
        }
        self.put_planet(p, info);
        proof {
            assert(self.same_but_planet(w0, p));
            self.lemma_planet_changed(w0, p);
        }
    }
}

/// A factory whose production can advance within its fields: a robot in
/// production has a round left, and one that is finished and fits in the
/// garrison has a type.
pub open spec fn factory_ready(u: Unit) -> bool {
    &&& u.factory_rounds_left is Some ==> u.factory_rounds_left->0 >= 1
    &&& u.factory_rounds_left == Some(1u32) && crate::unit::load_check(u) is Ok ==> u.factory_unit_type is Some
}

/// Whether the factory finishes a robot this round.
pub open spec fn factory_produces(u: Unit) -> bool {
    &&& u.unit_type == UnitType::Factory
    &&& factory_ready(u)
    &&& u.factory_rounds_left == Some(1u32)
    &&& crate::unit::load_check(u) is Ok
}

/// The factory after its production round, but for its garrison: a robot
/// in production comes a round nearer, and a finished one leaves the
/// factory free. Another unit stays as it is.
pub open spec fn factory_step(u: Unit) -> Unit {
    if u.unit_type != UnitType::Factory || !factory_ready(u) || u.factory_rounds_left is None {
        u
    } else if u.factory_rounds_left->0 > 1 {
        Unit { factory_rounds_left: Some((u.factory_rounds_left->0 - 1) as u32), ..u }
    } else if crate::unit::load_check(u) is Err {
        u
    } else {
        Unit { factory_rounds_left: None, factory_unit_type: None, ..u }
    }
}

/// The new unit `n` is the robot that the factory `f` of the units `before`
/// finished: of the factory's team and of the type it produced, in its
/// garrison, and not among the units before.
pub open spec fn made_by(before: Map<UnitID, Unit>, after: Map<UnitID, Unit>, f: UnitID, n: UnitID) -> bool {
    let s = factory_step(before[f]);
    &&& after[f] == (Unit { garrison: after[f].garrison, ..s })
    &&& after[f].garrison@ == s.garrison@.push(n)
    &&& !before.contains_key(n)
    &&& after.contains_key(n)
    &&& after[n].location == Location::InGarrison(f)
    &&& after[n].unit_type == before[f].factory_unit_type->0
    &&& after[n].team == before[f].team
}

/// The factory `f` of the units `before` has gone through its production
/// round in the units `after`: it stepped, and a robot it finished was put
/// into its garrison, unless no unit could be made of it.
pub open spec fn factory_done(before: Map<UnitID, Unit>, after: Map<UnitID, Unit>, f: UnitID) -> bool {
    ||| after[f] == factory_step(before[f])
    ||| factory_produces(before[f]) && exists|n: UnitID| #[trigger] made_by(before, after, f, n)
}

impl GameWorld {
    /// Ends the production round of every factory on Earth; a factory that
    /// completes a robot puts a new robot of its team, at the team's
    /// research level, into its garrison.
    #[verifier::rlimit(40)]
    #[verifier::spinoff_prover]
    pub fn process_factories(&mut self)
        requires
            old(self).full(),
        ensures
            final(self).full(),
            final(self).round_now() == old(self).round_now(),
            final(self).mover() == old(self).mover(),
            final(self).ids().seed_view() == old(self).ids().seed_view(),
            final(self).frame_kept(*old(self)),
            final(self).planet_of(Planet::Mars) == old(self).planet_of(Planet::Mars),
            forall|t: Team| #[trigger] final(self).team_of(t) == old(self).team_of(t),
            final(self).planet_of(Planet::Earth).units_by_loc == old(self).planet_of(Planet::Earth).units_by_loc,
            final(self).planet_of(Planet::Earth).karbonite == old(self).planet_of(Planet::Earth).karbonite,
            final(self).planet_of(Planet::Earth).visible_locs == old(self).planet_of(Planet::Earth).visible_locs,
            forall|id: UnitID| #[trigger] old(self).planet_of(Planet::Earth).units@.contains_key(id) ==> final(self).planet_of(Planet::Earth).units@.contains_key(id),
            forall|id: UnitID| #[trigger] old(self).planet_of(Planet::Earth).units@.contains_key(id) && old(self).planet_of(Planet::Earth).units@[id].unit_type != UnitType::Factory ==> final(self).planet_of(
                Planet::Earth,
            ).units@[id] == old(self).planet_of(Planet::Earth).units@[id],
            forall|id: UnitID| #[trigger] final(self).planet_of(Planet::Earth).units@.contains_key(id) && !old(self).planet_of(Planet::Earth).units@.contains_key(id) ==> {
                let l = final(self).planet_of(Planet::Earth).units@[id].location;
                &&& l is InGarrison
                &&& old(self).planet_of(Planet::Earth).units@.contains_key(l->InGarrison_0)
                &&& old(self).planet_of(Planet::Earth).units@[l->InGarrison_0].unit_type == UnitType::Factory
            },
            forall|f: UnitID| #[trigger] old(self).planet_of(Planet::Earth).units@.contains_key(f) && old(self).planet_of(
                Planet::Earth,
            ).units@[f].unit_type == UnitType::Factory ==> factory_done(
                old(self).planet_of(Planet::Earth).units@,
                final(self).planet_of(Planet::Earth).units@,
                f,
            ),
    {
        proof {
            assert(self.planet_states@.contains_key(Planet::Earth));
        }
        let keys = id_map_keys(&self.get_planet(Planet::Earth).units);
        let ghost w0 = *self;
        let mut i: usize = 0;
        while i < keys.len()
            invariant
                self.full(),
                self.round_now() == w0.round_now(),
                self.mover() == w0.mover(),
                self.ids().seed_view() == w0.ids().seed_view(),
                self.frame_kept(w0),
                self.planet_of(Planet::Mars) == w0.planet_of(Planet::Mars),
                forall|t: Team| #[trigger] self.team_of(t) == w0.team_of(t),
                self.planet_of(Planet::Earth).units_by_loc == w0.planet_of(Planet::Earth).units_by_loc,
                self.planet_of(Planet::Earth).karbonite == w0.planet_of(Planet::Earth).karbonite,
                self.planet_of(Planet::Earth).visible_locs == w0.planet_of(Planet::Earth).visible_locs,
                forall|id: UnitID| #[trigger] w0.planet_of(Planet::Earth).units@.contains_key(id) ==> self.planet_of(
                    Planet::Earth,
                ).units@.contains_key(id),
                forall|id: UnitID| #[trigger] w0.planet_of(Planet::Earth).units@.contains_key(id) && w0.planet_of(
                    Planet::Earth,
                ).units@[id].unit_type != UnitType::Factory ==> self.planet_of(Planet::Earth).units@[id] == w0.planet_of(
                    Planet::Earth,
                ).units@[id],
                forall|id: UnitID| #[trigger] w0.planet_of(Planet::Earth).units@.contains_key(id) ==> self.planet_of(
                    Planet::Earth,
                ).units@[id].unit_type == w0.planet_of(Planet::Earth).units@[id].unit_type,
                forall|id: UnitID| #[trigger] self.planet_of(Planet::Earth).units@.contains_key(id) && !w0.planet_of(Planet::Earth).units@.contains_key(id) ==> {
                    let l = self.planet_of(Planet::Earth).units@[id].location;
                    &&& l is InGarrison
                    &&& w0.planet_of(Planet::Earth).units@.contains_key(l->InGarrison_0)
                    &&& w0.planet_of(Planet::Earth).units@[l->InGarrison_0].unit_type == UnitType::Factory
                },
                forall|k: UnitID| #[trigger] keys@.contains(k) <==> w0.planet_of(Planet::Earth).units@.contains_key(k),
                0 <= i <= keys@.len(),
                keys@.no_duplicates(),
                forall|f: UnitID| #[trigger] w0.planet_of(Planet::Earth).units@.contains_key(f) && w0.planet_of(
                    Planet::Earth,
                ).units@[f].unit_type == UnitType::Factory ==> if keys@.take(i as int).contains(f) {
                    factory_done(w0.planet_of(Planet::Earth).units@, self.planet_of(Planet::Earth).units@, f)
                } else {
                    self.planet_of(Planet::Earth).units@[f] == w0.planet_of(Planet::Earth).units@[f]
                },
            decreases keys@.len() - i,
        {
            let fid = keys[i];
            proof {
                assert(keys@.contains(fid));
                let t1 = keys@.take(i + 1);
                let t0 = keys@.take(i as int);
                assert forall|a: UnitID| #[trigger] t1.contains(a) == (t0.contains(a) || a == fid) by {
                    if t1.contains(a) {
                        let j = choose|j: int| 0 <= j < t1.len() && t1[j] == a;
                        if j < i {
                            assert(t0[j] == a);
                        }
                    }
                    if t0.contains(a) {
                        let j = choose|j: int| 0 <= j < t0.len() && t0[j] == a;
                        assert(t1[j] == a);
                    }
                    assert(t1[i as int] == fid);
                }
                assert(!t0.contains(fid)) by {
                    if t0.contains(fid) {
                        let j = choose|j: int| 0 <= j < t0.len() && t0[j] == fid;
                        assert(keys@[j] == keys@[i as int]);
                    }
                }
            }
            let ghost ti = i as int;
            i = i + 1;
            proof {
                assert(self.planet_states@.contains_key(Planet::Earth));
            }
            let is_factory = match id_map_get(&self.get_planet(Planet::Earth).units, fid) {
                Some(u) => u.unit_type == UnitType::Factory,
                None => false,
            };
            if !is_factory {
                continue;
            }
            let ghost w1 = *self;
            let mut info = self.take_planet(Planet::Earth);
            let mut factory = id_map_remove(&mut info.units, fid).unwrap();
            let ghost f0 = factory;
            let well_formed = match factory.factory_rounds_left {
                Some(k) => k >= 1 && (k != 1 || factory.factory_unit_type.is_some()
                    || factory.ok_if_can_load().is_err()),
                None => true,
            };
            let produced = if well_formed { factory.process_factory_round() } else { None };
            let ghost units_hole = info.units@;
            let ghost mut made: Option<UnitID> = None;
            match produced {
                Some(t) => {
                    let team = factory.team;
                    proof {
                        assert(team == Team::Red || team == Team::Blue);
                        assert(self.team_states@.contains_key(team));
                    }
                    let level = team_map_get(&self.team_states, team).unwrap().research.get_level(&t);
                    match self.id_generator.try_next_id() {
                        Some(id) => {
                            if id != fid && id_map_get(&info.units, id).is_none() {
                                match Unit::new(id, team, t, level, Location::InGarrison(fid)) {
                                    Ok(nu) => {
                                        proof {
                                            crate::unit::lemma_researched_keeps(
                                                crate::unit::starting_unit(id, team, t, Location::InGarrison(fid), nu.garrison),
                                                level as nat,
                                            );
                                        }
                                        id_map_insert(&mut info.units, id, nu);
                                        factory.load(id);
                                        proof {
                                            made = Some(id);
                                        }
                                    },
                                    Err(_) => {},
                                }
                            }
                        },
                        None => {},
                    }
                },
                None => {},
            }
            proof {
                assert(factory.location == f0.location && factory.id == f0.id);
                assert(index_ok(info.units@.insert(fid, factory), info.units_by_loc@)) by {
                    let n = info.units@.insert(fid, factory);
                    let by = info.units_by_loc@;
                    let o = w1.planet_of(Planet::Earth).units@;
                    assert forall|l: MapLocation| #[trigger] by.contains_key(l) implies {
                        &&& n.contains_key(by[l])
                        &&& n[by[l]].location == Location::OnMap(l)
                    } by {
                        assert(o.contains_key(by[l]));
                    }
                    assert forall|id: UnitID| #[trigger] n.contains_key(id) implies {
                        &&& n[id].id == id
                        &&& (n[id].location is OnMap ==> {
                            let l = n[id].location->OnMap_0;
                            by.contains_key(l) && by[l] == id
                        })
                    } by {
                        if id != fid && o.contains_key(id) {
                            assert(n[id] == o[id]);
                        }
                    }
                }
            }
            info.put_back(factory);
            self.put_planet(Planet::Earth, info);
            proof {
                assert(self.team_states == w1.team_states);
                self.lemma_planet_replaced(w1, Planet::Earth);
                assert forall|t: Team| #[trigger] self.team_of(t) == w0.team_of(t) by {
                    assert(w1.team_of(t) == w0.team_of(t));
                }
                let b = w0.planet_of(Planet::Earth).units@;
                let u1 = w1.planet_of(Planet::Earth).units@;
                let cur = self.planet_of(Planet::Earth).units@;
                let t1 = keys@.take(ti + 1);
                let t0 = keys@.take(ti);
                assert(b.contains_key(fid) && b[fid].unit_type == UnitType::Factory);
                assert(f0 == b[fid]);
                assert(cur[fid] == factory);
                match made {
                    Some(n) => {
                        assert(made_by(b, cur, fid, n));
                    },
                    None => {
                        assert(cur[fid] == factory_step(b[fid]));
                    },
                }
                assert(factory_done(b, cur, fid));
                assert forall|f: UnitID| #[trigger] b.contains_key(f) && b[f].unit_type == UnitType::Factory implies if t1.contains(f) {
                    factory_done(b, cur, f)
                } else {
                    cur[f] == b[f]
                } by {
                    if f != fid {
                        assert(u1.contains_key(f));
                        assert(cur[f] == u1[f]);
                        if t0.contains(f) {
                            assert(factory_done(b, u1, f));
                            if u1[f] != factory_step(b[f]) {
                                let n = choose|n: UnitID| #[trigger] made_by(b, u1, f, n);
                                assert(u1.contains_key(n) && !b.contains_key(n));
                                assert(n != fid);
                                assert(cur[n] == u1[n]);
                                assert(made_by(b, cur, f, n));
                            }
                        }
                    }
                }
            }
        }
        proof {
            assert(keys@.take(keys@.len() as int) =~= keys@);
        }
    }
}

/// The branch whose research completes this round, if any.
pub open spec fn completing(res: ResearchInfo) -> Option<UnitType> {
    if res.rounds() is Some && res.rounds()->0 <= 1 {
        Some(res.queue_view()[0])
    } else {
        None
    }
}

/// The units after a team's completed research, if any, upgrades them.
pub open spec fn upgraded_by(m: Map<UnitID, Unit>, team: Option<Team>, done: Option<UnitType>) -> Map<UnitID, Unit> {
    match done {
        Some(b) => map_upgraded(m, team, b),
        None => m,
    }
}

/// A team's karbonite after a round's passive production, where it fits.
pub open spec fn produced_karbonite(k: u32) -> u32 {
    if k + KARBONITE_PER_ROUND > u32::MAX {
        k
    } else {
        (k + KARBONITE_PER_ROUND - min_u32(KARBONITE_PER_ROUND, k / KARBONITE_DECREASE_RATIO)) as u32
    }
}

impl GameWorld {
    /// Ends the round for every unit of the planet.
    fn end_units_round(&mut self, p: Planet)
        requires
            old(self).full(),
        ensures
            final(self).full(),
            final(self).same_but_planet(*old(self), p),
            final(self).planet_of(p).units@ == map_round_ended(old(self).planet_of(p).units@),
            final(self).planet_of(p).units_by_loc == old(self).planet_of(p).units_by_loc,
            final(self).planet_of(p).karbonite == old(self).planet_of(p).karbonite,
            final(self).planet_of(p).visible_locs == old(self).planet_of(p).visible_locs,
    {
        proof {
            assert(self.planet_states@.contains_key(p));
        }
        let ghost w0 = *self;
        let mut info = self.take_planet(p);
        let ghost before = info.units@;
        end_round_all(&mut info.units);
        proof {
            assert(info.units@.dom() =~= before.dom());
            lemma_places_kept(before, info.units@, info.units_by_loc@);
        }
        self.put_planet(p, info);
        proof {
            assert(self.same_but_planet(w0, p));
            self.lemma_planet_changed(w0, p);
        }
    }

    /// Ends the round for a team's team arrays and karbonite.
    fn end_team_round(&mut self, t: Team)
        requires
            old(self).full(),
        ensures
            final(self).full(),
            final(self).same_but_team(*old(self), t),
            final(self).team_of(t).karbonite == produced_karbonite(old(self).team_of(t).karbonite),
            final(self).team_of(t).research == old(self).team_of(t).research,
            final(self).team_of(t).units_in_space == old(self).team_of(t).units_in_space,
            final(self).team_of(t).rocket_landings == old(self).team_of(t).rocket_landings,
            final(self).team_of(t).team_arrays.history_of(Planet::Earth) == seq![
                old(self).team_of(t).team_arrays.history_of(Planet::Earth)[0],
            ] + old(self).team_of(t).team_arrays.history_of(Planet::Earth).drop_last(),
            final(self).team_of(t).team_arrays.history_of(Planet::Mars) == seq![
                old(self).team_of(t).team_arrays.history_of(Planet::Mars)[0],
            ] + old(self).team_of(t).team_arrays.history_of(Planet::Mars).drop_last(),
    {
        proof {
            assert(t == Team::Red || t == Team::Blue);
            assert(self.team_states@.contains_key(t));
        }
        let ghost w0 = *self;
        let mut info = self.take_team(t);
        info.team_arrays.end_round();
        let current = info.karbonite;
        self.put_team(t, info);
        proof {
            assert(self.same_but_team(w0, t));
            self.lemma_team_changed(w0, t);
        }
        if current <= u32::MAX - KARBONITE_PER_ROUND {
            self.process_karbonite(t);
            proof {
                assert(self.same_but_team(w0, t));
            }
        }
    }

    /// What ending the round makes of this world: the round moves on, on the
    /// apocalypse round every unit on Earth is gone, the units on Mars end
    /// their round and take each team's completed research, each team gains
    /// its karbonite, and the units in space take their team's completed
    /// research.
    pub open spec fn round_ended(&self, next: GameWorld) -> bool {
        &&& next.round_now() == self.round_now() + 1
        &&& next.mover() == self.mover()
        &&& next.round_now() == APOCALYPSE_ROUND ==> next.planet_of(Planet::Earth).units@.dom().is_empty()
        &&& next.planet_of(Planet::Mars).units@ =~= upgraded_by(
            upgraded_by(
                map_round_ended(self.planet_of(Planet::Mars).units@),
                Some(Team::Red),
                completing(self.team_of(Team::Red).research),
            ),
            Some(Team::Blue),
            completing(self.team_of(Team::Blue).research),
        )
        &&& forall|t: Team| #[trigger] next.team_of(t).karbonite == produced_karbonite(self.team_of(t).karbonite)
        &&& forall|t: Team| #[trigger] next.team_of(t).units_in_space@ =~= upgraded_by(
            self.team_of(t).units_in_space@,
            None,
            completing(self.team_of(t).research),
        )
        &&& self.asteroid_landed(next)
    }

    /// What the asteroid of the new round does, seen from the world `self`
    /// before the round ended and the world `next` after. Without an
    /// asteroid the viewer's log and the karbonite of both planets stay as
    /// they were. With one, the viewer is told of the strike; where the
    /// square lies on the map, no factory or rocket stands on it and the
    /// karbonite fits its type, the square gains the asteroid's karbonite and
    /// no other square changes; otherwise no square changes.
    pub open spec fn asteroid_landed(&self, next: GameWorld) -> bool {
        let round = (self.round_now() + 1) as u32;
        let strikes = self.asteroids_now().strikes();
        if !strikes.contains_key(round) {
            &&& next.viewer_log() == self.viewer_log()
            &&& forall|p: Planet| #[trigger] next.planet_of(p).karbonite == self.planet_of(p).karbonite
        } else {
            let a = strikes[round];
            let l = a.location;
            let after = next.planet_of(l.planet);
            let blocked = after.units_by_loc@.contains_key(l) && (after.units@[after.units_by_loc@[l]].unit_type
                == UnitType::Factory || after.units@[after.units_by_loc@[l]].unit_type == UnitType::Rocket);
            let before = self.planet_of(l.planet).karbonite@;
            let fits = inside(l, self.map_of(l.planet)) && before[l.y as int]@[l.x as int] + a.karbonite
                <= u32::MAX;
            &&& next.viewer_log() == self.viewer_log().push(ViewerDelta::AsteroidStrike { location: l })
            &&& next.planet_of(l.planet.spec_other()).karbonite == self.planet_of(l.planet.spec_other()).karbonite
            &&& (blocked || !fits) ==> after.karbonite == self.planet_of(l.planet).karbonite
            &&& (!blocked && fits) ==> {
                &&& after.karbonite@.len() == before.len()
                &&& forall|j: int| 0 <= j < before.len() ==> (#[trigger] after.karbonite@[j])@ == (if j == l.y {
                    before[j]@.update(l.x as int, (before[j]@[l.x as int] + a.karbonite) as u32)
                } else {
                    before[j]@
                })
            }
        }
    }

    /// When a round ends and the new round has an asteroid, the viewer is
    /// told of the strike; where it falls on a square of the map on which no
    /// factory or rocket stands, and its karbonite fits, that square gains
    /// the asteroid's karbonite and every other square keeps its own.
    pub proof fn lemma_asteroid_strikes(&self, next: GameWorld)
        requires
            self.full(),
            self.round_ended(next),
            self.asteroids_now().strikes().contains_key((self.round_now() + 1) as u32),
        ensures
            ({
                let a = self.asteroids_now().strikes()[(self.round_now() + 1) as u32];
                let l = a.location;
                let before = self.planet_of(l.planet).karbonite@;
                let after = next.planet_of(l.planet);
                let structure = after.units_by_loc@.contains_key(l) && (after.units@[after.units_by_loc@[l]].unit_type
                    == UnitType::Factory || after.units@[after.units_by_loc@[l]].unit_type == UnitType::Rocket);
                &&& next.viewer_log().len() == self.viewer_log().len() + 1
                &&& next.viewer_log().last() == ViewerDelta::AsteroidStrike { location: l }
                &&& inside(l, self.map_of(l.planet)) && !structure && before[l.y as int]@[l.x as int] + a.karbonite
                    <= u32::MAX ==> {
                    &&& after.karbonite@[l.y as int]@[l.x as int] == before[l.y as int]@[l.x as int] + a.karbonite
                    &&& forall|y: int, x: int|
                        0 <= y < before.len() && 0 <= x < before[y]@.len() && (y != l.y || x != l.x)
                            ==> #[trigger] after.karbonite@[y]@[x] == before[y]@[x]
                }
                &&& structure ==> after.karbonite == self.planet_of(l.planet).karbonite
            }),
    {
        let a = self.asteroids_now().strikes()[(self.round_now() + 1) as u32];
        let l = a.location;
        let before = self.planet_of(l.planet).karbonite@;
        let after = next.planet_of(l.planet);
        assert(self.planet_states@.contains_key(l.planet));
        if inside(l, self.map_of(l.planet)) {
            assert(self.planet_of(l.planet).fits(self.map_of(l.planet)));
            assert(after.karbonite@[l.y as int]@ == before[l.y as int]@.update(
                l.x as int,
                (before[l.y as int]@[l.x as int] + a.karbonite) as u32,
            ) || after.karbonite == self.planet_of(l.planet).karbonite);
        }
        assert forall|y: int, x: int|
            0 <= y < before.len() && 0 <= x < before[y]@.len() && (y != l.y || x != l.x) && after.karbonite@.len()
                == before.len() && (after.karbonite@[y])@ == (if y == l.y {
                before[y]@.update(l.x as int, (before[y]@[l.x as int] + a.karbonite) as u32)
            } else {
                before[y]@
            }) implies #[trigger] after.karbonite@[y]@[x] == before[y]@[x] by {
        }
    }

    /// Ends the round: the round advances;    /// Ends the round: the round advances; on the apocalypse round every
    /// unit on Earth is destroyed; units cool down; team arrays age; teams
    /// gain karbonite; factories produce; the asteroid of the round strikes;
    /// research advances and upgrades units.
    pub fn end_round(&mut self)
        requires
            old(self).full(),
            old(self).round_now() < u32::MAX,
        ensures
            final(self).full(),
            old(self).round_ended(*final(self)),
    {
        self.round = self.round + 1;
        proof {
            assert(self.planet_states@.contains_key(Planet::Earth));
        }
        if self.round == APOCALYPSE_ROUND {
            let ghost w0 = *self;
            let mut earth = self.take_planet(Planet::Earth);
            earth.units = fnv_new();
            earth.units_by_loc = fnv_new();
            proof {
                assert forall|l: MapLocation| #[trigger] earth.units_by_loc@.contains_key(l) implies false by {
                    assert(earth.units_by_loc@.dom().contains(l));
                }
                assert forall|id: UnitID| #[trigger] earth.units@.contains_key(id) implies false by {
                    assert(earth.units@.dom().contains(id));
                }
            }
            self.put_planet(Planet::Earth, earth);
            proof {
                assert(self.same_but_planet(w0, Planet::Earth));
                self.lemma_planet_changed(w0, Planet::Earth);
            }
        }
        let ghost w_apoc = *self;
        self.end_units_round(Planet::Earth);
        self.end_units_round(Planet::Mars);
        let ghost w_units = *self;
        self.end_team_round(Team::Red);
        self.end_team_round(Team::Blue);
        let ghost w_teams = *self;
        self.process_factories();
        let ghost w_fact = *self;
        self.process_asteroids();
        let ghost w_ast = *self;
        self.process_research(Team::Red);
        let ghost w_red = *self;
        self.process_research(Team::Blue);
        proof {
            assert(Team::Red.other() == Team::Blue);
            assert(Team::Blue.other() == Team::Red);
            assert(w_units.planet_of(Planet::Mars).units@ == map_round_ended(old(self).planet_of(Planet::Mars).units@));
            assert(w_teams.planet_of(Planet::Mars) == w_units.planet_of(Planet::Mars));
            assert(w_fact.planet_of(Planet::Mars) == w_teams.planet_of(Planet::Mars));
            assert(w_ast.planet_of(Planet::Mars).units@ == w_fact.planet_of(Planet::Mars).units@);
            assert forall|t: Team| #[trigger] self.team_of(t).karbonite == produced_karbonite(
                old(self).team_of(t).karbonite,
            ) && self.team_of(t).units_in_space@ == upgraded_by(
                old(self).team_of(t).units_in_space@,
                None,
                completing(old(self).team_of(t).research),
            ) by {
                assert(t == Team::Red || t == Team::Blue);
                assert(w_ast.team_of(t) == w_fact.team_of(t));
                assert(w_fact.team_of(t) == w_teams.team_of(t));
                assert(w_units.team_of(t) == old(self).team_of(t));
            }
            assert(self.round_now() == APOCALYPSE_ROUND ==> w_apoc.planet_of(Planet::Earth).units@.dom().is_empty());
            assert forall|t: Team| #[trigger] w_ast.team_of(t).research == old(self).team_of(t).research by {
                assert(t == Team::Red || t == Team::Blue);
                assert(w_ast.team_of(t) == w_fact.team_of(t));
                assert(w_fact.team_of(t) == w_teams.team_of(t));
                assert(w_units.team_of(t) == old(self).team_of(t));
            }
            let red_done = completing(w_ast.team_of(Team::Red).research);
            assert(w_red.planet_of(Planet::Mars).units@ == upgraded_by(
                w_ast.planet_of(Planet::Mars).units@,
                Some(Team::Red),
                red_done,
            )) by {
                if red_done is None {
                    assert(w_red.planet_of(Planet::Mars) == w_ast.planet_of(Planet::Mars));
                }
            }
            assert(w_red.team_of(Team::Blue) == w_ast.team_of(Team::Blue));
            let blue_done = completing(w_red.team_of(Team::Blue).research);
            assert(self.planet_of(Planet::Mars).units@ == upgraded_by(
                w_red.planet_of(Planet::Mars).units@,
                Some(Team::Blue),
                blue_done,
            )) by {
                if blue_done is None {
                    assert(self.planet_of(Planet::Mars) == w_red.planet_of(Planet::Mars));
                }
            }
        }
    }
}


/// The garrisoned units of rocket `r` that go with it into space: those on
/// the planet that do not stand on the map.
pub open spec fn carried(units: Map<UnitID, Unit>, r: Unit) -> Set<UnitID> {
    Set::new(
        |g: UnitID| r.garrison@.contains(g) && g != r.id && units.contains_key(g) && !(units[g].location is OnMap),
    )
}

/// What the launch of rocket `r` leaves on the planet: the rocket and its
/// carried garrison are gone, and so is the rocket's square from the index.
pub open spec fn lifted_off(v: PlanetUnits, r: Unit) -> PlanetUnits {
    (v.0.remove(r.id).remove_keys(carried(v.0, r)), v.1.remove(map_loc(r)))
}

/// A team's units in space after rocket `r` launches from a planet with the
/// units `units`: its carried garrison, then the rocket itself, now in
/// space and used.
pub open spec fn into_space(space: Map<UnitID, Unit>, units: Map<UnitID, Unit>, r: Unit) -> Map<UnitID, Unit> {
    space.union_prefer_right(units.restrict(carried(units, r))).insert(
        r.id,
        Unit { location: Location::InSpace, is_used: true, ..r },
    )
}

/// A sequence with one more element contains exactly what it held before,
/// and that element.
proof fn lemma_push_contains(s: Seq<UnitID>, a: UnitID, b: UnitID)
    ensures
        s.push(a).contains(b) == (s.contains(b) || b == a),
{
    if s.contains(b) {
        let j = choose|j: int| 0 <= j < s.len() && s[j] == b;
        assert(s.push(a)[j] == b);
    }
    if b == a {
        assert(s.push(a)[s.len() as int] == a);
    }
    if s.push(a).contains(b) {
        let j = choose|j: int| 0 <= j < s.len() + 1 && s.push(a)[j] == b;
        if j < s.len() {
            assert(s[j] == b);
        }
    }
}

/// Hitting a unit keeps the index right and changes no other unit.
proof fn lemma_hit_unit_keeps(v: PlanetUnits, id: UnitID, dmg: i32)
    requires
        index_ok(v.0, v.1),
    ensures
        index_ok(hit_unit(v, id, dmg).0, hit_unit(v, id, dmg).1),
        forall|k: UnitID| k != id && #[trigger] hit_unit(v, id, dmg).0.contains_key(k) ==> v.0.contains_key(k)
            && hit_unit(v, id, dmg).0[k] == v.0[k],
{
    if v.0.contains_key(id) {
        let u = v.0[id];
        let h = crate::unit::health_after_damage(u, dmg);
        if dmg >= 0 && h == 0 {
            let d = doomed(u);
            let n = v.0.remove_keys(d);
            let b = index_without(v.1, d);
            assert forall|l: MapLocation| #[trigger] b.contains_key(l) implies {
                &&& n.contains_key(b[l])
                &&& n[b[l]].location == Location::OnMap(l)
            } by {
                assert(v.1.contains_key(l));
            }
            assert forall|k: UnitID| #[trigger] n.contains_key(k) implies {
                &&& n[k].id == k
                &&& (n[k].location is OnMap ==> {
                    let l = n[k].location->OnMap_0;
                    b.contains_key(l) && b[l] == k
                })
            } by {
                assert(v.0.contains_key(k));
                if n[k].location is OnMap {
                    let l = n[k].location->OnMap_0;
                    assert(v.1.contains_key(l) && v.1[l] == k);
                }
            }
        } else {
            lemma_same_place(v.0, v.1, Unit { health: h, ..u });
        }
    }
}

/// Splashing around the square of a unit keeps the index right and leaves
/// that unit as it was, unless it is destroyed.
proof fn lemma_splash_keeps(v: PlanetUnits, c: MapLocation, dmg: i32, k: nat, rid: UnitID)
    requires
        index_ok(v.0, v.1),
        v.0.contains_key(rid),
        v.0[rid].location == Location::OnMap(c),
        k <= 8,
    ensures
        index_ok(splash(v, c, dmg, k).0, splash(v, c, dmg, k).1),
        splash(v, c, dmg, k).0.contains_key(rid) ==> splash(v, c, dmg, k).0[rid] == v.0[rid],
    decreases k,
{
    if k > 0 {
        lemma_splash_keeps(v, c, dmg, (k - 1) as nat, rid);
        let before = splash(v, c, dmg, (k - 1) as nat);
        let d = crate::location::all_directions()[k - 1];
        if crate::location::translate_fits(c, crate::location::dir_dx(d), crate::location::dir_dy(d)) {
            let l = crate::location::step(c, d);
            if before.1.contains_key(l) {
                let t = before.1[l];
                lemma_hit_unit_keeps(before, t, dmg);
                if t == rid {
                    assert(before.0[t].location == Location::OnMap(l));
                    assert(l != c);
                }
            }
        }
    }
}

impl PlanetInfo {
    /// Takes rocket `rid` off the planet and its index, and moves its
    /// carried garrison into `space`. Returns the rocket.
    fn lift_off(&mut self, rid: UnitID, space: &mut FnvHashMap<UnitID, Unit>) -> (r: Unit)
        requires
            old(self).indexed(),
            old(self).units@.contains_key(rid),
            old(self).units@[rid].location is OnMap,
        ensures
            final(self).indexed(),
            r == old(self).units@[rid],
            final(self).pair() == lifted_off(old(self).pair(), r),
            final(space)@ == old(space)@.union_prefer_right(old(self).units@.restrict(carried(old(self).units@, r))),
            final(self).karbonite == old(self).karbonite,
            final(self).visible_locs == old(self).visible_locs,
    {
        let ghost u0 = self.units@;
        let ghost b0 = self.units_by_loc@;
        let ghost sp0 = space@;
        let rocket = id_map_remove(&mut self.units, rid).unwrap();
        let takeoff = rocket.location.map_location().unwrap();
        loc_map_remove(&mut self.units_by_loc, takeoff);
        let ghost u1 = self.units@;
        let ghost all = carried(u0, rocket);
        let mut i: usize = 0;
        while i < rocket.garrison.len()
            invariant
                0 <= i <= rocket.garrison@.len(),
                rocket == u0[rid],
                rocket.id == rid,
                all == carried(u0, rocket),
                u1 == u0.remove(rid),
                self.units@ == u1.remove_keys(Set::new(|g: UnitID| all.contains(g) && rocket.garrison@.take(i as int).contains(g))),
                space@ == sp0.union_prefer_right(u0.restrict(Set::new(|g: UnitID| all.contains(g) && rocket.garrison@.take(i as int).contains(g)))),
                self.units_by_loc@ == b0.remove(takeoff),
                self.karbonite == old(self).karbonite,
                self.visible_locs == old(self).visible_locs,
            decreases rocket.garrison@.len() - i,
        {
            let g = rocket.garrison[i];
            let ghost before = Set::new(|q: UnitID| all.contains(q) && rocket.garrison@.take(i as int).contains(q));
            let ghost after = Set::new(|q: UnitID| all.contains(q) && rocket.garrison@.take(i + 1).contains(q));
            proof {
                assert(rocket.garrison@.take(i + 1) =~= rocket.garrison@.take(i as int).push(g));
                assert(rocket.garrison@.contains(g)) by {
                    assert(rocket.garrison@[i as int] == g);
                }
            }
            let movable = g != rid && match id_map_get(&self.units, g) {
                Some(u) => match u.location {
                    Location::OnMap(_) => false,
                    _ => true,
                },
                None => false,
            };
            if movable {
                let u = id_map_remove(&mut self.units, g).unwrap();
                id_map_insert(space, g, u);
                proof {
                    assert(all.contains(g));
                    assert forall|q: UnitID| #[trigger] after.contains(q) == before.insert(g).contains(q) by {
                        lemma_push_contains(rocket.garrison@.take(i as int), g, q);
                    }
                    assert(after =~= before.insert(g));
                    assert(self.units@ =~= u1.remove_keys(after));
                    assert(space@ =~= sp0.union_prefer_right(u0.restrict(after)));
                }
            } else {
                proof {
                    assert forall|q: UnitID| #[trigger] after.contains(q) == before.contains(q) by {
                        lemma_push_contains(rocket.garrison@.take(i as int), g, q);
                        if q == g && all.contains(g) {
                            assert(!movable);
                            assert(before.contains(g));
                        }
                    }
                    assert(after =~= before);
                }
            }
            i = i + 1;
        }
        proof {
            assert(rocket.garrison@.take(rocket.garrison@.len() as int) =~= rocket.garrison@);
            let fin = Set::new(|g: UnitID| all.contains(g) && rocket.garrison@.take(rocket.garrison@.len() as int).contains(g));
            assert(fin =~= all);
            assert(self.units@ =~= u0.remove(rid).remove_keys(all));
            assert(b0[takeoff] == rid);
            assert forall|l: MapLocation| #[trigger] self.units_by_loc@.contains_key(l) implies {
                &&& self.units@.contains_key(self.units_by_loc@[l])
                &&& self.units@[self.units_by_loc@[l]].location == Location::OnMap(l)
            } by {
                assert(b0.contains_key(l));
                assert(u0.contains_key(b0[l]));
                assert(b0[l] != rid);
                assert(!all.contains(b0[l]));
            }
            assert forall|q: UnitID| #[trigger] self.units@.contains_key(q) implies {
                &&& self.units@[q].id == q
                &&& (self.units@[q].location is OnMap ==> {
                    let l = self.units@[q].location->OnMap_0;
                    self.units_by_loc@.contains_key(l) && self.units_by_loc@[l] == q
                })
            } by {
                assert(u0.contains_key(q));
                if u0[q].location is OnMap {
                    let l = u0[q].location->OnMap_0;
                    assert(b0[l] == q);
                }
            }
        }
        rocket
    }
}

impl GameWorld {
    /// Changing the current player's planet and team, each keeping its
    /// invariants, keeps the world well formed.
    proof fn lemma_mine_changed(&self, old: GameWorld, p: Planet, t: Team)
        requires
            old.wf(),
            old.planet_states@.contains_key(p),
            old.team_states@.contains_key(t),
            self.same_but(old, p, t),
            self.planet_states@.contains_key(p),
            self.planet_states@[p].indexed(),
            self.planet_states@[p].fits(self.planet_maps@[p]),
            self.team_states@.contains_key(t),
            self.team_states@[t].wf(),
            keyed_by_id(self.team_states@[t].units_in_space@),
            forall|id: UnitID| #[trigger] self.team_states@[t].units_in_space@.contains_key(id)
                ==> !(self.team_states@[t].units_in_space@[id].location is OnMap),
        ensures
            self.wf(),
            old.full() ==> self.full(),
    {
        assert forall|q: Planet| #[trigger] self.planet_states@.contains_key(q) implies {
            &&& self.planet_states@[q].indexed()
            &&& self.planet_states@[q].fits(self.planet_maps@[q])
        } by {
            if q != p {
                assert(old.planet_states@.contains_key(q));
            }
        }
        assert forall|q: Team| #[trigger] self.team_states@.contains_key(q) implies self.team_states@[q].wf() by {
            if q != t {
                assert(old.team_states@.contains_key(q));
            }
        }
        assert forall|q: Team, id: UnitID| #[trigger] self.team_states@[q].units_in_space@.contains_key(id)
            && self.team_states@.contains_key(q) implies self.team_states@[q].units_in_space@[id].id == id
            && !(self.team_states@[q].units_in_space@[id].location is OnMap) by {
            if q != t {
                assert(old.team_states@.contains_key(q));
                assert(old.team_states@[q].units_in_space@.contains_key(id));
            }
        }
    }

    /// What a launch of the rocket to the destination would meet first, if
    /// anything.
    pub open spec fn launch_check(&self, rocket_id: UnitID, destination: MapLocation) -> Result<(), GameError> {
        let u = self.seen_unit(rocket_id);
        let m = self.map_of(destination.planet);
        if !self.sees_unit(rocket_id) {
            Err(GameError::NoSuchUnit)
        } else if u.team != self.mover().team {
            Err(GameError::TeamNotAllowed)
        } else if destination.planet == self.mover().planet {
            Err(GameError::SamePlanet)
        } else if crate::unit::launch_ready_check(u) is Err {
            crate::unit::launch_ready_check(u)
        } else if !inside(destination, m) {
            Err(GameError::LocationOffMap)
        } else if !m.passable(destination.y as int, destination.x as int) {
            Err(GameError::LocationNotEmpty)
        } else {
            Ok(())
        }
    }

    /// * NoSuchUnit - the rocket does not exist (inside the vision range).
    /// * TeamNotAllowed - the rocket is not on the current player's team.
    /// * SamePlanet - the rocket cannot fly to a location on the same planet.
    /// * InappropriateUnitType - the unit is not a rocket.
    /// * StructureNotYetBuilt - the rocket has not yet been completed.
    /// * RocketUsed - the rocket has already been used.
    /// * LocationOffMap - the given location is off the map.
    /// * LocationNotEmpty - the given location contains impassable terrain.
    pub fn ok_if_can_launch_rocket(&self, rocket_id: UnitID, destination: MapLocation) -> (r: Result<(), GameError>)
        requires
            self.wf(),
        ensures
            r == self.launch_check(rocket_id, destination),
    {
        let rocket = self.my_unit(rocket_id)?;
        if destination.planet == self.planet() {
            return Err(GameError::SamePlanet);
        }
        rocket.ok_if_can_launch_rocket()?;
        let map = self.starting_map(destination.planet);
        if destination.x < 0 || destination.y < 0 || destination.x as usize >= map.width || destination.y as usize
            >= map.height {
            return Err(GameError::LocationOffMap);
        }
        if !map.is_passable_terrain[destination.y as usize][destination.x as usize] {
            return Err(GameError::LocationNotEmpty);
        }
        Ok(())
    }

    /// Whether the rocket can launch into space to the given destination. The
    /// rocket can launch if the it has never been used before. The destination
    /// is valid if it contains passable terrain on the other planet.
    pub fn can_launch_rocket(&self, rocket_id: UnitID, destination: MapLocation) -> (r: bool)
        requires
            self.wf(),
        ensures
            r == (self.launch_check(rocket_id, destination) is Ok),
    {
        self.ok_if_can_launch_rocket(rocket_id, destination).is_ok()
    }
}


impl GameWorld {
    /// Moves the rocket, which stands on the current planet, into the
    /// current team's space, used, with its carried garrison.
    fn move_to_space(&mut self, rocket_id: UnitID)
        requires
            old(self).wf(),
            old(self).here().units@.contains_key(rocket_id),
            old(self).here().units@[rocket_id].location is OnMap,
        ensures
            final(self).wf(),
            old(self).full() ==> final(self).full(),
            final(self).same_but(*old(self), old(self).mover().planet, old(self).mover().team),
            final(self).here().pair() == lifted_off(old(self).here().pair(), old(self).here().units@[rocket_id]),
            final(self).here().karbonite == old(self).here().karbonite,
            final(self).here().visible_locs == old(self).here().visible_locs,
            final(self).us() == (TeamInfo { units_in_space: final(self).us().units_in_space, ..old(self).us() }),
            final(self).us().units_in_space@ == into_space(
                old(self).us().units_in_space@,
                old(self).here().units@,
                old(self).here().units@[rocket_id],
            ),
    {
        proof {
            self.lemma_here_fits();
        }
        let p = self.planet();
        let t = self.team();
        let ghost w = *self;
        let mut info = self.take_planet(p);
        let mut team = self.take_team(t);
        let mut rocket = info.lift_off(rocket_id, &mut team.units_in_space);
        let ghost r0 = rocket;
        rocket.launch_rocket();
        id_map_insert(&mut team.units_in_space, rocket_id, rocket);
        self.put_planet(p, info);
        self.put_team(t, team);
        proof {
            assert(self.same_but(w, p, t));
            let sp = self.team_states@[t].units_in_space@;
            let u0 = w.here().units@;
            assert forall|id: UnitID| #[trigger] sp.contains_key(id) implies sp[id].id == id && !(
            sp[id].location is OnMap) by {
                if id != rocket_id && !carried(u0, r0).contains(id) {
                    assert(w.us().units_in_space@.contains_key(id));
                }
            }
            self.lemma_mine_changed(w, p, t);
            assert(self.team_states@[t] == self.us());
            assert(self.planet_states@[p] == self.here());
        }
    }

    /// What a rocket launch does: its result and the world after it.
    pub open spec fn launch_rocket_outcome(&self, rocket_id: UnitID, destination: MapLocation, flight: Rounds, next: GameWorld, r: Result<(), GameError>) -> bool {
        &&& self.launch_check(rocket_id, destination) is Err ==> r == self.launch_check(
                    rocket_id,
                    destination,
                ) && next == *self
        &&& ({
                    let u = self.seen_unit(rocket_id);
                    let landing = self.round_now() + flight + u.travel_time_decrease;
                    let sane = u.blast_damage >= 0 && tame(self.here().units@) && landing <= u32::MAX;
                    let v1 = splash(self.here().pair(), map_loc(u), u.blast_damage, 8);
                    self.launch_check(rocket_id, destination) is Ok ==> {
                        &&& !(u.location is OnMap) ==> r == Err::<(), GameError>(GameError::UnitNotOnMap) && next
                            == *self
                        &&& u.location is OnMap && u.unit_type != UnitType::Rocket ==> r == Err::<(), GameError>(
                            GameError::InappropriateUnitType,
                        ) && next == *self
                        &&& u.location is OnMap && u.unit_type == UnitType::Rocket && !sane ==> r == Err::<(), GameError>(
                            GameError::InternalEngineError,
                        ) && next == *self
                        &&& u.location is OnMap && u.unit_type == UnitType::Rocket && sane && !v1.0.contains_key(rocket_id)
                            ==> {
                            &&& r == Err::<(), GameError>(GameError::InternalEngineError)
                            &&& next.same_but_planet(*self, self.mover().planet)
                            &&& next.here().pair() == v1
                            &&& next.here().karbonite == self.here().karbonite
                            &&& next.here().visible_locs == self.here().visible_locs
                        }
                        &&& u.location is OnMap && u.unit_type == UnitType::Rocket && sane && v1.0.contains_key(rocket_id)
                            ==> {
                            &&& r == Ok::<(), GameError>(())
                            &&& next.same_but(*self, self.mover().planet, self.mover().team)
                            &&& next.here().pair() == lifted_off(v1, u)
                            &&& next.here().karbonite == self.here().karbonite
                            &&& next.here().visible_locs == self.here().visible_locs
                            &&& next.us().units_in_space@ =~= into_space(self.us().units_in_space@, v1.0, u)
                            &&& next.us().rocket_landings.landings_view() =~= self.us().rocket_landings.landings_view().insert(
                                landing as u32,
                                self.us().rocket_landings.on_round(landing as u32).push(
                                    RocketLanding { rocket_id, destination },
                                ),
                            )
                            &&& next.us() == (TeamInfo {
                                units_in_space: next.us().units_in_space,
                                rocket_landings: next.us().rocket_landings,
                                ..self.us()
                            })
                        }
                    }
                })
    }

    /// Launches the rocket into space, damaging the units adjacent to the
    /// takeoff location. The rocket lands `flight` rounds after the current
    /// one, less its travel time decrease; `flight` is the duration of
    /// flight that the orbit pattern gives for the current round.
    ///
    /// * NoSuchUnit - the rocket does not exist (inside the vision range).
    /// * TeamNotAllowed - the rocket is not on the current player's team.
    /// * SamePlanet - the rocket cannot fly to a location on the same planet.
    /// * InappropriateUnitType - the unit is not a rocket.
    /// * StructureNotYetBuilt - the rocket has not yet been completed.
    /// * RocketUsed - the rocket has already been used.
    /// * LocationOffMap - the given location is off the map.
    /// * LocationNotEmpty - the given location contains impassable terrain.
    /// * UnitNotOnMap - the rocket is not on the map.
    /// * InternalEngineError - the blast damage is negative, a health or
    ///   defense is out of the range damage is dealt in, the landing round
    ///   is past the last round, or the blast took the rocket with it.
    pub fn launch_rocket(&mut self, rocket_id: UnitID, destination: MapLocation, flight: Rounds) -> (r: Result<
        (),
        GameError,
    >)
        requires
            old(self).wf(),
        ensures
            final(self).wf(),
            old(self).full() ==> final(self).full(),
            old(self).launch_rocket_outcome(rocket_id, destination, flight, *final(self), r),
    {
        self.ok_if_can_launch_rocket(rocket_id, destination)?;
        let rocket = self.my_unit(rocket_id)?;
        let takeoff = rocket.location.map_location()?;
        let blast = rocket.rocket_blast_damage()?;
        let decrease = rocket.travel_time_decrease;
        proof {
            self.lemma_here_fits();
        }
        if blast < 0 || self.round > u32::MAX - flight || self.round + flight > u32::MAX - decrease
            || !self.my_planet().is_tame() {
            return Err(GameError::InternalEngineError);
        }
        let landing_round = self.round + flight + decrease;
        let p = self.planet();
        let ghost w = *self;
        let mut info = self.take_planet(p);
        info.splash_around(takeoff, blast);
        proof {
            lemma_splash_keeps(w.here().pair(), takeoff, blast, 8, rocket_id);
        }
        let still = id_map_get(&info.units, rocket_id).is_some();
        self.put_planet(p, info);
        proof {
            assert(self.same_but_planet(w, p));
            self.lemma_planet_changed(w, p);
        }
        if !still {
            return Err(GameError::InternalEngineError);
        }
        let ghost w1 = *self;
        self.move_to_space(rocket_id);
        let t = self.team();
        let ghost w2 = *self;
        let mut team = self.take_team(t);
        team.rocket_landings.add_landing(landing_round, RocketLanding::new(rocket_id, destination));
        self.put_team(t, team);
        proof {
            assert(self.same_but_team(w2, t));
            self.lemma_team_changed(w2, t);
            assert(self.team_states@[t] == self.us());
            assert(w2.team_states@[t] == w2.us());
            assert(w1.here().units@[rocket_id] == w.here().units@[rocket_id]);
        }
        Ok(())
    }
}


/// The garrisoned units of rocket `r` that land with it: those in space
/// that are not already on the planet.
pub open spec fn landing_party(space: Map<UnitID, Unit>, units: Map<UnitID, Unit>, r: Unit) -> Set<UnitID> {
    Set::new(|g: UnitID| r.garrison@.contains(g) && g != r.id && space.contains_key(g) && !units.contains_key(g))
}

/// The planet's units after rocket `r` lands at `dest` on a free square,
/// with its landing party.
pub open spec fn touched_down(v: PlanetUnits, space: Map<UnitID, Unit>, r: Unit, dest: MapLocation) -> PlanetUnits {
    (
        v.0.union_prefer_right(space.restrict(landing_party(space, v.0, r))).insert(
            r.id,
            Unit { location: Location::OnMap(dest), ..r },
        ),
        v.1.insert(dest, r.id),
    )
}

/// The planet's units after the unit `id` is destroyed, with its garrison
/// if it is a rocket or a factory.
pub open spec fn wrecked(v: PlanetUnits, id: UnitID) -> PlanetUnits {
    (v.0.remove_keys(doomed(v.0[id])), index_without(v.1, doomed(v.0[id])))
}

/// The grid `new` is the grid `old` with the square at column `x`, row `y`
/// set to `value`.
pub open spec fn grid_set(new: Seq<Vec<u32>>, old: Seq<Vec<u32>>, x: int, y: int, value: u32) -> bool {
    &&& new.len() == old.len()
    &&& forall|j: int| 0 <= j < old.len() ==> (#[trigger] new[j])@ == (if j == y {
        old[j]@.update(x, value)
    } else {
        old[j]@
    })
}

impl PlanetInfo {
    /// Puts rocket `r` down at `dest`, a free square, with its landing party
    /// from `space`, which no longer holds the rocket.
    fn touch_down(&mut self, r: Unit, dest: MapLocation, space: &mut FnvHashMap<UnitID, Unit>)
        requires
            old(self).indexed(),
            !old(self).units@.contains_key(r.id),
            !old(self).units_by_loc@.contains_key(dest),
            !old(space)@.contains_key(r.id),
            keyed_by_id(old(space)@),
            forall|id: UnitID| #[trigger] old(space)@.contains_key(id) ==> !(old(space)@[id].location is OnMap),
        ensures
            final(self).indexed(),
            final(self).pair() == touched_down(old(self).pair(), old(space)@, r, dest),
            final(space)@ == old(space)@.remove_keys(landing_party(old(space)@, old(self).units@, r)),
            final(self).karbonite == old(self).karbonite,
            final(self).visible_locs == old(self).visible_locs,
    {
        let ghost u0 = self.units@;
        let ghost b0 = self.units_by_loc@;
        let ghost sp0 = space@;
        let ghost all = landing_party(sp0, u0, r);
        let mut i: usize = 0;
        while i < r.garrison.len()
            invariant
                0 <= i <= r.garrison@.len(),
                all == landing_party(sp0, u0, r),
                !u0.contains_key(r.id),
                !sp0.contains_key(r.id),
                self.units@ == u0.union_prefer_right(sp0.restrict(Set::new(|g: UnitID| all.contains(g) && r.garrison@.take(i as int).contains(g)))),
                space@ == sp0.remove_keys(Set::new(|g: UnitID| all.contains(g) && r.garrison@.take(i as int).contains(g))),
                self.units_by_loc@ == b0,
                self.karbonite == old(self).karbonite,
                self.visible_locs == old(self).visible_locs,
            decreases r.garrison@.len() - i,
        {
            let g = r.garrison[i];
            let ghost before = Set::new(|q: UnitID| all.contains(q) && r.garrison@.take(i as int).contains(q));
            let ghost after = Set::new(|q: UnitID| all.contains(q) && r.garrison@.take(i + 1).contains(q));
            proof {
                assert(r.garrison@.take(i + 1) =~= r.garrison@.take(i as int).push(g));
                assert(r.garrison@.contains(g)) by {
                    assert(r.garrison@[i as int] == g);
                }
            }
            let mut moved = false;
            if g != r.id && id_map_get(&self.units, g).is_none() {
                match id_map_remove(space, g) {
                    Some(u) => {
                        id_map_insert(&mut self.units, g, u);
                        moved = true;
                    },
                    None => {},
                }
            }
            proof {
                if moved {
                    assert(all.contains(g));
                    assert forall|q: UnitID| #[trigger] after.contains(q) == before.insert(g).contains(q) by {
                        lemma_push_contains(r.garrison@.take(i as int), g, q);
                    }
                    assert(after =~= before.insert(g));
                    assert(self.units@ =~= u0.union_prefer_right(sp0.restrict(after)));
                    assert(space@ =~= sp0.remove_keys(after));
                } else {
                    assert forall|q: UnitID| #[trigger] after.contains(q) == before.contains(q) by {
                        lemma_push_contains(r.garrison@.take(i as int), g, q);
                        if q == g && all.contains(g) {
                            assert(before.contains(g));
                        }
                    }
                    assert(after =~= before);
                    assert(space@ =~= sp0.remove_keys(after));
                }
            }
            i = i + 1;
        }
        let landed = Unit { location: Location::OnMap(dest), ..r };
        id_map_insert(&mut self.units, r.id, landed);
        loc_map_insert(&mut self.units_by_loc, dest, r.id);
        proof {
            assert(r.garrison@.take(r.garrison@.len() as int) =~= r.garrison@);
            let fin = Set::new(|g: UnitID| all.contains(g) && r.garrison@.take(r.garrison@.len() as int).contains(g));
            assert(fin =~= all);
            assert(space@ =~= sp0.remove_keys(all));
            assert(self.units@ =~= u0.union_prefer_right(sp0.restrict(all)).insert(r.id, landed));
            assert forall|l: MapLocation| #[trigger] self.units_by_loc@.contains_key(l) implies {
                &&& self.units@.contains_key(self.units_by_loc@[l])
                &&& self.units@[self.units_by_loc@[l]].location == Location::OnMap(l)
            } by {
                if l != dest {
                    assert(b0.contains_key(l));
                    assert(u0.contains_key(b0[l]));
                }
            }
            assert forall|q: UnitID| #[trigger] self.units@.contains_key(q) implies {
                &&& self.units@[q].id == q
                &&& (self.units@[q].location is OnMap ==> {
                    let l = self.units@[q].location->OnMap_0;
                    self.units_by_loc@.contains_key(l) && self.units_by_loc@[l] == q
                })
            } by {
                if q != r.id {
                    if u0.contains_key(q) {
                        if u0[q].location is OnMap {
                            let l = u0[q].location->OnMap_0;
                            assert(b0[l] == q);
                            assert(l != dest);
                        }
                    } else {
                        assert(sp0.contains_key(q));
                    }
                }
            }
        }
    }
}

impl GameWorld {
    /// Moves the rocket from the current team's space down to the free
    /// square `dest` of the current planet, with its landing party.
    fn move_from_space(&mut self, rocket_id: UnitID, dest: MapLocation)
        requires
            old(self).wf(),
            old(self).us().units_in_space@.contains_key(rocket_id),
            !old(self).here().units@.contains_key(rocket_id),
            !old(self).here().units_by_loc@.contains_key(dest),
        ensures
            final(self).wf(),
            old(self).full() ==> final(self).full(),
            final(self).same_but(*old(self), old(self).mover().planet, old(self).mover().team),
            final(self).here().pair() == touched_down(
                old(self).here().pair(),
                old(self).us().units_in_space@,
                old(self).us().units_in_space@[rocket_id],
                dest,
            ),
            final(self).here().karbonite == old(self).here().karbonite,
            final(self).here().visible_locs == old(self).here().visible_locs,
            final(self).us() == (TeamInfo { units_in_space: final(self).us().units_in_space, ..old(self).us() }),
            final(self).us().units_in_space@ == old(self).us().units_in_space@.remove(rocket_id).remove_keys(
                landing_party(old(self).us().units_in_space@, old(self).here().units@, old(self).us().units_in_space@[rocket_id]),
            ),
    {
        proof {
            self.lemma_here_fits();
        }
        let p = self.planet();
        let t = self.team();
        let ghost w = *self;
        let mut info = self.take_planet(p);
        let mut team = self.take_team(t);
        let rocket = id_map_remove(&mut team.units_in_space, rocket_id).unwrap();
        let ghost sp1 = team.units_in_space@;
        info.touch_down(rocket, dest, &mut team.units_in_space);
        self.put_planet(p, info);
        self.put_team(t, team);
        proof {
            let sp0 = w.us().units_in_space@;
            assert(landing_party(sp1, w.here().units@, rocket) =~= landing_party(sp0, w.here().units@, rocket));
            assert(sp1.union_prefer_right(sp1.restrict(landing_party(sp1, w.here().units@, rocket))) =~= sp1.union_prefer_right(sp1.restrict(landing_party(sp1, w.here().units@, rocket))));
            assert(sp1.restrict(landing_party(sp1, w.here().units@, rocket)) =~= sp0.restrict(landing_party(sp0, w.here().units@, rocket)));
            assert(self.same_but(w, p, t));
            let sp = self.team_states@[t].units_in_space@;
            assert forall|id: UnitID| #[trigger] sp.contains_key(id) implies sp[id].id == id && !(
            sp[id].location is OnMap) by {
                assert(sp0.contains_key(id));
            }
            self.lemma_mine_changed(w, p, t);
            assert(self.team_states@[t] == self.us());
            assert(self.planet_states@[p] == self.here());
        }
    }
}


impl GameWorld {
    /// Whether the rocket can land at the destination on the current
    /// planet: it is the player's rocket, in space and not on the planet,
    /// its blast damage is not negative, every unit on the planet and in
    /// space has a health and defense in the range damage is dealt in, and
    /// the destination is a square of the planet's map.
    pub open spec fn landable(&self, rocket_id: UnitID, destination: MapLocation) -> bool {
        let u = self.us().units_in_space@[rocket_id];
        &&& self.us().units_in_space@.contains_key(rocket_id)
        &&& !self.here().units@.contains_key(rocket_id)
        &&& u.team == self.mover().team
        &&& u.unit_type == UnitType::Rocket
        &&& u.location is InSpace
        &&& u.blast_damage >= 0
        &&& tame(self.here().units@)
        &&& tame(self.us().units_in_space@)
        &&& inside(destination, self.map_of(self.mover().planet))
    }

    /// What landing the rocket at the destination does: the world after it.
    pub open spec fn landing_outcome(&self, rocket_id: UnitID, destination: MapLocation, next: GameWorld) -> bool {
        let u = self.us().units_in_space@[rocket_id];
        let v = self.here().pair();
        let space = self.us().units_in_space@;
        let dmg = u.blast_damage;
        let occupied = v.1.contains_key(destination);
        let victim = v.0[v.1[destination]];
        let crushed = occupied && (victim.unit_type == UnitType::Rocket || victim.unit_type
            == UnitType::Factory);
        let k = self.here().karbonite@;
        &&& next.same_but(*self, self.mover().planet, self.mover().team)
        &&& next.here().visible_locs == self.here().visible_locs
        &&& next.us() == (TeamInfo { units_in_space: next.us().units_in_space, ..self.us() })
        &&& crushed ==> next.us().units_in_space@ =~= space.remove_keys(
            u.garrison@.to_set().insert(rocket_id),
        ) && next.here().karbonite == self.here().karbonite
        &&& occupied && !crushed ==> next.us().units_in_space@ =~= space && grid_set(
            next.here().karbonite@,
            k,
            destination.x as int,
            destination.y as int,
            0,
        )
        &&& occupied ==> next.here().pair() == splash(wrecked(v, v.1[destination]), destination, dmg, 8)
        &&& !occupied ==> {
            &&& next.us().units_in_space@ =~= space.remove(rocket_id).remove_keys(
                landing_party(space, v.0, u),
            )
            &&& next.here().pair() == splash(touched_down(v, space, u, destination), destination, dmg, 8)
            &&& grid_set(next.here().karbonite@, k, destination.x as int, destination.y as int, 0)
        }
    }

    /// Lands the rocket on the current planet, damaging the units in the
    /// adjacent squares. The rocket is destroyed if it lands on a factory or
    /// a rocket; a unit it lands on is destroyed. Unless the rocket is
    /// destroyed, the karbonite of the square is gone. A rocket that lands
    /// on a robot destroys it and stays in space.
    pub fn land_rocket(&mut self, rocket_id: UnitID, destination: MapLocation)
        requires
            old(self).wf(),
            old(self).landable(rocket_id, destination),
        ensures
            final(self).wf(),
            old(self).full() ==> final(self).full(),
            old(self).landing_outcome(rocket_id, destination, *final(self)),
    {
        proof {
            self.lemma_here_fits();
        }
        let p = self.planet();
        let t = self.team();
        let ghost w = *self;
        let ghost u = w.us().units_in_space@[rocket_id];
        let blast = self.my_unit(rocket_id).unwrap().rocket_blast_damage().unwrap();
        let x = destination.x as usize;
        let y = destination.y as usize;
        match loc_map_get(&self.my_planet().units_by_loc, destination) {
            Some(vid) => {
                let vid = *vid;
                let ghost victim = w.here().units@[vid];
                let vt = id_map_get(&self.my_planet().units, vid).unwrap().unit_type;
                if vt == UnitType::Rocket || vt == UnitType::Factory {
                    self.destroy_unit(rocket_id);
                    proof {
                        assert(self.here() == w.here());
                        assert forall|id: UnitID| #[trigger] self.here().units@.contains_key(id) implies self.here().units@[id].health
                            <= i32::MAX && self.here().units@[id].defense <= i32::MAX by {
                        }
                    }
                } else {
                    let ghost w0 = *self;
                    let mut info = self.take_planet(p);
                    info.set_karbonite(x, y, 0);
                    self.put_planet(p, info);
                    proof {
                        assert(self.same_but_planet(w0, p));
                        self.lemma_planet_changed(w0, p);
                    }
                }
                let ghost w1 = *self;
                proof {
                    assert(w1.here().units@ == w.here().units@);
                    assert(w1.here().units_by_loc@ == w.here().units_by_loc@);
                }
                self.destroy_unit(vid);
                proof {
                    assert(self.here().pair() == wrecked(w.here().pair(), vid));
                }
            },
            None => {
                self.move_from_space(rocket_id, destination);
                let ghost w0 = *self;
                let mut info = self.take_planet(p);
                info.set_karbonite(x, y, 0);
                self.put_planet(p, info);
                proof {
                    assert(self.same_but_planet(w0, p));
                    self.lemma_planet_changed(w0, p);
                }
            },
        }
        let ghost w2 = *self;
        proof {
            self.lemma_here_fits();
            assert(tame(self.here().units@)) by {
                assert forall|id: UnitID| #[trigger] self.here().units@.contains_key(id) implies self.here().units@[id].health
                    <= i32::MAX && self.here().units@[id].defense <= i32::MAX by {
                    if w.here().units@.contains_key(id) {
                    } else {
                        assert(w.us().units_in_space@.contains_key(id));
                    }
                }
            }
        }
        let mut info = self.take_planet(p);
        info.splash_around(destination, blast);
        self.put_planet(p, info);
        proof {
            assert(self.same_but_planet(w2, p));
            self.lemma_planet_changed(w2, p);
        }
    }
}


/// What the viewer is told of a rocket landing.
pub open spec fn landing_delta(l: RocketLanding) -> ViewerDelta {
    ViewerDelta::RocketLanding { rocket_id: l.rocket_id, location: l.destination }
}

/// Every message of the log from position `from` on tells of one of the
/// landings.
pub open spec fn reports_landings(log: Seq<ViewerDelta>, from: int, landings: Seq<RocketLanding>) -> bool {
    forall|j: int| from <= j < log.len() ==> exists|k: int| 0 <= k < landings.len() && #[trigger] log[j] == landing_delta(landings[k])
}

/// The worlds `ws` run from `first` to `last`, each the one before it after
/// the next scheduled landing.
pub open spec fn landing_chain(ws: Seq<GameWorld>, first: GameWorld, ls: Seq<RocketLanding>, last: GameWorld) -> bool {
    &&& ws.len() == ls.len() + 1
    &&& ws[0] == first
    &&& ws.last() == last
    &&& forall|j: int| 0 <= j < ls.len() ==> (#[trigger] ws[j]).landing_step(ls[j], ws[j + 1])
}

impl GameWorld {
    /// Everything but the state of planet `p`, of team `t` and the messages
    /// for the viewer is as in `old`.
    pub closed spec fn same_but_log(&self, old: GameWorld, p: Planet, t: Team) -> bool {
        &&& self.round == old.round
        &&& self.player_to_move == old.player_to_move
        &&& self.id_generator == old.id_generator
        &&& self.asteroids == old.asteroids
        &&& self.orbit == old.orbit
        &&& self.planet_maps == old.planet_maps
        &&& self.planet_states@.dom() == old.planet_states@.dom()
        &&& forall|q: Planet| q != p ==> #[trigger] self.planet_states@[q] == old.planet_states@[q]
        &&& self.team_states@.dom() == old.team_states@.dom()
        &&& forall|q: Team| q != t ==> #[trigger] self.team_states@[q] == old.team_states@[q]
    }

    /// The world is `old` with one more message for the viewer.
    pub closed spec fn logged(&self, old: GameWorld, d: ViewerDelta) -> bool {
        &&& *self == (GameWorld { viewer_changes: self.viewer_changes, ..old })
        &&& self.viewer_log() == old.viewer_log().push(d)
    }

    /// One scheduled landing: where the rocket can land, it lands and the
    /// viewer is told; elsewhere nothing happens.
    pub open spec fn landing_step(&self, l: RocketLanding, next: GameWorld) -> bool {
        if self.landable(l.rocket_id, l.destination) {
            exists|m: GameWorld| #[trigger] self.landing_outcome(l.rocket_id, l.destination, m) && next.logged(
                m,
                landing_delta(l),
            )
        } else {
            next == *self
        }
    }

    /// The world `next` is this world after the scheduled landings, one
    /// after another in their order.
    pub open spec fn landings_made(&self, ls: Seq<RocketLanding>, next: GameWorld) -> bool {
        exists|ws: Seq<GameWorld>| #[trigger] landing_chain(ws, *self, ls, next)
    }

    /// Whether the rocket can land at the destination now.
    fn can_land(&self, rocket_id: UnitID, destination: MapLocation) -> (r: bool)
        requires
            self.wf(),
        ensures
            r == self.landable(rocket_id, destination),
    {
        proof {
            self.lemma_here_fits();
        }
        let rocket = match id_map_get(&self.my_team().units_in_space, rocket_id) {
            Some(u) => u,
            None => {
                return false;
            },
        };
        if id_map_get(&self.my_planet().units, rocket_id).is_some() {
            return false;
        }
        let in_space = match rocket.location {
            Location::InSpace => true,
            _ => false,
        };
        let map = self.starting_map(self.planet());
        rocket.team == self.team() && rocket.unit_type == UnitType::Rocket && in_space && rocket.blast_damage >= 0
            && self.my_planet().is_tame() && all_tame(&self.my_team().units_in_space) && destination.x >= 0
            && destination.y >= 0 && (destination.x as usize) < map.width && (destination.y as usize) < map.height
    }

    /// Lands the team's rockets due this round on the current planet, in the
    /// order they were scheduled, and tells the viewer of each landing. A
    /// landing that cannot be made (see `landable`) is passed over.
    pub fn process_rockets(&mut self, team: Team)
        requires
            old(self).wf(),
            old(self).has_team(team),
        ensures
            final(self).wf(),
            old(self).full() ==> final(self).full(),
            final(self).same_but_log(*old(self), old(self).mover().planet, old(self).mover().team),
            final(self).us() == (TeamInfo { units_in_space: final(self).us().units_in_space, ..old(self).us() }),
            final(self).viewer_log().len() >= old(self).viewer_log().len(),
            final(self).viewer_log().subrange(0, old(self).viewer_log().len() as int) == old(self).viewer_log(),
            reports_landings(
                final(self).viewer_log(),
                old(self).viewer_log().len() as int,
                old(self).team_of(team).rocket_landings.on_round(old(self).round_now()),
            ),
            old(self).landings_made(old(self).team_of(team).rocket_landings.on_round(old(self).round_now()), *final(self)),
    {
        proof {
            self.lemma_here_fits();
            assert(self.team_states@.contains_key(team));
        }
        let landings = self.get_team(team).rocket_landings.landings_on(self.round);
        let ghost w0 = *self;
        let ghost p = w0.mover().planet;
        let ghost t = w0.mover().team;
        let ghost mut ws: Seq<GameWorld> = seq![w0];
        let mut i: usize = 0;
        proof {
            assert(landings@.take(0) =~= Seq::<RocketLanding>::empty());
        }
        while i < landings.len()
            invariant
                w0.wf(),
                self.wf(),
                w0.full() ==> self.full(),
                0 <= i <= landings@.len(),
                landings@ == w0.team_of(team).rocket_landings.on_round(w0.round_now()),
                p == w0.mover().planet,
                t == w0.mover().team,
                self.same_but_log(w0, p, t),
                self.us() == (TeamInfo { units_in_space: self.us().units_in_space, ..w0.us() }),
                self.viewer_log().len() >= w0.viewer_log().len(),
                self.viewer_log().subrange(0, w0.viewer_log().len() as int) == w0.viewer_log(),
                reports_landings(self.viewer_log(), w0.viewer_log().len() as int, landings@),
                landing_chain(ws, w0, landings@.take(i as int), *self),
            decreases landings@.len() - i,
        {
            let l = landings[i];
            let ghost start = *self;
            if self.can_land(l.rocket_id, l.destination) {
                let ghost before = *self;
                self.land_rocket(l.rocket_id, l.destination);
                let ghost mid = *self;
                self.viewer_changes.push(ViewerDelta::RocketLanding { rocket_id: l.rocket_id, location: l.destination });
                proof {
                    assert(self.same_but_log(w0, p, t));
                    assert(self.viewer_log() == before.viewer_log().push(
                        ViewerDelta::RocketLanding { rocket_id: l.rocket_id, location: l.destination },
                    ));
                    assert(self.viewer_log().subrange(0, w0.viewer_log().len() as int) =~= w0.viewer_log());
                    assert forall|j: int| w0.viewer_log().len() <= j < self.viewer_log().len() implies exists|k: int|
                        0 <= k < landings@.len() && #[trigger] self.viewer_log()[j] == landing_delta(landings@[k]) by {
                        if j < before.viewer_log().len() {
                            assert(self.viewer_log()[j] == before.viewer_log()[j]);
                        } else {
                            assert(landings@[i as int] == l);
                            assert(self.viewer_log()[j] == landing_delta(landings@[i as int]));
                        }
                    }
                    assert(self.planet_states == mid.planet_states && self.team_states == mid.team_states);
                    assert(self.us() == mid.us());
                    assert(self.logged(mid, landing_delta(l)));
                    assert(start.landing_step(l, *self));
                }
            }
            proof {
                assert(start.landing_step(l, *self));
                let ws0 = ws;
                let l0 = landings@.take(i as int);
                let l1 = landings@.take(i + 1);
                ws = ws.push(*self);
                assert(l1 =~= l0.push(l));
                assert forall|j: int| 0 <= j < l1.len() implies (#[trigger] ws[j]).landing_step(l1[j], ws[j + 1]) by {
                    if j < l0.len() {
                        assert(ws0[j].landing_step(l0[j], ws0[j + 1]));
                        assert(ws[j] == ws0[j] && ws[j + 1] == ws0[j + 1] && l1[j] == l0[j]);
                    } else {
                        assert(ws[j] == start && ws[j + 1] == *self && l1[j] == l);
                    }
                }
                assert(landing_chain(ws, w0, l1, *self));
            }
            i = i + 1;
        }
        proof {
            assert(landings@.take(landings@.len() as int) =~= landings@);
            assert(landing_chain(ws, w0, landings@, *self));
        }
        proof {
            assert(w0 == *old(self));
        }
    }
}


/// The snipe of the unit can advance within the range of its fields.
pub open spec fn snipe_fits(u: Unit) -> bool {
    &&& u.target_location is Some ==> u.countdown >= 1
    &&& u.target_location is Some && u.countdown == 1 ==> u.ability_heat + u.ability_cooldown <= u32::MAX
}

/// Whether the unit is one of the team's rangers whose snipe advances.
pub open spec fn snipe_advances(u: Unit, team: Team) -> bool {
    u.team == team && u.unit_type == UnitType::Ranger && snipe_fits(u)
}

/// The unit after its snipe, if it is one of the team's rangers, advances
/// a round: the countdown runs down, and at its end the ranger fires.
pub open spec fn snipe_step(u: Unit, team: Team) -> Unit {
    if !snipe_advances(u, team) || u.target_location is None {
        u
    } else if u.countdown > 1 {
        Unit { countdown: (u.countdown - 1) as u32, ..u }
    } else {
        Unit {
            countdown: 0,
            attack_heat: 0,
            movement_heat: 0,
            target_location: None,
            ability_heat: (u.ability_heat + u.ability_cooldown) as u32,
            ..u
        }
    }
}

/// The shot the unit fires this round, if it is one of the team's rangers
/// whose countdown ends: its target, damage and ID.
pub open spec fn snipe_shot(u: Unit, team: Team) -> Option<(MapLocation, i32, UnitID)> {
    if snipe_advances(u, team) && u.target_location is Some && u.countdown == 1 {
        Some((u.target_location->0, u.damage, u.id))
    } else {
        None
    }
}

/// The shots are those that the team's rangers among the units fire, each
/// once, in some order.
pub open spec fn shots_of(units: Map<UnitID, Unit>, team: Team, shots: Seq<(MapLocation, i32, UnitID)>) -> bool {
    &&& forall|j: int| 0 <= j < shots.len() ==> fired_among(units.dom(), units, team, #[trigger] shots[j])
    &&& forall|id: UnitID| #[trigger] units.contains_key(id) && snipe_shot(units[id], team) is Some
        ==> shots.contains(snipe_shot(units[id], team)->0)
    &&& forall|j: int, k: int| 0 <= j < k < shots.len() ==> (#[trigger] shots[j]).2 != (#[trigger] shots[k]).2
}

/// The shot is fired by one of the given units.
pub open spec fn fired_among(ids: Set<UnitID>, units: Map<UnitID, Unit>, team: Team, shot: (MapLocation, i32, UnitID)) -> bool {
    exists|id: UnitID| #[trigger] ids.contains(id) && snipe_shot(units[id], team) == Some(shot)
}

impl PlanetInfo {
    /// Advances the snipe of each of the team's rangers on the planet, and
    /// returns the target, damage and ID of each ranger that fires.
    fn advance_snipes(&mut self, team: Team) -> (r: Vec<(MapLocation, i32, UnitID)>)
        requires
            old(self).indexed(),
        ensures
            final(self).indexed(),
            final(self).units@.dom() == old(self).units@.dom(),
            forall|id: UnitID| #[trigger] final(self).units@.contains_key(id) ==> final(self).units@[id].health
                == old(self).units@[id].health && final(self).units@[id].defense == old(self).units@[id].defense,
            final(self).units@ == old(self).units@.map_values(|u: Unit| snipe_step(u, team)),
            shots_of(old(self).units@, team, r@),
            final(self).units_by_loc == old(self).units_by_loc,
            final(self).karbonite == old(self).karbonite,
            final(self).visible_locs == old(self).visible_locs,
    {
        let keys = id_map_keys(&self.units);
        let ghost o = old(self).units@;
        let mut targets: Vec<(MapLocation, i32, UnitID)> = Vec::new();
        let mut i: usize = 0;
        while i < keys.len()
            invariant
                self.indexed(),
                self.units@.dom() == old(self).units@.dom(),
                forall|id: UnitID| #[trigger] self.units@.contains_key(id) ==> self.units@[id].health == old(
                    self,
                ).units@[id].health && self.units@[id].defense == old(self).units@[id].defense,
                self.units_by_loc == old(self).units_by_loc,
                self.karbonite == old(self).karbonite,
                self.visible_locs == old(self).visible_locs,
                o == old(self).units@,
                0 <= i <= keys@.len(),
                keys@.no_duplicates(),
                forall|k: UnitID| #[trigger] keys@.contains(k) <==> o.contains_key(k),
                forall|id: UnitID| #[trigger] self.units@.contains_key(id) ==> self.units@[id] == (if keys@.take(
                    i as int,
                ).contains(id) {
                    snipe_step(o[id], team)
                } else {
                    o[id]
                }),
                forall|j: int| 0 <= j < targets@.len() ==> fired_among(
                    keys@.take(i as int).to_set(),
                    o,
                    team,
                    #[trigger] targets@[j],
                ),
                forall|id: UnitID| #[trigger] keys@.take(i as int).contains(id) && snipe_shot(o[id], team) is Some
                    ==> targets@.contains(snipe_shot(o[id], team)->0),
                forall|j: int, k: int| 0 <= j < k < targets@.len() ==> (#[trigger] targets@[j]).2 != (
                #[trigger] targets@[k]).2,
            decreases keys@.len() - i,
        {
            let id = keys[i];
            proof {
                assert(keys@.contains(id));
                let t1 = keys@.take(i + 1);
                let t0 = keys@.take(i as int);
                assert forall|a: UnitID| #[trigger] t1.contains(a) == (t0.contains(a) || a == id) by {
                    if t1.contains(a) {
                        let j = choose|j: int| 0 <= j < t1.len() && t1[j] == a;
                        if j < i {
                            assert(t0[j] == a);
                        }
                    }
                    if t0.contains(a) {
                        let j = choose|j: int| 0 <= j < t0.len() && t0[j] == a;
                        assert(t1[j] == a);
                    }
                    assert(t1[i as int] == id);
                }
                assert(!t0.contains(id)) by {
                    if t0.contains(id) {
                        let j = choose|j: int| 0 <= j < t0.len() && t0[j] == id;
                        assert(keys@[j] == keys@[i as int]);
                    }
                }
            }
            let ghost prev_targets = targets@;
            i = i + 1;
            let fires = match id_map_get(&self.units, id) {
                Some(u) => {
                    let fits = match u.target_location {
                        Some(_) => u.countdown >= 1 && (u.countdown != 1 || u.ability_heat <= u32::MAX
                            - u.ability_cooldown),
                        None => true,
                    };
                    u.team == team && u.unit_type == UnitType::Ranger && fits
                },
                None => false,
            };
            if fires {
                let ghost before = self.units@;
                let mut u = id_map_remove(&mut self.units, id).unwrap();
                let target = u.process_snipe();
                let damage = u.damage;
                let ranger = u.id;
                id_map_insert(&mut self.units, id, u);
                proof {
                    lemma_same_place(before, self.units_by_loc@, u);
                    assert(self.units@ =~= before.insert(u.id, u));
                }
                match target {
                    Some(t) => {
                        targets.push((t, damage, ranger));
                    },
                    None => {},
                }
            }
            proof {
                let ip = (i - 1) as int;
                let t0 = keys@.take(ip);
                let t1 = keys@.take(i as int);
                assert(old(self).indexed());
                assert(o.contains_key(id));
                assert(self.units@[id] == snipe_step(o[id], team));
                assert forall|j: int| 0 <= j < targets@.len() implies fired_among(
                    t1.to_set(),
                    o,
                    team,
                    #[trigger] targets@[j],
                ) by {
                    if j < prev_targets.len() {
                        assert(targets@[j] == prev_targets[j]);
                        assert(fired_among(t0.to_set(), o, team, prev_targets[j]));
                        let x = choose|x: UnitID| #[trigger] t0.to_set().contains(x) && snipe_shot(o[x], team)
                            == Some(prev_targets[j]);
                        assert(t1.to_set().contains(x));
                    } else {
                        assert(t1.to_set().contains(id));
                    }
                }
                assert forall|x: UnitID| #[trigger] t1.contains(x) && snipe_shot(o[x], team) is Some
                    implies targets@.contains(snipe_shot(o[x], team)->0) by {
                    if x == id {
                        assert(targets@[targets@.len() - 1] == snipe_shot(o[x], team)->0);
                    } else {
                        assert(t0.contains(x));
                        let j = choose|j: int| 0 <= j < prev_targets.len() && prev_targets[j] == snipe_shot(o[x], team)->0;
                        assert(targets@[j] == prev_targets[j]);
                    }
                }
                assert forall|j: int, k: int| 0 <= j < k < targets@.len() implies (#[trigger] targets@[j]).2 != (
                #[trigger] targets@[k]).2 by {
                    if k >= prev_targets.len() {
                        assert(targets@[j] == prev_targets[j]);
                        assert(fired_among(t0.to_set(), o, team, prev_targets[j]));
                        let x = choose|x: UnitID| #[trigger] t0.to_set().contains(x) && snipe_shot(o[x], team)
                            == Some(prev_targets[j]);
                        assert(t0.contains(x));
                        let jj = choose|jj: int| 0 <= jj < t0.len() && t0[jj] == x;
                        assert(keys@[jj] == x);
                        assert(keys@.contains(x));
                        assert(o[x].id == x);
                        assert(targets@[k].2 == id);
                    } else {
                        assert(targets@[j] == prev_targets[j] && targets@[k] == prev_targets[k]);
                    }
                }
            }
        }
        proof {
            assert(keys@.take(keys@.len() as int) =~= keys@);
            assert(self.units@ =~= o.map_values(|u: Unit| snipe_step(u, team)));
            assert forall|j: int| 0 <= j < targets@.len() implies fired_among(o.dom(), o, team, #[trigger] targets@[j]) by {
                assert(fired_among(keys@.take(i as int).to_set(), o, team, targets@[j]));
                let x = choose|x: UnitID| #[trigger] keys@.take(i as int).to_set().contains(x) && snipe_shot(o[x], team)
                    == Some(targets@[j]);
                assert(keys@.contains(x));
                assert(o.dom().contains(x));
            }
            assert forall|x: UnitID| #[trigger] o.contains_key(x) && snipe_shot(o[x], team) is Some implies targets@.contains(
                snipe_shot(o[x], team)->0,
            ) by {
                assert(keys@.contains(x));
                assert(keys@.take(i as int).contains(x));
            }
        }
        targets
    }
}

/// The units after each shot of the list, in its order, hits the unit at
/// its target. A shot whose damage is negative, or that comes while a
/// unit's health or defense is out of the range damage is dealt in, does
/// no damage.
pub open spec fn shots_landed(v: PlanetUnits, shots: Seq<(MapLocation, i32, UnitID)>) -> PlanetUnits
    decreases shots.len(),
{
    if shots.len() == 0 {
        v
    } else {
        let v0 = shots_landed(v, shots.drop_last());
        let t = shots.last();
        if t.1 >= 0 && tame(v0.0) {
            hit_at(v0, t.0, t.1)
        } else {
            v0
        }
    }
}

/// What the viewer is told of the shots, in their order.
pub open spec fn snipe_reports(shots: Seq<(MapLocation, i32, UnitID)>) -> Seq<ViewerDelta> {
    shots.map_values(|t: (MapLocation, i32, UnitID)| ViewerDelta::RangerSnipe { ranger_id: t.2, target_location: t.0 })
}

impl GameWorld {
    /// The world is the world `old` after its current team's rangers on its
    /// current planet advanced their snipes and fired the shots, in their
    /// order.
    pub open spec fn rangers_fired(&self, old: GameWorld, shots: Seq<(MapLocation, i32, UnitID)>) -> bool {
        let team = old.mover().team;
        &&& shots_of(old.here().units@, team, shots)
        &&& self.here().pair() == shots_landed(
            (old.here().units@.map_values(|u: Unit| snipe_step(u, team)), old.here().units_by_loc@),
            shots,
        )
        &&& self.viewer_log() == old.viewer_log() + snipe_reports(shots)
    }
}

/// Every message of the log from position `from` on tells of a ranger's
/// snipe.
pub open spec fn reports_snipes(log: Seq<ViewerDelta>, from: int) -> bool {
    forall|j: int| from <= j < log.len() ==> (#[trigger] log[j]) is RangerSnipe
}

impl GameWorld {
    /// Advances the snipe of each of the current team's rangers on the
    /// current planet. Each ranger that fires deals its damage to the unit
    /// at its target, if any, and the viewer is told of the snipe. A shot
    /// whose damage is negative, or that comes while a unit's health or
    /// defense is out of the range damage is dealt in, does no damage.
    pub fn process_rangers(&mut self)
        requires
            old(self).wf(),
        ensures
            final(self).wf(),
            old(self).full() ==> final(self).full(),
            final(self).same_but_log(*old(self), old(self).mover().planet, old(self).mover().team),
            final(self).us() == old(self).us(),
            final(self).here().karbonite == old(self).here().karbonite,
            final(self).here().visible_locs == old(self).here().visible_locs,
            final(self).viewer_log().len() >= old(self).viewer_log().len(),
            final(self).viewer_log().subrange(0, old(self).viewer_log().len() as int) == old(self).viewer_log(),
            reports_snipes(final(self).viewer_log(), old(self).viewer_log().len() as int),
            exists|shots: Seq<(MapLocation, i32, UnitID)>| #[trigger] final(self).rangers_fired(*old(self), shots),
    {
        proof {
            self.lemma_here_fits();
        }
        let team = self.team();
        let p = self.planet();
        let ghost w0 = *self;
        let mut info = self.take_planet(p);
        let targets = info.advance_snipes(team);
        self.put_planet(p, info);
        proof {
            assert(self.same_but_planet(w0, p));
            self.lemma_planet_changed(w0, p);
        }
        let mut i: usize = 0;
        while i < targets.len()
            invariant
                w0.wf(),
                self.wf(),
                w0.full() ==> self.full(),
                p == w0.mover().planet,
                self.same_but_log(w0, p, w0.mover().team),
                self.us() == w0.us(),
                self.here().karbonite == w0.here().karbonite,
                self.here().visible_locs == w0.here().visible_locs,
                self.viewer_log().len() >= w0.viewer_log().len(),
                self.viewer_log().subrange(0, w0.viewer_log().len() as int) == w0.viewer_log(),
                reports_snipes(self.viewer_log(), w0.viewer_log().len() as int),
                0 <= i <= targets@.len(),
                team == w0.mover().team,
                shots_of(w0.here().units@, team, targets@),
                self.here().pair() == shots_landed(
                    (w0.here().units@.map_values(|u: Unit| snipe_step(u, team)), w0.here().units_by_loc@),
                    targets@.take(i as int),
                ),
                self.viewer_log() == w0.viewer_log() + snipe_reports(targets@.take(i as int)),
            decreases targets@.len() - i,
        {
            let (target, damage, ranger) = targets[i];
            let ghost pre = self.here().pair();
            proof {
                assert(targets@.take(i + 1).drop_last() =~= targets@.take(i as int));
                assert(targets@.take(i + 1).last() == targets@[i as int]);
                assert(snipe_reports(targets@.take(i + 1)) =~= snipe_reports(targets@.take(i as int)).push(
                    ViewerDelta::RangerSnipe { ranger_id: ranger, target_location: target },
                ));
            }
            proof {
                self.lemma_here_fits();
            }
            if damage >= 0 && self.my_planet().is_tame() {
                let ghost w1 = *self;
                let mut info = self.take_planet(p);
                info.hit_location(target, damage);
                self.put_planet(p, info);
                proof {
                    assert(self.same_but_planet(w1, p));
                    self.lemma_planet_changed(w1, p);
                }
            }
            let ghost w2 = *self;
            self.viewer_changes.push(ViewerDelta::RangerSnipe { ranger_id: ranger, target_location: target });
            proof {
                assert(self.viewer_log() == w2.viewer_log().push(
                    ViewerDelta::RangerSnipe { ranger_id: ranger, target_location: target },
                ));
                assert(self.viewer_log().subrange(0, w0.viewer_log().len() as int) =~= w0.viewer_log());
                assert forall|j: int| w0.viewer_log().len() <= j < self.viewer_log().len() implies (#[trigger] self.viewer_log()[j]) is RangerSnipe by {
                    if j < w2.viewer_log().len() {
                        assert(self.viewer_log()[j] == w2.viewer_log()[j]);
                    }
                }
                assert(self.here() == w2.here() && self.us() == w2.us());
                assert(self.viewer_log() =~= w0.viewer_log() + snipe_reports(targets@.take(i + 1)));
            }
            i = i + 1;
        }
        proof {
            assert(targets@.take(targets@.len() as int) =~= targets@);
            assert(self.rangers_fired(w0, targets@));
        }
    }
}


/// The worlds `ws` run from `first` to `last`, each the one before it after
/// the next delta, which succeeded.
pub open spec fn delta_chain(ws: Seq<GameWorld>, first: GameWorld, ds: Seq<Delta>, flight: Rounds, last: GameWorld) -> bool {
    &&& ws.len() == ds.len() + 1
    &&& ws[0] == first
    &&& ws.last() == last
    &&& forall|j: int| 0 <= j < ds.len() ==> !(#[trigger] ws[j]).refuses_disintegration(ds[j]) && ws[j].applied(
        ds[j],
        flight,
        ws[j + 1],
        Ok::<(), GameError>(()),
    )
}

/// The player who moves after `p`: Red then Blue on Earth, then Red then
/// Blue on Mars, then the next round.
pub open spec fn next_player(p: Player) -> Player {
    match (p.team, p.planet) {
        (Team::Red, Planet::Earth) => Player { team: Team::Blue, planet: Planet::Earth },
        (Team::Blue, Planet::Earth) => Player { team: Team::Red, planet: Planet::Mars },
        (Team::Red, Planet::Mars) => Player { team: Team::Blue, planet: Planet::Mars },
        (Team::Blue, Planet::Mars) => Player { team: Team::Red, planet: Planet::Earth },
    }
}

impl GameWorld {
    /// The world is `old` with the turn passed to the player `p`.
    pub closed spec fn passed_to(&self, old: GameWorld, p: Player) -> bool {
        *self == (GameWorld { player_to_move: p, ..old })
    }

    /// The steps of ending this world's turn: the round ends after its last
    /// player (`w1`), the turn passes to the next player (`w2`), on Mars
    /// that team's rockets due this round land (`w3`), and the rangers of
    /// the player to move fire `shots` (`next`).
    pub open spec fn turn_steps(
        &self,
        w1: GameWorld,
        w2: GameWorld,
        w3: GameWorld,
        next: GameWorld,
        shots: Seq<(MapLocation, i32, UnitID)>,
    ) -> bool {
        let p = next_player(self.mover());
        &&& if self.mover() == (Player { team: Team::Blue, planet: Planet::Mars }) {
            self.round_ended(w1)
        } else {
            w1 == *self
        }
        &&& w2.passed_to(w1, p)
        &&& if p.planet == Planet::Mars {
            w2.landings_made(w2.team_of(p.team).rocket_landings.on_round(w2.round_now()), w3)
        } else {
            w3 == w2
        }
        &&& next.rangers_fired(w3, shots)
    }

    /// What ending this world's turn makes of it (see `turn_steps`).
    pub open spec fn turn_ended(&self, next: GameWorld) -> bool {
        exists|w1: GameWorld, w2: GameWorld, w3: GameWorld, shots: Seq<(MapLocation, i32, UnitID)>|
            #[trigger] self.turn_steps(w1, w2, w3, next, shots)
    }

    /// Ends the current player's turn. After the last player of a round the
    /// round ends (see `end_round`). Then, on Mars, the team's rockets due
    /// this round land, and the rangers of the player to move advance their
    /// snipes.
    pub fn end_turn(&mut self)
        requires
            old(self).full(),
            old(self).mover() == (Player { team: Team::Blue, planet: Planet::Mars }) ==> old(self).round_now() < u32::MAX,
        ensures
            final(self).full(),
            final(self).mover() == next_player(old(self).mover()),
            old(self).mover() == (Player { team: Team::Blue, planet: Planet::Mars }) ==> final(self).round_now() == old(
                self,
            ).round_now() + 1,
            old(self).mover() != (Player { team: Team::Blue, planet: Planet::Mars }) ==> final(self).round_now() == old(
                self,
            ).round_now(),
            old(self).turn_ended(*final(self)),
    {
        let ghost w0 = *self;
        let next = match (self.player_to_move.team, self.player_to_move.planet) {
            (Team::Red, Planet::Earth) => Player::new(Team::Blue, Planet::Earth),
            (Team::Blue, Planet::Earth) => Player::new(Team::Red, Planet::Mars),
            (Team::Red, Planet::Mars) => Player::new(Team::Blue, Planet::Mars),
            (Team::Blue, Planet::Mars) => {
                self.end_round();
                Player::new(Team::Red, Planet::Earth)
            },
        };
        let ghost w = *self;
        self.player_to_move = next;
        proof {
            assert forall|p: Planet| #[trigger] self.planet_states@.contains_key(p) implies {
                &&& self.planet_states@[p].indexed()
                &&& self.planet_states@[p].fits(self.planet_maps@[p])
            } by {
                assert(w.planet_states@.contains_key(p));
            }
            assert forall|t: Team| #[trigger] self.team_states@.contains_key(t) implies self.team_states@[t].wf() by {
                assert(w.team_states@.contains_key(t));
            }
            assert forall|t: Team, id: UnitID| #[trigger] self.team_states@[t].units_in_space@.contains_key(id)
                && self.team_states@.contains_key(t) implies self.team_states@[t].units_in_space@[id].id == id
                && !(self.team_states@[t].units_in_space@[id].location is OnMap) by {
                assert(w.team_states@[t].units_in_space@.contains_key(id));
            }
        }
        let ghost w2 = *self;
        proof {
            assert(w2.passed_to(w, next));
        }
        if self.planet() == Planet::Mars {
            let team = self.team();
            self.process_rockets(team);
        }
        let ghost w3 = *self;
        self.process_rangers();
        proof {
            let shots = choose|shots: Seq<(MapLocation, i32, UnitID)>| #[trigger] self.rangers_fired(w3, shots);
            assert(w0.turn_steps(w, w2, w3, *self, shots));
        }
    }
}


/// The value of the units of a list, those of `team` where one is given:
/// what each cost.
pub open spec fn units_value(units: Seq<Unit>, team: Option<Team>) -> int
    decreases units.len(),
{
    if units.len() == 0 {
        0
    } else {
        units_value(units.drop_last(), team) + (if team is None || units.last().team == team->0 {
            crate::unit::type_value(units.last().unit_type) as int
        } else {
            0
        })
    }
}

/// How the game stands at a round, given the value of each team's units
/// and each team's karbonite: it goes on while both teams have units and
/// the round limit is not passed; else the team with the higher value wins,
/// then the one with more karbonite, and a tie goes to Blue on an even
/// `coin` and to Red on an odd one.
pub open spec fn game_outcome(round: Rounds, red: int, blue: int, red_karbonite: u32, blue_karbonite: u32, coin: u8) -> Option<
    Team,
> {
    if round <= ROUND_LIMIT && red > 0 && blue > 0 {
        None
    } else if red < blue {
        Some(Team::Blue)
    } else if red > blue {
        Some(Team::Red)
    } else if red_karbonite < blue_karbonite {
        Some(Team::Blue)
    } else if red_karbonite > blue_karbonite {
        Some(Team::Red)
    } else if coin % 2 == 0 {
        Some(Team::Blue)
    } else {
        Some(Team::Red)
    }
}

/// How a game is decided. It goes on while the round limit is not passed
/// and both teams have units of some value; otherwise it is over and has a
/// winner. The winner is the team whose units are worth more; only where
/// the values are equal does the team with more karbonite win; only where
/// both are equal does the coin decide: Blue on an even coin, Red on an odd
/// one. Swapping the teams' values and
/// karbonite swaps the winner, but for a full tie.
pub proof fn lemma_unit_value_decides_first(
    round: Rounds,
    red: int,
    blue: int,
    red_karbonite: u32,
    blue_karbonite: u32,
    coin: u8,
)
    ensures
        game_outcome(round, red, blue, red_karbonite, blue_karbonite, coin) is None <==> (round <= ROUND_LIMIT && red
            > 0 && blue > 0),
        game_outcome(round, red, blue, red_karbonite, blue_karbonite, coin) is Some && red > blue ==> game_outcome(
            round,
            red,
            blue,
            red_karbonite,
            blue_karbonite,
            coin,
        ) == Some(Team::Red),
        game_outcome(round, red, blue, red_karbonite, blue_karbonite, coin) is Some && red < blue ==> game_outcome(
            round,
            red,
            blue,
            red_karbonite,
            blue_karbonite,
            coin,
        ) == Some(Team::Blue),
        game_outcome(round, red, blue, red_karbonite, blue_karbonite, coin) is Some && red == blue && red_karbonite
            > blue_karbonite ==> game_outcome(round, red, blue, red_karbonite, blue_karbonite, coin) == Some(
            Team::Red,
        ),
        game_outcome(round, red, blue, red_karbonite, blue_karbonite, coin) is Some && red == blue && red_karbonite
            < blue_karbonite ==> game_outcome(round, red, blue, red_karbonite, blue_karbonite, coin) == Some(
            Team::Blue,
        ),
        game_outcome(round, red, blue, red_karbonite, blue_karbonite, coin) is Some && red == blue && red_karbonite
            == blue_karbonite ==> game_outcome(round, red, blue, red_karbonite, blue_karbonite, coin) == if coin % 2
            == 0 {
            Some(Team::Blue)
        } else {
            Some(Team::Red)
        },
        (red != blue || red_karbonite != blue_karbonite) ==> game_outcome(
            round,
            blue,
            red,
            blue_karbonite,
            red_karbonite,
            coin,
        ) == match game_outcome(round, red, blue, red_karbonite, blue_karbonite, coin) {
            Some(t) => Some(t.other()),
            None => None,
        },
{
}

/// The value of the units of the list, those of `team` where one is given.
fn list_value(units: &Vec<Unit>, team: Option<Team>) -> (r: u128)
    ensures
        r == units_value(units@, team),
        r <= units@.len() * 0x1_0000_0000,
{
    let mut sum: u128 = 0;
    let mut i: usize = 0;
    while i < units.len()
        invariant
            0 <= i <= units@.len(),
            sum == units_value(units@.take(i as int), team),
            sum <= i * 0x1_0000_0000,
        decreases units@.len() - i,
    {
        let u = &units[i];
        proof {
            assert(units@.take(i + 1).drop_last() =~= units@.take(i as int));
        }
        let counts = match team {
            Some(t) => u.team == t,
            None => true,
        };
        if counts {
            sum = sum + u.unit_type.value() as u128;
        }
        i = i + 1;
    }
    proof {
        assert(units@.take(units@.len() as int) =~= units@);
    }
    sum
}

/// Who wins at a round, given the value of each team's units, each team's
/// karbonite and a coin for the last tie-break.
pub fn game_winner(round: Rounds, red_value: u128, blue_value: u128, red_karbonite: u32, blue_karbonite: u32, coin: u8) -> (r: Option<Team>)
    ensures
        r == game_outcome(round, red_value as int, blue_value as int, red_karbonite, blue_karbonite, coin),
{
    if round <= ROUND_LIMIT && red_value > 0 && blue_value > 0 {
        None
    } else if red_value < blue_value {
        Some(Team::Blue)
    } else if red_value > blue_value {
        Some(Team::Red)
    } else if red_karbonite < blue_karbonite {
        Some(Team::Blue)
    } else if red_karbonite > blue_karbonite {
        Some(Team::Red)
    } else if coin % 2 == 0 {
        Some(Team::Blue)
    } else {
        Some(Team::Red)
    }
}

impl GameWorld {
    /// The lists hold the units on Earth, on Mars, in Red's space and in
    /// Blue's space.
    pub open spec fn lists_all(&self, e: Seq<Unit>, m: Seq<Unit>, rs: Seq<Unit>, bs: Seq<Unit>) -> bool {
        &&& lists_units(e, self.planet_of(Planet::Earth).units@)
        &&& lists_units(m, self.planet_of(Planet::Mars).units@)
        &&& lists_units(rs, self.team_of(Team::Red).units_in_space@)
        &&& lists_units(bs, self.team_of(Team::Blue).units_in_space@)
    }

    /// How the game stands, with the units counted from the lists of the
    /// units on Earth, on Mars, in Red's space and in Blue's space.
    pub open spec fn outcome_of(&self, e: Seq<Unit>, m: Seq<Unit>, rs: Seq<Unit>, bs: Seq<Unit>, coin: u8) -> Option<Team> {
        game_outcome(
            self.round_now(),
            units_value(e, Some(Team::Red)) + units_value(m, Some(Team::Red)) + units_value(rs, None),
            units_value(e, Some(Team::Blue)) + units_value(m, Some(Team::Blue)) + units_value(bs, None),
            self.team_of(Team::Red).karbonite,
            self.team_of(Team::Blue).karbonite,
            coin,
        )
    }

    /// Determines if the game has ended, returning the winning team if so.
    /// A team's value counts its units on both planets and all its units in
    /// space; where value and karbonite tie, a random byte decides.
    pub fn is_game_over(&self) -> (r: Option<Team>)
        requires
            self.full(),
        ensures
            exists|e: Seq<Unit>, m: Seq<Unit>, rs: Seq<Unit>, bs: Seq<Unit>, coin: u8|
                #![trigger self.lists_all(e, m, rs, bs), self.outcome_of(e, m, rs, bs, coin)]
                self.lists_all(e, m, rs, bs) && r == self.outcome_of(e, m, rs, bs, coin),
    {
        proof {
            assert(self.planet_states@.contains_key(Planet::Earth));
            assert(self.planet_states@.contains_key(Planet::Mars));
            assert(self.team_states@.contains_key(Team::Red));
            assert(self.team_states@.contains_key(Team::Blue));
        }
        let earth = copy_unit_map(&self.get_planet(Planet::Earth).units);
        let mars = copy_unit_map(&self.get_planet(Planet::Mars).units);
        let red_space = copy_unit_map(&self.get_team(Team::Red).units_in_space);
        let blue_space = copy_unit_map(&self.get_team(Team::Blue).units_in_space);
        let e_red = list_value(&earth, Some(Team::Red));
        let m_red = list_value(&mars, Some(Team::Red));
        let s_red = list_value(&red_space, None);
        let e_blue = list_value(&earth, Some(Team::Blue));
        let m_blue = list_value(&mars, Some(Team::Blue));
        let s_blue = list_value(&blue_space, None);
        let lens = (earth.len(), mars.len(), red_space.len(), blue_space.len());
        let red = e_red + m_red + s_red;
        let blue = e_blue + m_blue + s_blue;
        let red_karbonite = self.get_team(Team::Red).karbonite;
        let blue_karbonite = self.get_team(Team::Blue).karbonite;
        let decided = (self.round <= ROUND_LIMIT && red > 0 && blue > 0) || red != blue || red_karbonite
            != blue_karbonite;
        let coin = if decided { 0 } else { random_u8() };
        let r = game_winner(self.round, red, blue, red_karbonite, blue_karbonite, coin);
        proof {
            assert(self.lists_all(earth@, mars@, red_space@, blue_space@));
            assert(r == self.outcome_of(earth@, mars@, red_space@, blue_space@, coin));
        }
        r
    }
}


impl GameWorld {
    /// What applying a delta does: the result and the world after it of the
    /// function of the delta's kind; a queued or reset research always
    /// succeeds, whether the branch was taken or not.
    pub open spec fn applied(&self, delta: Delta, flight: Rounds, next: GameWorld, r: Result<(), GameError>) -> bool {
        match delta {
            Delta::Attack { robot_id, target_unit_id } => self.attack_outcome(robot_id, target_unit_id, next, r),
            Delta::BeginSnipe { ranger_id, location } => self.begin_snipe_outcome(ranger_id, location, next, r),
            Delta::Blueprint { worker_id, structure_type, direction } => self.blueprint_outcome(
                worker_id,
                structure_type,
                direction,
                next,
                r,
            ),
            Delta::Blink { mage_id, location } => self.blink_outcome(mage_id, location, next, r),
            Delta::Build { worker_id, blueprint_id } => self.build_outcome(worker_id, blueprint_id, next, r),
            Delta::Disintegrate { unit_id } => self.disintegrate_unit_outcome(unit_id, next, r),
            Delta::Harvest { worker_id, direction } => self.harvest_outcome(worker_id, direction, next, r),
            Delta::Heal { healer_id, target_robot_id } => self.heal_outcome(healer_id, target_robot_id, next, r),
            Delta::Javelin { knight_id, target_unit_id } => self.javelin_outcome(knight_id, target_unit_id, next, r),
            Delta::LaunchRocket { rocket_id, location } => self.launch_rocket_outcome(
                rocket_id,
                location,
                flight,
                next,
                r,
            ),
            Delta::Load { structure_id, robot_id } => self.load_outcome(structure_id, robot_id, next, r),
            Delta::Move { robot_id, direction } => self.move_robot_outcome(robot_id, direction, next, r),
            Delta::Overcharge { healer_id, target_robot_id } => self.overcharge_outcome(
                healer_id,
                target_robot_id,
                next,
                r,
            ),
            Delta::ProduceRobot { factory_id, robot_type } => self.produce_robot_outcome(
                factory_id,
                robot_type,
                next,
                r,
            ),
            Delta::QueueResearch { branch } => r == Ok::<(), GameError>(()) && exists|b: bool|
                self.queue_research_outcome(branch, next, b),
            Delta::Repair { worker_id, structure_id } => self.repair_outcome(worker_id, structure_id, next, r),
            Delta::Replicate { worker_id, direction } => self.replicate_outcome(worker_id, direction, next, r),
            Delta::ResetResearchQueue => r == Ok::<(), GameError>(()) && exists|b: bool|
                self.reset_research_outcome(next, b),
            Delta::Unload { structure_id, direction } => self.unload_outcome(structure_id, direction, next, r),
            Delta::WriteTeamArray { index, value } => self.write_team_array_outcome(index, value, next, r),
            Delta::Nothing => r == Ok::<(), GameError>(()) && next == *self,
        }
    }

    /// A refused delta changes nothing: whenever applying a delta fails, the
    /// state of every planet and every team is as it was, except when a
    /// launched rocket's own blast took it with it.
    pub proof fn lemma_refused_changes_nothing(
        &self,
        delta: Delta,
        flight: Rounds,
        next: GameWorld,
        r: Result<(), GameError>,
    )
        requires
            self.applied(delta, flight, next, r),
            r is Err,
            !(delta is LaunchRocket && r == Err::<(), GameError>(GameError::InternalEngineError)),
        ensures
            forall|q: Planet| #[trigger] next.planet_of(q) == self.planet_of(q),
            forall|t: Team| #[trigger] next.team_of(t) == self.team_of(t),
    {
        match delta {
            Delta::Attack { .. } => {},
            Delta::BeginSnipe { .. } => {},
            Delta::Blueprint { .. } => {},
            Delta::Blink { .. } => {},
            Delta::Build { .. } => {},
            Delta::Disintegrate { .. } => {},
            Delta::Harvest { .. } => {},
            Delta::Heal { .. } => {},
            Delta::Javelin { .. } => {},
            Delta::LaunchRocket { .. } => {},
            Delta::Load { .. } => {},
            Delta::Move { .. } => {},
            Delta::Overcharge { .. } => {},
            Delta::ProduceRobot { .. } => {},
            Delta::QueueResearch { .. } => {},
            Delta::Repair { .. } => {},
            Delta::Replicate { .. } => {},
            Delta::ResetResearchQueue => {},
            Delta::Unload { .. } => {},
            Delta::WriteTeamArray { .. } => {},
            Delta::Nothing => {},
        }
    }

    /// Applies a single delta to this world, with the function of its kind;
    /// `flight` is the orbit's duration of flight for the current round,
    /// used by a rocket launch.
    pub fn apply(&mut self, delta: &Delta, flight: Rounds) -> (r: Result<(), GameError>)
        requires
            old(self).wf(),
            *delta matches Delta::Disintegrate { unit_id } ==> (old(self).sees_unit(unit_id) && old(self).seen_unit(
                unit_id,
            ).team == old(self).mover().team ==> old(self).destroyable(unit_id)),
        ensures
            final(self).wf(),
            old(self).full() ==> final(self).full(),
            old(self).applied(*delta, flight, *final(self), r),
    {
        match *delta {
            Delta::Attack { robot_id, target_unit_id } => self.attack(robot_id, target_unit_id),
            Delta::BeginSnipe { ranger_id, location } => self.begin_snipe(ranger_id, location),
            Delta::Blueprint { worker_id, structure_type, direction } => self.blueprint(
                worker_id,
                structure_type,
                direction,
            ),
            Delta::Blink { mage_id, location } => self.blink(mage_id, location),
            Delta::Build { worker_id, blueprint_id } => self.build(worker_id, blueprint_id),
            Delta::Disintegrate { unit_id } => self.disintegrate_unit(unit_id),
            Delta::Harvest { worker_id, direction } => self.harvest(worker_id, direction),
            Delta::Heal { healer_id, target_robot_id } => self.heal(healer_id, target_robot_id),
            Delta::Javelin { knight_id, target_unit_id } => self.javelin(knight_id, target_unit_id),
            Delta::LaunchRocket { rocket_id, location } => self.launch_rocket(rocket_id, location, flight),
            Delta::Load { structure_id, robot_id } => self.load(structure_id, robot_id),
            Delta::Move { robot_id, direction } => self.move_robot(robot_id, direction),
            Delta::Overcharge { healer_id, target_robot_id } => self.overcharge(healer_id, target_robot_id),
            Delta::ProduceRobot { factory_id, robot_type } => self.produce_robot(factory_id, robot_type),
            Delta::QueueResearch { branch } => {
                let b = self.queue_research(branch);
                assert(old(self).queue_research_outcome(branch, *self, b));
                Ok(())
            },
            Delta::Repair { worker_id, structure_id } => self.repair(worker_id, structure_id),
            Delta::Replicate { worker_id, direction } => self.replicate(worker_id, direction),
            Delta::ResetResearchQueue => {
                let b = self.reset_research();
                assert(old(self).reset_research_outcome(*self, b));
                Ok(())
            },
            Delta::Unload { structure_id, direction } => self.unload(structure_id, direction),
            Delta::WriteTeamArray { index, value } => self.write_team_array(index, value),
            Delta::Nothing => Ok(()),
        }
    }
}


/// What the viewer is told of a unit on the map.
pub open spec fn viewer_info(u: Unit) -> ViewerUnitInfo {
    ViewerUnitInfo { id: u.id, unit_type: u.unit_type, health: u.health, location: u.location }
}

/// The viewer's list of the units of a list that stand on the map, in the
/// order of the list.
pub open spec fn viewer_list(units: Seq<Unit>) -> Seq<ViewerUnitInfo>
    decreases units.len(),
{
    if units.len() == 0 {
        Seq::empty()
    } else {
        let rest = viewer_list(units.drop_last());
        if units.last().location is OnMap {
            rest.push(viewer_info(units.last()))
        } else {
            rest
        }
    }
}

/// Appends the viewer's info of each unit of the list that stands on the
/// map.
fn push_viewer_units(out: &mut Vec<ViewerUnitInfo>, units: &Vec<Unit>)
    ensures
        final(out)@ == old(out)@ + viewer_list(units@),
{
    let mut i: usize = 0;
    while i < units.len()
        invariant
            0 <= i <= units@.len(),
            out@ == old(out)@ + viewer_list(units@.take(i as int)),
        decreases units@.len() - i,
    {
        let u = &units[i];
        proof {
            assert(units@.take(i + 1).drop_last() =~= units@.take(i as int));
        }
        match u.location {
            Location::OnMap(_) => {
                out.push(ViewerUnitInfo { id: u.id, unit_type: u.unit_type, health: u.health, location: u.location });
                proof {
                    assert(out@ =~= old(out)@ + viewer_list(units@.take(i + 1)));
                }
            },
            _ => {},
        }
        i = i + 1;
    }
    proof {
        assert(units@.take(units@.len() as int) =~= units@);
    }
}

impl GameWorld {
    /// Get the additional changes that have been generated for the viewer
    /// since this function was last called.
    pub fn flush_viewer_changes(&mut self) -> (r: Vec<ViewerDelta>)
        ensures
            r@ == old(self).viewer_log(),
            final(self).viewer_log() == Seq::<ViewerDelta>::empty(),
            final(self).same_but_log(*old(self), old(self).mover().planet, old(self).mover().team),
            forall|p: Planet| #[trigger] final(self).planet_of(p) == old(self).planet_of(p),
            forall|t: Team| #[trigger] final(self).team_of(t) == old(self).team_of(t),
            old(self).wf() ==> final(self).wf(),
            old(self).full() ==> final(self).full(),
    {
        let mut changes: Vec<ViewerDelta> = Vec::new();
        std::mem::swap(&mut changes, &mut self.viewer_changes);
        changes
    }

    /// Get the list of units, with some info truncated, to send to the
    /// viewer: the units standing on Earth, then those on Mars.
    pub fn get_viewer_units(&self) -> (r: Vec<ViewerUnitInfo>)
        requires
            self.full(),
        ensures
            exists|e: Seq<Unit>, m: Seq<Unit>| #![trigger lists_units(e, self.planet_of(Planet::Earth).units@), lists_units(m, self.planet_of(Planet::Mars).units@)]
                lists_units(e, self.planet_of(Planet::Earth).units@) && lists_units(
                m,
                self.planet_of(Planet::Mars).units@,
            ) && r@ == viewer_list(e) + viewer_list(m),
    {
        proof {
            assert(self.planet_states@.contains_key(Planet::Earth));
            assert(self.planet_states@.contains_key(Planet::Mars));
        }
        let earth = copy_unit_map(&self.get_planet(Planet::Earth).units);
        let mars = copy_unit_map(&self.get_planet(Planet::Mars).units);
        let mut units: Vec<ViewerUnitInfo> = Vec::new();
        push_viewer_units(&mut units, &earth);
        push_viewer_units(&mut units, &mars);
        proof {
            assert(units@ =~= viewer_list(earth@) + viewer_list(mars@));
        }
        units
    }
}


/// The unit sees the square `l`: it is on the team, stands on the map of
/// planet `m.planet`, and `l` is a square of that map within its vision
/// range.
pub open spec fn sees_from(u: Unit, team: Team, m: PlanetMap, l: MapLocation) -> bool {
    &&& u.team == team
    &&& u.location is OnMap
    &&& map_loc(u).planet == m.planet
    &&& near_square(m, map_loc(u), u.vision_range as int, l)
}

/// One of the team's units of the planet sees the square.
pub open spec fn team_sees(units: Map<UnitID, Unit>, team: Team, m: PlanetMap, l: MapLocation) -> bool {
    exists|id: UnitID| units.contains_key(id) && #[trigger] sees_from(units[id], team, m, l)
}

/// The square at column `x`, row `y` of the map.
pub open spec fn square(m: PlanetMap, x: int, y: int) -> MapLocation {
    MapLocation { planet: m.planet, x: x as i32, y: y as i32 }
}

/// A grid of a bool for each square of the map: whether the team sees it.
pub open spec fn sight_grid(g: Seq<Vec<bool>>, units: Map<UnitID, Unit>, team: Team, m: PlanetMap) -> bool {
    &&& g.len() == m.height
    &&& forall|y: int| 0 <= y < m.height ==> (#[trigger] g[y])@.len() == m.width
    &&& forall|y: int, x: int| 0 <= y < m.height && 0 <= x < m.width ==> #[trigger] g[y]@[x] == team_sees(
        units,
        team,
        m,
        square(m, x, y),
    )
}

/// Seeing through a list of copies of the units is seeing through the
/// units.
proof fn lemma_list_sees(all: Seq<Unit>, units: Map<UnitID, Unit>, team: Team, m: PlanetMap, l: MapLocation)
    requires
        lists_units(all, units),
    ensures
        (exists|k: int| 0 <= k < all.len() && #[trigger] sees_from(all[k], team, m, l)) == team_sees(units, team, m, l),
{
    if exists|k: int| 0 <= k < all.len() && #[trigger] sees_from(all[k], team, m, l) {
        let k = choose|k: int| 0 <= k < all.len() && #[trigger] sees_from(all[k], team, m, l);
        let id = all[k].id;
        assert(units.contains_key(id) && same_unit(all[k], units[id]));
        assert(sees_from(units[id], team, m, l));
    }
    if team_sees(units, team, m, l) {
        let id = choose|id: UnitID| units.contains_key(id) && #[trigger] sees_from(units[id], team, m, l);
        let k = choose|k: int| 0 <= k < all.len() && (#[trigger] all[k]).id == id;
        assert(same_unit(all[k], units[all[k].id]));
        assert(sees_from(all[k], team, m, l));
    }
}

/// Sets one square of a grid.
fn set_cell(g: &mut Vec<Vec<bool>>, x: usize, y: usize, v: bool)
    requires
        y < old(g)@.len(),
        x < old(g)@[y as int]@.len(),
    ensures
        final(g)@.len() == old(g)@.len(),
        forall|j: int| 0 <= j < old(g)@.len() ==> (#[trigger] final(g)@[j])@ == (if j == y {
            old(g)@[j]@.update(x as int, v)
        } else {
            old(g)@[j]@
        }),
{
    let mut row: Vec<bool> = Vec::new();
    g.set_and_swap(y, &mut row);
    row.set(x, v);
    g.set(y, row);
}

impl GameWorld {
    /// Which squares of the planet the team's units of the list see.
    fn vision_grid(&self, planet: Planet, team: Team, all: &Vec<Unit>) -> (r: Vec<Vec<bool>>)
        requires
            self.wf(),
        ensures
            r@.len() == self.map_of(planet).height,
            forall|y: int| 0 <= y < self.map_of(planet).height ==> (#[trigger] r@[y])@.len() == self.map_of(
                planet,
            ).width,
            forall|y: int, x: int|
                0 <= y < self.map_of(planet).height && 0 <= x < self.map_of(planet).width ==> #[trigger] r@[y]@[x]
                    == (exists|k: int|
                    0 <= k < all@.len() && #[trigger] sees_from(all@[k], team, self.map_of(planet), square(self.map_of(planet), x, y))),
    {
        let map = self.starting_map(planet);
        let ghost m = *map;
        let w = map.width;
        let h = map.height;
        let mut g = crate::map::filled_grid(false, w, h);
        let mut i: usize = 0;
        while i < all.len()
            invariant
                self.wf(),
                m == self.map_of(planet),
                w == m.width,
                h == m.height,
                0 <= i <= all@.len(),
                g@.len() == h,
                forall|y: int| 0 <= y < h ==> (#[trigger] g@[y])@.len() == w,
                forall|y: int, x: int| 0 <= y < h && 0 <= x < w ==> #[trigger] g@[y]@[x] == (exists|k: int|
                    0 <= k < i && #[trigger] sees_from(all@[k], team, m, square(m, x, y))),
            decreases all@.len() - i,
        {
            let u = &all[i];
            let ghost before = g@;
            match u.location {
                Location::OnMap(loc) => {
                    if u.team == team && loc.planet == planet {
                        let locs = self.all_locations_within(loc, u.vision_range);
                        let mut j: usize = 0;
                        while j < locs.len()
                            invariant
                                self.wf(),
                                m == self.map_of(planet),
                                loc.planet == planet,
                                w == m.width,
                                h == m.height,
                                0 <= j <= locs@.len(),
                                forall|q: int| 0 <= q < locs@.len() ==> near_square(
                                    m,
                                    loc,
                                    u.vision_range as int,
                                    #[trigger] locs@[q],
                                ),
                                g@.len() == h,
                                forall|y: int| 0 <= y < h ==> (#[trigger] g@[y])@.len() == w,
                                forall|y: int, x: int| 0 <= y < h && 0 <= x < w ==> #[trigger] g@[y]@[x] == (before[y]@[x]
                                    || exists|q: int| 0 <= q < j && #[trigger] locs@[q] == square(m, x, y)),
                            decreases locs@.len() - j,
                        {
                            let l = locs[j];
                            proof {
                                assert(near_square(m, loc, u.vision_range as int, locs@[j as int]));
                            }
                            let ghost g0 = g@;
                            set_cell(&mut g, l.x as usize, l.y as usize, true);
                            proof {
                                assert forall|y: int, x: int| 0 <= y < h && 0 <= x < w implies #[trigger] g@[y]@[x] == (before[y]@[x]
                                    || exists|q: int| 0 <= q < j + 1 && #[trigger] locs@[q] == square(m, x, y)) by {
                                    if y == l.y && x == l.x {
                                        assert(locs@[j as int] == square(m, x, y));
                                    } else {
                                        assert(g@[y]@[x] == g0[y]@[x]);
                                        if exists|q: int| 0 <= q < j + 1 && #[trigger] locs@[q] == square(m, x, y) {
                                            let q = choose|q: int| 0 <= q < j + 1 && #[trigger] locs@[q] == square(m, x, y);
                                            if q == j {
                                                assert(square(m, x, y).x == x && square(m, x, y).y == y);
                                            }
                                        }
                                    }
                                }
                            }
                            j = j + 1;
                        }
                        proof {
                            assert forall|y: int, x: int| 0 <= y < h && 0 <= x < w implies #[trigger] g@[y]@[x] == (exists|k: int|
                                0 <= k < i + 1 && #[trigger] sees_from(all@[k], team, m, square(m, x, y))) by {
                                let sq = square(m, x, y);
                                if sees_from(all@[i as int], team, m, sq) {
                                    assert(locs@.contains(sq));
                                    let q = choose|q: int| 0 <= q < locs@.len() && locs@[q] == sq;
                                    assert(locs@[q] == sq);
                                }
                                if exists|q: int| 0 <= q < locs@.len() && #[trigger] locs@[q] == sq {
                                    let q = choose|q: int| 0 <= q < locs@.len() && #[trigger] locs@[q] == sq;
                                    assert(near_square(m, loc, u.vision_range as int, locs@[q]));
                                    assert(sees_from(all@[i as int], team, m, sq));
                                }
                                if exists|k: int| 0 <= k < i + 1 && #[trigger] sees_from(all@[k], team, m, sq) {
                                    let k = choose|k: int| 0 <= k < i + 1 && #[trigger] sees_from(all@[k], team, m, sq);
                                    if k < i {
                                        assert(before[y]@[x]);
                                    }
                                }
                            }
                        }
                    } else {
                        proof {
                            assert forall|y: int, x: int| 0 <= y < h && 0 <= x < w implies #[trigger] g@[y]@[x] == (exists|k: int|
                                0 <= k < i + 1 && #[trigger] sees_from(all@[k], team, m, square(m, x, y))) by {
                                let sq = square(m, x, y);
                                if exists|k: int| 0 <= k < i + 1 && #[trigger] sees_from(all@[k], team, m, sq) {
                                    let k = choose|k: int| 0 <= k < i + 1 && #[trigger] sees_from(all@[k], team, m, sq);
                                    assert(k != i);
                                }
                            }
                        }
                    }
                },
                _ => {
                    proof {
                        assert forall|y: int, x: int| 0 <= y < h && 0 <= x < w implies #[trigger] g@[y]@[x] == (exists|k: int|
                            0 <= k < i + 1 && #[trigger] sees_from(all@[k], team, m, square(m, x, y))) by {
                            let sq = square(m, x, y);
                            if exists|k: int| 0 <= k < i + 1 && #[trigger] sees_from(all@[k], team, m, sq) {
                                let k = choose|k: int| 0 <= k < i + 1 && #[trigger] sees_from(all@[k], team, m, sq);
                                assert(k != i);
                            }
                        }
                    }
                },
            }
            i = i + 1;
        }
        g
    }
}


/// The unit stands on a square of the map that the team sees.
pub open spec fn in_sight(units: Map<UnitID, Unit>, team: Team, m: PlanetMap, id: UnitID) -> bool {
    &&& units.contains_key(id)
    &&& units[id].location is OnMap
    &&& team_sees(units, team, m, map_loc(units[id]))
}

/// The units of a planet that a team sees: those that stand where it sees,
/// and those garrisoned in one of them.
pub open spec fn sighted(units: Map<UnitID, Unit>, team: Team, m: PlanetMap) -> Set<UnitID> {
    Set::new(
        |id: UnitID|
            in_sight(units, team, m, id) || (units.contains_key(id) && units[id].location is InGarrison && in_sight(
                units,
                team,
                m,
                units[id].location->InGarrison_0,
            )),
    )
}

/// A copy of a planet's map.
fn copy_planet_map(m: &PlanetMap) -> (r: PlanetMap)
    ensures
        r.planet == m.planet,
        r.width == m.width,
        r.height == m.height,
        copies(r.initial_units@, m.initial_units@),
        grid_view(r.is_passable_terrain@) == grid_view(m.is_passable_terrain@),
        grid_view(r.initial_karbonite@) == grid_view(m.initial_karbonite@),
        shaped(*m) ==> shaped(r),
{
    let r = PlanetMap {
        planet: m.planet,
        height: m.height,
        width: m.width,
        initial_units: copy_units(&m.initial_units),
        is_passable_terrain: copy_grid(&m.is_passable_terrain),
        initial_karbonite: copy_grid(&m.initial_karbonite),
    };
    proof {
        if shaped(*m) {
            assert(r.initial_karbonite@.len() == grid_view(r.initial_karbonite@).len());
            assert(m.initial_karbonite@.len() == grid_view(m.initial_karbonite@).len());
            assert(r.is_passable_terrain@.len() == grid_view(r.is_passable_terrain@).len());
            assert(m.is_passable_terrain@.len() == grid_view(m.is_passable_terrain@).len());
            assert forall|y: int| 0 <= y < r.height implies (#[trigger] r.initial_karbonite@[y])@.len() == r.width by {
                assert(grid_view(r.initial_karbonite@)[y] == r.initial_karbonite@[y]@);
                assert(grid_view(m.initial_karbonite@)[y] == m.initial_karbonite@[y]@);
            }
            assert forall|y: int| 0 <= y < r.height implies (#[trigger] r.is_passable_terrain@[y])@.len() == r.width by {
                assert(grid_view(r.is_passable_terrain@)[y] == r.is_passable_terrain@[y]@);
                assert(grid_view(m.is_passable_terrain@)[y] == m.is_passable_terrain@[y]@);
            }
        }
    }
    r
}

/// A copy of a map of units.
fn copy_unit_table(m: &FnvHashMap<UnitID, Unit>) -> (r: FnvHashMap<UnitID, Unit>)
    ensures
        r@.dom() == m@.dom(),
        forall|id: UnitID| #[trigger] r@.contains_key(id) ==> same_unit(r@[id], m@[id]),
{
    let keys = id_map_keys(m);
    let mut out: FnvHashMap<UnitID, Unit> = fnv_new();
    let mut i: usize = 0;
    while i < keys.len()
        invariant
            keys@.no_duplicates(),
            forall|k: UnitID| #[trigger] keys@.contains(k) <==> m@.contains_key(k),
            0 <= i <= keys@.len(),
            forall|k: UnitID| #[trigger] out@.contains_key(k) <==> exists|j: int| 0 <= j < i && keys@[j] == k,
            forall|k: UnitID| #[trigger] out@.contains_key(k) ==> same_unit(out@[k], m@[k]),
        decreases keys@.len() - i,
    {
        let k = keys[i];
        assert(keys@.contains(k));
        let u = id_map_get(m, k).unwrap();
        id_map_insert(&mut out, k, u.clone());
        proof {
            assert forall|q: UnitID| #[trigger] out@.contains_key(q) <==> exists|j: int| 0 <= j < i + 1 && keys@[j] == q by {
                if q == k {
                    assert(keys@[i as int] == q);
                }
                if exists|j: int| 0 <= j < i + 1 && keys@[j] == q {
                    let j = choose|j: int| 0 <= j < i + 1 && keys@[j] == q;
                    if j < i {
                    }
                }
            }
        }
        i = i + 1;
    }
    proof {
        assert forall|k: UnitID| #[trigger] out@.dom().contains(k) == m@.dom().contains(k) by {
            if m@.contains_key(k) {
                assert(keys@.contains(k));
                let j = choose|j: int| 0 <= j < keys@.len() && keys@[j] == k;
                assert(out@.contains_key(k));
            }
            if out@.contains_key(k) {
                let j = choose|j: int| 0 <= j < keys@.len() && keys@[j] == k;
                assert(keys@.contains(keys@[j]));
            }
        }
        assert(out@.dom() =~= m@.dom());
    }
    out
}


/// Whether the team sees the square `l` of planet `planet`, by the grid
/// of its sight.
fn grid_sees(g: &Vec<Vec<bool>>, planet: Planet, w: usize, h: usize, l: MapLocation) -> (r: bool)
    requires
        g@.len() == h,
        forall|y: int| 0 <= y < h ==> (#[trigger] g@[y])@.len() == w,
    ensures
        r == (l.planet == planet && 0 <= l.x < w && 0 <= l.y < h && g@[l.y as int]@[l.x as int]),
{
    l.planet == planet && l.x >= 0 && l.y >= 0 && (l.x as usize) < w && (l.y as usize) < h
        && g[l.y as usize][l.x as usize]
}

/// A square off the map is seen by no one; a square on it is seen as the
/// grid of the team's sight says.
proof fn lemma_grid_sees(g: Seq<Vec<bool>>, units: Map<UnitID, Unit>, team: Team, m: PlanetMap, l: MapLocation)
    requires
        sight_grid(g, units, team, m),
        m.width <= i32::MAX,
        m.height <= i32::MAX,
    ensures
        team_sees(units, team, m, l) == (l.planet == m.planet && 0 <= l.x < m.width && 0 <= l.y < m.height
            && g[l.y as int]@[l.x as int]),
{
    if l.planet == m.planet && 0 <= l.x < m.width && 0 <= l.y < m.height {
        assert(square(m, l.x as int, l.y as int) == l);
        assert(g[l.y as int]@[l.x as int] == team_sees(units, team, m, square(m, l.x as int, l.y as int)));
    } else if team_sees(units, team, m, l) {
        let id = choose|id: UnitID| units.contains_key(id) && #[trigger] sees_from(units[id], team, m, l);
        assert(on_grid(m, l));
    }
}

/// The units of the planet that the team sees, with their index, given the
/// grid of the team's sight of each square.
fn sighted_units(
    info: &PlanetInfo,
    all: &Vec<Unit>,
    g: &Vec<Vec<bool>>,
    team: Team,
    planet: Planet,
    w: usize,
    h: usize,
    Ghost(m): Ghost<PlanetMap>,
) -> (r: (FnvHashMap<UnitID, Unit>, FnvHashMap<MapLocation, UnitID>))
    requires
        info.indexed(),
        lists_units(all@, info.units@),
        sight_grid(g@, info.units@, team, m),
        planet == m.planet,
        w == m.width,
        h == m.height,
        m.width <= i32::MAX,
        m.height <= i32::MAX,
    ensures
        r.0@.dom() == sighted(info.units@, team, m),
        forall|id: UnitID| #[trigger] r.0@.contains_key(id) ==> same_unit(r.0@[id], info.units@[id]),
        index_ok(r.0@, r.1@),
{
    let ghost u0 = info.units@;
    let ghost b0 = info.units_by_loc@;
    let mut units: FnvHashMap<UnitID, Unit> = fnv_new();
    let mut by_loc: FnvHashMap<MapLocation, UnitID> = fnv_new();
    let mut i: usize = 0;
    while i < all.len()
        invariant
            info.indexed(),
            u0 == info.units@,
            b0 == info.units_by_loc@,
            lists_units(all@, u0),
            sight_grid(g@, u0, team, m),
            planet == m.planet,
            w == m.width,
            h == m.height,
            m.width <= i32::MAX,
            m.height <= i32::MAX,
            0 <= i <= all@.len(),
            forall|id: UnitID| #[trigger] units@.contains_key(id) <==> (in_sight(u0, team, m, id) && exists|k: int|
                0 <= k < i && all@[k].id == id),
            forall|id: UnitID| #[trigger] units@.contains_key(id) ==> same_unit(units@[id], u0[id]),
            index_ok(units@, by_loc@),
        decreases all@.len() - i,
    {
        let u = &all[i];
        proof {
            assert(u0.contains_key(all@[i as int].id) && same_unit(all@[i as int], u0[all@[i as int].id]));
        }
        match u.location {
            Location::OnMap(l) => {
                if grid_sees(g, planet, w, h, l) {
                    let id = u.id;
                    proof {
                        lemma_grid_sees(g@, u0, team, m, l);
                        assert(in_sight(u0, team, m, id));
                        if by_loc@.contains_key(l) {
                            let other = by_loc@[l];
                            assert(units@.contains_key(other) && units@[other].location == Location::OnMap(l));
                            assert(u0[other].location == Location::OnMap(l));
                            assert(b0[l] == other);
                            assert(b0[l] == id);
                            let k = choose|k: int| 0 <= k < i && all@[k].id == other;
                            assert(all@[k].id != all@[i as int].id);
                        }
                        if units@.contains_key(id) {
                            let k = choose|k: int| 0 <= k < i && all@[k].id == id;
                            assert(all@[k].id != all@[i as int].id);
                        }
                    }
                    let ghost before_u = units@;
                    let ghost before_b = by_loc@;
                    loc_map_insert(&mut by_loc, l, id);
                    id_map_insert(&mut units, id, u.clone());
                    proof {
                        assert forall|q: UnitID| #[trigger] units@.contains_key(q) <==> (in_sight(u0, team, m, q) && exists|k: int|
                            0 <= k < i + 1 && all@[k].id == q) by {
                            if q == id {
                                assert(all@[i as int].id == q);
                            } else if exists|k: int| 0 <= k < i + 1 && all@[k].id == q {
                                let k = choose|k: int| 0 <= k < i + 1 && all@[k].id == q;
                                assert(k != i);
                            }
                        }
                        assert forall|ll: MapLocation| #[trigger] by_loc@.contains_key(ll) implies {
                            &&& units@.contains_key(by_loc@[ll])
                            &&& units@[by_loc@[ll]].location == Location::OnMap(ll)
                        } by {
                            if ll != l {
                                assert(before_b.contains_key(ll));
                            }
                        }
                        assert forall|q: UnitID| #[trigger] units@.contains_key(q) implies {
                            &&& units@[q].id == q
                            &&& (units@[q].location is OnMap ==> {
                                let ll = units@[q].location->OnMap_0;
                                by_loc@.contains_key(ll) && by_loc@[ll] == q
                            })
                        } by {
                            if q != id {
                                assert(before_u.contains_key(q));
                                if units@[q].location is OnMap {
                                    let ll = units@[q].location->OnMap_0;
                                    assert(before_b.contains_key(ll) && before_b[ll] == q);
                                    if ll == l {
                                        assert(u0[q].location == Location::OnMap(l));
                                        assert(b0[l] == q);
                                    }
                                }
                            }
                        }
                    }
                } else {
                    proof {
                        lemma_grid_sees(g@, u0, team, m, l);
                        assert forall|q: UnitID| #[trigger] units@.contains_key(q) <==> (in_sight(u0, team, m, q) && exists|k: int|
                            0 <= k < i + 1 && all@[k].id == q) by {
                            if exists|k: int| 0 <= k < i + 1 && all@[k].id == q {
                                let k = choose|k: int| 0 <= k < i + 1 && all@[k].id == q;
                                if k == i {
                                    assert(!in_sight(u0, team, m, q));
                                }
                            }
                        }
                    }
                }
            },
            _ => {
                proof {
                    assert forall|q: UnitID| #[trigger] units@.contains_key(q) <==> (in_sight(u0, team, m, q) && exists|k: int|
                        0 <= k < i + 1 && all@[k].id == q) by {
                        if exists|k: int| 0 <= k < i + 1 && all@[k].id == q {
                            let k = choose|k: int| 0 <= k < i + 1 && all@[k].id == q;
                            if k == i {
                                assert(!in_sight(u0, team, m, q));
                            }
                        }
                    }
                }
            },
        }
        i = i + 1;
    }
    proof {
        assert forall|id: UnitID| #[trigger] units@.contains_key(id) == in_sight(u0, team, m, id) by {
            if in_sight(u0, team, m, id) {
                let k = choose|k: int| 0 <= k < all@.len() && (#[trigger] all@[k]).id == id;
            }
        }
    }
    let mut j: usize = 0;
    while j < all.len()
        invariant
            info.indexed(),
            u0 == info.units@,
            lists_units(all@, u0),
            sight_grid(g@, u0, team, m),
            planet == m.planet,
            w == m.width,
            h == m.height,
            m.width <= i32::MAX,
            m.height <= i32::MAX,
            0 <= j <= all@.len(),
            forall|id: UnitID| #[trigger] units@.contains_key(id) <==> (in_sight(u0, team, m, id) || (u0.contains_key(id)
                && u0[id].location is InGarrison && in_sight(u0, team, m, u0[id].location->InGarrison_0) && exists|k: int|
                0 <= k < j && all@[k].id == id)),
            forall|id: UnitID| #[trigger] units@.contains_key(id) ==> same_unit(units@[id], u0[id]),
            index_ok(units@, by_loc@),
        decreases all@.len() - j,
    {
        let u = &all[j];
        proof {
            assert(u0.contains_key(all@[j as int].id) && same_unit(all@[j as int], u0[all@[j as int].id]));
        }
        let carried_in_sight = match u.location {
            Location::InGarrison(s) => match id_map_get(&info.units, s) {
                Some(su) => match su.location {
                    Location::OnMap(sl) => {
                        proof {
                            lemma_grid_sees(g@, u0, team, m, sl);
                        }
                        grid_sees(g, planet, w, h, sl)
                    },
                    _ => false,
                },
                None => false,
            },
            _ => false,
        };
        let ghost before_u = units@;
        if carried_in_sight {
            let id = u.id;
            id_map_insert(&mut units, id, u.clone());
            proof {
                assert(!(u0[id].location is OnMap));
                assert forall|ll: MapLocation| #[trigger] by_loc@.contains_key(ll) implies {
                    &&& units@.contains_key(by_loc@[ll])
                    &&& units@[by_loc@[ll]].location == Location::OnMap(ll)
                } by {
                    assert(before_u.contains_key(by_loc@[ll]));
                    if by_loc@[ll] == id {
                        assert(before_u[id].location == Location::OnMap(ll));
                    }
                }
                assert forall|q: UnitID| #[trigger] units@.contains_key(q) implies {
                    &&& units@[q].id == q
                    &&& (units@[q].location is OnMap ==> {
                        let ll = units@[q].location->OnMap_0;
                        by_loc@.contains_key(ll) && by_loc@[ll] == q
                    })
                } by {
                    if q != id {
                        assert(before_u.contains_key(q));
                    }
                }
                assert forall|q: UnitID| #[trigger] units@.contains_key(q) <==> (in_sight(u0, team, m, q) || (u0.contains_key(q)
                    && u0[q].location is InGarrison && in_sight(u0, team, m, u0[q].location->InGarrison_0) && exists|k: int|
                    0 <= k < j + 1 && all@[k].id == q)) by {
                    if q == id {
                        assert(all@[j as int].id == q);
                    } else if exists|k: int| 0 <= k < j + 1 && all@[k].id == q {
                        let k = choose|k: int| 0 <= k < j + 1 && all@[k].id == q;
                        assert(k != j);
                    }
                }
            }
        } else {
            proof {
                assert forall|q: UnitID| #[trigger] units@.contains_key(q) <==> (in_sight(u0, team, m, q) || (u0.contains_key(q)
                    && u0[q].location is InGarrison && in_sight(u0, team, m, u0[q].location->InGarrison_0) && exists|k: int|
                    0 <= k < j + 1 && all@[k].id == q)) by {
                    if exists|k: int| 0 <= k < j + 1 && all@[k].id == q {
                        let k = choose|k: int| 0 <= k < j + 1 && all@[k].id == q;
                        if k == j && u0.contains_key(q) && u0[q].location is InGarrison && !in_sight(u0, team, m, q) {
                            let s = u0[q].location->InGarrison_0;
                            assert(!in_sight(u0, team, m, s));
                        }
                    }
                }
            }
        }
        j = j + 1;
    }
    proof {
        assert forall|id: UnitID| #[trigger] units@.dom().contains(id) == sighted(u0, team, m).contains(id) by {
            if u0.contains_key(id) {
                let k = choose|k: int| 0 <= k < all@.len() && (#[trigger] all@[k]).id == id;
            }
        }
        assert(units@.dom() =~= sighted(u0, team, m));
    }
    (units, by_loc)
}


impl GameWorld {
    /// What the view of the player taken of this world holds: see `filter`.
    pub open spec fn filter_view(&self, player: Player, r: GameWorld) -> bool {
        &&& r.wf()
        &&& r.round_now() == self.round_now()
        &&& r.mover() == player
        &&& r.ids() == self.ids()
        &&& r.orbit_now() == self.orbit_now()
        &&& r.viewer_log() == Seq::<ViewerDelta>::empty()
        &&& forall|q: Planet| #[trigger] r.has_planet(q) == (q == player.planet)
        &&& forall|t: Team| #[trigger] r.has_team(t) == (t == player.team)
        &&& forall|q: Planet| #[trigger] r.map_of(q).width == self.map_of(q).width && r.map_of(q).height == self.map_of(
            q,
        ).height && grid_view(r.map_of(q).is_passable_terrain@) == grid_view(self.map_of(q).is_passable_terrain@)
        &&& ({
            let units = self.planet_of(player.planet).units@;
            let m = self.map_of(player.planet);
            &&& r.here().units@.dom() == sighted(units, player.team, m)
            &&& forall|id: UnitID| #[trigger] r.here().units@.contains_key(id) ==> same_unit(r.here().units@[id], units[id])
            &&& sight_grid(r.here().visible_locs@, units, player.team, m)
            &&& grid_view(r.here().karbonite@) == grid_view(self.planet_of(player.planet).karbonite@)
        })
        &&& ({
            let t = self.team_of(player.team);
            &&& r.us().karbonite == t.karbonite
            &&& r.us().research.levels() == t.research.levels()
            &&& r.us().research.queue_view() == t.research.queue_view()
            &&& r.us().research.rounds() == t.research.rounds()
            &&& r.us().rocket_landings.landings_view() == t.rocket_landings.landings_view()
            &&& r.us().units_in_space@.dom() == t.units_in_space@.dom()
            &&& forall|id: UnitID| #[trigger] r.us().units_in_space@.contains_key(id) ==> same_unit(
                r.us().units_in_space@[id],
                t.units_in_space@[id],
            )
            &&& r.us().team_arrays.history_of(player.planet) == seq![t.team_arrays.history_of(player.planet)[0]]
            &&& r.us().team_arrays.history_of(player.planet.other()) == seq![
                t.team_arrays.history_of(player.planet.other())[COMMUNICATION_DELAY as int],
            ]
        })
    }
}

impl GameWorld {
    /// The world as the given player sees it: only the player's planet and
    /// team, and of the planet only the units that stand where the player's
    /// units see, or are garrisoned in one of those; the squares it sees are
    /// marked visible. The team keeps the latest team array of its planet
    /// and the one of the other planet from `COMMUNICATION_DELAY` rounds ago.
    pub fn filter(&self, player: Player) -> (r: GameWorld)
        requires
            self.wf(),
            self.has_planet(player.planet),
            self.has_team(player.team),
            self.team_of(player.team).team_arrays.history_of(player.planet.other()).len() > COMMUNICATION_DELAY,
        ensures
            self.filter_view(player, r),
    {
        let team = player.team;
        let planet = player.planet;
        proof {
            assert(self.planet_states@.contains_key(planet));
            assert(self.team_states@.contains_key(team));
            assert(planet == Planet::Earth || planet == Planet::Mars);
        }
        let map = self.starting_map(planet);
        let ghost m = *map;
        let w = map.width;
        let h = map.height;
        let info = self.get_planet(planet);
        let all = copy_unit_map(&info.units);
        let g = self.vision_grid(planet, team, &all);
        proof {
            assert forall|y: int, x: int| 0 <= y < m.height && 0 <= x < m.width implies #[trigger] g@[y]@[x] == team_sees(
                info.units@,
                team,
                m,
                square(m, x, y),
            ) by {
                lemma_list_sees(all@, info.units@, team, m, square(m, x, y));
            }
        }
        let (units, units_by_loc) = sighted_units(info, &all, &g, team, planet, w, h, Ghost(m));
        let planet_info = PlanetInfo {
            visible_locs: g,
            units: units,
            units_by_loc: units_by_loc,
            karbonite: copy_grid(&info.karbonite),
        };
        let old_team = self.get_team(team);
        let team_info = TeamInfo {
            team_arrays: old_team.team_arrays.filter(planet),
            rocket_landings: old_team.rocket_landings.clone(),
            research: old_team.research.clone(),
            units_in_space: copy_unit_table(&old_team.units_in_space),
            karbonite: old_team.karbonite,
        };
        let mut planet_states = fnv_new();
        planet_map_insert(&mut planet_states, planet, planet_info);
        let mut team_states = fnv_new();
        team_map_insert(&mut team_states, team, team_info);
        let mut planet_maps = fnv_new();
        planet_map_insert(&mut planet_maps, Planet::Earth, copy_planet_map(self.starting_map(Planet::Earth)));
        planet_map_insert(&mut planet_maps, Planet::Mars, copy_planet_map(self.starting_map(Planet::Mars)));
        let r = GameWorld {
            round: self.round,
            player_to_move: player,
            id_generator: self.id_generator,
            asteroids: self.asteroids.copy(),
            orbit: self.orbit,
            planet_maps: planet_maps,
            planet_states: planet_states,
            team_states: team_states,
            viewer_changes: Vec::new(),
        };
        proof {
            let pi = r.planet_states@[planet];
            let old_info = self.planet_states@[planet];
            assert(old_info.fits(self.planet_maps@[planet]));
            assert(pi.karbonite@.len() == grid_view(pi.karbonite@).len());
            assert(old_info.karbonite@.len() == grid_view(old_info.karbonite@).len());
            assert forall|y: int| 0 <= y < m.height implies (#[trigger] pi.karbonite@[y])@.len() == m.width by {
                assert(grid_view(pi.karbonite@)[y] == pi.karbonite@[y]@);
                assert(grid_view(old_info.karbonite@)[y] == old_info.karbonite@[y]@);
            }
            assert(pi.fits(r.planet_maps@[planet]));
            assert forall|q: Planet| #[trigger] r.planet_states@.contains_key(q) implies {
                &&& r.planet_states@[q].indexed()
                &&& r.planet_states@[q].fits(r.planet_maps@[q])
            } by {
                assert(q == planet);
            }
            assert forall|t: Team| #[trigger] r.team_states@.contains_key(t) implies r.team_states@[t].wf() by {
                assert(t == team);
            }
            assert forall|t: Team, id: UnitID| #[trigger] r.team_states@[t].units_in_space@.contains_key(id)
                && r.team_states@.contains_key(t) implies r.team_states@[t].units_in_space@[id].id == id && !(
            r.team_states@[t].units_in_space@[id].location is OnMap) by {
                assert(t == team);
                assert(self.team_states@[team].units_in_space@.contains_key(id));
            }
            assert forall|q: Planet| #[trigger] r.has_planet(q) == (q == planet) by {
                if q != planet {
                    assert(!r.planet_states@.dom().contains(q));
                }
            }
            assert forall|t: Team| #[trigger] r.has_team(t) == (t == team) by {
                if t != team {
                    assert(!r.team_states@.dom().contains(t));
                }
            }
            assert forall|q: Planet| #[trigger] r.map_of(q).width == self.map_of(q).width && r.map_of(q).height
                == self.map_of(q).height && grid_view(r.map_of(q).is_passable_terrain@) == grid_view(
                self.map_of(q).is_passable_terrain@,
            ) by {
                assert(q == Planet::Earth || q == Planet::Mars);
            }
            assert(r.viewer_log() =~= Seq::<ViewerDelta>::empty());
        }
        r
    }
}


/// Every unit of the team that stands on the map's planet stands on a
/// square of the map.
pub open spec fn team_on_grid(units: Map<UnitID, Unit>, team: Team, m: PlanetMap) -> bool {
    forall|id: UnitID|
        #[trigger] units.contains_key(id) && units[id].team == team && units[id].location is OnMap
            && map_loc(units[id]).planet == m.planet ==> on_grid(m, map_loc(units[id]))
}

/// What a team sees does not change when it looks again at what it sees:
/// where the team's units stand on the map, the units it sees among the
/// units it sees (copies of them) are all of them, and it sees the same
/// squares through them.
pub proof fn lemma_sight_idempotent(units: Map<UnitID, Unit>, seen: Map<UnitID, Unit>, team: Team, m: PlanetMap)
    requires
        team_on_grid(units, team, m),
        seen.dom() == sighted(units, team, m),
        forall|id: UnitID| #[trigger] seen.contains_key(id) ==> same_unit(seen[id], units[id]),
    ensures
        sighted(seen, team, m) == seen.dom(),
        forall|l: MapLocation| #[trigger] team_sees(seen, team, m, l) == team_sees(units, team, m, l),
{
    assert forall|l: MapLocation| #[trigger] team_sees(seen, team, m, l) == team_sees(units, team, m, l) by {
        if team_sees(seen, team, m, l) {
            let id = choose|id: UnitID| seen.contains_key(id) && #[trigger] sees_from(seen[id], team, m, l);
            assert(sees_from(units[id], team, m, l));
        }
        if team_sees(units, team, m, l) {
            let id = choose|id: UnitID| units.contains_key(id) && #[trigger] sees_from(units[id], team, m, l);
            let c = map_loc(units[id]);
            assert(on_grid(m, c));
            assert(crate::location::sq_dist(c, c) == 0);
            assert(sees_from(units[id], team, m, c));
            assert(in_sight(units, team, m, id));
            assert(seen.contains_key(id));
            assert(sees_from(seen[id], team, m, l));
        }
    }
    assert forall|id: UnitID| #[trigger] sighted(seen, team, m).contains(id) == seen.dom().contains(id) by {
        if seen.contains_key(id) {
            assert(sighted(units, team, m).contains(id));
            if in_sight(units, team, m, id) {
                assert(team_sees(seen, team, m, map_loc(seen[id])));
                assert(in_sight(seen, team, m, id));
            } else {
                let s = units[id].location->InGarrison_0;
                assert(in_sight(units, team, m, s));
                assert(sighted(units, team, m).contains(s));
                assert(seen.contains_key(s));
                assert(team_sees(seen, team, m, map_loc(seen[s])));
                assert(in_sight(seen, team, m, s));
            }
        }
    }
    assert(sighted(seen, team, m) =~= seen.dom());
}


/// A rocket as it flies: in space, and used.
pub open spec fn launched(r: Unit) -> Unit {
    Unit { location: Location::InSpace, is_used: true, ..r }
}

/// What launches with a rocket lands with it: each unit of its garrison
/// that went into space with it comes down with it, as it was, unless a
/// unit with its ID already stands on the planet where it lands; and the
/// rocket stands on its destination.
pub proof fn lemma_cargo_lands(
    space: Map<UnitID, Unit>,
    units: Map<UnitID, Unit>,
    r: Unit,
    v: PlanetUnits,
    dest: MapLocation,
)
    ensures
        forall|g: UnitID| #[trigger] carried(units, r).contains(g) && !v.0.contains_key(g) ==> {
            &&& landing_party(into_space(space, units, r), v.0, launched(r)).contains(g)
            &&& touched_down(v, into_space(space, units, r), launched(r), dest).0[g] == units[g]
        },
        touched_down(v, into_space(space, units, r), launched(r), dest).0[r.id].location == Location::OnMap(dest),
        touched_down(v, into_space(space, units, r), launched(r), dest).1[dest] == r.id,
{
    let up = into_space(space, units, r);
    assert forall|g: UnitID| #[trigger] carried(units, r).contains(g) && !v.0.contains_key(g) implies {
        &&& landing_party(up, v.0, launched(r)).contains(g)
        &&& touched_down(v, up, launched(r), dest).0[g] == units[g]
    } by {
        assert(up.contains_key(g) && up[g] == units[g]);
        assert(landing_party(up, v.0, launched(r)).contains(g));
    }
}


/// The map after each unit of the list is put in under its ID, in order.
pub open spec fn insert_units(m: Map<UnitID, Unit>, s: Seq<Unit>) -> Map<UnitID, Unit>
    decreases s.len(),
{
    if s.len() == 0 {
        m
    } else {
        insert_units(m, s.drop_last()).insert(s.last().id, s.last())
    }
}

/// The lists tell what changed from one map of units to another: `changed`
/// holds copies of the units of `new` that are not in `old` or differ
/// there, and nothing else; `vanished` holds the IDs of the units of `old`
/// that are not in `new`, and nothing else.
pub open spec fn units_delta(
    old: Map<UnitID, Unit>,
    new: Map<UnitID, Unit>,
    changed: Seq<Unit>,
    vanished: Seq<UnitID>,
) -> bool {
    &&& forall|i: int|
        0 <= i < changed.len() ==> new.contains_key(#[trigger] changed[i].id) && same_unit(changed[i], new[changed[i].id])
            && (!old.contains_key(changed[i].id) || !same_unit(old[changed[i].id], new[changed[i].id]))
    &&& forall|id: UnitID|
        #[trigger] new.contains_key(id) && (!old.contains_key(id) || !same_unit(old[id], new[id])) ==> exists|i: int|
            0 <= i < changed.len() && changed[i].id == id
    &&& forall|i: int| 0 <= i < vanished.len() ==> old.contains_key(#[trigger] vanished[i]) && !new.contains_key(vanished[i])
    &&& forall|id: UnitID| #[trigger] old.contains_key(id) && !new.contains_key(id) ==> vanished.contains(id)
}

/// Two maps hold copies of the same units under the same IDs.
pub open spec fn same_units(a: Map<UnitID, Unit>, b: Map<UnitID, Unit>) -> bool {
    &&& a.dom() == b.dom()
    &&& forall|id: UnitID| #[trigger] a.contains_key(id) ==> same_unit(a[id], b[id])
}

/// Which units a map holds after the units of a list are put in, and
/// under each ID the last unit of the list with it, or else the map's.
proof fn lemma_insert_units(m: Map<UnitID, Unit>, s: Seq<Unit>)
    ensures
        forall|id: UnitID| #[trigger] insert_units(m, s).contains_key(id) == (m.contains_key(id) || exists|i: int|
            0 <= i < s.len() && s[i].id == id),
        forall|id: UnitID| (exists|i: int| 0 <= i < s.len() && s[i].id == id) ==> exists|i: int|
            0 <= i < s.len() && s[i].id == id && #[trigger] insert_units(m, s)[id] == s[i],
        forall|id: UnitID| !(exists|i: int| 0 <= i < s.len() && s[i].id == id) ==> #[trigger] insert_units(m, s)[id]
            == m[id],
    decreases s.len(),
{
    if s.len() > 0 {
        let t = s.drop_last();
        lemma_insert_units(m, t);
        let last = s.last();
        assert(insert_units(m, s) == insert_units(m, t).insert(last.id, last));
        assert forall|id: UnitID| #[trigger] insert_units(m, s).contains_key(id) == (m.contains_key(id) || exists|i: int|
            0 <= i < s.len() && s[i].id == id) by {
            assert(insert_units(m, t).contains_key(id) == (m.contains_key(id) || exists|i: int|
                0 <= i < t.len() && t[i].id == id));
            if id == last.id {
                assert(s[s.len() - 1].id == id);
            }
            if exists|i: int| 0 <= i < s.len() && s[i].id == id {
                let i = choose|i: int| 0 <= i < s.len() && s[i].id == id;
                if i < t.len() {
                    assert(t[i].id == id);
                }
            }
            if exists|i: int| 0 <= i < t.len() && t[i].id == id {
                let i = choose|i: int| 0 <= i < t.len() && t[i].id == id;
                assert(s[i].id == id);
            }
        }
        assert forall|id: UnitID| (exists|i: int| 0 <= i < s.len() && s[i].id == id) implies exists|i: int|
            0 <= i < s.len() && s[i].id == id && #[trigger] insert_units(m, s)[id] == s[i] by {
            if id == last.id {
                assert(s[s.len() - 1].id == id);
            } else {
                let i = choose|i: int| 0 <= i < s.len() && s[i].id == id;
                assert(i < t.len());
                assert(t[i].id == id);
                let j = choose|j: int| 0 <= j < t.len() && t[j].id == id && insert_units(m, t)[id] == t[j];
                assert(s[j] == t[j]);
            }
        }
        assert forall|id: UnitID| !(exists|i: int| 0 <= i < s.len() && s[i].id == id) implies #[trigger] insert_units(
            m,
            s,
        )[id] == m[id] by {
            assert(id != s[s.len() - 1].id);
            assert(insert_units(m, s)[id] == insert_units(m, t)[id]);
            if exists|i: int| 0 <= i < t.len() && t[i].id == id {
                let i = choose|i: int| 0 <= i < t.len() && t[i].id == id;
                assert(s[i].id == id);
            }
        }
    }
}

/// What the player's engine learns of a turn gives back what changed:
/// putting in the changed units and taking out the vanished ones turns the
/// old units into copies of the new ones.
pub proof fn lemma_units_delta_applies(
    old: Map<UnitID, Unit>,
    new: Map<UnitID, Unit>,
    changed: Seq<Unit>,
    vanished: Seq<UnitID>,
)
    requires
        units_delta(old, new, changed, vanished),
    ensures
        same_units(insert_units(old, changed).remove_keys(vanished.to_set()), new),
{
    lemma_insert_units(old, changed);
    let mid = insert_units(old, changed);
    let res = mid.remove_keys(vanished.to_set());
    assert forall|id: UnitID| #[trigger] res.dom().contains(id) == new.dom().contains(id) by {
        if new.contains_key(id) {
            if vanished.to_set().contains(id) {
                let i = choose|i: int| 0 <= i < vanished.len() && vanished[i] == id;
                assert(!new.contains_key(vanished[i]));
            }
            if !old.contains_key(id) || !same_unit(old[id], new[id]) {
                let i = choose|i: int| 0 <= i < changed.len() && changed[i].id == id;
                assert(mid.contains_key(id));
            }
        } else {
            if old.contains_key(id) {
                assert(vanished.contains(id));
                assert(vanished.to_set().contains(id));
            }
            if exists|i: int| 0 <= i < changed.len() && changed[i].id == id {
                let i = choose|i: int| 0 <= i < changed.len() && changed[i].id == id;
                assert(new.contains_key(changed[i].id));
            }
        }
    }
    assert(res.dom() =~= new.dom());
    assert forall|id: UnitID| #[trigger] res.contains_key(id) implies same_unit(res[id], new[id]) by {
        if exists|i: int| 0 <= i < changed.len() && changed[i].id == id {
            let i = choose|i: int| 0 <= i < changed.len() && changed[i].id == id && mid[id] == changed[i];
            assert(same_unit(changed[i], new[changed[i].id]));
        } else {
            assert(mid[id] == old[id]);
            assert(old.contains_key(id));
            if !same_unit(old[id], new[id]) {
                let i = choose|i: int| 0 <= i < changed.len() && changed[i].id == id;
            }
        }
    }
}


/// What changed from one map of units to another: copies of the units of
/// `new` that are not in `old` or differ there, and the IDs of the units of
/// `old` that are not in `new`.
fn units_diff(old: &FnvHashMap<UnitID, Unit>, new: &FnvHashMap<UnitID, Unit>) -> (r: (Vec<Unit>, Vec<UnitID>))
    requires
        keyed_by_id(new@),
    ensures
        units_delta(old@, new@, r.0@, r.1@),
{
    let new_keys = id_map_keys(new);
    let mut changed: Vec<Unit> = Vec::new();
    let mut i: usize = 0;
    while i < new_keys.len()
        invariant
            forall|k: UnitID| #[trigger] new_keys@.contains(k) <==> new@.contains_key(k),
            keyed_by_id(new@),
            0 <= i <= new_keys@.len(),
            forall|k: int|
                0 <= k < changed@.len() ==> new@.contains_key(#[trigger] changed@[k].id) && same_unit(changed@[k], new@[changed@[k].id])
                    && (!old@.contains_key(changed@[k].id) || !same_unit(old@[changed@[k].id], new@[changed@[k].id])),
            forall|j: int|
                0 <= j < i && (!old@.contains_key(#[trigger] new_keys@[j]) || !same_unit(old@[new_keys@[j]], new@[new_keys@[j]]))
                    ==> exists|k: int| 0 <= k < changed@.len() && changed@[k].id == new_keys@[j],
        decreases new_keys@.len() - i,
    {
        let id = new_keys[i];
        assert(new_keys@.contains(id));
        let u = id_map_get(new, id).unwrap();
        let differs = match id_map_get(old, id) {
            Some(o) => !unit_eq(o, u),
            None => true,
        };
        if differs {
            let c = u.clone();
            let ghost before = changed@;
            changed.push(c);
            proof {
                assert(changed@[changed@.len() - 1].id == id);
                assert forall|k: int| 0 <= k < before.len() implies changed@[k] == before[k] by {}
                assert forall|j: int|
                    0 <= j < i + 1 && (!old@.contains_key(#[trigger] new_keys@[j]) || !same_unit(old@[new_keys@[j]], new@[new_keys@[j]]))
                        implies exists|k: int| 0 <= k < changed@.len() && changed@[k].id == new_keys@[j] by {
                    if j < i {
                        let k = choose|k: int| 0 <= k < before.len() && before[k].id == new_keys@[j];
                        assert(changed@[k].id == new_keys@[j]);
                    } else {
                        assert(changed@[changed@.len() - 1].id == new_keys@[j]);
                    }
                }
            }
        } else {
            proof {
                assert forall|j: int|
                    0 <= j < i + 1 && (!old@.contains_key(#[trigger] new_keys@[j]) || !same_unit(old@[new_keys@[j]], new@[new_keys@[j]]))
                        implies exists|k: int| 0 <= k < changed@.len() && changed@[k].id == new_keys@[j] by {
                    assert(j < i);
                }
            }
        }
        i = i + 1;
    }
    let old_keys = id_map_keys(old);
    let mut vanished: Vec<UnitID> = Vec::new();
    let mut j: usize = 0;
    while j < old_keys.len()
        invariant
            forall|k: UnitID| #[trigger] old_keys@.contains(k) <==> old@.contains_key(k),
            0 <= j <= old_keys@.len(),
            forall|k: int| 0 <= k < vanished@.len() ==> old@.contains_key(#[trigger] vanished@[k]) && !new@.contains_key(vanished@[k]),
            forall|q: int| 0 <= q < j && !new@.contains_key(#[trigger] old_keys@[q]) ==> vanished@.contains(old_keys@[q]),
        decreases old_keys@.len() - j,
    {
        let id = old_keys[j];
        assert(old_keys@.contains(id));
        if id_map_get(new, id).is_none() {
            let ghost before = vanished@;
            vanished.push(id);
            proof {
                assert forall|k: int| 0 <= k < before.len() implies vanished@[k] == before[k] by {}
                assert forall|q: int| 0 <= q < j + 1 && !new@.contains_key(#[trigger] old_keys@[q]) implies vanished@.contains(old_keys@[q]) by {
                    if q < j {
                        assert(before.contains(old_keys@[q]));
                        let k = choose|k: int| 0 <= k < before.len() && before[k] == old_keys@[q];
                        assert(vanished@[k] == old_keys@[q]);
                    } else {
                        assert(vanished@[vanished@.len() - 1] == old_keys@[q]);
                    }
                }
            }
        }
        j = j + 1;
    }
    proof {
        assert forall|id: UnitID| #[trigger] new@.contains_key(id) && (!old@.contains_key(id) || !same_unit(old@[id], new@[id]))
            implies exists|k: int| 0 <= k < changed@.len() && changed@[k].id == id by {
            assert(new_keys@.contains(id));
            let q = choose|q: int| 0 <= q < new_keys@.len() && new_keys@[q] == id;
            assert(new_keys@[q] == id);
        }
        assert forall|id: UnitID| #[trigger] old@.contains_key(id) && !new@.contains_key(id) implies vanished@.contains(id) by {
            assert(old_keys@.contains(id));
            let q = choose|q: int| 0 <= q < old_keys@.len() && old_keys@[q] == id;
            assert(old_keys@[q] == id);
        }
    }
    (changed, vanished)
}


/// The change is to the square at column `x`, row `y`.
pub open spec fn hits(l: MapLocation, x: int, y: int) -> bool {
    l.x == x && l.y == y
}

/// The grid after each change of the list sets the karbonite of its square,
/// in order; a change off the grid changes nothing.
pub open spec fn set_squares(g: Seq<Seq<u32>>, changes: Seq<(MapLocation, u32)>) -> Seq<Seq<u32>>
    decreases changes.len(),
{
    if changes.len() == 0 {
        g
    } else {
        let h = set_squares(g, changes.drop_last());
        let l = changes.last().0;
        if 0 <= l.y < h.len() && 0 <= l.x < h[l.y as int].len() {
            h.update(l.y as int, h[l.y as int].update(l.x as int, changes.last().1))
        } else {
            h
        }
    }
}

/// The list tells which squares' karbonite changed from one grid to another:
/// it holds each square of the map whose karbonite differs, with its new
/// karbonite, and nothing else.
pub open spec fn karbonite_delta(
    old: Seq<Seq<u32>>,
    new: Seq<Seq<u32>>,
    m: PlanetMap,
    changes: Seq<(MapLocation, u32)>,
) -> bool {
    &&& forall|i: int|
        0 <= i < changes.len() ==> on_grid(m, (#[trigger] changes[i]).0) && changes[i].1 == new[changes[i].0.y as int][changes[i].0.x as int]
            && changes[i].1 != old[changes[i].0.y as int][changes[i].0.x as int]
    &&& forall|y: int, x: int|
        0 <= y < m.height && 0 <= x < m.width && #[trigger] new[y][x] != old[y][x] ==> exists|i: int|
            0 <= i < changes.len() && hits(changes[i].0, x, y)
}

/// Each square of the grid holds, after the changes, the value of a change
/// to it, or its old value where none changes it.
proof fn lemma_set_squares(g: Seq<Seq<u32>>, s: Seq<(MapLocation, u32)>)
    ensures
        set_squares(g, s).len() == g.len(),
        forall|y: int| 0 <= y < g.len() ==> (#[trigger] set_squares(g, s)[y]).len() == g[y].len(),
        forall|y: int, x: int|
            0 <= y < g.len() && 0 <= x < g[y].len() ==> {
                &&& (exists|i: int| 0 <= i < s.len() && hits(s[i].0, x, y)) ==> exists|i: int|
                    0 <= i < s.len() && hits(s[i].0, x, y) && #[trigger] set_squares(g, s)[y][x] == s[i].1
                &&& !(exists|i: int| 0 <= i < s.len() && hits(s[i].0, x, y)) ==> set_squares(g, s)[y][x] == g[y][x]
            },
    decreases s.len(),
{
    if s.len() > 0 {
        let t = s.drop_last();
        lemma_set_squares(g, t);
        let h = set_squares(g, t);
        let l = s.last().0;
        assert forall|y: int, x: int| 0 <= y < g.len() && 0 <= x < g[y].len() implies {
            &&& (exists|i: int| 0 <= i < s.len() && hits(s[i].0, x, y)) ==> exists|i: int|
                0 <= i < s.len() && hits(s[i].0, x, y) && #[trigger] set_squares(g, s)[y][x] == s[i].1
            &&& !(exists|i: int| 0 <= i < s.len() && hits(s[i].0, x, y)) ==> set_squares(g, s)[y][x] == g[y][x]
        } by {
            assert(h[y].len() == g[y].len());
            if hits(l, x, y) {
                assert(s[s.len() - 1].0 == l);
                assert(set_squares(g, s)[y][x] == s[s.len() - 1].1);
            } else {
                assert(set_squares(g, s)[y][x] == h[y][x]);
                if exists|i: int| 0 <= i < s.len() && hits(s[i].0, x, y) {
                    let i = choose|i: int| 0 <= i < s.len() && hits(s[i].0, x, y);
                    assert(i < t.len());
                    assert(t[i] == s[i]);
                    let j = choose|j: int| 0 <= j < t.len() && hits(t[j].0, x, y) && h[y][x] == t[j].1;
                    assert(s[j] == t[j]);
                } else {
                    if exists|i: int| 0 <= i < t.len() && hits(t[i].0, x, y) {
                        let i = choose|i: int| 0 <= i < t.len() && hits(t[i].0, x, y);
                        assert(s[i] == t[i]);
                    }
                }
            }
        }
    }
}

/// What the player's engine learns of a turn gives back the karbonite:
/// setting each changed square turns the old grid into the new one.
pub proof fn lemma_karbonite_delta_applies(
    old: Seq<Seq<u32>>,
    new: Seq<Seq<u32>>,
    m: PlanetMap,
    changes: Seq<(MapLocation, u32)>,
)
    requires
        karbonite_delta(old, new, m, changes),
        old.len() == m.height,
        new.len() == m.height,
        forall|y: int| 0 <= y < m.height ==> (#[trigger] old[y]).len() == m.width,
        forall|y: int| 0 <= y < m.height ==> (#[trigger] new[y]).len() == m.width,
    ensures
        set_squares(old, changes) == new,
{
    lemma_set_squares(old, changes);
    let r = set_squares(old, changes);
    assert forall|y: int| 0 <= y < r.len() implies r[y] == new[y] by {
        assert forall|x: int| 0 <= x < r[y].len() implies r[y][x] == new[y][x] by {
            if exists|i: int| 0 <= i < changes.len() && hits(changes[i].0, x, y) {
                let i = choose|i: int| 0 <= i < changes.len() && hits(changes[i].0, x, y) && r[y][x] == changes[i].1;
                assert(on_grid(m, changes[i].0));
            } else {
                if new[y][x] != old[y][x] {
                    assert(exists|i: int| 0 <= i < changes.len() && hits(changes[i].0, x, y));
                }
            }
        }
        assert(r[y] =~= new[y]);
    }
    assert(r =~= new);
}

/// The array after each change of the list sets its entry, in order; a
/// change past the end changes nothing.
pub open spec fn set_entries(a: Seq<i32>, changes: Seq<(usize, i32)>) -> Seq<i32>
    decreases changes.len(),
{
    if changes.len() == 0 {
        a
    } else {
        let b = set_entries(a, changes.drop_last());
        let i = changes.last().0;
        if i < b.len() {
            b.update(i as int, changes.last().1)
        } else {
            b
        }
    }
}

/// The list tells which entries changed from one array to another: it holds
/// each index whose value differs, with its new value, and nothing else.
pub open spec fn array_delta(old: Seq<i32>, new: Seq<i32>, changes: Seq<(usize, i32)>) -> bool {
    &&& forall|k: int|
        0 <= k < changes.len() ==> (#[trigger] changes[k]).0 < new.len() && changes[k].1 == new[changes[k].0 as int]
            && changes[k].1 != old[changes[k].0 as int]
    &&& forall|i: int| 0 <= i < new.len() && #[trigger] new[i] != old[i] ==> exists|k: int|
        0 <= k < changes.len() && changes[k].0 == i
}

/// Each entry holds, after the changes, the value of a change to it, or
/// its old value where none changes it.
proof fn lemma_set_entries(a: Seq<i32>, s: Seq<(usize, i32)>)
    ensures
        set_entries(a, s).len() == a.len(),
        forall|i: int|
            0 <= i < a.len() ==> {
                &&& (exists|k: int| 0 <= k < s.len() && s[k].0 == i) ==> exists|k: int|
                    0 <= k < s.len() && s[k].0 == i && #[trigger] set_entries(a, s)[i] == s[k].1
                &&& !(exists|k: int| 0 <= k < s.len() && s[k].0 == i) ==> set_entries(a, s)[i] == a[i]
            },
    decreases s.len(),
{
    if s.len() > 0 {
        let t = s.drop_last();
        lemma_set_entries(a, t);
        let b = set_entries(a, t);
        assert forall|i: int| 0 <= i < a.len() implies {
            &&& (exists|k: int| 0 <= k < s.len() && s[k].0 == i) ==> exists|k: int|
                0 <= k < s.len() && s[k].0 == i && #[trigger] set_entries(a, s)[i] == s[k].1
            &&& !(exists|k: int| 0 <= k < s.len() && s[k].0 == i) ==> set_entries(a, s)[i] == a[i]
        } by {
            if s.last().0 == i {
                assert(s[s.len() - 1].0 == i);
            } else {
                assert(set_entries(a, s)[i] == b[i]);
                if exists|k: int| 0 <= k < s.len() && s[k].0 == i {
                    let k = choose|k: int| 0 <= k < s.len() && s[k].0 == i;
                    assert(k < t.len());
                    assert(t[k] == s[k]);
                    let j = choose|j: int| 0 <= j < t.len() && t[j].0 == i && b[i] == t[j].1;
                    assert(s[j] == t[j]);
                } else {
                    if exists|k: int| 0 <= k < t.len() && t[k].0 == i {
                        let k = choose|k: int| 0 <= k < t.len() && t[k].0 == i;
                        assert(s[k] == t[k]);
                    }
                }
            }
        }
    }
}

/// What the player's engine learns of a turn gives back the other planet's
/// team array: setting each changed entry turns the old array into the new
/// one.
pub proof fn lemma_array_delta_applies(old: Seq<i32>, new: Seq<i32>, changes: Seq<(usize, i32)>)
    requires
        array_delta(old, new, changes),
        old.len() == new.len(),
    ensures
        set_entries(old, changes) == new,
{
    lemma_set_entries(old, changes);
    let r = set_entries(old, changes);
    assert forall|i: int| 0 <= i < r.len() implies r[i] == new[i] by {
        if exists|k: int| 0 <= k < changes.len() && changes[k].0 == i {
            let k = choose|k: int| 0 <= k < changes.len() && changes[k].0 == i && r[i] == changes[k].1;
            assert(changes[k].0 < new.len());
        } else {
            if new[i] != old[i] {
                assert(exists|k: int| 0 <= k < changes.len() && changes[k].0 == i);
            }
        }
    }
    assert(r =~= new);
}


/// The squares of the map whose karbonite differs from one grid to the
/// other, with their new karbonite, row by row.
fn karbonite_diff(
    old: &Vec<Vec<u32>>,
    new: &Vec<Vec<u32>>,
    planet: Planet,
    w: usize,
    h: usize,
    Ghost(m): Ghost<PlanetMap>,
) -> (r: Vec<(MapLocation, u32)>)
    requires
        m.planet == planet,
        m.width == w,
        m.height == h,
        w <= i32::MAX,
        h <= i32::MAX,
        old@.len() == h,
        new@.len() == h,
        forall|y: int| 0 <= y < h ==> (#[trigger] old@[y])@.len() == w,
        forall|y: int| 0 <= y < h ==> (#[trigger] new@[y])@.len() == w,
    ensures
        karbonite_delta(grid_view(old@), grid_view(new@), m, r@),
{
    let ghost go = grid_view(old@);
    let ghost gn = grid_view(new@);
    let mut out: Vec<(MapLocation, u32)> = Vec::new();
    let mut y: usize = 0;
    while y < h
        invariant
            go == grid_view(old@),
            gn == grid_view(new@),
            m.planet == planet,
            m.width == w,
            m.height == h,
            w <= i32::MAX,
            h <= i32::MAX,
            old@.len() == h,
            new@.len() == h,
            forall|yy: int| 0 <= yy < h ==> (#[trigger] old@[yy])@.len() == w,
            forall|yy: int| 0 <= yy < h ==> (#[trigger] new@[yy])@.len() == w,
            0 <= y <= h,
            forall|i: int|
                0 <= i < out@.len() ==> on_grid(m, (#[trigger] out@[i]).0) && out@[i].1 == gn[out@[i].0.y as int][out@[i].0.x as int]
                    && out@[i].1 != go[out@[i].0.y as int][out@[i].0.x as int],
            forall|yy: int, xx: int|
                0 <= yy < y && 0 <= xx < w && #[trigger] gn[yy][xx] != go[yy][xx] ==> exists|i: int|
                    0 <= i < out@.len() && hits(out@[i].0, xx, yy),
        decreases h - y,
    {
        let mut x: usize = 0;
        while x < w
            invariant
                go == grid_view(old@),
                gn == grid_view(new@),
                m.planet == planet,
                m.width == w,
                m.height == h,
                w <= i32::MAX,
                h <= i32::MAX,
                old@.len() == h,
                new@.len() == h,
                forall|yy: int| 0 <= yy < h ==> (#[trigger] old@[yy])@.len() == w,
                forall|yy: int| 0 <= yy < h ==> (#[trigger] new@[yy])@.len() == w,
                0 <= y < h,
                0 <= x <= w,
                forall|i: int|
                    0 <= i < out@.len() ==> on_grid(m, (#[trigger] out@[i]).0) && out@[i].1 == gn[out@[i].0.y as int][out@[i].0.x as int]
                        && out@[i].1 != go[out@[i].0.y as int][out@[i].0.x as int],
                forall|yy: int, xx: int|
                    ((0 <= yy < y && 0 <= xx < w) || (yy == y && 0 <= xx < x)) && #[trigger] gn[yy][xx] != go[yy][xx] ==> exists|i: int|
                        0 <= i < out@.len() && hits(out@[i].0, xx, yy),
            decreases w - x,
        {
            let k = new[y][x];
            proof {
                assert(gn[y as int] == new@[y as int]@);
                assert(go[y as int] == old@[y as int]@);
            }
            if k != old[y][x] {
                let ghost before = out@;
                let l = MapLocation::new(planet, x as i32, y as i32);
                out.push((l, k));
                proof {
                    assert(hits(out@[out@.len() - 1].0, x as int, y as int));
                    assert forall|i: int| 0 <= i < before.len() implies out@[i] == before[i] by {}
                    assert forall|yy: int, xx: int|
                        ((0 <= yy < y && 0 <= xx < w) || (yy == y && 0 <= xx < x + 1)) && #[trigger] gn[yy][xx] != go[yy][xx] implies exists|i: int|
                            0 <= i < out@.len() && hits(out@[i].0, xx, yy) by {
                        if yy == y && xx == x {
                            assert(hits(out@[out@.len() - 1].0, xx, yy));
                        } else {
                            let i = choose|i: int| 0 <= i < before.len() && hits(before[i].0, xx, yy);
                            assert(hits(out@[i].0, xx, yy));
                        }
                    }
                }
            }
            x = x + 1;
        }
        y = y + 1;
    }
    out
}

/// The entries whose value differs from one array to the other, with their
/// new value, by index.
fn array_diff(old: &Vec<i32>, new: &Vec<i32>) -> (r: Vec<(usize, i32)>)
    requires
        old@.len() == COMMUNICATION_ARRAY_LENGTH,
        new@.len() == COMMUNICATION_ARRAY_LENGTH,
    ensures
        array_delta(old@, new@, r@),
{
    let mut out: Vec<(usize, i32)> = Vec::new();
    let mut i: usize = 0;
    while i < COMMUNICATION_ARRAY_LENGTH
        invariant
            old@.len() == COMMUNICATION_ARRAY_LENGTH,
            new@.len() == COMMUNICATION_ARRAY_LENGTH,
            0 <= i <= COMMUNICATION_ARRAY_LENGTH,
            forall|k: int|
                0 <= k < out@.len() ==> (#[trigger] out@[k]).0 < new@.len() && out@[k].1 == new@[out@[k].0 as int]
                    && out@[k].1 != old@[out@[k].0 as int],
            forall|j: int| 0 <= j < i && #[trigger] new@[j] != old@[j] ==> exists|k: int|
                0 <= k < out@.len() && out@[k].0 == j,
        decreases COMMUNICATION_ARRAY_LENGTH - i,
    {
        if old[i] != new[i] {
            let ghost before = out@;
            out.push((i, new[i]));
            proof {
                assert forall|k: int| 0 <= k < before.len() implies out@[k] == before[k] by {}
                assert forall|j: int| 0 <= j < i + 1 && #[trigger] new@[j] != old@[j] implies exists|k: int|
                    0 <= k < out@.len() && out@[k].0 == j by {
                    if j == i {
                        assert(out@[out@.len() - 1].0 == j);
                    } else {
                        let k = choose|k: int| 0 <= k < before.len() && before[k].0 == j;
                        assert(out@[k].0 == j);
                    }
                }
            }
        }
        i = i + 1;
    }
    out
}


impl GameWorld {
    /// What the message that brings the view `old` up to this view holds: see `start_turn_message`.
    pub open spec fn turn_message_from(&self, old: GameWorld, time_left_ms: i32, r: StartTurnMessage) -> bool {
        &&& r.time_left_ms == time_left_ms
        &&& r.round == self.round_now()
        &&& grid_view(r.visible_locs@) == grid_view(self.here().visible_locs@)
        &&& units_delta(old.here().units@, self.here().units@, r.units_changed@, r.units_vanished@)
        &&& karbonite_delta(
            grid_view(old.here().karbonite@),
            grid_view(self.here().karbonite@),
            self.map_of(self.mover().planet),
            r.karbonite_changed@,
        )
        &&& r.id_generator == self.ids()
        &&& units_delta(old.us().units_in_space@, self.us().units_in_space@, r.units_in_space_changed@, r.units_in_space_vanished@)
        &&& array_delta(
            old.us().team_arrays.history_of(self.mover().planet.other()).last(),
            self.us().team_arrays.history_of(self.mover().planet.other()).last(),
            r.other_array_changed@,
        )
        &&& r.rocket_landings.landings_view() == self.us().rocket_landings.landings_view()
        &&& r.research.levels() == self.us().research.levels()
        &&& r.research.queue_view() == self.us().research.queue_view()
        &&& r.research.rounds() == self.us().research.rounds()
        &&& r.research.wf()
        &&& r.karbonite == self.us().karbonite
    }
}

impl GameWorld {
    /// The message that brings a player's view of the world up to date:
    /// `self` is the player's view now, `old` its view at its last turn.
    /// It tells the round, the squares the player sees, the units that are
    /// new or changed and those that vanished, on the planet and in space,
    /// the squares whose karbonite changed, the entries of the other
    /// planet's team array that changed, and the team's ID generator,
    /// landings, research and karbonite.
    pub fn start_turn_message(&self, old: &GameWorld, time_left_ms: i32) -> (r: StartTurnMessage)
        requires
            self.wf(),
            old.wf(),
            old.mover() == self.mover(),
            old.map_of(self.mover().planet).width == self.map_of(self.mover().planet).width,
            old.map_of(self.mover().planet).height == self.map_of(self.mover().planet).height,
            old.us().team_arrays.history_of(self.mover().planet.other()).last().len() == COMMUNICATION_ARRAY_LENGTH,
            self.us().team_arrays.history_of(self.mover().planet.other()).last().len() == COMMUNICATION_ARRAY_LENGTH,
        ensures
            self.turn_message_from(*old, time_left_ms, r),
    {
        proof {
            self.lemma_here_fits();
            old.lemma_here_fits();
        }
        let planet = self.planet();
        let map = self.starting_map(planet);
        let w = map.width;
        let h = map.height;
        let now = self.my_planet();
        let then = old.my_planet();
        let (units_changed, units_vanished) = units_diff(&then.units, &now.units);
        let karbonite_changed = karbonite_diff(&then.karbonite, &now.karbonite, planet, w, h, Ghost(*map));
        let (units_in_space_changed, units_in_space_vanished) = units_diff(
            &old.my_team().units_in_space,
            &self.my_team().units_in_space,
        );
        let other_array_changed = array_diff(old.get_team_array(planet.other()), self.get_team_array(planet.other()));
        StartTurnMessage {
            time_left_ms: time_left_ms,
            round: self.round,
            visible_locs: copy_grid(&now.visible_locs),
            units_changed: units_changed,
            units_vanished: units_vanished,
            karbonite_changed: karbonite_changed,
            id_generator: self.id_generator,
            units_in_space_changed: units_in_space_changed,
            units_in_space_vanished: units_in_space_vanished,
            other_array_changed: other_array_changed,
            rocket_landings: self.my_team().rocket_landings.clone(),
            research: self.my_team().research.clone(),
            karbonite: self.my_team().karbonite,
        }
    }
}


/// No two units of the map stand on one square.
pub open spec fn places_distinct(m: Map<UnitID, Unit>) -> bool {
    forall|a: UnitID, b: UnitID|
        #[trigger] m.contains_key(a) && #[trigger] m.contains_key(b) && a != b && m[a].location is OnMap
            ==> m[a].location != m[b].location
}

/// The index by location of the units of a map where no two stand on one
/// square.
fn index_units(units: &FnvHashMap<UnitID, Unit>) -> (r: FnvHashMap<MapLocation, UnitID>)
    requires
        keyed_by_id(units@),
        places_distinct(units@),
    ensures
        index_ok(units@, r@),
{
    let keys = id_map_keys(units);
    let mut by_loc: FnvHashMap<MapLocation, UnitID> = fnv_new();
    let mut i: usize = 0;
    while i < keys.len()
        invariant
            keyed_by_id(units@),
            places_distinct(units@),
            keys@.no_duplicates(),
            forall|k: UnitID| #[trigger] keys@.contains(k) <==> units@.contains_key(k),
            0 <= i <= keys@.len(),
            forall|l: MapLocation| #[trigger] by_loc@.contains_key(l) ==> units@.contains_key(by_loc@[l])
                && units@[by_loc@[l]].location == Location::OnMap(l),
            forall|j: int| 0 <= j < i && (#[trigger] units@[keys@[j]]).location is OnMap ==> {
                let l = units@[keys@[j]].location->OnMap_0;
                by_loc@.contains_key(l) && by_loc@[l] == keys@[j]
            },
        decreases keys@.len() - i,
    {
        let id = keys[i];
        assert(keys@.contains(id));
        match id_map_get(units, id).unwrap().location {
            Location::OnMap(l) => {
                let ghost before = by_loc@;
                loc_map_insert(&mut by_loc, l, id);
                proof {
                    assert forall|j: int| 0 <= j < i + 1 && (#[trigger] units@[keys@[j]]).location is OnMap implies {
                        let ll = units@[keys@[j]].location->OnMap_0;
                        by_loc@.contains_key(ll) && by_loc@[ll] == keys@[j]
                    } by {
                        if j < i {
                            assert(keys@[j] != keys@[i as int]);
                            assert(keys@.contains(keys@[j]));
                            assert(units@.contains_key(keys@[j]) && units@.contains_key(id));
                        }
                    }
                }
            },
            _ => {
                proof {
                    assert forall|j: int| 0 <= j < i + 1 && (#[trigger] units@[keys@[j]]).location is OnMap implies {
                        let ll = units@[keys@[j]].location->OnMap_0;
                        by_loc@.contains_key(ll) && by_loc@[ll] == keys@[j]
                    } by {
                        assert(j < i);
                    }
                }
            },
        }
        i = i + 1;
    }
    proof {
        assert forall|id: UnitID| #[trigger] units@.contains_key(id) implies {
            &&& units@[id].id == id
            &&& (units@[id].location is OnMap ==> {
                let l = units@[id].location->OnMap_0;
                by_loc@.contains_key(l) && by_loc@[l] == id
            })
        } by {
            assert(keys@.contains(id));
            let j = choose|j: int| 0 <= j < keys@.len() && keys@[j] == id;
            assert(units@[keys@[j]] == units@[id]);
        }
    }
    by_loc
}

/// Puts a copy of each unit of the list into the map, in order.
fn put_units(m: &mut FnvHashMap<UnitID, Unit>, units: &Vec<Unit>)
    ensures
        same_units(final(m)@, insert_units(old(m)@, units@)),
{
    let ghost m0 = m@;
    let mut i: usize = 0;
    while i < units.len()
        invariant
            0 <= i <= units@.len(),
            same_units(m@, insert_units(m0, units@.take(i as int))),
        decreases units@.len() - i,
    {
        let u = units[i].clone();
        let ghost before = m@;
        id_map_insert(m, u.id, u);
        proof {
            let t = units@.take(i + 1);
            assert(t.drop_last() =~= units@.take(i as int));
            assert(t.last() == units@[i as int]);
            assert(insert_units(m0, t) == insert_units(m0, units@.take(i as int)).insert(units@[i as int].id, units@[i as int]));
            assert(m@.dom() =~= insert_units(m0, t).dom());
        }
        i = i + 1;
    }
    proof {
        assert(units@.take(units@.len() as int) =~= units@);
    }
}

/// Takes the units with the given IDs out of the map.
fn take_out_units(m: &mut FnvHashMap<UnitID, Unit>, ids: &Vec<UnitID>)
    ensures
        final(m)@ == old(m)@.remove_keys(ids@.to_set()),
{
    let ghost m0 = m@;
    let mut i: usize = 0;
    while i < ids.len()
        invariant
            0 <= i <= ids@.len(),
            m@ == m0.remove_keys(ids@.take(i as int).to_set()),
        decreases ids@.len() - i,
    {
        let g = ids[i];
        id_map_remove(m, g);
        proof {
            assert(ids@.take(i + 1) =~= ids@.take(i as int).push(g));
            ids@.take(i as int).lemma_push_to_set_commute(g);
            assert(m@ =~= m0.remove_keys(ids@.take(i + 1).to_set()));
        }
        i = i + 1;
    }
    proof {
        assert(ids@.take(ids@.len() as int) =~= ids@);
    }
}


impl PlanetInfo {
    /// Sets the karbonite of each square of the list, in order.
    fn set_karbonite_all(&mut self, changes: &Vec<(MapLocation, u32)>, w: usize, h: usize)
        requires
            old(self).karbonite@.len() == h,
            forall|y: int| 0 <= y < h ==> (#[trigger] old(self).karbonite@[y])@.len() == w,
            forall|i: int| 0 <= i < changes@.len() ==> 0 <= (#[trigger] changes@[i]).0.x < w && 0 <= changes@[i].0.y < h,
        ensures
            grid_view(final(self).karbonite@) == set_squares(grid_view(old(self).karbonite@), changes@),
            final(self).karbonite@.len() == h,
            forall|y: int| 0 <= y < h ==> (#[trigger] final(self).karbonite@[y])@.len() == w,
            final(self).units == old(self).units,
            final(self).units_by_loc == old(self).units_by_loc,
            final(self).visible_locs == old(self).visible_locs,
    {
        let ghost g0 = grid_view(self.karbonite@);
        let mut k: usize = 0;
        while k < changes.len()
            invariant
                0 <= k <= changes@.len(),
                forall|i: int| 0 <= i < changes@.len() ==> 0 <= (#[trigger] changes@[i]).0.x < w && 0 <= changes@[i].0.y < h,
                self.karbonite@.len() == h,
                forall|y: int| 0 <= y < h ==> (#[trigger] self.karbonite@[y])@.len() == w,
                grid_view(self.karbonite@) == set_squares(g0, changes@.take(k as int)),
                self.units == old(self).units,
                self.units_by_loc == old(self).units_by_loc,
                self.visible_locs == old(self).visible_locs,
            decreases changes@.len() - k,
        {
            let (l, v) = changes[k];
            proof {
                assert(0 <= changes@[k as int].0.x < w && 0 <= changes@[k as int].0.y < h);
            }
            let ghost before = grid_view(self.karbonite@);
            self.set_karbonite(l.x as usize, l.y as usize, v);
            proof {
                let t = changes@.take(k + 1);
                assert(t.drop_last() =~= changes@.take(k as int));
                assert(t.last() == changes@[k as int]);
                assert(grid_view(self.karbonite@) =~= before.update(l.y as int, before[l.y as int].update(l.x as int, v)));
            }
            k = k + 1;
        }
        proof {
            assert(changes@.take(changes@.len() as int) =~= changes@);
        }
    }
}

impl GameWorld {
    /// What starting a turn with the message makes of this world: see `start_turn`.
    pub open spec fn turn_started(&self, turn: StartTurnMessage, next: GameWorld) -> bool {
        &&& next.round_now() == turn.round
        &&& next.mover() == self.mover()
        &&& next.ids() == turn.id_generator
        &&& grid_view(next.here().visible_locs@) == grid_view(turn.visible_locs@)
        &&& same_units(
            next.here().units@,
            insert_units(self.here().units@, turn.units_changed@).remove_keys(turn.units_vanished@.to_set()),
        )
        &&& grid_view(next.here().karbonite@) == set_squares(
            grid_view(self.here().karbonite@),
            turn.karbonite_changed@,
        )
        &&& same_units(
            next.us().units_in_space@,
            insert_units(self.us().units_in_space@, turn.units_in_space_changed@).remove_keys(
                turn.units_in_space_vanished@.to_set(),
            ),
        )
        &&& ({
            let other = self.mover().planet.other();
            let h = self.us().team_arrays.history_of(other);
            &&& next.us().team_arrays.history_of(other) == h.update(
                0,
                set_entries(h[0], turn.other_array_changed@),
            )
            &&& next.us().team_arrays.history_of(self.mover().planet) == self.us().team_arrays.history_of(self.mover().planet)
        })
        &&& next.us().rocket_landings.landings_view() == turn.rocket_landings.landings_view()
        &&& next.us().research.levels() == turn.research.levels()
        &&& next.us().research.queue_view() == turn.research.queue_view()
        &&& next.us().research.rounds() == turn.research.rounds()
        &&& next.us().karbonite == turn.karbonite
    }
}

impl GameWorld {
    /// The message can be applied to the world: its grid of seen squares
    /// has the map's dimensions, its karbonite changes are to squares of the
    /// map, its team array changes are within the array, its research keeps
    /// its invariants, no unit of space it brings stands on the map, and no
    /// two units of the planet will stand on one square.
    pub open spec fn takes_turn(&self, turn: StartTurnMessage) -> bool {
        let m = self.map_of(self.mover().planet);
        &&& turn.visible_locs@.len() == m.height
        &&& forall|y: int| 0 <= y < m.height ==> (#[trigger] turn.visible_locs@[y])@.len() == m.width
        &&& forall|i: int| 0 <= i < turn.karbonite_changed@.len() ==> 0 <= (#[trigger] turn.karbonite_changed@[i]).0.x < m.width
            && 0 <= turn.karbonite_changed@[i].0.y < m.height
        &&& forall|k: int| 0 <= k < turn.other_array_changed@.len() ==> (#[trigger] turn.other_array_changed@[k]).0 < self.us().team_arrays.history_of(self.mover().planet.other())[0].len()
        &&& turn.research.wf()
        &&& forall|i: int| 0 <= i < turn.units_in_space_changed@.len() ==> !((#[trigger] turn.units_in_space_changed@[i]).location is OnMap)
        &&& places_distinct(insert_units(self.here().units@, turn.units_changed@).remove_keys(turn.units_vanished@.to_set()))
    }

    /// Applies a start turn message to reflect the changes in the world
    /// since the player's last turn, with the player's limited visibility:
    /// the round, the squares seen, the changed and vanished units on the
    /// planet and in space, the karbonite of changed squares and the changed
    /// entries of the other planet's team array; the ID generator, rocket
    /// landings, research and karbonite are taken over; the units are then
    /// indexed by location anew.
    pub fn start_turn(&mut self, turn: &StartTurnMessage)
        requires
            old(self).wf(),
            old(self).takes_turn(*turn),
        ensures
            final(self).wf(),
            old(self).turn_started(*turn, *final(self)),
    {
        proof {
            self.lemma_here_fits();
        }
        let p = self.planet();
        let t = self.team();
        let map = self.starting_map(p);
        let w = map.width;
        let h = map.height;
        let ghost w0 = *self;
        let mut info = self.take_planet(p);
        info.visible_locs = copy_grid(&turn.visible_locs);
        put_units(&mut info.units, &turn.units_changed);
        take_out_units(&mut info.units, &turn.units_vanished);
        info.set_karbonite_all(&turn.karbonite_changed, w, h);
        proof {
            let want = insert_units(w0.here().units@, turn.units_changed@).remove_keys(turn.units_vanished@.to_set());
            assert(info.units@.dom() =~= want.dom());
            assert forall|id: UnitID| #[trigger] info.units@.contains_key(id) implies same_unit(info.units@[id], want[id]) by {}
            assert forall|id: UnitID| #[trigger] info.units@.contains_key(id) implies info.units@[id].id == id by {
                lemma_insert_units(w0.here().units@, turn.units_changed@);
                if exists|i: int| 0 <= i < turn.units_changed@.len() && turn.units_changed@[i].id == id {
                    let i = choose|i: int| 0 <= i < turn.units_changed@.len() && turn.units_changed@[i].id == id
                        && insert_units(w0.here().units@, turn.units_changed@)[id] == turn.units_changed@[i];
                } else {
                    assert(w0.here().units@.contains_key(id));
                }
            }
            assert forall|a: UnitID, b: UnitID|
                #[trigger] info.units@.contains_key(a) && #[trigger] info.units@.contains_key(b) && a != b
                    && info.units@[a].location is OnMap implies info.units@[a].location != info.units@[b].location by {
                assert(want.contains_key(a) && want.contains_key(b));
            }
        }
        info.units_by_loc = index_units(&info.units);
        let ghost grid_ok = grid_view(info.visible_locs@) == grid_view(turn.visible_locs@);
        proof {
            assert(info.visible_locs@.len() == grid_view(info.visible_locs@).len());
            assert(turn.visible_locs@.len() == grid_view(turn.visible_locs@).len());
            assert forall|y: int| 0 <= y < h implies (#[trigger] info.visible_locs@[y])@.len() == w by {
                assert(grid_view(info.visible_locs@)[y] == info.visible_locs@[y]@);
                assert(grid_view(turn.visible_locs@)[y] == turn.visible_locs@[y]@);
            }
            assert(info.fits(self.planet_maps@[p]));
        }
        self.put_planet(p, info);
        proof {
            assert(self.same_but_planet(w0, p));
            self.lemma_planet_changed(w0, p);
        }
        let ghost w1 = *self;
        let mut team = self.take_team(t);
        let ghost sp0 = team.units_in_space@;
        put_units(&mut team.units_in_space, &turn.units_in_space_changed);
        let ghost sp_put = team.units_in_space@;
        take_out_units(&mut team.units_in_space, &turn.units_in_space_vanished);
        proof {
            assert(sp0 == w1.us().units_in_space@);
            let want = insert_units(sp0, turn.units_in_space_changed@).remove_keys(turn.units_in_space_vanished@.to_set());
            assert(team.units_in_space@.dom() =~= want.dom());
            assert forall|id: UnitID| #[trigger] team.units_in_space@.contains_key(id) implies same_unit(
                team.units_in_space@[id],
                want[id],
            ) by {
                assert(sp_put.contains_key(id));
            }
        }
        let other = p.other();
        let ghost h0 = team.team_arrays.history_of(other);
        let ghost hp = team.team_arrays.history_of(p);
        let ghost sp_done = team.units_in_space@;
        proof {
            team.team_arrays.lemma_histories();
            assert(other == Planet::Earth || other == Planet::Mars);
            assert(turn.other_array_changed@.take(0) =~= Seq::<(usize, i32)>::empty());
            assert(h0.update(0, set_entries(h0[0], turn.other_array_changed@.take(0))) =~= h0);
        }
        let mut k: usize = 0;
        while k < turn.other_array_changed.len()
            invariant
                team.team_arrays.wf(),
                0 <= k <= turn.other_array_changed@.len(),
                forall|q: int| 0 <= q < turn.other_array_changed@.len() ==> (#[trigger] turn.other_array_changed@[q]).0 < h0[0].len(),
                h0.len() >= 1,
                team.team_arrays.history_of(other) == h0.update(0, set_entries(h0[0], turn.other_array_changed@.take(k as int))),
                team.team_arrays.history_of(p) == hp,
                team.units_in_space@ == sp_done,
                other == p.other(),
            decreases turn.other_array_changed@.len() - k,
        {
            let (index, value) = turn.other_array_changed[k];
            proof {
                assert(turn.other_array_changed@[k as int].0 < h0[0].len());
                lemma_set_entries(h0[0], turn.other_array_changed@.take(k as int));
                assert(p.other().other() == p);
            }
            let _ = team.team_arrays.write(other, index, value);
            proof {
                let s = turn.other_array_changed@.take(k + 1);
                assert(s.drop_last() =~= turn.other_array_changed@.take(k as int));
                assert(s.last() == turn.other_array_changed@[k as int]);
                assert(team.team_arrays.history_of(other) =~= h0.update(0, set_entries(h0[0], s)));
            }
            k = k + 1;
        }
        proof {
            assert(turn.other_array_changed@.take(turn.other_array_changed@.len() as int) =~= turn.other_array_changed@);
        }
        self.id_generator = turn.id_generator;
        team.rocket_landings = turn.rocket_landings.clone();
        team.research = turn.research.clone();
        team.karbonite = turn.karbonite;
        self.round = turn.round;
        self.put_team(t, team);
        proof {
            let sp = self.team_states@[t].units_in_space@;
            let want = insert_units(w1.us().units_in_space@, turn.units_in_space_changed@).remove_keys(
                turn.units_in_space_vanished@.to_set(),
            );
            lemma_insert_units(w1.us().units_in_space@, turn.units_in_space_changed@);
            assert forall|id: UnitID| #[trigger] sp.contains_key(id) implies sp[id].id == id && !(sp[id].location is OnMap) by {
                assert(want.contains_key(id) && same_unit(sp[id], want[id]));
                if exists|i: int| 0 <= i < turn.units_in_space_changed@.len() && turn.units_in_space_changed@[i].id == id {
                    let i = choose|i: int| 0 <= i < turn.units_in_space_changed@.len() && turn.units_in_space_changed@[i].id == id
                        && insert_units(w1.us().units_in_space@, turn.units_in_space_changed@)[id] == turn.units_in_space_changed@[i];
                } else {
                    assert(w1.us().units_in_space@.contains_key(id));
                }
            }
            assert(keyed_by_id(sp));
            assert forall|q: Planet| #[trigger] self.planet_states@.contains_key(q) implies {
                &&& self.planet_states@[q].indexed()
                &&& self.planet_states@[q].fits(self.planet_maps@[q])
            } by {
                assert(w1.planet_states@.contains_key(q));
            }
            assert forall|q: Team| #[trigger] self.team_states@.contains_key(q) implies self.team_states@[q].wf() by {
                if q != t {
                    assert(w1.team_states@.contains_key(q));
                }
            }
            assert forall|q: Team, id: UnitID| #[trigger] self.team_states@[q].units_in_space@.contains_key(id)
                && self.team_states@.contains_key(q) implies self.team_states@[q].units_in_space@[id].id == id && !(
            self.team_states@[q].units_in_space@[id].location is OnMap) by {
                if q != t {
                    assert(w1.team_states@.contains_key(q));
                    assert(w1.team_states@[q].units_in_space@.contains_key(id));
                }
            }
            assert(self.team_states@[t] == self.us());
            assert(self.planet_states@[p] == self.here());
        }
    }
}


/// What a player learns at the start of its turn brings its last view up to
/// date: where the message tells what changed from the player's last view
/// `old` to its view now `new` (as `start_turn_message` makes it), putting
/// in and taking out the units it names gives copies of the units of `new`,
/// on the planet and in space, with no two on one square; setting the
/// squares it names gives the karbonite of `new`; and setting the entries
/// it names gives the other planet's array of `new`.
pub proof fn lemma_turn_message_restores(old: GameWorld, new: GameWorld, turn: StartTurnMessage)
    requires
        new.wf(),
        units_delta(old.here().units@, new.here().units@, turn.units_changed@, turn.units_vanished@),
        units_delta(old.us().units_in_space@, new.us().units_in_space@, turn.units_in_space_changed@, turn.units_in_space_vanished@),
        karbonite_delta(
            grid_view(old.here().karbonite@),
            grid_view(new.here().karbonite@),
            new.map_of(new.mover().planet),
            turn.karbonite_changed@,
        ),
        grid_view(old.here().karbonite@).len() == new.map_of(new.mover().planet).height,
        forall|y: int| 0 <= y < new.map_of(new.mover().planet).height ==> (#[trigger] grid_view(old.here().karbonite@)[y]).len()
            == new.map_of(new.mover().planet).width,
        array_delta(
            old.us().team_arrays.history_of(new.mover().planet.other()).last(),
            new.us().team_arrays.history_of(new.mover().planet.other()).last(),
            turn.other_array_changed@,
        ),
        old.us().team_arrays.history_of(new.mover().planet.other()).last().len() == new.us().team_arrays.history_of(
            new.mover().planet.other(),
        ).last().len(),
    ensures
        same_units(
            insert_units(old.here().units@, turn.units_changed@).remove_keys(turn.units_vanished@.to_set()),
            new.here().units@,
        ),
        places_distinct(insert_units(old.here().units@, turn.units_changed@).remove_keys(turn.units_vanished@.to_set())),
        same_units(
            insert_units(old.us().units_in_space@, turn.units_in_space_changed@).remove_keys(
                turn.units_in_space_vanished@.to_set(),
            ),
            new.us().units_in_space@,
        ),
        set_squares(grid_view(old.here().karbonite@), turn.karbonite_changed@) == grid_view(new.here().karbonite@),
        set_entries(
            old.us().team_arrays.history_of(new.mover().planet.other()).last(),
            turn.other_array_changed@,
        ) == new.us().team_arrays.history_of(new.mover().planet.other()).last(),
{
    new.lemma_here_fits();
    lemma_units_delta_applies(old.here().units@, new.here().units@, turn.units_changed@, turn.units_vanished@);
    lemma_units_delta_applies(
        old.us().units_in_space@,
        new.us().units_in_space@,
        turn.units_in_space_changed@,
        turn.units_in_space_vanished@,
    );
    let m = new.map_of(new.mover().planet);
    let gk = grid_view(new.here().karbonite@);
    assert(gk.len() == new.here().karbonite@.len());
    assert forall|y: int| 0 <= y < m.height implies (#[trigger] gk[y]).len() == m.width by {
        assert(gk[y] == new.here().karbonite@[y]@);
    }
    lemma_karbonite_delta_applies(grid_view(old.here().karbonite@), gk, m, turn.karbonite_changed@);
    lemma_array_delta_applies(
        old.us().team_arrays.history_of(new.mover().planet.other()).last(),
        new.us().team_arrays.history_of(new.mover().planet.other()).last(),
        turn.other_array_changed@,
    );
    let res = insert_units(old.here().units@, turn.units_changed@).remove_keys(turn.units_vanished@.to_set());
    let n = new.here().units@;
    assert forall|a: UnitID, b: UnitID|
        #[trigger] res.contains_key(a) && #[trigger] res.contains_key(b) && a != b && res[a].location is OnMap
            implies res[a].location != res[b].location by {
        assert(n.contains_key(a) && n.contains_key(b));
        assert(same_unit(res[a], n[a]) && same_unit(res[b], n[b]));
        if res[a].location == res[b].location {
            let l = n[a].location->OnMap_0;
            assert(new.here().units_by_loc@[l] == a);
            assert(new.here().units_by_loc@[l] == b);
        }
    }
}


impl GameWorld {
    /// What applying a turn makes of this world, and what it returns: see `apply_turn`.
    pub open spec fn turn_applied(&self, turn: TurnMessage, flight: Rounds, view: GameWorld, time_left_ms: i32, next: GameWorld, r: Result<(GameWorld, StartTurnMessage), GameError>) -> bool {
        &&& r matches Ok((now, stm)) ==> {
            &&& now.wf()
            &&& now.mover() == next.mover()
            &&& now.round_now() == next.round_now()
            &&& units_delta(view.here().units@, now.here().units@, stm.units_changed@, stm.units_vanished@)
            &&& stm.round == now.round_now()
        }
        &&& r is Ok ==> exists|mid: GameWorld| #[trigger] self.deltas_applied(turn.changes@, flight, mid)
            && mid.turn_ended(next) && next.mover() == next_player(mid.mover())
            && next.filterable() && next.diffable_from(view)
        &&& r matches Ok((now, stm)) ==> next.filter_view(next.mover(), now) && now.turn_message_from(
            view,
            time_left_ms,
            stm,
        )
        &&& r is Err ==> (exists|k: int, mid: GameWorld|
            0 <= k < turn.changes@.len() && #[trigger] self.deltas_applied(turn.changes@.take(k), flight, mid)
                && mid.refused_at(turn.changes@[k], flight, next, r->Err_0)) || (exists|mid: GameWorld|
            #[trigger] self.deltas_applied(turn.changes@, flight, mid) && r == Err::<
                (GameWorld, StartTurnMessage),
                GameError,
            >(GameError::InternalEngineError) && mid.turn_end_refused(next, view))
    }
}

impl GameWorld {
    /// Whether the player's view can be taken: the world holds the player's
    /// planet and team, and the team keeps enough versions of the other
    /// planet's array.
    pub fn can_filter(&self, player: Player) -> (r: bool)
        requires
            self.wf(),
        ensures
            r == (self.has_planet(player.planet) && self.has_team(player.team) && self.team_of(
                player.team,
            ).team_arrays.history_of(player.planet.other()).len() > COMMUNICATION_DELAY),
    {
        if planet_map_get(&self.planet_states, player.planet).is_none() {
            return false;
        }
        match team_map_get(&self.team_states, player.team) {
            Some(t) => {
                proof {
                    assert(self.team_states@.contains_key(player.team));
                }
                t.team_arrays.history_len(player.planet.other()) > COMMUNICATION_DELAY
            },
            None => false,
        }
    }

    /// Whether the turn message from the view `old` to this view can be
    /// made: both views are of one player, on maps of one size, and the
    /// other planet's arrays have the communication length.
    pub fn can_diff(&self, old: &GameWorld) -> (r: bool)
        requires
            self.wf(),
            old.wf(),
        ensures
            r == (old.mover() == self.mover() && old.map_of(self.mover().planet).width == self.map_of(
                self.mover().planet,
            ).width && old.map_of(self.mover().planet).height == self.map_of(self.mover().planet).height
                && old.us().team_arrays.history_of(self.mover().planet.other()).last().len() == COMMUNICATION_ARRAY_LENGTH
                && self.us().team_arrays.history_of(self.mover().planet.other()).last().len() == COMMUNICATION_ARRAY_LENGTH),
    {
        let p = self.planet();
        if old.planet() != p || old.team() != self.team() {
            proof {
                assert(old.mover() != self.mover());
            }
            return false;
        }
        proof {
            assert(old.mover() == self.mover());
        }
        old.starting_map(p).width == self.starting_map(p).width && old.starting_map(p).height == self.starting_map(
            p,
        ).height && old.get_team_array(p.other()).len() == COMMUNICATION_ARRAY_LENGTH && self.get_team_array(
            p.other(),
        ).len() == COMMUNICATION_ARRAY_LENGTH
    }

    /// Whether the delta disintegrates a unit of the player to move that
    /// neither stands on the map nor is in space.
    pub open spec fn refuses_disintegration(&self, d: Delta) -> bool {
        match d {
            Delta::Disintegrate { unit_id } => {
                &&& self.sees_unit(unit_id)
                &&& self.seen_unit(unit_id).team == self.mover().team
                &&& !(self.seen_unit(unit_id).location is OnMap)
                &&& !(self.seen_unit(unit_id).location is InSpace)
            },
            _ => false,
        }
    }

    /// The world `next` is this world after the deltas, each applied in turn
    /// and each succeeding.
    pub open spec fn deltas_applied(&self, ds: Seq<Delta>, flight: Rounds, next: GameWorld) -> bool {
        exists|ws: Seq<GameWorld>| #[trigger] delta_chain(ws, *self, ds, flight, next)
    }

    /// The delta fails on this world with the error `e`, leaving `next`.
    pub open spec fn refused_at(&self, d: Delta, flight: Rounds, next: GameWorld, e: GameError) -> bool {
        ||| self.refuses_disintegration(d) && e == GameError::InternalEngineError && next == *self
        ||| !self.refuses_disintegration(d) && self.applied(d, flight, next, Err::<(), GameError>(e))
    }

    /// The view of the player to move can be taken.
    pub open spec fn filterable(&self) -> bool {
        let player = self.mover();
        &&& self.has_planet(player.planet)
        &&& self.has_team(player.team)
        &&& self.team_of(player.team).team_arrays.history_of(player.planet.other()).len() > COMMUNICATION_DELAY
    }

    /// The view of the player to move, once taken, can be compared with the
    /// last view `view`: both are of one player, on maps of one size, and
    /// the other planet's arrays have the communication length.
    pub open spec fn diffable_from(&self, view: GameWorld) -> bool {
        let p = self.mover().planet;
        &&& view.mover() == self.mover()
        &&& view.map_of(p).width == self.map_of(p).width
        &&& view.map_of(p).height == self.map_of(p).height
        &&& view.us().team_arrays.history_of(p.other()).last().len() == COMMUNICATION_ARRAY_LENGTH
        &&& self.team_of(self.mover().team).team_arrays.history_of(p.other())[COMMUNICATION_DELAY as int].len()
            == COMMUNICATION_ARRAY_LENGTH
    }

    /// Ending the turn of this world fails, leaving `next`: the round is the
    /// last a `u32` holds, or the next player's view cannot be taken or
    /// compared with `view`.
    pub open spec fn turn_end_refused(&self, next: GameWorld, view: GameWorld) -> bool {
        let last = self.mover() == (Player { team: Team::Blue, planet: Planet::Mars });
        ||| last && self.round_now() == u32::MAX && next == *self
        ||| !(last && self.round_now() == u32::MAX) && next.mover() == next_player(self.mover()) && (!next.filterable()
            || !next.diffable_from(view))
    }

    /// Applies the deltas of a turn in their order, up to the first that
    /// fails, with its error: one that fails to apply, or that disintegrates
    /// a unit of the player that neither stands on the map nor is in space
    /// (InternalEngineError).
    #[verifier::spinoff_prover]
    #[verifier::rlimit(60)]
    fn apply_deltas(&mut self, turn: &TurnMessage, flight: Rounds) -> (r: Result<(), GameError>)
        requires
            old(self).full(),
        ensures
            final(self).full(),
            r is Ok ==> old(self).deltas_applied(turn.changes@, flight, *final(self)),
            r matches Err(e) ==> exists|k: int, mid: GameWorld|
                0 <= k < turn.changes@.len() && #[trigger] old(self).deltas_applied(turn.changes@.take(k), flight, mid)
                    && mid.refused_at(turn.changes@[k], flight, *final(self), e),
    {
        let ghost w0 = *old(self);
        let ghost ds = turn.changes@;
        let ghost mut ws: Seq<GameWorld> = seq![w0];
        let mut i: usize = 0;
        proof {
            assert(ds.take(0) =~= Seq::<Delta>::empty());
            assert(delta_chain(ws, w0, ds.take(0), flight, *self));
        }
        while i < turn.changes.len()
            invariant
                self.full(),
                0 <= i <= turn.changes@.len(),
                ds == turn.changes@,
                w0 == *old(self),
                delta_chain(ws, w0, ds.take(i as int), flight, *self),
            decreases turn.changes@.len() - i,
        {
            let delta = turn.changes[i];
            let ghost start = *self;
            proof {
                assert(w0.deltas_applied(ds.take(i as int), flight, start));
            }
            if let Delta::Disintegrate { unit_id } = delta {
                match self.my_unit(unit_id) {
                    Ok(u) => {
                        let placed = match u.location {
                            Location::OnMap(_) => true,
                            Location::InSpace => true,
                            _ => false,
                        };
                        if !placed {
                            proof {
                                assert(start.refused_at(ds[i as int], flight, *self, GameError::InternalEngineError));
                            }
                            return Err(GameError::InternalEngineError);
                        }
                    },
                    Err(_) => {},
                }
            }
            proof {
                assert(!start.refuses_disintegration(delta));
            }
            match self.apply(&delta, flight) {
                Ok(()) => {},
                Err(e) => {
                    proof {
                        assert(start.refused_at(ds[i as int], flight, *self, e));
                    }
                    return Err(e);
                },
            }
            proof {
                let ws0 = ws;
                let d0 = ds.take(i as int);
                let d1 = ds.take(i + 1);
                ws = ws.push(*self);
                assert(d1 =~= d0.push(delta));
                assert forall|j: int| 0 <= j < d1.len() implies !(#[trigger] ws[j]).refuses_disintegration(d1[j])
                    && ws[j].applied(d1[j], flight, ws[j + 1], Ok::<(), GameError>(())) by {
                    if j < d0.len() {
                        assert(ws[j] == ws0[j] && ws[j + 1] == ws0[j + 1] && d1[j] == d0[j]);
                    } else {
                        assert(ws[j] == start && ws[j + 1] == *self && d1[j] == delta);
                    }
                }
                assert(delta_chain(ws, w0, d1, flight, *self));
            }
            i = i + 1;
        }
        proof {
            assert(ds.take(ds.len() as int) =~= ds);
            assert(w0.deltas_applied(ds, flight, *self));
        }
        Ok(())
    }

    /// Applies a turn of the player to move, then ends the turn. Returns the
    /// view of the player who moves next and the message that brings its
    /// last view `view` up to date. `flight` is the orbit's duration of
    /// flight for the current round, used by a rocket launch.
    ///
    /// * a delta that fails, or disintegrates a unit of the player that
    ///   neither stands on the map nor is in space, fails the turn with its
    ///   error (InternalEngineError for the latter), the deltas before it
    ///   applied;
    /// * InternalEngineError - the round is the last a `u32` holds, or the
    ///   next player's view cannot be taken or compared with `view`.
    pub fn apply_turn(&mut self, turn: &TurnMessage, flight: Rounds, view: &GameWorld, time_left_ms: i32) -> (r: Result<
        (GameWorld, StartTurnMessage),
        GameError,
    >)
        requires
            old(self).full(),
            view.wf(),
        ensures
            final(self).full(),
            old(self).turn_applied(*turn, flight, *view, time_left_ms, *final(self), r),
    {
        match self.apply_deltas(turn, flight) {
            Ok(()) => {},
            Err(e) => {
                return Err(e);
            },
        }
        let ghost mid = *self;
        let last = self.player_to_move.team == Team::Blue && self.player_to_move.planet == Planet::Mars;
        if last && self.round == u32::MAX {
            proof {
                assert(mid.turn_end_refused(*self, *view));
            }
            return Err(GameError::InternalEngineError);
        }
        self.end_turn();
        let player = self.player_to_move;
        if !self.can_filter(player) {
            proof {
                assert(mid.turn_end_refused(*self, *view));
            }
            return Err(GameError::InternalEngineError);
        }
        let now = self.filter(player);
        if !now.can_diff(view) {
            proof {
                assert(!self.diffable_from(*view));
                assert(mid.turn_end_refused(*self, *view));
            }
            return Err(GameError::InternalEngineError);
        }
        proof {
            assert(self.diffable_from(*view));
        }
        let stm = now.start_turn_message(view, time_left_ms);
        Ok((now, stm))
    }

    /// The message that starts the first turn of the game for the player
    /// of this view: nothing has changed yet.
    pub fn initial_start_turn_message(&self, time_left_ms: i32) -> (r: StartTurnMessage)
        requires
            self.wf(),
            self.round_now() == 1,
        ensures
            r.time_left_ms == time_left_ms,
            r.round == 1,
            grid_view(r.visible_locs@) == grid_view(self.here().visible_locs@),
            r.units_changed@.len() == 0,
            r.units_vanished@.len() == 0,
            r.karbonite_changed@.len() == 0,
            r.id_generator == self.ids(),
            r.units_in_space_changed@.len() == 0,
            r.units_in_space_vanished@.len() == 0,
            r.other_array_changed@.len() == 0,
            r.rocket_landings.landings_view() == self.us().rocket_landings.landings_view(),
            r.research.levels() == self.us().research.levels(),
            r.research.queue_view() == self.us().research.queue_view(),
            r.research.rounds() == self.us().research.rounds(),
            r.karbonite == self.us().karbonite,
    {
        proof {
            self.lemma_here_fits();
        }
        StartTurnMessage {
            time_left_ms: time_left_ms,
            round: self.round,
            visible_locs: copy_grid(&self.my_planet().visible_locs),
            units_changed: Vec::new(),
            units_vanished: Vec::new(),
            karbonite_changed: Vec::new(),
            id_generator: self.id_generator,
            units_in_space_changed: Vec::new(),
            units_in_space_vanished: Vec::new(),
            other_array_changed: Vec::new(),
            rocket_landings: self.my_team().rocket_landings.clone(),
            research: self.my_team().research.clone(),
            karbonite: self.my_team().karbonite,
        }
    }
}


/// A copy of a map from locations to unit IDs.
fn copy_loc_table(m: &FnvHashMap<MapLocation, UnitID>) -> (r: FnvHashMap<MapLocation, UnitID>)
    ensures
        r@ == m@,
{
    let keys = loc_map_keys(m);
    let mut out: FnvHashMap<MapLocation, UnitID> = fnv_new();
    let mut i: usize = 0;
    while i < keys.len()
        invariant
            0 <= i <= keys@.len(),
            forall|k: MapLocation| #[trigger] keys@.contains(k) <==> m@.contains_key(k),
            forall|k: MapLocation| #[trigger] out@.contains_key(k) <==> keys@.take(i as int).contains(k),
            forall|k: MapLocation| #[trigger] out@.contains_key(k) ==> out@[k] == m@[k],
        decreases keys@.len() - i,
    {
        let k = keys[i];
        proof {
            assert(keys@.contains(k));
        }
        let v = *loc_map_get(m, k).unwrap();
        let ghost before = out@;
        loc_map_insert(&mut out, k, v);
        proof {
            let t1 = keys@.take(i + 1);
            let t0 = keys@.take(i as int);
            assert forall|a: MapLocation| #[trigger] out@.contains_key(a) <==> t1.contains(a) by {
                if t1.contains(a) {
                    let j = choose|j: int| 0 <= j < t1.len() && t1[j] == a;
                    if j < i {
                        assert(t0[j] == a);
                    }
                }
                if t0.contains(a) {
                    let j = choose|j: int| 0 <= j < t0.len() && t0[j] == a;
                    assert(t1[j] == a);
                }
                assert(t1[i as int] == k);
            }
        }
        i = i + 1;
    }
    proof {
        assert(keys@.take(keys@.len() as int) =~= keys@);
        assert(out@ =~= m@);
    }
    out
}

/// A copy of a list of viewer messages.
fn copy_deltas(v: &Vec<ViewerDelta>) -> (r: Vec<ViewerDelta>)
    ensures
        r@ == v@,
{
    let mut r: Vec<ViewerDelta> = Vec::new();
    let mut i: usize = 0;
    while i < v.len()
        invariant
            0 <= i <= v@.len(),
            r@ == v@.take(i as int),
        decreases v@.len() - i,
    {
        r.push(v[i]);
        proof {
            assert(v@.take(i + 1) =~= v@.take(i as int).push(v@[i as int]));
        }
        i = i + 1;
    }
    proof {
        assert(v@.take(v@.len() as int) =~= v@);
    }
    r
}

impl PlanetInfo {
    /// This planet state holds what `other` holds.
    pub open spec fn copy_of(&self, other: PlanetInfo) -> bool {
        &&& same_units(self.units@, other.units@)
        &&& self.units_by_loc@ == other.units_by_loc@
        &&& grid_view(self.karbonite@) == grid_view(other.karbonite@)
        &&& grid_view(self.visible_locs@) == grid_view(other.visible_locs@)
    }

    /// A copy of the planet's state.
    fn duplicate(&self) -> (r: PlanetInfo)
        ensures
            r.copy_of(*self),
    {
        PlanetInfo {
            visible_locs: copy_grid(&self.visible_locs),
            units: copy_unit_table(&self.units),
            units_by_loc: copy_loc_table(&self.units_by_loc),
            karbonite: copy_grid(&self.karbonite),
        }
    }
}

impl TeamInfo {
    /// This team state holds what `other` holds.
    pub open spec fn copy_of(&self, other: TeamInfo) -> bool {
        &&& forall|p: Planet| #[trigger] self.team_arrays.history_of(p) == other.team_arrays.history_of(p)
        &&& self.rocket_landings.landings_view() == other.rocket_landings.landings_view()
        &&& self.research.levels() == other.research.levels()
        &&& self.research.queue_view() == other.research.queue_view()
        &&& self.research.rounds() == other.research.rounds()
        &&& same_units(self.units_in_space@, other.units_in_space@)
        &&& self.karbonite == other.karbonite
    }

    /// A copy of the team's state.
    fn duplicate(&self) -> (r: TeamInfo)
        requires
            self.wf(),
        ensures
            r.wf(),
            r.copy_of(*self),
    {
        TeamInfo {
            team_arrays: self.team_arrays.clone(),
            rocket_landings: self.rocket_landings.clone(),
            research: self.research.clone(),
            units_in_space: copy_unit_table(&self.units_in_space),
            karbonite: self.karbonite,
        }
    }
}

impl GameWorld {
    /// This world holds what `other` holds: the same round, player, ID
    /// generator, patterns and viewer messages, copies of the same maps,
    /// and copies of the same planet and team states.
    pub closed spec fn copy_of(&self, other: GameWorld) -> bool {
        &&& self.round == other.round
        &&& self.player_to_move == other.player_to_move
        &&& self.id_generator == other.id_generator
        &&& self.asteroids.strikes() == other.asteroids.strikes()
        &&& self.orbit == other.orbit
        &&& self.viewer_changes@ == other.viewer_changes@
        &&& self.planet_maps@.dom() == other.planet_maps@.dom()
        &&& forall|p: Planet| #[trigger] self.planet_maps@.contains_key(p) ==> {
            let a = self.planet_maps@[p];
            let b = other.planet_maps@[p];
            &&& a.planet == b.planet
            &&& a.width == b.width
            &&& a.height == b.height
            &&& copies(a.initial_units@, b.initial_units@)
            &&& grid_view(a.is_passable_terrain@) == grid_view(b.is_passable_terrain@)
            &&& grid_view(a.initial_karbonite@) == grid_view(b.initial_karbonite@)
        }
        &&& self.planet_states@.dom() == other.planet_states@.dom()
        &&& forall|p: Planet| #[trigger] self.planet_states@.contains_key(p) ==> self.planet_states@[p].copy_of(
            other.planet_states@[p],
        )
        &&& self.team_states@.dom() == other.team_states@.dom()
        &&& forall|t: Team| #[trigger] self.team_states@.contains_key(t) ==> self.team_states@[t].copy_of(
            other.team_states@[t],
        )
    }

    /// A copy of the world, holding what it holds.
    pub fn duplicate(&self) -> (r: GameWorld)
        requires
            self.wf(),
        ensures
            r.wf(),
            r.copy_of(*self),
            r.round_now() == self.round_now(),
            r.mover() == self.mover(),
    {
        proof {
            self.lemma_here_fits();
        }
        let mut planet_maps: FnvHashMap<Planet, PlanetMap> = fnv_new();
        let earth_map = copy_planet_map(planet_map_get(&self.planet_maps, Planet::Earth).unwrap());
        planet_map_insert(&mut planet_maps, Planet::Earth, earth_map);
        let mars_map = copy_planet_map(planet_map_get(&self.planet_maps, Planet::Mars).unwrap());
        planet_map_insert(&mut planet_maps, Planet::Mars, mars_map);
        let mut planet_states: FnvHashMap<Planet, PlanetInfo> = fnv_new();
        match planet_map_get(&self.planet_states, Planet::Earth) {
            Some(info) => {
                planet_map_insert(&mut planet_states, Planet::Earth, info.duplicate());
            },
            None => {},
        }
        match planet_map_get(&self.planet_states, Planet::Mars) {
            Some(info) => {
                planet_map_insert(&mut planet_states, Planet::Mars, info.duplicate());
            },
            None => {},
        }
        let mut team_states: FnvHashMap<Team, TeamInfo> = fnv_new();
        match team_map_get(&self.team_states, Team::Red) {
            Some(info) => {
                proof {
                    assert(self.team_states@.contains_key(Team::Red));
                }
                team_map_insert(&mut team_states, Team::Red, info.duplicate());
            },
            None => {},
        }
        match team_map_get(&self.team_states, Team::Blue) {
            Some(info) => {
                proof {
                    assert(self.team_states@.contains_key(Team::Blue));
                }
                team_map_insert(&mut team_states, Team::Blue, info.duplicate());
            },
            None => {},
        }
        let r = GameWorld {
            round: self.round,
            player_to_move: self.player_to_move,
            id_generator: self.id_generator,
            asteroids: self.asteroids.copy(),
            orbit: self.orbit,
            planet_maps: planet_maps,
            planet_states: planet_states,
            team_states: team_states,
            viewer_changes: copy_deltas(&self.viewer_changes),
        };
        proof {
            assert(r.planet_maps@.dom() =~= self.planet_maps@.dom()) by {
                assert forall|p: Planet| #[trigger] self.planet_maps@.contains_key(p) implies p == Planet::Earth
                    || p == Planet::Mars by {}
            }
            assert(r.planet_states@.dom() =~= self.planet_states@.dom()) by {
                assert forall|p: Planet| #[trigger] self.planet_states@.contains_key(p) implies p == Planet::Earth
                    || p == Planet::Mars by {}
            }
            assert(r.team_states@.dom() =~= self.team_states@.dom()) by {
                assert forall|t: Team| #[trigger] self.team_states@.contains_key(t) implies t == Team::Red
                    || t == Team::Blue by {}
            }
            assert forall|p: Planet| #[trigger] r.planet_states@.contains_key(p) implies {
                &&& r.planet_states@[p].indexed()
                &&& r.planet_states@[p].fits(r.planet_maps@[p])
            } by {
                let a = r.planet_states@[p];
                let b = self.planet_states@[p];
                assert(b.indexed() && b.fits(self.planet_maps@[p]));
                assert(a.units@.dom() == b.units@.dom());
                assert forall|l: MapLocation| #[trigger] a.units_by_loc@.contains_key(l) implies {
                    &&& a.units@.contains_key(a.units_by_loc@[l])
                    &&& a.units@[a.units_by_loc@[l]].location == Location::OnMap(l)
                } by {
                    assert(b.units_by_loc@.contains_key(l));
                }
                assert forall|id: UnitID| #[trigger] a.units@.contains_key(id) implies {
                    &&& a.units@[id].id == id
                    &&& (a.units@[id].location is OnMap ==> {
                        let l = a.units@[id].location->OnMap_0;
                        a.units_by_loc@.contains_key(l) && a.units_by_loc@[l] == id
                    })
                } by {
                    assert(b.units@.contains_key(id));
                    assert(same_unit(a.units@[id], b.units@[id]));
                }
                let m = self.planet_maps@[p];
                assert(a.karbonite@.len() == grid_view(a.karbonite@).len());
                assert(b.karbonite@.len() == grid_view(b.karbonite@).len());
                assert(a.visible_locs@.len() == grid_view(a.visible_locs@).len());
                assert(b.visible_locs@.len() == grid_view(b.visible_locs@).len());
                assert forall|y: int| 0 <= y < m.height implies (#[trigger] a.karbonite@[y])@.len() == m.width by {
                    assert(grid_view(a.karbonite@)[y] == a.karbonite@[y]@);
                    assert(grid_view(b.karbonite@)[y] == b.karbonite@[y]@);
                }
                assert forall|y: int| 0 <= y < m.height implies (#[trigger] a.visible_locs@[y])@.len() == m.width by {
                    assert(grid_view(a.visible_locs@)[y] == a.visible_locs@[y]@);
                    assert(grid_view(b.visible_locs@)[y] == b.visible_locs@[y]@);
                }
            }
            assert forall|t: Team, id: UnitID| #[trigger] r.team_states@[t].units_in_space@.contains_key(id)
                && r.team_states@.contains_key(t) implies r.team_states@[t].units_in_space@[id].id == id
                && !(r.team_states@[t].units_in_space@[id].location is OnMap) by {
                assert(self.team_states@[t].units_in_space@.contains_key(id));
                assert(same_unit(r.team_states@[t].units_in_space@[id], self.team_states@[t].units_in_space@[id]));
            }
            assert(r.copy_of(*self));
        }
        r
    }
}

} // verus!

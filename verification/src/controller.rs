//! What the controller decides between its reads and writes: whether a
//! message from the manager is to be accepted, and where the lines of the
//! stream from the manager end.
use vstd::prelude::*;
use crate::config::Config;
use crate::constants::COMMUNICATION_DELAY;
use crate::error::GameError;
use crate::location::{Direction, Location, MapLocation, Planet};
use crate::map::{AsteroidPattern, GameMap, OrbitPattern, PlanetMap};
use crate::research::ResearchInfo;
use crate::rockets::RocketLandingInfo;
use crate::team_array::TeamArray;
use fnv::FnvHashMap;
use crate::schema::{
    Delta, ReceivedMessage, StartGameMessage, StartTurnMessage, TurnApplication, TurnMessage, ViewerDelta,
    ViewerMessage,
};
use crate::unit::{same_unit, Unit, UnitID, UnitType};
use crate::world::{
    all_on_planet, grid_view, holds_exactly, lists_units, loc_before, map_loc, near_square, shaped, units_placeable,
    GameWorld, Player, Rounds, Team,
};
use crate::text::chars_of;

verus! {

/// Why a message from the manager is refused.
#[derive(Debug, Clone, PartialEq, Eq)]
pub enum MessageError {
    /// The player is not logged in.
    NotLoggedIn,
    /// The message is for another client.
    WrongClientId { expected: String, actual: String },
    /// The manager reports an error.
    ManagerError { error: String },
    /// The envelope holds no message.
    NoMessage,
}

/// Whether two strings hold the same text.
fn same_text(a: &str, b: &str) -> (r: bool)
    ensures
        r == (a@ == b@),
{
    let x = chars_of(a);
    let y = chars_of(b);
    if x.len() != y.len() {
        return false;
    }
    let mut i: usize = 0;
    while i < x.len()
        invariant
            0 <= i <= x@.len(),
            x@.len() == y@.len(),
            x@ == a@,
            y@ == b@,
            forall|k: int| 0 <= k < i ==> x@[k] == y@[k],
        decreases x@.len() - i,
    {
        if x[i] != y[i] {
            return false;
        }
        i = i + 1;
    }
    assert(a@ =~= b@);
    true
}

/// A copy of a string.
fn copy_string(s: &String) -> (r: String)
    ensures
        r@ == s@,
{
    s.clone()
}

/// The refusal of a message meant for client `actual` by player `expected`.
pub open spec fn wrong_client<T>(r: Result<T, MessageError>, expected: Seq<char>, actual: Seq<char>) -> bool {
    match r {
        Err(MessageError::WrongClientId { expected: e, actual: a }) => e@ == expected && a@ == actual,
        _ => false,
    }
}

/// The refusal of a message on which the manager reports `error`.
pub open spec fn manager_error<T>(r: Result<T, MessageError>, error: Seq<char>) -> bool {
    match r {
        Err(MessageError::ManagerError { error: e }) => e@ == error,
        _ => false,
    }
}

/// A line was handed out, with these bytes.
pub open spec fn line_is(r: Option<Vec<u8>>, bytes: Seq<u8>) -> bool {
    match r {
        Some(line) => line@ == bytes,
        None => false,
    }
}

/// Opens a message from the manager: its content, if the player is logged
/// in, the message is for this player, the manager reports no error, and
/// there is a message.
///
/// * NotLoggedIn - the player is not logged in.
/// * WrongClientId - the message is for another client.
/// * ManagerError - the manager reports an error.
/// * NoMessage - there is no message.
pub fn check_message<T>(msg: ReceivedMessage<T>, player_key: &str) -> (r: Result<T, MessageError>)
    ensures
        !msg.logged_in ==> r == Err::<T, MessageError>(MessageError::NotLoggedIn),
        msg.logged_in && msg.client_id@ != player_key@ ==> wrong_client(r, player_key@, msg.client_id@),
        msg.logged_in && msg.client_id@ == player_key@ && msg.error is Some ==> manager_error(
            r,
            msg.error->0@,
        ),
        msg.logged_in && msg.client_id@ == player_key@ && msg.error is None ==> {
            &&& msg.message is None ==> r == Err::<T, MessageError>(MessageError::NoMessage)
            &&& msg.message is Some ==> r == Ok::<T, MessageError>(msg.message->0)
        },
{
    let ReceivedMessage { logged_in, client_id, error, message } = msg;
    if !logged_in {
        return Err(MessageError::NotLoggedIn);
    }
    if !same_text(client_id.as_str(), player_key) {
        return Err(
            MessageError::WrongClientId { expected: player_key.to_owned(), actual: client_id },
        );
    }
    if let Some(error) = error {
        return Err(MessageError::ManagerError { error: error });
    }
    match message {
        Some(message) => Ok(message),
        None => Err(MessageError::NoMessage),
    }
}

/// The first newline of `s` is at `i`.
pub open spec fn newline_at(s: Seq<u8>, i: int) -> bool {
    &&& 0 <= i < s.len()
    &&& s[i] == 10u8
    &&& forall|j: int| 0 <= j < i ==> s[j] != 10u8
}

/// `s` holds no newline.
pub open spec fn no_newline(s: Seq<u8>) -> bool {
    forall|j: int| 0 <= j < s.len() ==> s[j] != 10u8
}

/// The bytes read from the manager that do not yet make a whole line.
pub struct Stream {
    buf: Vec<u8>,
}

/// The index of the first newline among the bytes, if any.
fn find_newline(s: &[u8]) -> (r: Option<usize>)
    ensures
        r matches Some(i) ==> newline_at(s@, i as int),
        r is None ==> no_newline(s@),
{
    let mut i: usize = 0;
    while i < s.len()
        invariant
            0 <= i <= s@.len(),
            forall|j: int| 0 <= j < i ==> s@[j] != 10u8,
        decreases s@.len() - i,
    {
        if s[i] == 10u8 {
            return Some(i);
        }
        i = i + 1;
    }
    None
}

/// The bytes of `s` from `a` up to `b`.
fn copy_range(s: &[u8], a: usize, b: usize) -> (r: Vec<u8>)
    requires
        a <= b <= s@.len(),
    ensures
        r@ == s@.subrange(a as int, b as int),
{
    vstd::slice::slice_to_vec(vstd::slice::slice_subrange(s, a, b))
}

impl Stream {
    /// The bytes received that are not yet part of a line that was handed
    /// out.
    pub closed spec fn pending(&self) -> Seq<u8> {
        self.buf@
    }

    /// A stream that has received nothing.
    pub fn new() -> (r: Stream)
        ensures
            r.pending() == Seq::<u8>::empty(),
    {
        Stream { buf: Vec::new() }
    }

    /// Hands out the first whole line already received, if there is one:
    /// the bytes before the first newline. The line and its newline leave
    /// what is pending.
    pub fn take_line(&mut self) -> (r: Option<Vec<u8>>)
        ensures
            forall|i: int| #[trigger] newline_at(old(self).pending(), i) ==> {
                &&& line_is(r, old(self).pending().take(i))
                &&& final(self).pending() == old(self).pending().skip(i + 1)
            },
            no_newline(old(self).pending()) ==> r is None && final(self).pending()
                == old(self).pending(),
    {
        match find_newline(self.buf.as_slice()) {
            Some(idx) => {
                proof {
                    assert forall|i: int| #[trigger] newline_at(old(self).pending(), i) implies i == idx by {
                        if i < idx {
                            assert(self.buf@[i] != 10u8);
                        } else if idx < i {
                            assert(self.buf@[idx as int] != 10u8);
                        }
                    }
                }
                let line = copy_range(self.buf.as_slice(), 0, idx);
                let n = self.buf.len();
                assert(idx < n);
                let rest = copy_range(self.buf.as_slice(), idx + 1, n);
                self.buf = rest;
                assert(line@ =~= old(self).pending().take(idx as int));
                assert(self.buf@ =~= old(self).pending().skip(idx + 1));
                Some(line)
            },
            None => None,
        }
    }

    /// Takes in bytes just read. If they hold a newline, the line that ends
    /// at the first one is handed out: what was pending and the bytes
    /// before it; what follows it is then pending. Otherwise all the bytes
    /// are kept pending.
    pub fn receive(&mut self, chunk: &[u8]) -> (r: Option<Vec<u8>>)
        ensures
            forall|i: int| #[trigger] newline_at(chunk@, i) ==> {
                &&& line_is(r, old(self).pending() + chunk@.take(i))
                &&& final(self).pending() == chunk@.skip(i + 1)
            },
            no_newline(chunk@) ==> r is None && final(self).pending() == old(self).pending()
                + chunk@,
    {
        match find_newline(chunk) {
            Some(idx) => {
                proof {
                    assert forall|i: int| #[trigger] newline_at(chunk@, i) implies i == idx by {
                        if i < idx {
                            assert(chunk@[i] != 10u8);
                        } else if idx < i {
                            assert(chunk@[idx as int] != 10u8);
                        }
                    }
                }
                let mut line = copy_range(self.buf.as_slice(), 0, self.buf.len());
                let mut head = copy_range(chunk, 0, idx);
                line.append(&mut head);
                let n = chunk.len();
                assert(idx < n);
                self.buf = copy_range(chunk, idx + 1, n);
                assert(line@ =~= old(self).pending() + chunk@.take(idx as int));
                assert(self.buf@ =~= chunk@.skip(idx + 1));
                Some(line)
            },
            None => {
                let mut more = copy_range(chunk, 0, chunk.len());
                self.buf.append(&mut more);
                assert(self.buf@ =~= old(self).pending() + chunk@);
                None
            },
        }
    }
}

/// No byte is lost, added or reordered by framing: a line handed out,
/// its newline, and what is then pending make up exactly what was pending
/// before and the bytes received.
pub proof fn lemma_framing_keeps_bytes(pending: Seq<u8>, chunk: Seq<u8>, i: int)
    requires
        newline_at(chunk, i),
    ensures
        (pending + chunk.take(i)) + seq![10u8] + chunk.skip(i + 1) == pending + chunk,
        no_newline(chunk.take(i)),
{
    assert((pending + chunk.take(i)) + seq![10u8] + chunk.skip(i + 1) =~= pending + chunk);
}


/// The bytes that send the given lines, each followed by a newline, in
/// order.
pub open spec fn joined(lines: Seq<Seq<u8>>) -> Seq<u8>
    decreases lines.len(),
{
    if lines.len() == 0 {
        Seq::empty()
    } else {
        lines[0] + seq![10u8] + joined(lines.drop_first())
    }
}

/// Lines arrive whole and in order: where what is pending is a run of
/// lines, each followed by a newline and none holding one, and then any
/// further bytes, the first newline ends the first line, so `take_line`
/// hands out exactly that line and leaves the other lines, in their order,
/// and the further bytes pending. Taking lines one by one therefore gives
/// back every line, in the order it was sent, none lost or merged.
pub proof fn lemma_lines_in_order(lines: Seq<Seq<u8>>, rest: Seq<u8>)
    requires
        lines.len() >= 1,
        forall|k: int| 0 <= k < lines.len() ==> no_newline(#[trigger] lines[k]),
    ensures
        newline_at(joined(lines) + rest, lines[0].len() as int),
        (joined(lines) + rest).take(lines[0].len() as int) == lines[0],
        (joined(lines) + rest).skip(lines[0].len() as int + 1) == joined(lines.drop_first()) + rest,
{
    let s = joined(lines) + rest;
    let n = lines[0].len() as int;
    let tail = joined(lines.drop_first()) + rest;
    assert(s =~= lines[0] + seq![10u8] + tail);
    assert(no_newline(lines[0]));
    assert(s.take(n) =~= lines[0]);
    assert(s.skip(n + 1) =~= tail);
    assert forall|j: int| 0 <= j < n implies s[j] != 10u8 by {
        assert(s[j] == lines[0][j]);
    }
}

/// The units of the map that belong to the team.
pub open spec fn team_units(m: Map<UnitID, Unit>, team: Team) -> Map<UnitID, Unit> {
    Map::new(|id: UnitID| m.contains_key(id) && m[id].team == team, |id: UnitID| m[id])
}

/// Agreeing in every property is transitive.
proof fn lemma_same_unit_trans(a: Unit, b: Unit, c: Unit)
    requires
        same_unit(a, b),
        same_unit(b, c),
    ensures
        same_unit(a, c),
{
}

/// The units of the list that belong to the team, in the list's order.
fn select_team(all: &Vec<Unit>, team: Team, m: Ghost<Map<UnitID, Unit>>) -> (r: Vec<Unit>)
    requires
        lists_units(all@, m@),
    ensures
        lists_units(r@, team_units(m@, team)),
{
    let ghost m = m@;
    let mut out: Vec<Unit> = Vec::new();
    let ghost mut idx: Seq<int> = Seq::empty();
    let mut i: usize = 0;
    while i < all.len()
        invariant
            0 <= i <= all@.len(),
            out@.len() == idx.len(),
            forall|k: int| 0 <= k < idx.len() ==> 0 <= #[trigger] idx[k] < i,
            forall|a: int, b: int| 0 <= a < b < idx.len() ==> #[trigger] idx[a] < #[trigger] idx[b],
            forall|k: int| 0 <= k < idx.len() ==> same_unit(#[trigger] out@[k], all@[idx[k]]),
            forall|k: int| 0 <= k < idx.len() ==> (#[trigger] all@[idx[k]]).team == team,
            forall|j: int| 0 <= j < i && (#[trigger] all@[j]).team == team ==> exists|k: int| 0 <= k < idx.len()
                && #[trigger] idx[k] == j,
        decreases all@.len() - i,
    {
        if all[i].team == team {
            let u = all[i].clone();
            let ghost before = out@;
            out.push(u);
            let ghost old_idx = idx;
            proof {
                idx = idx.push(i as int);
                assert forall|k: int| 0 <= k < idx.len() implies same_unit(#[trigger] out@[k], all@[idx[k]]) by {
                    if k < old_idx.len() {
                        assert(out@[k] == before[k]);
                        assert(idx[k] == old_idx[k]);
                    } else {
                        assert(out@[k] == u);
                    }
                }
                assert forall|k: int| 0 <= k < idx.len() implies (#[trigger] all@[idx[k]]).team == team by {
                    if k < old_idx.len() {
                        assert(idx[k] == old_idx[k]);
                    }
                }
                assert forall|j: int| 0 <= j < i + 1 && (#[trigger] all@[j]).team == team implies exists|k: int|
                    0 <= k < idx.len() && #[trigger] idx[k] == j by {
                    if j == i {
                        assert(idx[idx.len() - 1] == j);
                    } else {
                        let k = choose|k: int| 0 <= k < old_idx.len() && #[trigger] old_idx[k] == j;
                        assert(idx[k] == old_idx[k]);
                    }
                }
            }
        }
        i = i + 1;
    }
    proof {
        let t = team_units(m, team);
        assert forall|k: int| 0 <= k < out@.len() implies t.contains_key((#[trigger] out@[k]).id) && same_unit(
            out@[k],
            t[out@[k].id],
        ) by {
            let j = idx[k];
            assert(m.contains_key(all@[j].id) && same_unit(all@[j], m[all@[j].id]));
            lemma_same_unit_trans(out@[k], all@[j], m[all@[j].id]);
        }
        assert forall|a: int, b: int| 0 <= a < b < out@.len() implies (#[trigger] out@[a]).id != (#[trigger] out@[b]).id by {
            let ja = idx[a];
            let jb = idx[b];
            assert(ja < jb);
            assert(all@[ja].id != all@[jb].id);
        }
        assert forall|id: UnitID| #[trigger] t.contains_key(id) implies exists|k: int| 0 <= k < out@.len()
            && (#[trigger] out@[k]).id == id by {
            let j = choose|j: int| 0 <= j < all@.len() && (#[trigger] all@[j]).id == id;
            assert(same_unit(all@[j], m[id]));
            assert(all@[j].team == team);
            let k = choose|k: int| 0 <= k < idx.len() && #[trigger] idx[k] == j;
            assert(out@[k].id == id);
        }
    }
    out
}

/// The controller through which a player acts on its view of the game, or
/// the manager runs the game: the world, the world as the turn began, which
/// messages to generate, and the changes made in the turn.
pub struct GameController {
    world: GameWorld,
    old_world: GameWorld,
    config: Config,
    turn: TurnMessage,
}

impl GameController {
    /// The world acted on.
    pub closed spec fn world_view(&self) -> GameWorld {
        self.world
    }

    /// The world as the current turn began.
    pub closed spec fn old_view(&self) -> GameWorld {
        self.old_world
    }

    /// Which messages the controller generates.
    pub closed spec fn config_view(&self) -> Config {
        self.config
    }

    /// The changes made in the current turn, in their order.
    pub closed spec fn changes(&self) -> Seq<Delta> {
        self.turn.changes@
    }

    /// Both worlds keep their invariants.
    pub open spec fn wf(&self) -> bool {
        &&& self.world_view().wf()
        &&& self.old_view().wf()
    }

    /// The controller `next` is this one after the delta was tried: the
    /// world is what applying it makes of it, and the delta is recorded in
    /// the turn when it succeeded and turn messages are generated.
    pub open spec fn performed(&self, delta: Delta, flight: Rounds, next: GameController, r: Result<(), GameError>) -> bool {
        &&& self.world_view().applied(delta, flight, next.world_view(), r)
        &&& next.old_view() == self.old_view()
        &&& next.config_view() == self.config_view()
        &&& next.changes() == if r is Ok && self.config_view().generate_turn_messages {
            self.changes().push(delta)
        } else {
            self.changes()
        }
    }

    /// Initializes the game world and creates a new controller for a
    /// player to act on it.
    pub fn new_player(game: StartGameMessage) -> (r: GameController)
        requires
            game.world.wf(),
        ensures
            r.wf(),
            r.old_view() == game.world,
            r.world_view().copy_of(game.world),
            r.config_view() == (Config { generate_viewer_messages: false, generate_turn_messages: true }),
            r.changes() == Seq::<Delta>::empty(),
    {
        let world = game.world.duplicate();
        GameController {
            world: world,
            old_world: game.world,
            config: Config::player_config(),
            turn: TurnMessage { changes: Vec::new() },
        }
    }

    /// Starts the current turn, by updating the player's world with the
    /// changes made since the player last had a turn.
    pub fn start_turn(&mut self, turn: &StartTurnMessage)
        requires
            old(self).wf(),
            old(self).old_view().takes_turn(*turn),
        ensures
            final(self).wf(),
            old(self).old_view().turn_started(*turn, final(self).old_view()),
            final(self).world_view().copy_of(final(self).old_view()),
            final(self).config_view() == old(self).config_view(),
            final(self).changes() == Seq::<Delta>::empty(),
    {
        self.old_world.start_turn(turn);
        self.world = self.old_world.duplicate();
        self.turn = TurnMessage { changes: Vec::new() };
    }

    /// Ends the current turn: the viewer's messages are dropped, and the
    /// changes made in this turn are returned.
    pub fn end_turn(&mut self) -> (r: TurnMessage)
        requires
            old(self).wf(),
        ensures
            final(self).wf(),
            r.changes@ == old(self).changes(),
            final(self).changes() == old(self).changes(),
            final(self).old_view() == old(self).old_view(),
            final(self).config_view() == old(self).config_view(),
            final(self).world_view().viewer_log() == Seq::<ViewerDelta>::empty(),
            forall|p: Planet| #[trigger] final(self).world_view().planet_of(p) == old(self).world_view().planet_of(p),
            forall|t: Team| #[trigger] final(self).world_view().team_of(t) == old(self).world_view().team_of(t),
    {
        self.world.flush_viewer_changes();
        TurnMessage { changes: copy_changes(&self.turn.changes) }
    }

    /// The world the controller acts on.
    pub fn world(&self) -> (r: &GameWorld)
        ensures
            *r == self.world_view(),
    {
        &self.world
    }

    /// The current round, starting at round 1 and up to `ROUND_LIMIT` rounds.
    /// A round consists of a turn from each team on each planet.
    pub fn round(&self) -> (r: Rounds)
        ensures
            r == self.world_view().round_now(),
    {
        self.world.round()
    }

    /// The current planet.
    pub fn planet(&self) -> (r: Planet)
        ensures
            r == self.world_view().mover().planet,
    {
        self.world.planet()
    }

    /// The team whose turn it is.
    pub fn team(&self) -> (r: Team)
        ensures
            r == self.world_view().mover().team,
    {
        self.world.team()
    }

    /// The starting map of the given planet. Includes the map's planet,
    /// dimensions, impassable terrain, and initial units and karbonite.
    pub fn starting_map(&self, planet: Planet) -> (r: &PlanetMap)
        requires
            self.wf(),
        ensures
            *r == self.world_view().map_of(planet),
    {
        self.world.starting_map(planet)
    }

    /// The karbonite in the team's resource pool.
    pub fn karbonite(&self) -> (r: u32)
        requires
            self.wf(),
        ensures
            r == self.world_view().us().karbonite,
    {
        self.world.karbonite()
    }

    /// The single unit with this ID, copied. Use this method to get detailed
    /// statistics on a unit: heat, cooldowns, and properties of special
    /// abilities like units garrisoned in a rocket.
    ///
    /// * NoSuchUnit - the unit does not exist (inside the vision range).
    pub fn unit(&self, id: UnitID) -> (r: Result<Unit, GameError>)
        requires
            self.wf(),
        ensures
            self.world_view().sees_unit(id) <==> r is Ok,
            r is Ok ==> same_unit(r->Ok_0, self.world_view().seen_unit(id)),
            !self.world_view().sees_unit(id) ==> r == Err::<Unit, GameError>(GameError::NoSuchUnit),
    {
        self.world.unit(id)
    }

    /// The single unit with this ID, as a reference.
    ///
    /// * NoSuchUnit - the unit does not exist (inside the vision range).
    pub fn unit_ref(&self, id: UnitID) -> (r: Result<&Unit, GameError>)
        requires
            self.wf(),
        ensures
            self.world_view().sees_unit(id) ==> r == Ok::<&Unit, GameError>(&self.world_view().seen_unit(id)),
            !self.world_view().sees_unit(id) ==> r == Err::<&Unit, GameError>(GameError::NoSuchUnit),
    {
        self.world.unit_ref(id)
    }

    /// All the units within the vision range, as references, in no
    /// particular order. Does not include units in space.
    pub fn units_ref(&self) -> (r: Vec<&Unit>)
        requires
            self.wf(),
        ensures
            forall|i: int| 0 <= i < r@.len() ==> self.world_view().here().units@.contains_key((#[trigger] r@[i]).id) && *r@[i]
                == self.world_view().here().units@[r@[i].id],
            forall|i: int, j: int| 0 <= i < j < r@.len() ==> (#[trigger] r@[i]).id != (#[trigger] r@[j]).id,
            forall|id: UnitID| #[trigger] self.world_view().here().units@.contains_key(id) ==> exists|i: int| 0 <= i < r@.len()
                && (#[trigger] r@[i]).id == id,
    {
        self.world.units_ref()
    }

    /// All the units within the vision range, in no particular order.
    /// Does not include units in space.
    pub fn units(&self) -> (r: Vec<Unit>)
        requires
            self.wf(),
        ensures
            lists_units(r@, self.world_view().here().units@),
    {
        self.world.units()
    }

    /// All the units within the vision range, by ID.
    /// Does not include units in space.
    pub fn units_by_id(&self) -> (r: FnvHashMap<UnitID, Unit>)
        requires
            self.wf(),
        ensures
            r@.dom() == self.world_view().here().units@.dom(),
            forall|id: UnitID| #[trigger] r@.contains_key(id) ==> same_unit(r@[id], self.world_view().here().units@[id]),
    {
        self.world.units_by_id()
    }

    /// All the units within the vision range, by location.
    /// Does not include units in garrisons or in space.
    pub fn units_by_loc(&self) -> (r: FnvHashMap<MapLocation, UnitID>)
        requires
            self.wf(),
        ensures
            r@ == self.world_view().here().units_by_loc@,
    {
        self.world.units_by_loc()
    }

    /// All the units of this team that are in space. You cannot see units
    /// on the other team that are in space.
    pub fn units_in_space(&self) -> (r: Vec<Unit>)
        requires
            self.wf(),
        ensures
            lists_units(r@, self.world_view().us().units_in_space@),
    {
        self.world.units_in_space()
    }

    /// The karbonite at the given location.
    ///
    /// * LocationOffMap - the location is off the map.
    /// * LocationNotVisible - the location is outside the vision range.
    pub fn karbonite_at(&self, location: MapLocation) -> (r: Result<u32, GameError>)
        requires
            self.wf(),
        ensures
            self.world_view().sense_check(location) is Err ==> r == Err::<u32, GameError>(self.world_view().sense_check(location)->Err_0),
            self.world_view().sense_check(location) is Ok ==> r == Ok::<u32, GameError>(
                self.world_view().here().karbonite@[location.y as int]@[location.x as int],
            ),
    {
        self.world.karbonite_at(location)
    }

    /// Returns all the locations of the map within distance squared
    /// `radius_squared`, inclusive, of this location, on the same planet.
    ///
    /// The locations are ordered first by the x-coordinate, then the
    /// y-coordinate.
    pub fn all_locations_within(&self, location: MapLocation, radius_squared: u32) -> (r: Vec<MapLocation>)
        requires
            self.wf(),
        ensures
            forall|i: int| 0 <= i < r@.len() ==> near_square(
                self.world_view().map_of(location.planet),
                location,
                radius_squared as int,
                #[trigger] r@[i],
            ),
            forall|l: MapLocation| near_square(self.world_view().map_of(location.planet), location, radius_squared as int, l)
                ==> #[trigger] r@.contains(l),
            forall|i: int, j: int| 0 <= i < j < r@.len() ==> loc_before(#[trigger] r@[i], #[trigger] r@[j]),
    {
        self.world.all_locations_within(location, radius_squared)
    }

    /// Whether the location is on the map and within the vision range.
    pub fn can_sense_location(&self, location: MapLocation) -> (r: bool)
        requires
            self.wf(),
        ensures
            r == (self.world_view().sense_check(location) is Ok),
    {
        self.world.can_sense_location(location)
    }

    /// Whether there is a unit with this ID within the vision range.
    pub fn can_sense_unit(&self, id: UnitID) -> (r: bool)
        requires
            self.wf(),
        ensures
            r == self.world_view().sees_unit(id),
    {
        self.world.can_sense_unit(id)
    }

    /// Sense units near the location within the given radius, inclusive, in
    /// distance squared. The units are within the vision range.
    pub fn sense_nearby_units(&self, location: MapLocation, radius: u32) -> (r: Vec<Unit>)
        requires
            self.wf(),
        ensures
            forall|i: int| 0 <= i < r@.len() ==> {
                &&& (#[trigger] r@[i]).location is OnMap
                &&& self.world_view().occupied_near(location, radius as int, map_loc(r@[i]))
                &&& same_unit(r@[i], self.world_view().unit_at(map_loc(r@[i])))
            },
            forall|l: MapLocation| #[trigger] self.world_view().occupied_near(location, radius as int, l) ==> exists|i: int|
                0 <= i < r@.len() && (#[trigger] r@[i]).location == Location::OnMap(l),
            forall|i: int, j: int| 0 <= i < j < r@.len() ==> loc_before(map_loc(#[trigger] r@[i]), map_loc(#[trigger] r@[j])),
    {
        self.world.sense_nearby_units(location, radius)
    }

    /// Sense units near the location within the given radius, inclusive, in
    /// distance squared. The units are within the vision range. Additionally
    /// filters the units by team.
    pub fn sense_nearby_units_by_team(&self, location: MapLocation, radius: u32, team: Team) -> (r: Vec<Unit>)
        requires
            self.wf(),
        ensures
            forall|i: int| 0 <= i < r@.len() ==> {
                &&& (#[trigger] r@[i]).location is OnMap
                &&& self.world_view().occupied_near(location, radius as int, map_loc(r@[i]))
                &&& same_unit(r@[i], self.world_view().unit_at(map_loc(r@[i])))
                &&& r@[i].team == team
            },
            forall|l: MapLocation| #[trigger] self.world_view().occupied_near(location, radius as int, l) && self.world_view().unit_at(l).team
                == team ==> exists|i: int| 0 <= i < r@.len() && (#[trigger] r@[i]).location == Location::OnMap(l),
            forall|i: int, j: int| 0 <= i < j < r@.len() ==> loc_before(map_loc(#[trigger] r@[i]), map_loc(#[trigger] r@[j])),
    {
        self.world.sense_nearby_units_by_team(location, radius, team)
    }

    /// Sense units near the location within the given radius, inclusive, in
    /// distance squared. The units are within the vision range. Additionally
    /// filters the units by unit type.
    pub fn sense_nearby_units_by_type(&self, location: MapLocation, radius: u32, unit_type: UnitType) -> (r: Vec<Unit>)
        requires
            self.wf(),
        ensures
            forall|i: int| 0 <= i < r@.len() ==> {
                &&& (#[trigger] r@[i]).location is OnMap
                &&& self.world_view().occupied_near(location, radius as int, map_loc(r@[i]))
                &&& same_unit(r@[i], self.world_view().unit_at(map_loc(r@[i])))
                &&& r@[i].unit_type == unit_type
            },
            forall|l: MapLocation| #[trigger] self.world_view().occupied_near(location, radius as int, l) && self.world_view().unit_at(
                l,
            ).unit_type == unit_type ==> exists|i: int| 0 <= i < r@.len() && (#[trigger] r@[i]).location
                == Location::OnMap(l),
            forall|i: int, j: int| 0 <= i < j < r@.len() ==> loc_before(map_loc(#[trigger] r@[i]), map_loc(#[trigger] r@[j])),
    {
        self.world.sense_nearby_units_by_type(location, radius, unit_type)
    }

    /// The unit at the location, if it exists.
    ///
    /// * LocationOffMap - the location is off the map.
    /// * LocationNotVisible - the location is outside the vision range.
    pub fn sense_unit_at_location(&self, location: MapLocation) -> (r: Result<Option<Unit>, GameError>)
        requires
            self.wf(),
        ensures
            self.world_view().sense_check(location) is Err ==> r == Err::<Option<Unit>, GameError>(self.world_view().sense_check(location)->Err_0),
            self.world_view().sense_check(location) is Ok && !self.world_view().here().units_by_loc@.contains_key(location) ==> r == Ok::<
                Option<Unit>,
                GameError,
            >(None),
            self.world_view().sense_check(location) is Ok && self.world_view().here().units_by_loc@.contains_key(location) ==> r is Ok
                && r->Ok_0 is Some && same_unit(r->Ok_0->Some_0, self.world_view().unit_at(location)),
    {
        self.world.sense_unit_at_location(location)
    }

    /// Whether there is a visible unit at a location.
    pub fn has_unit_at_location(&self, location: MapLocation) -> (r: bool)
        requires
            self.wf(),
        ensures
            r == (self.world_view().sense_check(location) is Ok && self.world_view().here().units_by_loc@.contains_key(
                location,
            )),
    {
        match self.world.sense_unit_at_location(location) {
            Ok(Some(_)) => true,
            _ => false,
        }
    }

    /// All the units of this team within the vision range, in no particular
    /// order. Does not include units in space.
    pub fn my_units(&self) -> (r: Vec<Unit>)
        requires
            self.wf(),
        ensures
            lists_units(r@, team_units(self.world_view().here().units@, self.world_view().mover().team)),
    {
        let all = self.world.units();
        select_team(&all, self.world.team(), Ghost(self.world_view().here().units@))
    }

    /// The asteroid strike pattern on Mars.
    pub fn asteroid_pattern(&self) -> (r: AsteroidPattern)
        ensures
            r.strikes() == self.world_view().asteroids_now().strikes(),
    {
        self.world.asteroid_pattern()
    }

    /// The orbit pattern that determines a rocket's flight duration.
    pub fn orbit_pattern(&self) -> (r: OrbitPattern)
        ensures
            r == self.world_view().orbit_now(),
    {
        self.world.orbit_pattern()
    }

    /// Gets a read-only version of this planet's team array. If the given
    /// planet is different from the planet of the player, reads the version
    /// of the planet's team array from COMMUNICATION_DELAY rounds prior.
    pub fn get_team_array(&self, planet: Planet) -> (r: &TeamArray)
        requires
            self.wf(),
        ensures
            planet == self.world_view().mover().planet ==> r@ == self.world_view().us().team_arrays.history_of(planet)[0],
            planet != self.world_view().mover().planet ==> r@ == self.world_view().us().team_arrays.history_of(planet).last(),
    {
        self.world.get_team_array(planet)
    }

    /// Whether the location is clear for a unit to occupy, either by movement
    /// or by construction.
    ///
    /// * LocationOffMap - the location is off the map.
    /// * LocationNotVisible - the location is outside the vision range.
    pub fn is_occupiable(&self, location: MapLocation) -> (r: Result<bool, GameError>)
        requires
            self.wf(),
        ensures
            self.world_view().sense_check(location) is Err ==> r == Err::<bool, GameError>(self.world_view().sense_check(location)->Err_0),
            self.world_view().sense_check(location) is Ok ==> r == Ok::<bool, GameError>(
                self.world_view().map_of(location.planet).is_passable_terrain@[location.y as int]@[location.x as int]
                    && !self.world_view().here().units_by_loc@.contains_key(location),
            ),
    {
        self.world.is_occupiable(location)
    }

    /// Whether the robot can move in the given direction, without taking into
    /// account the unit's movement heat. Takes into account only the map
    /// terrain, positions of other robots, and the edge of the game map.
    pub fn can_move(&self, robot_id: UnitID, direction: Direction) -> (r: bool)
        requires
            self.wf(),
        ensures
            r == (self.world_view().move_check(robot_id, direction) is Ok),
    {
        self.world.can_move(robot_id, direction)
    }

    /// Whether the robot is ready to move. Tests whether the robot's attack
    /// heat is sufficiently low.
    pub fn is_move_ready(&self, robot_id: UnitID) -> (r: bool)
        requires
            self.wf(),
        ensures
            r == (self.world_view().move_ready_check(robot_id) is Ok),
    {
        self.world.is_move_ready(robot_id)
    }

    /// Whether the robot can attack the given unit, without taking into
    /// account the robot's attack heat. Takes into account only the robot's
    /// attack range, and the location of the robot and target.
    ///
    /// Healers cannot attack, and should use `can_heal()` instead.
    pub fn can_attack(&self, robot_id: UnitID, target_id: UnitID) -> (r: bool)
        requires
            self.wf(),
        ensures
            r == (self.world_view().attack_check(robot_id, target_id) is Ok),
    {
        self.world.can_attack(robot_id, target_id)
    }

    /// Whether the robot is ready to attack. Tests whether the robot's attack
    /// heat is sufficiently low.
    ///
    /// Healers cannot attack, and should use `is_heal_ready()` instead.
    pub fn is_attack_ready(&self, robot_id: UnitID) -> (r: bool)
        requires
            self.wf(),
        ensures
            r == (self.world_view().attack_ready_check(robot_id) is Ok),
    {
        self.world.is_attack_ready(robot_id)
    }

    /// The research info of the current team, including what branch is
    /// currently being researched, the number of rounds left.
    pub fn research_info(&self) -> (r: ResearchInfo)
        requires
            self.wf(),
        ensures
            r.wf(),
            r.levels() == self.world_view().us().research.levels(),
            r.queue_view() == self.world_view().us().research.queue_view(),
            r.rounds() == self.world_view().us().research.rounds(),
    {
        self.world.research_info()
    }

    /// Whether the worker is ready to harvest, and the given direction contains
    /// karbonite to harvest. The worker cannot already have performed an action
    /// this round.
    pub fn can_harvest(&self, worker_id: UnitID, direction: Direction) -> (r: bool)
        requires
            self.wf(),
        ensures
            r == (self.world_view().harvest_check(worker_id, direction) is Ok),
    {
        self.world.can_harvest(worker_id, direction)
    }

    /// Whether the worker can blueprint a structure of the given type.
    pub fn can_blueprint(&self, worker_id: UnitID, unit_type: UnitType, direction: Direction) -> (r: bool)
        requires
            self.wf(),
        ensures
            r == (self.world_view().blueprint_check(worker_id, unit_type, direction) is Ok),
    {
        self.world.can_blueprint(worker_id, unit_type, direction)
    }

    /// Whether the worker can build a blueprint with the given ID. The worker
    /// and the blueprint must be adjacent to each other. The worker cannot
    /// already have performed an action this round.
    pub fn can_build(&self, worker_id: UnitID, blueprint_id: UnitID) -> (r: bool)
        requires
            self.wf(),
        ensures
            r == (self.world_view().build_check(worker_id, blueprint_id) is Ok),
    {
        self.world.can_build(worker_id, blueprint_id)
    }

    /// Whether the given worker can repair the given strucutre. Tests that the worker
    /// is able to execute a worker action, that the structure is built, and that the
    /// structure is within range.
    pub fn can_repair(&self, worker_id: UnitID, structure_id: UnitID) -> (r: bool)
        requires
            self.wf(),
        ensures
            r == (self.world_view().repair_check(worker_id, structure_id) is Ok),
    {
        self.world.can_repair(worker_id, structure_id)
    }

    /// Whether the worker is ready to replicate.
    pub fn can_replicate(&self, worker_id: UnitID, direction: Direction) -> (r: bool)
        requires
            self.wf(),
        ensures
            r == (self.world_view().replicate_check(worker_id, direction) is Ok),
    {
        self.world.can_replicate(worker_id, direction)
    }

    /// Whether the knight can javelin the given robot, without taking into
    /// account the knight's ability heat.
    pub fn can_javelin(&self, knight_id: UnitID, target_id: UnitID) -> (r: bool)
        requires
            self.wf(),
        ensures
            r == (self.world_view().javelin_check(knight_id, target_id) is Ok),
    {
        self.world.can_javelin(knight_id, target_id)
    }

    /// Whether the knight is ready to javelin. Tests whether the knight's
    /// ability heat is sufficiently low.
    pub fn is_javelin_ready(&self, knight_id: UnitID) -> (r: bool)
        requires
            self.wf(),
        ensures
            r == (self.world_view().ability_ready_check(knight_id, UnitType::Knight) is Ok),
    {
        self.world.is_javelin_ready(knight_id)
    }

    /// Whether the mage can blink to the given location, without taking into
    /// account the mage's ability heat.
    pub fn can_blink(&self, mage_id: UnitID, location: MapLocation) -> (r: bool)
        requires
            self.wf(),
        ensures
            r == (self.world_view().blink_check(mage_id, location) is Ok),
    {
        self.world.can_blink(mage_id, location)
    }

    /// Whether the mage is ready to blink. Tests whether the mage's ability
    /// heat is sufficiently low.
    pub fn is_blink_ready(&self, mage_id: UnitID) -> (r: bool)
        requires
            self.wf(),
        ensures
            r == (self.world_view().ability_ready_check(mage_id, UnitType::Mage) is Ok),
    {
        self.world.is_blink_ready(mage_id)
    }

    /// Whether the healer can heal the given robot, without taking into
    /// account the healer's attack heat.
    pub fn can_heal(&self, healer_id: UnitID, robot_id: UnitID) -> (r: bool)
        requires
            self.wf(),
        ensures
            r == (self.world_view().heal_check(healer_id, robot_id) is Ok),
    {
        self.world.can_heal(healer_id, robot_id)
    }

    /// Whether the healer is ready to heal. Tests whether the healer's attack
    /// heat is sufficiently low.
    pub fn is_heal_ready(&self, healer_id: UnitID) -> (r: bool)
        requires
            self.wf(),
        ensures
            r == (self.world_view().heal_ready_check(healer_id) is Ok),
    {
        self.world.is_heal_ready(healer_id)
    }

    /// Whether the healer can overcharge the given robot, without taking into
    /// account the healer's ability heat.
    pub fn can_overcharge(&self, healer_id: UnitID, robot_id: UnitID) -> (r: bool)
        requires
            self.wf(),
        ensures
            r == (self.world_view().overcharge_check(healer_id, robot_id) is Ok),
    {
        self.world.can_overcharge(healer_id, robot_id)
    }

    /// Whether the healer is ready to overcharge. Tests whether the healer's
    /// ability heat is sufficiently low.
    pub fn is_overcharge_ready(&self, healer_id: UnitID) -> (r: bool)
        requires
            self.wf(),
        ensures
            r == (self.world_view().ability_ready_check(healer_id, UnitType::Healer) is Ok),
    {
        self.world.is_overcharge_ready(healer_id)
    }

    /// Whether the robot can be loaded into the given structure's garrison.
    pub fn can_load(&self, structure_id: UnitID, robot_id: UnitID) -> (r: bool)
        requires
            self.wf(),
        ensures
            r == (self.world_view().load_check(structure_id, robot_id) is Ok),
    {
        self.world.can_load(structure_id, robot_id)
    }

    /// Tests whether the given structure is able to unload a unit in the
    /// given direction.
    pub fn can_unload(&self, structure_id: UnitID, direction: Direction) -> (r: bool)
        requires
            self.wf(),
        ensures
            r == (self.world_view().unload_check(structure_id, direction) is Ok),
    {
        self.world.can_unload(structure_id, direction)
    }

    /// Whether the factory can produce a robot of the given type.
    pub fn can_produce_robot(&self, factory_id: UnitID, robot_type: UnitType) -> (r: bool)
        requires
            self.wf(),
        ensures
            r == (self.world_view().produce_check(factory_id, robot_type) is Ok),
    {
        self.world.can_produce_robot(factory_id, robot_type)
    }

    /// The rocket landings of the current team.
    pub fn rocket_landings(&self) -> (r: RocketLandingInfo)
        requires
            self.wf(),
        ensures
            r.landings_view() == self.world_view().us().rocket_landings.landings_view(),
    {
        self.world.rocket_landings()
    }

    /// Whether the rocket can launch into space to the given destination. The
    /// rocket can launch if the it has never been used before. The destination
    /// is valid if it contains passable terrain on the other planet.
    pub fn can_launch_rocket(&self, rocket_id: UnitID, destination: MapLocation) -> (r: bool)
        requires
            self.wf(),
        ensures
            r == (self.world_view().launch_check(rocket_id, destination) is Ok),
    {
        self.world.can_launch_rocket(rocket_id, destination)
    }

    /// Applies a delta to the world and records it in the turn when it
    /// succeeds.
    fn perform(&mut self, delta: Delta, flight: Rounds) -> (r: Result<(), GameError>)
        requires
            old(self).wf(),
            delta matches Delta::Disintegrate { unit_id } ==> (old(self).world_view().sees_unit(unit_id)
                && old(self).world_view().seen_unit(unit_id).team == old(self).world_view().mover().team
                ==> old(self).world_view().destroyable(unit_id)),
        ensures
            final(self).wf(),
            old(self).performed(delta, flight, *final(self), r),
    {
        let r = self.world.apply(&delta, flight);
        if r.is_ok() && self.config.generate_turn_messages {
            self.turn.changes.push(delta);
        }
        r
    }

    /// Writes the value at the index of this planet's team array.
    ///
    /// * ArrayOutOfBounds - the index of the array is out of bounds.
    pub fn write_team_array(&mut self, index: usize, value: i32) -> (r: Result<(), GameError>)
        requires
            old(self).wf(),
        ensures
            final(self).wf(),
            old(self).performed(Delta::WriteTeamArray { index, value }, 0, *final(self), r),
    {
        self.perform(Delta::WriteTeamArray { index, value }, 0)
    }

    /// Disintegrates the unit and removes it from the map, with any units
    /// garrisoned inside it.
    pub fn disintegrate_unit(&mut self, unit_id: UnitID) -> (r: Result<(), GameError>)
        requires
            old(self).wf(),
            old(self).world_view().sees_unit(unit_id) && old(self).world_view().seen_unit(unit_id).team == old(
                self,
            ).world_view().mover().team ==> old(self).world_view().destroyable(unit_id),
        ensures
            final(self).wf(),
            old(self).performed(Delta::Disintegrate { unit_id }, 0, *final(self), r),
    {
        self.perform(Delta::Disintegrate { unit_id }, 0)
    }

    /// Moves the robot in the given direction.
    pub fn move_robot(&mut self, robot_id: UnitID, direction: Direction) -> (r: Result<(), GameError>)
        requires
            old(self).wf(),
        ensures
            final(self).wf(),
            old(self).performed(Delta::Move { robot_id, direction }, 0, *final(self), r),
    {
        self.perform(Delta::Move { robot_id, direction }, 0)
    }

    /// Commands a robot to attack a unit.
    pub fn attack(&mut self, robot_id: UnitID, target_unit_id: UnitID) -> (r: Result<(), GameError>)
        requires
            old(self).wf(),
        ensures
            final(self).wf(),
            old(self).performed(Delta::Attack { robot_id, target_unit_id }, 0, *final(self), r),
    {
        self.perform(Delta::Attack { robot_id, target_unit_id }, 0)
    }

    /// Resets the research queue; returns whether it was not empty. The
    /// reset is recorded in the turn whatever it returns.
    pub fn reset_research(&mut self) -> (r: Result<bool, GameError>)
        requires
            old(self).wf(),
        ensures
            final(self).wf(),
            r is Ok && old(self).world_view().reset_research_outcome(final(self).world_view(), r->Ok_0),
            final(self).old_view() == old(self).old_view(),
            final(self).config_view() == old(self).config_view(),
            final(self).changes() == if old(self).config_view().generate_turn_messages {
                old(self).changes().push(Delta::ResetResearchQueue)
            } else {
                old(self).changes()
            },
    {
        if self.config.generate_turn_messages {
            self.turn.changes.push(Delta::ResetResearchQueue);
        }
        Ok(self.world.reset_research())
    }

    /// Queues the next level of a research branch; returns whether it was
    /// queued. The request is recorded in the turn whatever it returns.
    pub fn queue_research(&mut self, branch: UnitType) -> (r: Result<bool, GameError>)
        requires
            old(self).wf(),
        ensures
            final(self).wf(),
            r is Ok && old(self).world_view().queue_research_outcome(branch, final(self).world_view(), r->Ok_0),
            final(self).old_view() == old(self).old_view(),
            final(self).config_view() == old(self).config_view(),
            final(self).changes() == if old(self).config_view().generate_turn_messages {
                old(self).changes().push(Delta::QueueResearch { branch })
            } else {
                old(self).changes()
            },
    {
        if self.config.generate_turn_messages {
            self.turn.changes.push(Delta::QueueResearch { branch });
        }
        Ok(self.world.queue_research(branch))
    }

    /// Harvests karbonite from the square in the direction.
    pub fn harvest(&mut self, worker_id: UnitID, direction: Direction) -> (r: Result<(), GameError>)
        requires
            old(self).wf(),
        ensures
            final(self).wf(),
            old(self).performed(Delta::Harvest { worker_id, direction }, 0, *final(self), r),
    {
        self.perform(Delta::Harvest { worker_id, direction }, 0)
    }

    /// Blueprints a structure in the direction.
    pub fn blueprint(&mut self, worker_id: UnitID, structure_type: UnitType, direction: Direction) -> (r: Result<(), GameError>)
        requires
            old(self).wf(),
        ensures
            final(self).wf(),
            old(self).performed(Delta::Blueprint { worker_id, structure_type, direction }, 0, *final(self), r),
    {
        self.perform(Delta::Blueprint { worker_id, structure_type, direction }, 0)
    }

    /// Builds a blueprint.
    pub fn build(&mut self, worker_id: UnitID, blueprint_id: UnitID) -> (r: Result<(), GameError>)
        requires
            old(self).wf(),
        ensures
            final(self).wf(),
            old(self).performed(Delta::Build { worker_id, blueprint_id }, 0, *final(self), r),
    {
        self.perform(Delta::Build { worker_id, blueprint_id }, 0)
    }

    /// Repairs a structure.
    pub fn repair(&mut self, worker_id: UnitID, structure_id: UnitID) -> (r: Result<(), GameError>)
        requires
            old(self).wf(),
        ensures
            final(self).wf(),
            old(self).performed(Delta::Repair { worker_id, structure_id }, 0, *final(self), r),
    {
        self.perform(Delta::Repair { worker_id, structure_id }, 0)
    }

    /// Replicates a worker in the direction.
    pub fn replicate(&mut self, worker_id: UnitID, direction: Direction) -> (r: Result<(), GameError>)
        requires
            old(self).wf(),
        ensures
            final(self).wf(),
            old(self).performed(Delta::Replicate { worker_id, direction }, 0, *final(self), r),
    {
        self.perform(Delta::Replicate { worker_id, direction }, 0)
    }

    /// Throws a knight's javelin at a unit.
    pub fn javelin(&mut self, knight_id: UnitID, target_unit_id: UnitID) -> (r: Result<(), GameError>)
        requires
            old(self).wf(),
        ensures
            final(self).wf(),
            old(self).performed(Delta::Javelin { knight_id, target_unit_id }, 0, *final(self), r),
    {
        self.perform(Delta::Javelin { knight_id, target_unit_id }, 0)
    }

    /// Begins a ranger's snipe at a location.
    pub fn begin_snipe(&mut self, ranger_id: UnitID, location: MapLocation) -> (r: Result<(), GameError>)
        requires
            old(self).wf(),
        ensures
            final(self).wf(),
            old(self).performed(Delta::BeginSnipe { ranger_id, location }, 0, *final(self), r),
    {
        self.perform(Delta::BeginSnipe { ranger_id, location }, 0)
    }

    /// Blinks a mage to a location.
    pub fn blink(&mut self, mage_id: UnitID, location: MapLocation) -> (r: Result<(), GameError>)
        requires
            old(self).wf(),
        ensures
            final(self).wf(),
            old(self).performed(Delta::Blink { mage_id, location }, 0, *final(self), r),
    {
        self.perform(Delta::Blink { mage_id, location }, 0)
    }

    /// Heals a robot.
    pub fn heal(&mut self, healer_id: UnitID, target_robot_id: UnitID) -> (r: Result<(), GameError>)
        requires
            old(self).wf(),
        ensures
            final(self).wf(),
            old(self).performed(Delta::Heal { healer_id, target_robot_id }, 0, *final(self), r),
    {
        self.perform(Delta::Heal { healer_id, target_robot_id }, 0)
    }

    /// Overcharges a robot.
    pub fn overcharge(&mut self, healer_id: UnitID, target_robot_id: UnitID) -> (r: Result<(), GameError>)
        requires
            old(self).wf(),
        ensures
            final(self).wf(),
            old(self).performed(Delta::Overcharge { healer_id, target_robot_id }, 0, *final(self), r),
    {
        self.perform(Delta::Overcharge { healer_id, target_robot_id }, 0)
    }

    /// Loads a robot into a structure's garrison.
    pub fn load(&mut self, structure_id: UnitID, robot_id: UnitID) -> (r: Result<(), GameError>)
        requires
            old(self).wf(),
        ensures
            final(self).wf(),
            old(self).performed(Delta::Load { structure_id, robot_id }, 0, *final(self), r),
    {
        self.perform(Delta::Load { structure_id, robot_id }, 0)
    }

    /// Unloads a structure's first robot in the direction.
    pub fn unload(&mut self, structure_id: UnitID, direction: Direction) -> (r: Result<(), GameError>)
        requires
            old(self).wf(),
        ensures
            final(self).wf(),
            old(self).performed(Delta::Unload { structure_id, direction }, 0, *final(self), r),
    {
        self.perform(Delta::Unload { structure_id, direction }, 0)
    }

    /// Starts a factory producing a robot.
    pub fn produce_robot(&mut self, factory_id: UnitID, robot_type: UnitType) -> (r: Result<(), GameError>)
        requires
            old(self).wf(),
        ensures
            final(self).wf(),
            old(self).performed(Delta::ProduceRobot { factory_id, robot_type }, 0, *final(self), r),
    {
        self.perform(Delta::ProduceRobot { factory_id, robot_type }, 0)
    }

    /// Launches a rocket to a location on the other planet; `flight` is the
    /// orbit's duration of flight for the current round.
    pub fn launch_rocket(&mut self, rocket_id: UnitID, location: MapLocation, flight: Rounds) -> (r: Result<(), GameError>)
        requires
            old(self).wf(),
        ensures
            final(self).wf(),
            old(self).performed(Delta::LaunchRocket { rocket_id, location }, flight, *final(self), r),
    {
        self.perform(Delta::LaunchRocket { rocket_id, location }, flight)
    }

    /// Initializes the game world from a map and creates a controller for
    /// the manager to run it.
    pub fn new_manager(map: GameMap) -> (r: GameController)
        requires
            map.earth_map.planet == Planet::Earth,
            map.mars_map.planet == Planet::Mars,
            shaped(map.earth_map),
            shaped(map.mars_map),
            units_placeable(map.earth_map.initial_units@),
            units_placeable(map.mars_map.initial_units@),
            all_on_planet(map.earth_map.initial_units@, Planet::Earth),
            all_on_planet(map.mars_map.initial_units@, Planet::Mars),
        ensures
            r.wf(),
            r.world_view().full(),
            r.world_view().round_now() == 1,
            r.world_view().mover() == (Player { team: Team::Red, planet: Planet::Earth }),
            holds_exactly(r.world_view().planet_of(Planet::Earth), map.earth_map.initial_units@),
            holds_exactly(r.world_view().planet_of(Planet::Mars), map.mars_map.initial_units@),
            r.old_view().copy_of(r.world_view()),
            r.config_view() == (Config { generate_viewer_messages: true, generate_turn_messages: true }),
            r.changes() == Seq::<Delta>::empty(),
    {
        let world = GameWorld::new(map);
        proof {
            world.lemma_full_wf();
        }
        let old_world = world.duplicate();
        GameController {
            world: world,
            old_world: old_world,
            config: Config::runner_config(),
            turn: TurnMessage { changes: Vec::new() },
        }
    }

    /// The message that starts the first turn of the game: nothing has
    /// changed yet.
    pub fn initial_start_turn_message(&self, time_left_ms: i32) -> (r: StartTurnMessage)
        requires
            self.wf(),
            self.world_view().round_now() == 1,
        ensures
            r.time_left_ms == time_left_ms,
            r.round == 1,
            grid_view(r.visible_locs@) == grid_view(self.world_view().here().visible_locs@),
            r.units_changed@.len() == 0,
            r.units_vanished@.len() == 0,
            r.karbonite_changed@.len() == 0,
            r.id_generator == self.world_view().ids(),
            r.units_in_space_changed@.len() == 0,
            r.units_in_space_vanished@.len() == 0,
            r.other_array_changed@.len() == 0,
            r.rocket_landings.landings_view() == self.world_view().us().rocket_landings.landings_view(),
            r.research.levels() == self.world_view().us().research.levels(),
            r.research.queue_view() == self.world_view().us().research.queue_view(),
            r.research.rounds() == self.world_view().us().research.rounds(),
            r.karbonite == self.world_view().us().karbonite,
    {
        self.world.initial_start_turn_message(time_left_ms)
    }

    /// The message that starts the game for a player: the player's view of
    /// the world.
    pub fn start_game(&self, player: Player) -> (r: StartGameMessage)
        requires
            self.wf(),
            self.world_view().has_planet(player.planet),
            self.world_view().has_team(player.team),
            self.world_view().team_of(player.team).team_arrays.history_of(player.planet.other()).len()
                > COMMUNICATION_DELAY,
        ensures
            self.world_view().filter_view(player, r.world),
    {
        StartGameMessage { world: self.world.filter(player) }
    }

    /// Applies the turn of the player to move and ends it; `flight` is the
    /// orbit's duration of flight for the round, and `view` the next
    /// player's last view. Returns that player's new view, and the message
    /// that starts its turn with what the viewer is told.
    pub fn apply_turn(
        &mut self,
        turn: &TurnMessage,
        flight: Rounds,
        view: &GameWorld,
        time_left_ms: i32,
    ) -> (r: Result<(GameWorld, TurnApplication), GameError>)
        requires
            old(self).wf(),
            old(self).world_view().full(),
            view.wf(),
        ensures
            final(self).wf(),
            final(self).world_view().full(),
            final(self).old_view() == old(self).old_view(),
            final(self).config_view() == old(self).config_view(),
            final(self).changes() == old(self).changes(),
            r matches Ok((now, app)) ==> exists|mid: GameWorld| #[trigger] old(self).world_view().turn_applied(
                *turn,
                flight,
                *view,
                time_left_ms,
                mid,
                Ok::<(GameWorld, StartTurnMessage), GameError>((now, app.start_turn)),
            ) && mid.viewer_log() == app.viewer.additional_changes@,
            r is Ok ==> final(self).world_view().viewer_log() == Seq::<ViewerDelta>::empty(),
            r matches Err(e) ==> old(self).world_view().turn_applied(
                *turn,
                flight,
                *view,
                time_left_ms,
                final(self).world_view(),
                Err::<(GameWorld, StartTurnMessage), GameError>(e),
            ),
            r matches Ok((now, app)) ==> app.viewer.changes@ == turn.changes@,
    {
        let ghost w0 = self.world;
        match self.world.apply_turn(turn, flight, view, time_left_ms) {
            Ok((now, start_turn)) => {
                let ghost mid = self.world;
                proof {
                    self.world.lemma_full_wf();
                }
                let units = self.world.get_viewer_units();
                let additional = self.world.flush_viewer_changes();
                let viewer = ViewerMessage {
                    changes: copy_changes(&turn.changes),
                    units: units,
                    additional_changes: additional,
                };
                let r: Result<(GameWorld, TurnApplication), GameError> = Ok((now, TurnApplication { start_turn: start_turn, viewer: viewer }));
                proof {
                    let res = Ok::<(GameWorld, StartTurnMessage), GameError>((r->Ok_0.0, r->Ok_0.1.start_turn));
                    assert(w0.turn_applied(*turn, flight, *view, time_left_ms, mid, res));
                    assert(mid.viewer_log() == r->Ok_0.1.viewer.additional_changes@);
                }
                r
            },
            Err(e) => {
                proof {
                    self.world.lemma_full_wf();
                    let res = Err::<(GameWorld, StartTurnMessage), GameError>(e);
                    assert(w0.turn_applied(*turn, flight, *view, time_left_ms, self.world, res));
                }
                Err(e)
            },
        }
    }

    /// The winning team, if the game is over.
    pub fn is_game_over(&self) -> (r: Option<Team>)
        requires
            self.world_view().full(),
        ensures
            exists|e: Seq<Unit>, m: Seq<Unit>, rs: Seq<Unit>, bs: Seq<Unit>, coin: u8|
                #![trigger self.world_view().lists_all(e, m, rs, bs), self.world_view().outcome_of(e, m, rs, bs, coin)]
                self.world_view().lists_all(e, m, rs, bs) && r == self.world_view().outcome_of(e, m, rs, bs, coin),
    {
        self.world.is_game_over()
    }

    /// Whether the game is over: the same as `is_game_over` having a
    /// winner.
    pub fn is_over(&self) -> (r: bool)
        requires
            self.world_view().full(),
        ensures
            exists|e: Seq<Unit>, m: Seq<Unit>, rs: Seq<Unit>, bs: Seq<Unit>, coin: u8|
                #![trigger self.world_view().lists_all(e, m, rs, bs), self.world_view().outcome_of(e, m, rs, bs, coin)]
                self.world_view().lists_all(e, m, rs, bs) && r == self.world_view().outcome_of(e, m, rs, bs, coin) is Some,
    {
        self.is_game_over().is_some()
    }
}

/// A copy of a list of changes.
fn copy_changes(v: &Vec<Delta>) -> (r: Vec<Delta>)
    ensures
        r@ == v@,
{
    let mut r: Vec<Delta> = Vec::new();
    let mut i: usize = 0;
    while i < v.len()
        invariant
            0 <= i <= v@.len(),
            r@ == v@.take(i as int),
        decreases v@.len() - i,
    {
        r.push(v[i]);
        proof {
            assert(v@.take(i + 1) =~= v@.take(i as int).push(v@[i as int]));
        }
        i = i + 1;
    }
    proof {
        assert(v@.take(v@.len() as int) =~= v@);
    }
    r
}

} // verus!

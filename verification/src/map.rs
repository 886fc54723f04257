//! The starting properties of the game world.
use vstd::prelude::*;
use fnv::FnvHashMap;
use crate::constants::{
    ASTEROID_KARB_MAX, ASTEROID_KARB_MIN, MAP_HEIGHT_MAX, MAP_HEIGHT_MIN, MAP_KARBONITE_MAX,
    MAP_KARBONITE_MIN, MAP_WIDTH_MAX, MAP_WIDTH_MIN, ORBIT_FLIGHT_MAX, ORBIT_FLIGHT_MIN,
    ORBIT_PERIOD_MAX, ORBIT_PERIOD_MIN, ROUND_LIMIT,
};
use crate::error::GameError;
use crate::fnv_map::{fnv_new, u32_map_clone, u32_map_get, u32_map_insert, u32_map_keys};
use crate::location::{Location, MapLocation, Planet};
use crate::mapparser;
use crate::mapparser::{parsed_planet, MapParseError};
use crate::rng::{draw_from, sample_i32, sample_u16, sample_u32, Draw, SeededRng};
use crate::unit::{starting_unit, Unit, UnitID, UnitType};
use crate::world::{Rounds, Team};

verus! {

/// The square at `max - 1 - n`, the mirror image of square `n` on a line of
/// `max` squares.
pub open spec fn flip(n: int, max: int) -> int {
    max - 1 - n
}

/// Whether `u` is a freshly made worker of the given team at the given
/// location, with the given ID.
pub open spec fn fresh_worker(u: Unit, id: UnitID, team: Team, loc: MapLocation) -> bool {
    &&& u == starting_unit(id, team, UnitType::Worker, Location::OnMap(loc), u.garrison)
    &&& u.garrison@ == Seq::<UnitID>::empty()
}

enum Symmetry {
    Rotational,
    Horizontal,
    Vertical,
}

spec fn flips_x(s: Symmetry) -> bool {
    s is Rotational || s is Vertical
}

spec fn flips_y(s: Symmetry) -> bool {
    s is Horizontal || s is Vertical
}

/// The map for one of the planets in the Battlecode world. This information
/// defines the terrain, dimensions, and initial units of the planet.
#[derive(Debug, Clone, PartialEq, Eq)]
pub struct PlanetMap {
    /// The planet of the map.
    pub planet: Planet,
    /// The height of this map, in squares. Must be in the range
    /// [`MAP_HEIGHT_MIN`, `MAP_HEIGHT_MAX`], inclusive.
    pub height: usize,
    /// The width of this map, in squares. Must be in the range
    /// [`MAP_WIDTH_MIN`, `MAP_WIDTH_MAX`], inclusive.
    pub width: usize,
    /// The initial units on the map. Each team starts with 1 to 3 Workers
    /// on Earth.
    pub initial_units: Vec<Unit>,
    /// Whether the specified square contains passable terrain, indexed by
    /// y-coordinate first, then x-coordinate.
    ///
    /// Earth is always symmetric by either a rotation or a reflection.
    pub is_passable_terrain: Vec<Vec<bool>>,
    /// The amount of Karbonite deposited on the specified square, indexed
    /// by y-coordinate first, then x-coordinate.
    pub initial_karbonite: Vec<Vec<u32>>,
}

impl PlanetMap {
    /// The terrain at row `y`, column `x`.
    pub open spec fn passable(&self, y: int, x: int) -> bool {
        self.is_passable_terrain@[y]@[x]
    }

    /// The initial karbonite at row `y`, column `x`.
    pub open spec fn karbonite(&self, y: int, x: int) -> u32 {
        self.initial_karbonite@[y]@[x]
    }

    /// The terrain grid has at least `h` rows of at least `w` squares.
    pub open spec fn passable_covers(&self, h: int, w: int) -> bool {
        &&& self.is_passable_terrain@.len() >= h
        &&& forall|y: int| 0 <= y < h ==> (#[trigger] self.is_passable_terrain@[y])@.len() >= w
    }

    /// The karbonite grid has at least `h` rows of at least `w` squares.
    pub open spec fn karbonite_covers(&self, h: int, w: int) -> bool {
        &&& self.initial_karbonite@.len() >= h
        &&& forall|y: int| 0 <= y < h ==> (#[trigger] self.initial_karbonite@[y])@.len() >= w
    }

    /// The location is a square of the terrain grid.
    pub open spec fn in_passable_grid(&self, l: MapLocation) -> bool {
        &&& 0 <= l.y < self.is_passable_terrain@.len()
        &&& 0 <= l.x < self.is_passable_terrain@[l.y as int]@.len()
    }

    /// The location is a square of the karbonite grid.
    pub open spec fn in_karbonite_grid(&self, l: MapLocation) -> bool {
        &&& 0 <= l.y < self.initial_karbonite@.len()
        &&& 0 <= l.x < self.initial_karbonite@[l.y as int]@.len()
    }

    /// A unit that stands on a map stands on a square of the terrain grid.
    pub open spec fn unit_in_grid(&self, u: Unit) -> bool {
        u.location matches Location::OnMap(l) ==> self.in_passable_grid(l)
    }

    /// The maps on which validation reads only squares that exist: a grid
    /// whose row count matches the height has a first row, the karbonite
    /// grid covers the map, every unit on a map stands on a square of the
    /// terrain grid, and on Earth the terrain grid covers the map.
    pub open spec fn validatable(&self) -> bool {
        &&& self.is_passable_terrain@.len() == self.height ==> self.is_passable_terrain@.len() > 0
        &&& self.initial_karbonite@.len() == self.height ==> self.initial_karbonite@.len() > 0
        &&& self.karbonite_covers(self.height as int, self.width as int)
        &&& forall|i: int|
            0 <= i < self.initial_units@.len() ==> self.unit_in_grid(#[trigger] self.initial_units@[i])
        &&& self.planet == Planet::Earth ==> self.passable_covers(
            self.height as int,
            self.width as int,
        )
    }

    /// The dimensions are within the limits.
    pub open spec fn dims_valid(&self) -> bool {
        &&& MAP_HEIGHT_MIN <= self.height <= MAP_HEIGHT_MAX
        &&& MAP_WIDTH_MIN <= self.width <= MAP_WIDTH_MAX
    }

    /// Both grids have as many rows as the height, and their first rows as
    /// many squares as the width.
    pub open spec fn grid_dims_valid(&self) -> bool {
        &&& self.is_passable_terrain@.len() == self.height
        &&& self.is_passable_terrain@[0]@.len() == self.width
        &&& self.initial_karbonite@.len() == self.height
        &&& self.initial_karbonite@[0]@.len() == self.width
    }

    /// The karbonite on one square is allowed: none on Mars, and within
    /// [`MAP_KARBONITE_MIN`, `MAP_KARBONITE_MAX`] on Earth.
    pub open spec fn karbonite_ok_at(&self, y: int, x: int) -> bool {
        match self.planet {
            Planet::Mars => self.karbonite(y, x) == 0,
            Planet::Earth => MAP_KARBONITE_MIN <= self.karbonite(y, x) <= MAP_KARBONITE_MAX,
        }
    }

    /// The karbonite on every square of the map is allowed.
    pub open spec fn karbonite_valid(&self) -> bool {
        forall|y: int, x: int|
            0 <= y < self.height && 0 <= x < self.width ==> #[trigger] self.karbonite_ok_at(y, x)
    }

    /// No units on Mars; on Earth one to three workers for each team, so an
    /// even number from two to six.
    pub open spec fn unit_count_valid(&self) -> bool {
        let n = self.initial_units@.len();
        match self.planet {
            Planet::Mars => n == 0,
            Planet::Earth => n > 0 && n % 2 == 0 && n <= 6,
        }
    }

    /// A unit stands on passable terrain of this planet.
    pub open spec fn unit_placed(&self, u: Unit) -> bool {
        &&& u.location is OnMap
        &&& u.location->OnMap_0.planet == self.planet
        &&& self.passable(u.location->OnMap_0.y as int, u.location->OnMap_0.x as int)
    }

    /// Every initial unit stands on passable terrain of this planet.
    pub open spec fn units_placed(&self) -> bool {
        forall|i: int|
            0 <= i < self.initial_units@.len() ==> self.unit_placed(
                #[trigger] self.initial_units@[i],
            )
    }

    /// The square that mirrors row `y`, column `x`, with the columns
    /// mirrored if `fx` and the rows if `fy`, has the same terrain and the
    /// same initial karbonite.
    pub open spec fn square_mirrored(&self, y: int, x: int, fx: bool, fy: bool) -> bool {
        let my = if fy { flip(y, self.height as int) } else { y };
        let mx = if fx { flip(x, self.width as int) } else { x };
        &&& self.passable(y, x) == self.passable(my, mx)
        &&& self.karbonite(y, x) == self.karbonite(my, mx)
    }

    /// The terrain and the initial karbonite are unchanged by mirroring the
    /// columns if `fx` and the rows if `fy`.
    pub open spec fn symmetric_by(&self, fx: bool, fy: bool) -> bool {
        forall|y: int, x: int|
            0 <= y < self.height && 0 <= x < self.width ==> #[trigger] self.square_mirrored(y, x, fx, fy)
    }

    /// Mars may be anything; Earth's terrain and karbonite are unchanged by
    /// mirroring its columns, its rows, or both.
    pub open spec fn symmetric(&self) -> bool {
        self.planet == Planet::Earth ==> (self.symmetric_by(true, false) || self.symmetric_by(
            false,
            true,
        ) || self.symmetric_by(true, true))
    }

    /// Terrain and karbonite are unchanged by mirroring the columns: square
    /// `(y, x)` matches square `(y, width - 1 - x)`.
    pub open spec fn columns_mirrored(&self) -> bool {
        forall|y: int, x: int| 0 <= y < self.height && 0 <= x < self.width ==> {
            &&& #[trigger] self.passable(y, x) == self.passable(y, self.width - 1 - x)
            &&& self.karbonite(y, x) == self.karbonite(y, self.width - 1 - x)
        }
    }

    /// Terrain and karbonite are unchanged by mirroring the rows: square
    /// `(y, x)` matches square `(height - 1 - y, x)`.
    pub open spec fn rows_mirrored(&self) -> bool {
        forall|y: int, x: int| 0 <= y < self.height && 0 <= x < self.width ==> {
            &&& #[trigger] self.passable(y, x) == self.passable(self.height - 1 - y, x)
            &&& self.karbonite(y, x) == self.karbonite(self.height - 1 - y, x)
        }
    }

    /// Terrain and karbonite are unchanged by mirroring both: square
    /// `(y, x)` matches square `(height - 1 - y, width - 1 - x)`.
    pub open spec fn both_mirrored(&self) -> bool {
        forall|y: int, x: int| 0 <= y < self.height && 0 <= x < self.width ==> {
            &&& #[trigger] self.passable(y, x) == self.passable(self.height - 1 - y, self.width - 1 - x)
            &&& self.karbonite(y, x) == self.karbonite(self.height - 1 - y, self.width - 1 - x)
        }
    }

    /// Earth's symmetry, square by square: a map of Mars is always
    /// symmetric; a map of Earth is symmetric exactly when its terrain and
    /// karbonite are unchanged by mirroring its columns, its rows, or both.
    /// Each of the three is accepted, and a map that meets every other
    /// condition and one of them is valid.
    pub proof fn lemma_each_mirroring_accepted(&self)
        ensures
            self.planet == Planet::Mars ==> self.symmetric(),
            self.planet == Planet::Earth ==> (self.symmetric() <==> (self.columns_mirrored() || self.rows_mirrored()
                || self.both_mirrored())),
            self.dims_valid() && self.grid_dims_valid() && self.karbonite_valid() && self.unit_count_valid()
                && self.units_placed() && (self.columns_mirrored() || self.rows_mirrored() || self.both_mirrored())
                ==> self.is_valid(),
    {
        self.lemma_mirror_columns();
        self.lemma_mirror_rows();
        self.lemma_mirror_both();
    }

    proof fn lemma_mirror_columns(&self)
        ensures
            self.symmetric_by(true, false) <==> self.columns_mirrored(),
    {
        if self.symmetric_by(true, false) {
            assert forall|y: int, x: int| 0 <= y < self.height && 0 <= x < self.width implies {
                &&& #[trigger] self.passable(y, x) == self.passable(y, self.width - 1 - x)
                &&& self.karbonite(y, x) == self.karbonite(y, self.width - 1 - x)
            } by {
                assert(self.square_mirrored(y, x, true, false));
            }
        }
        if self.columns_mirrored() {
            assert forall|y: int, x: int| 0 <= y < self.height && 0 <= x < self.width implies #[trigger] self.square_mirrored(
                y,
                x,
                true,
                false,
            ) by {
                assert(self.passable(y, x) == self.passable(y, self.width - 1 - x));
            }
        }
    }

    proof fn lemma_mirror_rows(&self)
        ensures
            self.symmetric_by(false, true) <==> self.rows_mirrored(),
    {
        if self.symmetric_by(false, true) {
            assert forall|y: int, x: int| 0 <= y < self.height && 0 <= x < self.width implies {
                &&& #[trigger] self.passable(y, x) == self.passable(self.height - 1 - y, x)
                &&& self.karbonite(y, x) == self.karbonite(self.height - 1 - y, x)
            } by {
                assert(self.square_mirrored(y, x, false, true));
            }
        }
        if self.rows_mirrored() {
            assert forall|y: int, x: int| 0 <= y < self.height && 0 <= x < self.width implies #[trigger] self.square_mirrored(
                y,
                x,
                false,
                true,
            ) by {
                assert(self.passable(y, x) == self.passable(self.height - 1 - y, x));
            }
        }
    }

    proof fn lemma_mirror_both(&self)
        ensures
            self.symmetric_by(true, true) <==> self.both_mirrored(),
    {
        if self.symmetric_by(true, true) {
            assert forall|y: int, x: int| 0 <= y < self.height && 0 <= x < self.width implies {
                &&& #[trigger] self.passable(y, x) == self.passable(self.height - 1 - y, self.width - 1 - x)
                &&& self.karbonite(y, x) == self.karbonite(self.height - 1 - y, self.width - 1 - x)
            } by {
                assert(self.square_mirrored(y, x, true, true));
            }
        }
        if self.both_mirrored() {
            assert forall|y: int, x: int| 0 <= y < self.height && 0 <= x < self.width implies #[trigger] self.square_mirrored(
                y,
                x,
                true,
                true,
            ) by {
                assert(self.passable(y, x) == self.passable(self.height - 1 - y, self.width - 1 - x));
            }
        }
    }

    /// All the conditions a planet map must meet.
    pub open spec fn is_valid(&self) -> bool {
        &&& self.dims_valid()
        &&& self.grid_dims_valid()
        &&& self.karbonite_valid()
        &&& self.unit_count_valid()
        &&& self.units_placed()
        &&& self.symmetric()
    }

    fn karbonite_values_valid(&self) -> (r: bool)
        requires
            self.karbonite_covers(self.height as int, self.width as int),
        ensures
            r == self.karbonite_valid(),
    {
        let mut valid = true;
        let mut y: usize = 0;
        while y < self.height
            invariant
                0 <= y <= self.height,
                self.karbonite_covers(self.height as int, self.width as int),
                valid == (forall|yy: int, x: int|
                    0 <= yy < y && 0 <= x < self.width ==> #[trigger] self.karbonite_ok_at(yy, x)),
            decreases self.height - y,
        {
            let row = &self.initial_karbonite[y];
            let mut row_valid = true;
            let mut x: usize = 0;
            while x < self.width
                invariant
                    0 <= x <= self.width,
                    y < self.height,
                    self.karbonite_covers(self.height as int, self.width as int),
                    *row == self.initial_karbonite@[y as int],
                    row@.len() >= self.width,
                    row_valid == (forall|xx: int| 0 <= xx < x ==> #[trigger] self.karbonite_ok_at(y as int, xx)),
                decreases self.width - x,
            {
                let k = row[x];
                assert(k == self.karbonite(y as int, x as int));
                let ok = match self.planet {
                    Planet::Mars => k == 0,
                    Planet::Earth => MAP_KARBONITE_MIN <= k && k <= MAP_KARBONITE_MAX,
                };
                assert(ok == self.karbonite_ok_at(y as int, x as int));
                if !ok {
                    row_valid = false;
                }
                x = x + 1;
            }
            valid = valid && row_valid;
            proof {
                assert(valid == (forall|yy: int, x: int|
                    0 <= yy < y + 1 && 0 <= x < self.width ==> #[trigger] self.karbonite_ok_at(yy, x))) by {
                    if !row_valid {
                        let xx = choose|xx: int| 0 <= xx < self.width && !#[trigger] self.karbonite_ok_at(y as int, xx);
                        assert(!self.karbonite_ok_at(y as int, xx));
                    }
                }
            }
            y = y + 1;
        }
        valid
    }

    fn units_valid(&self) -> (r: bool)
        requires
            forall|i: int|
                0 <= i < self.initial_units@.len() ==> self.unit_in_grid(#[trigger] self.initial_units@[i]),
        ensures
            r == self.units_placed(),
    {
        let mut valid = true;
        let mut i: usize = 0;
        while i < self.initial_units.len()
            invariant
                0 <= i <= self.initial_units@.len(),
                forall|j: int|
                    0 <= j < self.initial_units@.len() ==> self.unit_in_grid(#[trigger] self.initial_units@[j]),
                valid == (forall|j: int| 0 <= j < i ==> self.unit_placed(#[trigger] self.initial_units@[j])),
            decreases self.initial_units@.len() - i,
        {
            let ghost u = self.initial_units@[i as int];
            match self.initial_units[i].location {
                Location::OnMap(location) => {
                    assert(self.in_passable_grid(location));
                    if location.planet != self.planet {
                        valid = false;
                    }
                    let y = location.y as usize;
                    let x = location.x as usize;
                    if !self.is_passable_terrain[y][x] {
                        valid = false;
                    }
                }
                _ => {
                    valid = false;
                }
            }
            proof {
                if !self.unit_placed(u) {
                    assert(!self.unit_placed(self.initial_units@[i as int]));
                }
            }
            i = i + 1;
        }
        valid
    }

    fn is_terrain_karbonite_symmetric(&self, symmetry: Symmetry) -> (r: bool)
        requires
            self.passable_covers(self.height as int, self.width as int),
            self.karbonite_covers(self.height as int, self.width as int),
        ensures
            r == self.symmetric_by(flips_x(symmetry), flips_y(symmetry)),
    {
        let fx = match symmetry {
            Symmetry::Rotational => true,
            Symmetry::Horizontal => false,
            Symmetry::Vertical => true,
        };
        let fy = match symmetry {
            Symmetry::Rotational => false,
            Symmetry::Horizontal => true,
            Symmetry::Vertical => true,
        };
        let mut y: usize = 0;
        while y < self.height
            invariant
                0 <= y <= self.height,
                fx == flips_x(symmetry),
                fy == flips_y(symmetry),
                self.passable_covers(self.height as int, self.width as int),
                self.karbonite_covers(self.height as int, self.width as int),
                forall|yy: int, x: int|
                    0 <= yy < y && 0 <= x < self.width ==> #[trigger] self.square_mirrored(yy, x, fx, fy),
            decreases self.height - y,
        {
            let mut x: usize = 0;
            while x < self.width
                invariant
                    0 <= x <= self.width,
                    y < self.height,
                    fx == flips_x(symmetry),
                    fy == flips_y(symmetry),
                    self.passable_covers(self.height as int, self.width as int),
                    self.karbonite_covers(self.height as int, self.width as int),
                    forall|yy: int, xx: int|
                        0 <= yy < y && 0 <= xx < self.width ==> #[trigger] self.square_mirrored(yy, xx, fx, fy),
                    forall|xx: int| 0 <= xx < x ==> #[trigger] self.square_mirrored(y as int, xx, fx, fy),
                decreases self.width - x,
            {
                let new_x = if fx { self.width - 1 - x } else { x };
                let new_y = if fy { self.height - 1 - y } else { y };
                assert(self.is_passable_terrain@[y as int]@.len() >= self.width);
                assert(self.is_passable_terrain@[new_y as int]@.len() >= self.width);
                assert(self.initial_karbonite@[y as int]@.len() >= self.width);
                assert(self.initial_karbonite@[new_y as int]@.len() >= self.width);
                proof {
                    let my = if fy {
                        flip(y as int, self.height as int)
                    } else {
                        y as int
                    };
                    let mx = if fx {
                        flip(x as int, self.width as int)
                    } else {
                        x as int
                    };
                    assert(new_y == my && new_x == mx);
                }
                if self.is_passable_terrain[y][x] != self.is_passable_terrain[new_y][new_x]
                    || self.initial_karbonite[y][x] != self.initial_karbonite[new_y][new_x] {
                    proof {
                        assert(!self.square_mirrored(y as int, x as int, fx, fy));
                    }
                    return false;
                }
                proof {
                    assert(self.square_mirrored(y as int, x as int, fx, fy));
                }
                x = x + 1;
            }
            y = y + 1;
        }
        true
    }

    /// Validates the map and checks some invariants are followed: whether
    /// the map is valid.
    pub fn validate(&self) -> (r: bool)
        requires
            self.validatable(),
        ensures
            r == self.is_valid(),
    {
        let mut valid = true;
        // The width and height are of valid dimensions.
        if !(self.height >= MAP_HEIGHT_MIN && self.height <= MAP_HEIGHT_MAX
            && self.width >= MAP_WIDTH_MIN && self.width <= MAP_WIDTH_MAX) {
            valid = false;
        }
        // The grids have the same dimensions as the map.
        if self.is_passable_terrain.len() != self.height
            || self.is_passable_terrain[0].len() != self.width {
            valid = false;
        }
        if self.initial_karbonite.len() != self.height
            || self.initial_karbonite[0].len() != self.width {
            valid = false;
        }
        if !self.karbonite_values_valid() {
            valid = false;
        }
        // The number of initial units is valid.
        let num_units = self.initial_units.len();
        match self.planet {
            Planet::Mars => {
                if num_units != 0 {
                    valid = false;
                }
            }
            Planet::Earth => {
                if !(num_units > 0 && num_units % 2 == 0 && num_units <= 6) {
                    valid = false;
                }
            }
        }
        if !self.units_valid() {
            valid = false;
        }
        // The map is symmetric on Earth.
        if self.planet == Planet::Earth {
            if self.is_terrain_karbonite_symmetric(Symmetry::Rotational) {
                return valid;
            }
            if self.is_terrain_karbonite_symmetric(Symmetry::Horizontal) {
                return valid;
            }
            if self.is_terrain_karbonite_symmetric(Symmetry::Vertical) {
                return valid;
            }
            valid = false;
        }
        valid
    }
}


/// A row of `n` copies of `v`.
pub(crate) fn filled_row<T: Copy>(v: T, n: usize) -> (r: Vec<T>)
    ensures
        r@ == Seq::new(n as nat, |i: int| v),
{
    let mut row: Vec<T> = Vec::new();
    let mut i: usize = 0;
    while i < n
        invariant
            0 <= i <= n,
            row@ == Seq::new(i as nat, |j: int| v),
        decreases n - i,
    {
        row.push(v);
        i = i + 1;
        assert(row@ =~= Seq::new(i as nat, |j: int| v));
    }
    row
}

/// A grid of `h` rows of `w` copies of `v`.
pub(crate) fn filled_grid<T: Copy>(v: T, w: usize, h: usize) -> (r: Vec<Vec<T>>)
    ensures
        r@.len() == h,
        forall|y: int| 0 <= y < h ==> (#[trigger] r@[y])@ == Seq::new(w as nat, |i: int| v),
{
    let mut grid: Vec<Vec<T>> = Vec::new();
    let mut y: usize = 0;
    while y < h
        invariant
            0 <= y <= h,
            grid@.len() == y,
            forall|yy: int| 0 <= yy < y ==> (#[trigger] grid@[yy])@ == Seq::new(w as nat, |i: int| v),
        decreases h - y,
    {
        grid.push(filled_row(v, w));
        y = y + 1;
    }
    grid
}

/// Whether every square of an `h` by `w` grid holds `v`.
pub open spec fn grid_filled<T>(g: Seq<Vec<T>>, v: T, w: int, h: int) -> bool {
    &&& g.len() == h
    &&& forall|y: int| 0 <= y < h ==> (#[trigger] g[y])@.len() == w
    &&& forall|y: int, x: int| 0 <= y < h && 0 <= x < w ==> #[trigger] g[y]@[x] == v
}

impl PlanetMap {
    /// Whether a location is on the map.
    pub open spec fn spec_on_map(&self, location: MapLocation) -> bool {
        &&& self.planet == location.planet
        &&& location.x >= 0
        &&& location.y >= 0
        &&& location.x < self.width as i32
        &&& location.y < self.height as i32
    }

    /// Whether a location is on the map.
    #[verifier::when_used_as_spec(spec_on_map)]
    pub fn on_map(&self, location: MapLocation) -> (r: bool)
        ensures
            r == self.spec_on_map(location),
    {
        self.planet == location.planet && location.x >= 0 && location.y >= 0 && location.x
            < self.width as i32 && location.y < self.height as i32
    }

    /// Whether the location on the map contains passable terrain. Is only
    /// false when the square contains impassable terrain (distinct from
    /// containing a building, for instance).
    ///
    /// * LocationOffMap - the location is off the map.
    pub fn is_passable_terrain_at(&self, location: MapLocation) -> (r: Result<bool, GameError>)
        requires
            self.on_map(location) ==> self.in_passable_grid(location),
        ensures
            self.on_map(location) ==> r == Ok::<bool, GameError>(
                self.passable(location.y as int, location.x as int),
            ),
            !self.on_map(location) ==> r == Err::<bool, GameError>(GameError::LocationOffMap),
    {
        if self.on_map(location) {
            Ok(self.is_passable_terrain[location.y as usize][location.x as usize])
        } else {
            Err(GameError::LocationOffMap)
        }
    }

    /// The amount of Karbonite initially deposited at the given location.
    ///
    /// * LocationOffMap - the location is off the map.
    pub fn initial_karbonite_at(&self, location: MapLocation) -> (r: Result<u32, GameError>)
        requires
            self.on_map(location) ==> self.in_karbonite_grid(location),
        ensures
            self.on_map(location) ==> r == Ok::<u32, GameError>(
                self.karbonite(location.y as int, location.x as int),
            ),
            !self.on_map(location) ==> r == Err::<u32, GameError>(GameError::LocationOffMap),
    {
        if self.on_map(location) {
            Ok(self.initial_karbonite[location.y as usize][location.x as usize])
        } else {
            Err(GameError::LocationOffMap)
        }
    }

    /// A map of the given size with passable terrain, no karbonite and no
    /// units everywhere.
    fn empty_map(planet: Planet, width: usize, height: usize) -> (r: PlanetMap)
        ensures
            r.planet == planet,
            r.width == width,
            r.height == height,
            grid_filled(r.is_passable_terrain@, true, width as int, height as int),
            grid_filled(r.initial_karbonite@, 0u32, width as int, height as int),
            r.initial_units@.len() == 0,
    {
        PlanetMap {
            planet: planet,
            height: height,
            width: width,
            is_passable_terrain: filled_grid(true, width, height),
            initial_karbonite: filled_grid(0u32, width, height),
            initial_units: Vec::new(),
        }
    }

    /// The smallest map, all passable, with 10 karbonite on each square of
    /// Earth, and on Earth a red worker at (1, 1) and a blue one at the
    /// mirror image of that square.
    pub fn test_map(planet: Planet) -> (r: PlanetMap)
        ensures
            r.planet == planet,
            r.width == MAP_WIDTH_MIN,
            r.height == MAP_HEIGHT_MIN,
            grid_filled(r.is_passable_terrain@, true, MAP_WIDTH_MIN as int, MAP_HEIGHT_MIN as int),
            grid_filled(
                r.initial_karbonite@,
                if planet == Planet::Earth {
                    10u32
                } else {
                    0u32
                },
                MAP_WIDTH_MIN as int,
                MAP_HEIGHT_MIN as int,
            ),
            planet == Planet::Mars ==> r.initial_units@.len() == 0,
            planet == Planet::Earth ==> {
                &&& r.initial_units@.len() == 2
                &&& fresh_worker(r.initial_units@[0], 1, Team::Red, MapLocation { planet, x: 1, y: 1 })
                &&& fresh_worker(
                    r.initial_units@[1],
                    2,
                    Team::Blue,
                    MapLocation {
                        planet,
                        x: 18i32,
                        y: 18i32,
                    },
                )
            },
    {
        let karbonite: u32 = match planet {
            Planet::Earth => 10,
            Planet::Mars => 0,
        };
        let mut map = PlanetMap {
            planet: planet,
            height: MAP_HEIGHT_MIN,
            width: MAP_WIDTH_MIN,
            is_passable_terrain: filled_grid(true, MAP_WIDTH_MIN, MAP_HEIGHT_MIN),
            initial_karbonite: filled_grid(karbonite, MAP_WIDTH_MIN, MAP_HEIGHT_MIN),
            initial_units: Vec::new(),
        };
        if planet == Planet::Earth {
            map.initial_units.push(
                new_worker(1, Team::Red, MapLocation::new(planet, 1, 1)),
            );
            map.initial_units.push(
                new_worker(
                    2,
                    Team::Blue,
                    MapLocation::new(planet, MAP_WIDTH_MIN as i32 - 2, MAP_HEIGHT_MIN as i32 - 2),
                ),
            );
        }
        map
    }
}

/// A new worker at level 0.
pub(crate) fn new_worker(id: UnitID, team: Team, location: MapLocation) -> (r: Unit)
    ensures
        fresh_worker(r, id, team, location),
{
    match Unit::new(id, team, UnitType::Worker, 0, Location::OnMap(location)) {
        Ok(u) => u,
        Err(_) => {
            assert(false);
            Unit::default()
        }
    }
}

/// A single asteroid strike on Mars.
#[derive(Debug, Clone, Copy, PartialEq, Eq, Structural)]
pub struct AsteroidStrike {
    /// The karbonite on the asteroid.
    pub karbonite: u32,
    /// The location of the strike.
    pub location: MapLocation,
}

impl AsteroidStrike {
    /// Constructs a new asteroid strike.
    pub fn new(karbonite: u32, location: MapLocation) -> (r: AsteroidStrike)
        ensures
            r == (AsteroidStrike { karbonite, location }),
    {
        AsteroidStrike { karbonite: karbonite, location: location }
    }
}

/// A strike that may fall on the given round: the round is within the game,
/// the karbonite within [`ASTEROID_KARB_MIN`, `ASTEROID_KARB_MAX`], and the
/// location on Mars.
pub open spec fn strike_valid(round: Rounds, a: AsteroidStrike) -> bool {
    &&& 1 <= round <= ROUND_LIMIT
    &&& ASTEROID_KARB_MIN <= a.karbonite <= ASTEROID_KARB_MAX
    &&& a.location.planet == Planet::Mars
}

/// The strikes that a generator seeded with `seed`, after the draws of
/// `history`, adds to `pattern` from the given round on, for a Mars map of
/// the given size, with at most `draws_left` gaps still to draw: a gap is
/// drawn from [0, 40); where it takes the round to [`ROUND_LIMIT`] or past,
/// the pattern is done; else a karbonite amount in [`ASTEROID_KARB_MIN`,
/// `ASTEROID_KARB_MAX`), a column and a row are drawn, in that order, and the
/// strike lands on that round.
pub open spec fn strikes_drawn(
    seed: u16,
    width: int,
    height: int,
    history: Seq<Draw>,
    round: int,
    pattern: Map<Rounds, AsteroidStrike>,
    draws_left: nat,
) -> Map<Rounds, AsteroidStrike>
    decreases draws_left,
{
    if draws_left == 0 {
        pattern
    } else {
        let gap = draw_from(seed, history, 32, 0, 40);
        let next = round + gap;
        if next >= ROUND_LIMIT {
            pattern
        } else {
            let h1 = history.push((32, 0, 40, gap));
            let karbonite = draw_from(seed, h1, 32, ASTEROID_KARB_MIN as int, ASTEROID_KARB_MAX as int);
            let h2 = h1.push((32, ASTEROID_KARB_MIN as int, ASTEROID_KARB_MAX as int, karbonite));
            let x = draw_from(seed, h2, -32, 0, width);
            let h3 = h2.push((-32, 0, width, x));
            let y = draw_from(seed, h3, -32, 0, height);
            let h4 = h3.push((-32, 0, height, y));
            let strike = AsteroidStrike {
                karbonite: karbonite as u32,
                location: MapLocation { planet: Planet::Mars, x: x as i32, y: y as i32 },
            };
            strikes_drawn(seed, width, height, h4, next, pattern.insert(next as u32, strike), (draws_left - 1) as nat)
        }
    }
}

/// Whether, with at most `draws_left` gaps still to draw, a generator seeded
/// with `seed` draws, after the draws of `history` and from the given round
/// on, a gap that takes the round to [`ROUND_LIMIT`] or past: the drawing
/// of strikes ends that way rather than by running out of draws.
pub open spec fn gaps_reach_end(
    seed: u16,
    width: int,
    height: int,
    history: Seq<Draw>,
    round: int,
    draws_left: nat,
) -> bool
    decreases draws_left,
{
    if draws_left == 0 {
        false
    } else {
        let gap = draw_from(seed, history, 32, 0, 40);
        let next = round + gap;
        if next >= ROUND_LIMIT {
            true
        } else {
            let h1 = history.push((32, 0, 40, gap));
            let karbonite = draw_from(seed, h1, 32, ASTEROID_KARB_MIN as int, ASTEROID_KARB_MAX as int);
            let h2 = h1.push((32, ASTEROID_KARB_MIN as int, ASTEROID_KARB_MAX as int, karbonite));
            let x = draw_from(seed, h2, -32, 0, width);
            let h3 = h2.push((-32, 0, width, x));
            let y = draw_from(seed, h3, -32, 0, height);
            let h4 = h3.push((-32, 0, height, y));
            gaps_reach_end(seed, width, height, h4, next, (draws_left - 1) as nat)
        }
    }
}

/// Some strike falls in the 40 rounds from round `a` on.
pub open spec fn window_struck(m: Map<Rounds, AsteroidStrike>, a: int) -> bool {
    exists|k: Rounds| a <= k < a + 40 && #[trigger] m.contains_key(k)
}

/// Every window of 40 rounds that starts at round 0 or later and ends by
/// [`ROUND_LIMIT`] holds a strike.
pub open spec fn strikes_every_40(m: Map<Rounds, AsteroidStrike>) -> bool {
    forall|a: int| 0 <= a && a + 40 <= ROUND_LIMIT ==> #[trigger] window_struck(m, a)
}

/// The asteroid pattern that a generator seeded with `seed` gives for a Mars
/// map of the given size: strikes drawn from round 0 on, with as many gaps
/// as a `u64` counts.
pub open spec fn asteroids_drawn(seed: u16, width: int, height: int) -> Map<Rounds, AsteroidStrike> {
    strikes_drawn(seed, width, height, Seq::empty(), 0, Map::empty(), u64::MAX as nat)
}

/// The asteroid pattern, defined by the timing and contents of each asteroid
/// strike.
#[derive(Debug, Clone, PartialEq, Eq)]
pub struct AsteroidPattern {
    pub(crate) pattern: FnvHashMap<Rounds, AsteroidStrike>,
}

impl AsteroidPattern {
    /// The strike of each round that has one.
    pub closed spec fn strikes(&self) -> Map<Rounds, AsteroidStrike> {
        self.pattern@
    }

    /// A copy of the pattern, with the same strikes.
    pub fn copy(&self) -> (r: AsteroidPattern)
        ensures
            r.strikes() == self.strikes(),
    {
        AsteroidPattern { pattern: crate::fnv_map::u32_map_clone(&self.pattern) }
    }

    /// Every strike of the pattern is valid for its round.
    pub open spec fn is_valid(&self) -> bool {
        forall|r: Rounds| #[trigger] self.strikes().contains_key(r) ==> strike_valid(r, self.strikes()[r])
    }

    /// Constructs a new asteroid pattern from a map of round number to strike.
    pub fn new(pattern: &FnvHashMap<Rounds, AsteroidStrike>) -> (r: AsteroidPattern)
        ensures
            r.strikes() == pattern@,
    {
        AsteroidPattern { pattern: u32_map_clone(pattern) }
    }

    /// Constructs a pseudorandom asteroid pattern given a map of Mars: the
    /// pattern that the generator seeded with `seed` gives.
    ///
    /// Strikes come a random number of rounds apart, fewer than 40, for as
    /// long as the game lasts; each carries a random amount of karbonite in
    /// [`ASTEROID_KARB_MIN`, `ASTEROID_KARB_MAX`) and lands on a random
    /// square of the map. The first strike falls before round 40.
    pub fn random(seed: u16, mars_map: &PlanetMap) -> (r: AsteroidPattern)
        requires
            0 < mars_map.width <= i32::MAX,
            0 < mars_map.height <= i32::MAX,
        ensures
            r.strikes() == asteroids_drawn(seed, mars_map.width as int, mars_map.height as int),
            exists|k: Rounds| k < 40 && #[trigger] r.strikes().contains_key(k),
            gaps_reach_end(seed, mars_map.width as int, mars_map.height as int, Seq::empty(), 0, u64::MAX as nat)
                ==> strikes_every_40(r.strikes()),
            forall|round: Rounds| #[trigger] r.strikes().contains_key(round) ==> {
                let a = r.strikes()[round];
                &&& round < ROUND_LIMIT
                &&& ASTEROID_KARB_MIN <= a.karbonite < ASTEROID_KARB_MAX
                &&& a.location.planet == Planet::Mars
                &&& 0 <= a.location.x < mars_map.width
                &&& 0 <= a.location.y < mars_map.height
            },
    {
        let mut pattern: FnvHashMap<Rounds, AsteroidStrike> = fnv_new();
        let mut rng = SeededRng::new(seed);
        let width = mars_map.width as i32;
        let height = mars_map.height as i32;
        let ghost w = mars_map.width as int;
        let ghost h = mars_map.height as int;
        let mut round: Rounds = 0;
        // Each draw of a gap may be zero, so the number of strikes has no
        // bound of its own; the count of draws is bounded only to make the
        // loop's termination explicit, and never reaches its limit.
        let mut draws_left: u64 = u64::MAX;
        assert(pattern@ == Map::<Rounds, AsteroidStrike>::empty());
        while draws_left > 0
            invariant_except_break
                strikes_drawn(seed, w, h, rng.history(), round as int, pattern@, draws_left as nat)
                    == asteroids_drawn(seed, w, h),
                draws_left == u64::MAX ==> round == 0,
                gaps_reach_end(seed, w, h, rng.history(), round as int, draws_left as nat) == gaps_reach_end(
                    seed,
                    w,
                    h,
                    Seq::empty(),
                    0,
                    u64::MAX as nat,
                ),
            invariant
                round < ROUND_LIMIT,
                rng.seed() == seed,
                width == mars_map.width,
                height == mars_map.height,
                w == width,
                h == height,
                0 < width,
                0 < height,
                draws_left < u64::MAX ==> exists|k: Rounds| k < 40 && #[trigger] pattern@.contains_key(k),
                draws_left < u64::MAX ==> forall|a: int| 0 <= a <= round ==> #[trigger] window_struck(pattern@, a),
                forall|k: Rounds| #[trigger] pattern@.contains_key(k) ==> {
                    let a = pattern@[k];
                    &&& k < ROUND_LIMIT
                    &&& ASTEROID_KARB_MIN <= a.karbonite < ASTEROID_KARB_MAX
                    &&& a.location.planet == Planet::Mars
                    &&& 0 <= a.location.x < mars_map.width
                    &&& 0 <= a.location.y < mars_map.height
                },
            ensures
                pattern@ == asteroids_drawn(seed, w, h),
                draws_left < u64::MAX,
                gaps_reach_end(seed, w, h, Seq::empty(), 0, u64::MAX as nat) ==> strikes_every_40(pattern@),
            decreases draws_left,
        {
            let ghost before = pattern@;
            let ghost old_round = round;
            draws_left = draws_left - 1;
            let next = round + sample_u32(&mut rng, 0, 40);
            if next >= ROUND_LIMIT {
                break;
            }
            round = next;
            let karbonite = sample_u32(&mut rng, ASTEROID_KARB_MIN, ASTEROID_KARB_MAX);
            let x = sample_i32(&mut rng, 0, width);
            let y = sample_i32(&mut rng, 0, height);
            u32_map_insert(
                &mut pattern,
                round,
                AsteroidStrike {
                    karbonite: karbonite,
                    location: MapLocation { planet: Planet::Mars, x: x, y: y },
                },
            );
            assert(pattern@.contains_key(round));
            assert(forall|k: Rounds| #[trigger] before.contains_key(k) ==> pattern@.contains_key(k));
            assert forall|a: int| 0 <= a <= round implies #[trigger] window_struck(pattern@, a) by {
                if a > old_round || draws_left + 1 == u64::MAX {
                    assert(pattern@.contains_key(round));
                } else {
                    assert(window_struck(before, a));
                    let k = choose|k: Rounds| a <= k < a + 40 && #[trigger] before.contains_key(k);
                    assert(pattern@.contains_key(k));
                }
            }
        }
        AsteroidPattern { pattern: pattern }
    }

    /// Validates the asteroid pattern: whether every strike is valid for
    /// its round.
    pub fn validate(&self) -> (r: bool)
        ensures
            r == self.is_valid(),
    {
        let rounds = u32_map_keys(&self.pattern);
        let mut valid = true;
        let mut i: usize = 0;
        while i < rounds.len()
            invariant
                0 <= i <= rounds@.len(),
                forall|k: u32| #[trigger] rounds@.contains(k) <==> self.pattern@.contains_key(k),
                valid == (forall|j: int|
                    0 <= j < i ==> strike_valid(rounds@[j], self.pattern@[#[trigger] rounds@[j]])),
            decreases rounds@.len() - i,
        {
            let round = rounds[i];
            assert(rounds@.contains(round));
            let asteroid = *u32_map_get(&self.pattern, round).unwrap();
            if round < 1 || round > ROUND_LIMIT {
                valid = false;
            }
            if asteroid.karbonite < ASTEROID_KARB_MIN || asteroid.karbonite > ASTEROID_KARB_MAX {
                valid = false;
            }
            if asteroid.location.planet != Planet::Mars {
                valid = false;
            }
            i = i + 1;
        }
        proof {
            if valid {
                assert forall|r: Rounds| #[trigger] self.strikes().contains_key(r) implies strike_valid(
                    r,
                    self.strikes()[r],
                ) by {
                    assert(rounds@.contains(r));
                    let j = rounds@.index_of(r);
                    assert(rounds@[j] == r);
                }
            } else {
                let j = choose|j: int|
                    0 <= j < rounds@.len() && !strike_valid(rounds@[j], self.pattern@[#[trigger] rounds@[j]]);
                assert(rounds@.contains(rounds@[j]));
                assert(self.strikes().contains_key(rounds@[j]));
            }
        }
        valid
    }

    /// Whether there is an asteroid strike at the given round.
    pub fn has_asteroid(&self, round: Rounds) -> (r: bool)
        ensures
            r == self.strikes().contains_key(round),
    {
        u32_map_get(&self.pattern, round).is_some()
    }

    /// Get the asteroid strike at the given round.
    ///
    /// * NullValue - There is no asteroid strike at this round.
    pub fn asteroid(&self, round: Rounds) -> (r: Result<&AsteroidStrike, GameError>)
        ensures
            self.strikes().contains_key(round) ==> r == Ok::<&AsteroidStrike, GameError>(
                &self.strikes()[round],
            ),
            !self.strikes().contains_key(round) ==> r == Err::<&AsteroidStrike, GameError>(
                GameError::NullValue,
            ),
    {
        match u32_map_get(&self.pattern, round) {
            Some(asteroid) => Ok(asteroid),
            None => Err(GameError::NullValue),
        }
    }

    /// Get a map of round numbers to asteroid strikes.
    pub fn asteroid_map(&self) -> (r: FnvHashMap<Rounds, AsteroidStrike>)
        ensures
            r@ == self.strikes(),
    {
        u32_map_clone(&self.pattern)
    }
}

/// The orbit pattern that determines a rocket's flight duration. This pattern
/// is a sinusoidal function y=a*sin(bx)+c.
#[derive(Debug, Clone, Copy, PartialEq, Eq, Structural)]
pub struct OrbitPattern {
    /// Amplitude of the orbit.
    pub amplitude: Rounds,
    /// The period of the orbit.
    pub period: Rounds,
    /// The center of the orbit.
    pub center: Rounds,
}

impl OrbitPattern {
    /// Whether the flight times stay within [`ORBIT_FLIGHT_MIN`,
    /// `ORBIT_FLIGHT_MAX`].
    pub open spec fn is_valid(&self) -> bool {
        &&& self.center - self.amplitude >= ORBIT_FLIGHT_MIN
        &&& self.center + self.amplitude <= ORBIT_FLIGHT_MAX
    }

    /// Construct a new orbit pattern. This pattern is a sinusoidal function
    /// y=a*sin(bx)+c, where the x-axis is the round number of takeoff and the
    /// the y-axis is the duration of flight to the nearest integer.
    ///
    /// The amplitude, period, and center are measured in rounds.
    pub fn new(amplitude: Rounds, period: Rounds, center: Rounds) -> (r: OrbitPattern)
        ensures
            r == (OrbitPattern { amplitude, period, center }),
    {
        OrbitPattern { amplitude: amplitude, period: period, center: center }
    }

    /// Validates the orbit pattern: whether the flight times stay within
    /// [`ORBIT_FLIGHT_MIN`, `ORBIT_FLIGHT_MAX`].
    pub fn validate(&self) -> (r: bool)
        requires
            self.amplitude <= self.center,
            self.center + self.amplitude <= u32::MAX,
        ensures
            r == self.is_valid(),
    {
        let mut valid = true;
        if self.center - self.amplitude < ORBIT_FLIGHT_MIN {
            valid = false;
        }
        if self.center + self.amplitude > ORBIT_FLIGHT_MAX {
            valid = false;
        }
        valid
    }

    /// Generates a random orbit pattern, whose flight times stay within
    /// [`ORBIT_FLIGHT_MIN`, `ORBIT_FLIGHT_MAX`] and whose period is in
    /// [`ORBIT_PERIOD_MIN`, `ORBIT_PERIOD_MAX`): the pattern that the
    /// generator seeded with `seed` gives.
    pub fn random(seed: u16) -> (r: OrbitPattern)
        ensures
            r == orbit_drawn(seed),
            r.is_valid(),
            ORBIT_FLIGHT_MIN <= r.center < ORBIT_FLIGHT_MAX,
            ORBIT_PERIOD_MIN <= r.period < ORBIT_PERIOD_MAX,
    {
        let mut rng = SeededRng::new(seed);
        let center = sample_u32(&mut rng, ORBIT_FLIGHT_MIN, ORBIT_FLIGHT_MAX);
        let below = center - ORBIT_FLIGHT_MIN;
        let above = ORBIT_FLIGHT_MAX - center;
        let max_amplitude = if below < above { below } else { above };
        // A center at the lowest flight time leaves no room to swing.
        let amplitude = if max_amplitude == 0 {
            0
        } else {
            sample_u32(&mut rng, 0, max_amplitude)
        };
        let period = sample_u32(&mut rng, ORBIT_PERIOD_MIN, ORBIT_PERIOD_MAX);
        OrbitPattern::new(amplitude, period, center)
    }
}

/// The orbit pattern that a generator seeded with `seed` gives: a center
/// drawn from [`ORBIT_FLIGHT_MIN`, `ORBIT_FLIGHT_MAX`), an amplitude drawn
/// below the center's distance to the nearer bound (none is drawn where
/// that distance is zero), then a period drawn from [`ORBIT_PERIOD_MIN`,
/// `ORBIT_PERIOD_MAX`).
pub open spec fn orbit_drawn(seed: u16) -> OrbitPattern {
    let h0 = Seq::<Draw>::empty();
    let center = draw_from(seed, h0, 32, ORBIT_FLIGHT_MIN as int, ORBIT_FLIGHT_MAX as int);
    let h1 = h0.push((32, ORBIT_FLIGHT_MIN as int, ORBIT_FLIGHT_MAX as int, center));
    let below = center - ORBIT_FLIGHT_MIN;
    let above = ORBIT_FLIGHT_MAX - center;
    let max_amplitude = if below < above { below } else { above };
    let amplitude = if max_amplitude == 0 { 0 } else { draw_from(seed, h1, 32, 0, max_amplitude) };
    let h2 = if max_amplitude == 0 { h1 } else { h1.push((32, 0, max_amplitude, amplitude)) };
    let period = draw_from(seed, h2, 32, ORBIT_PERIOD_MIN as int, ORBIT_PERIOD_MAX as int);
    OrbitPattern { amplitude: amplitude as u32, period: period as u32, center: center as u32 }
}

/// The seed of the asteroid pattern of a template map drawn from `seed`: the
/// first number in [0, `u16::MAX`) of a generator seeded with `seed`.
pub open spec fn template_asteroid_seed(seed: u16) -> u16 {
    draw_from(seed, Seq::empty(), 16, 0, u16::MAX as int) as u16
}

/// The seed of the orbit pattern of a template map drawn from `seed`: the
/// second number in [0, `u16::MAX`) of a generator seeded with `seed`.
pub open spec fn template_orbit_seed(seed: u16) -> u16 {
    let first = draw_from(seed, Seq::empty(), 16, 0, u16::MAX as int);
    draw_from(seed, seq![(16, 0, u16::MAX as int, first)], 16, 0, u16::MAX as int) as u16
}

/// The map defining the starting state for an entire game.
#[derive(Debug, Clone, PartialEq, Eq)]
pub struct GameMap {
    /// Seed for random number generation.
    pub seed: u16,
    /// Earth map.
    pub earth_map: PlanetMap,
    /// Mars map.
    pub mars_map: PlanetMap,
    /// The asteroid strike pattern on Mars.
    pub asteroids: AsteroidPattern,
    /// The orbit pattern that determines a rocket's flight duration.
    pub orbit: OrbitPattern,
}

impl GameMap {
    /// The maps whose parts can all be validated.
    pub open spec fn validatable(&self) -> bool {
        &&& self.earth_map.validatable()
        &&& self.mars_map.validatable()
        &&& self.orbit.amplitude <= self.orbit.center
        &&& self.orbit.center + self.orbit.amplitude <= u32::MAX
    }

    /// Whether every part of the game map is valid.
    pub open spec fn is_valid(&self) -> bool {
        &&& self.earth_map.is_valid()
        &&& self.mars_map.is_valid()
        &&& self.asteroids.is_valid()
        &&& self.orbit.is_valid()
    }

    /// Validate the game map: whether both planet maps, the asteroid
    /// pattern and the orbit pattern are valid.
    pub fn validate(&self) -> (r: bool)
        requires
            self.validatable(),
        ensures
            r == self.is_valid(),
    {
        self.earth_map.validate() && self.mars_map.validate() && self.asteroids.validate()
            && self.orbit.validate()
    }

    /// An empty map of the given size, with a red worker at (1, 1) and a
    /// blue one at (width - 1, width - 1) on Earth, and a random asteroid
    /// and orbit pattern drawn from the seed: a generator seeded with `seed`
    /// gives the seed of the asteroid pattern, then that of the orbit.
    pub fn map_template(seed: u16, width: usize, height: usize) -> (r: GameMap)
        requires
            0 < width <= i32::MAX,
            0 < height <= i32::MAX,
        ensures
            r.seed == seed,
            r.earth_map.planet == Planet::Earth,
            r.earth_map.width == width,
            r.earth_map.height == height,
            grid_filled(r.earth_map.is_passable_terrain@, true, width as int, height as int),
            grid_filled(r.earth_map.initial_karbonite@, 0u32, width as int, height as int),
            r.earth_map.initial_units@.len() == 2,
            fresh_worker(
                r.earth_map.initial_units@[0],
                1,
                Team::Red,
                MapLocation { planet: Planet::Earth, x: 1, y: 1 },
            ),
            fresh_worker(
                r.earth_map.initial_units@[1],
                2,
                Team::Blue,
                MapLocation { planet: Planet::Earth, x: (width - 1) as i32, y: (width - 1) as i32 },
            ),
            r.mars_map.planet == Planet::Mars,
            r.mars_map.width == width,
            r.mars_map.height == height,
            grid_filled(r.mars_map.is_passable_terrain@, true, width as int, height as int),
            grid_filled(r.mars_map.initial_karbonite@, 0u32, width as int, height as int),
            r.mars_map.initial_units@.len() == 0,
            r.asteroids.strikes() == asteroids_drawn(template_asteroid_seed(seed), width as int, height as int),
            r.orbit == orbit_drawn(template_orbit_seed(seed)),
            r.orbit.is_valid(),
    {
        let mut rng = SeededRng::new(seed);
        let mut earth = PlanetMap::empty_map(Planet::Earth, width, height);
        let mars = PlanetMap::empty_map(Planet::Mars, width, height);
        let asteroids = AsteroidPattern::random(sample_u16(&mut rng, 0, u16::MAX), &mars);
        let orbit = OrbitPattern::random(sample_u16(&mut rng, 0, u16::MAX));
        earth.initial_units.push(new_worker(1, Team::Red, MapLocation::new(Planet::Earth, 1, 1)));
        let far = width as i32 - 1;
        earth.initial_units.push(new_worker(2, Team::Blue, MapLocation::new(Planet::Earth, far, far)));
        GameMap { seed: seed, earth_map: earth, mars_map: mars, asteroids: asteroids, orbit: orbit }
    }

    /// Reads a game map from its text form.
    pub fn parse_text_map(map: &str) -> (r: Result<GameMap, MapParseError>)
        ensures
            r matches Ok(m) ==> {
                &&& parsed_planet(m.earth_map, Planet::Earth)
                &&& parsed_planet(m.mars_map, Planet::Mars)
            },
            mapparser::text_read(map@, mapparser::parse_start()) matches Err(e) ==> r == Err::<GameMap, MapParseError>(e),
            mapparser::text_read(map@, mapparser::parse_start()) matches Ok(st) ==> exists|
                earth: Result<PlanetMap, MapParseError>,
                mars: Result<PlanetMap, MapParseError>,
            | #[trigger] mapparser::map_read(st, earth, mars, r),
    {
        mapparser::parse_text_map(map)
    }

    /// The test game map: both planets' test maps, seed 1, the asteroid
    /// pattern drawn from that seed, and an orbit of amplitude 50, period
    /// 100 and center 100.
    pub fn test_map() -> (r: GameMap)
        ensures
            r.seed == 1,
            r.earth_map.planet == Planet::Earth,
            r.earth_map.width == MAP_WIDTH_MIN,
            r.earth_map.height == MAP_HEIGHT_MIN,
            r.earth_map.initial_units@.len() == 2,
            r.mars_map.planet == Planet::Mars,
            r.mars_map.width == MAP_WIDTH_MIN,
            r.mars_map.height == MAP_HEIGHT_MIN,
            r.mars_map.initial_units@.len() == 0,
            grid_filled(r.earth_map.is_passable_terrain@, true, MAP_WIDTH_MIN as int, MAP_HEIGHT_MIN as int),
            grid_filled(r.earth_map.initial_karbonite@, 10u32, MAP_WIDTH_MIN as int, MAP_HEIGHT_MIN as int),
            grid_filled(r.mars_map.is_passable_terrain@, true, MAP_WIDTH_MIN as int, MAP_HEIGHT_MIN as int),
            grid_filled(r.mars_map.initial_karbonite@, 0u32, MAP_WIDTH_MIN as int, MAP_HEIGHT_MIN as int),
            fresh_worker(r.earth_map.initial_units@[0], 1, Team::Red, MapLocation { planet: Planet::Earth, x: 1, y: 1 }),
            fresh_worker(r.earth_map.initial_units@[1], 2, Team::Blue, MapLocation { planet: Planet::Earth, x: 18, y: 18 }),
            r.orbit == (OrbitPattern { amplitude: 50, period: 100, center: 100 }),
            r.asteroids.strikes() == asteroids_drawn(1, MAP_WIDTH_MIN as int, MAP_HEIGHT_MIN as int),
    {
        let seed: u16 = 1;
        let mars_map = PlanetMap::test_map(Planet::Mars);
        let asteroids = AsteroidPattern::random(seed, &mars_map);
        GameMap {
            seed: seed,
            earth_map: PlanetMap::test_map(Planet::Earth),
            mars_map: mars_map,
            asteroids: asteroids,
            orbit: OrbitPattern::new(50, 100, 100),
        }
    }
}

} // verus!

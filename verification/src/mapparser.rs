//! The text format of maps.
//!
//! A map file is read token by token. A token is a run of characters up to
//! whitespace, a `:` or a `=`; a `#` outside a token starts a comment that
//! lasts to the end of the line; and a `>` outside a token starts a row of
//! the map drawing, whose symbols are single characters.
use vstd::prelude::*;
use fnv::FnvHashMap;
use crate::fnv_map::{
    char_map_get, char_map_insert, fnv_new, pair_map_get, pair_map_insert, pair_map_keys,
    u32_map_insert,
};
use crate::location::{Location, MapLocation, Planet};
use crate::map::{
    fresh_worker, filled_grid, new_worker, AsteroidPattern, AsteroidStrike, GameMap,
    OrbitPattern, PlanetMap,
};
use crate::text::{chars_eq, chars_of, parse_unsigned, spec_is_whitespace, is_whitespace, is_unsigned, unsigned_value};
use crate::unit::{Unit, UnitID};
use crate::world::{Rounds, Team};

verus! {

/// Whether the character at `i` is where the tokenizer, starting at `pos`,
/// stops skipping: a newline, or a character that is neither whitespace nor
/// inside a comment.
pub open spec fn is_stop(s: Seq<char>, pos: int, i: int) -> bool {
    s[i] == '\n' || (!spec_is_whitespace(s[i]) && !s.subrange(pos, i + 1).contains('#'))
}

/// The tokenizer, starting at `pos`, stops first at `j`.
pub open spec fn stops_at(s: Seq<char>, pos: int, j: int) -> bool {
    &&& pos <= j < s.len()
    &&& is_stop(s, pos, j)
    &&& forall|i: int| pos <= i < j ==> !#[trigger] is_stop(s, pos, i)
}

/// The characters of a token, if there is one.
pub open spec fn token_view(t: Option<Vec<char>>) -> Option<Seq<char>> {
    match t {
        Some(v) => Some(v@),
        None => None,
    }
}

/// Whether a character ends a token.
pub open spec fn ends_token(c: char) -> bool {
    c == '\n' || spec_is_whitespace(c) || c == ':' || c == '='
}

/// The token that starts at `j` ends first at `e`.
pub open spec fn token_ends_at(s: Seq<char>, j: int, e: int) -> bool {
    &&& j < e < s.len()
    &&& ends_token(s[e])
    &&& forall|k: int| j < k < e ==> !#[trigger] ends_token(s[k])
}

/// What reading a token from `pos` gives, and where reading goes on.
///
/// Skipping whitespace and comments, the tokenizer stops at a newline (no
/// token, and the newline is read), at a `>` (the token `>`), or at the
/// start of a token. A token runs up to the first character that ends it;
/// a newline, `:` or `=` there is left for the next read, any other
/// whitespace is read with the token. A token that runs to the end of the
/// text is dropped.
pub open spec fn chew_spec(s: Seq<char>, pos: int) -> (Option<Seq<char>>, int) {
    if exists|j: int| stops_at(s, pos, j) {
        let j = choose|j: int| stops_at(s, pos, j);
        if s[j] == '\n' {
            (None, j + 1)
        } else if s[j] == '>' {
            (Some(seq!['>']), j + 1)
        } else if exists|e: int| token_ends_at(s, j, e) {
            let e = choose|e: int| token_ends_at(s, j, e);
            if s[e] == '\n' || s[e] == ':' || s[e] == '=' {
                (Some(s.subrange(j, e)), e)
            } else {
                (Some(s.subrange(j, e)), e + 1)
            }
        } else {
            (None, s.len() as int)
        }
    } else {
        (None, s.len() as int)
    }
}

/// A counter `c` moved on by `k`, stopping at the largest `usize`.
pub open spec fn counted(c: usize, k: int) -> usize {
    if c + k >= usize::MAX {
        usize::MAX
    } else {
        (c + k) as usize
    }
}

/// The line and column the tokenizer reaches reading a token from `pos`,
/// from line `line` and column `col`: a newline read moves to the next line
/// and its first column, and every other character read moves one column
/// on.
pub open spec fn chew_line_col(s: Seq<char>, pos: int, line: usize, col: usize) -> (usize, usize) {
    if exists|j: int| stops_at(s, pos, j) {
        let j = choose|j: int| stops_at(s, pos, j);
        if s[j] == '\n' {
            (counted(line, 1), 0)
        } else if s[j] == '>' {
            (line, counted(col, j - pos + 1))
        } else if exists|e: int| token_ends_at(s, j, e) {
            let e = choose|e: int| token_ends_at(s, j, e);
            if s[e] == '\n' {
                (line, 0)
            } else {
                (line, counted(col, e - pos + 1))
            }
        } else {
            (line, counted(col, s.len() - pos))
        }
    } else {
        (line, counted(col, s.len() - pos))
    }
}

/// The line and column the tokenizer reaches reading a map symbol from
/// `pos`.
pub open spec fn chew_map_line_col(s: Seq<char>, pos: int, line: usize, col: usize) -> (usize, usize) {
    if exists|j: int| stops_at(s, pos, j) {
        let j = choose|j: int| stops_at(s, pos, j);
        if s[j] == '\n' {
            (counted(line, 1), 0)
        } else {
            (line, counted(col, j - pos + 1))
        }
    } else {
        (line, counted(col, s.len() - pos))
    }
}

/// What reading a map symbol from `pos` gives, and where reading goes on:
/// the first character that is neither whitespace nor in a comment, unless
/// a newline comes first, which ends the row.
pub open spec fn chew_map_spec(s: Seq<char>, pos: int) -> (Option<char>, int) {
    if exists|j: int| stops_at(s, pos, j) {
        let j = choose|j: int| stops_at(s, pos, j);
        if s[j] == '\n' {
            (None, j + 1)
        } else {
            (Some(s[j]), j + 1)
        }
    } else {
        (None, s.len() as int)
    }
}

/// The tokenizer: the text, how far it has been read, and the line and
/// column reached, for messages.
pub struct Tok {
    pub line: usize,
    pub col: usize,
    pub text: Vec<char>,
    pub pos: usize,
}

impl Tok {
    /// The position never passes the end.
    pub open spec fn wf(&self) -> bool {
        self.pos <= self.text@.len()
    }

    /// A tokenizer at the start of the text.
    pub fn new(text: Vec<char>) -> (r: Tok)
        ensures
            r.wf(),
            r.text == text,
            r.pos == 0,
            r.line == 0,
            r.col == 0,
    {
        Tok { line: 0, col: 0, text: text, pos: 0 }
    }

    /// Whether any text is left.
    pub fn has(&self) -> (r: bool)
        ensures
            r == (self.pos < self.text@.len()),
    {
        self.pos < self.text.len()
    }

    /// Skips whitespace and comments from the position: where the
    /// tokenizer stops, if anywhere.
    fn find_stop(&mut self) -> (r: Option<usize>)
        requires
            old(self).wf(),
        ensures
            final(self).wf(),
            final(self).text == old(self).text,
            final(self).pos == old(self).pos,
            final(self).line == old(self).line,
            r matches Some(j) ==> final(self).col == counted(old(self).col, j - old(self).pos + 1),
            r is None ==> final(self).col == counted(old(self).col, old(self).text@.len() - old(self).pos),
            r matches Some(j) ==> stops_at(old(self).text@, old(self).pos as int, j as int),
            r is None ==> !exists|j: int| stops_at(old(self).text@, old(self).pos as int, j),
    {
        let ghost s = self.text@;
        let ghost pos = self.pos as int;
        let mut comment = false;
        let mut i: usize = self.pos;
        while i < self.text.len()
            invariant
                self.text@ == s,
                self.text == old(self).text,
                self.line == old(self).line,
                pos == old(self).pos,
                self.pos == pos,
                pos <= i <= s.len(),
                self.wf(),
                comment == s.subrange(pos, i as int).contains('#'),
                forall|k: int| pos <= k < i ==> !#[trigger] is_stop(s, pos, k),
                self.col == counted(old(self).col, i - pos),
            decreases s.len() - i,
        {
            let c = self.text[i];
            self.col = self.col.saturating_add(1);
            assert(s.subrange(pos, i + 1) =~= s.subrange(pos, i as int).push(c));
            let ghost was = comment;
            if c == '#' {
                comment = true;
            }
            proof {
                let a = s.subrange(pos, i as int);
                let b = s.subrange(pos, i + 1);
                assert(b =~= a.push(c));
                if comment {
                    if was {
                        let k = choose|k: int| 0 <= k < a.len() && a[k] == '#';
                        assert(b[k] == '#');
                    } else {
                        assert(b[a.len() as int] == '#');
                    }
                    assert(b.contains('#'));
                } else {
                    assert forall|k: int| 0 <= k < b.len() implies b[k] != '#' by {
                        if k < a.len() {
                            assert(b[k] == a[k]);
                        }
                    }
                }
            }
            if c == '\n' || (!comment && !is_whitespace(c)) {
                assert(is_stop(s, pos, i as int));
                return Some(i);
            }
            assert(!is_stop(s, pos, i as int));
            i = i + 1;
        }
        proof {
            if exists|j: int| stops_at(s, pos, j) {
                let j = choose|j: int| stops_at(s, pos, j);
                assert(!is_stop(s, pos, j));
            }
        }
        None
    }

    /// Reads the next token, if the line has one.
    pub fn chew(&mut self) -> (r: Option<Vec<char>>)
        requires
            old(self).wf(),
        ensures
            final(self).wf(),
            final(self).text == old(self).text,
            token_view(r) == chew_spec(old(self).text@, old(self).pos as int).0,
            final(self).pos == chew_spec(old(self).text@, old(self).pos as int).1,
            (final(self).line, final(self).col) == chew_line_col(
                old(self).text@,
                old(self).pos as int,
                old(self).line,
                old(self).col,
            ),
            old(self).pos < old(self).text@.len() ==> old(self).pos < final(self).pos,
            old(self).pos <= final(self).pos,
            old(self).pos == old(self).text@.len() ==> r is None,
    {
        let ghost s = self.text@;
        let ghost pos = self.pos as int;
        match self.find_stop() {
            None => {
                self.pos = self.text.len();
                None
            },
            Some(j) => {
                proof {
                    assert forall|k: int| stops_at(s, pos, k) implies k == j by {
                        if k < j {
                            assert(!is_stop(s, pos, k));
                        } else if j < k {
                            assert(!is_stop(s, pos, j as int));
                        }
                    }
                }
                let c = self.text[j];
                let n = self.text.len();
                assert(j < n);
                if c == '\n' {
                    self.pos = j + 1;
                    self.col = 0;
                    self.line = self.line.saturating_add(1);
                    return None;
                }
                if c == '>' {
                    self.pos = j + 1;
                    let mut t: Vec<char> = Vec::new();
                    t.push('>');
                    assert(t@ =~= seq!['>']);
                    return Some(t);
                }
                let mut e: usize = j + 1;
                while e < self.text.len()
                    invariant
                        self.text@ == s,
                        self.text == old(self).text,
                        self.pos == pos,
                        pos == old(self).pos,
                        s == old(self).text@,
                        stops_at(s, pos, j as int),
                        forall|k: int| stops_at(s, pos, k) ==> k == j,
                        s[j as int] != '\n',
                        s[j as int] != '>',
                        pos <= j,
                        j < e <= s.len(),
                        forall|k: int| j < k < e ==> !#[trigger] ends_token(s[k]),
                        self.line == old(self).line,
                        self.col == counted(old(self).col, e - pos),
                    decreases s.len() - e,
                {
                    let d = self.text[e];
                    self.col = self.col.saturating_add(1);
                    if d == '\n' || is_whitespace(d) || d == ':' || d == '=' {
                        proof {
                            assert(token_ends_at(s, j as int, e as int));
                            assert forall|f: int| token_ends_at(s, j as int, f) implies f == e by {
                                if f < e {
                                    assert(!ends_token(s[f]));
                                } else if e < f {
                                    assert(!ends_token(s[e as int]));
                                }
                            }
                        }
                        let item = vstd::slice::slice_to_vec(vstd::slice::slice_subrange(self.text.as_slice(), j, e));
                        assert(item@ == s.subrange(j as int, e as int));
                        assert(stops_at(s, pos, j as int));
                        if d == '\n' {
                            self.pos = e;
                            self.col = 0;
                        } else if is_whitespace(d) {
                            self.pos = e + 1;
                        } else {
                            self.pos = e;
                        }
                        return Some(item);
                    }
                    e = e + 1;
                }
                proof {
                    if exists|f: int| token_ends_at(s, j as int, f) {
                        let f = choose|f: int| token_ends_at(s, j as int, f);
                        assert(!ends_token(s[f]));
                    }
                }
                self.pos = self.text.len();
                None
            },
        }
    }

    /// Reads the next map symbol, if the row has one.
    pub fn chew_map(&mut self) -> (r: Option<char>)
        requires
            old(self).wf(),
        ensures
            final(self).wf(),
            final(self).text == old(self).text,
            r == chew_map_spec(old(self).text@, old(self).pos as int).0,
            final(self).pos == chew_map_spec(old(self).text@, old(self).pos as int).1,
            (final(self).line, final(self).col) == chew_map_line_col(
                old(self).text@,
                old(self).pos as int,
                old(self).line,
                old(self).col,
            ),
            old(self).pos < old(self).text@.len() ==> old(self).pos < final(self).pos,
            old(self).pos <= final(self).pos,
            old(self).pos == old(self).text@.len() ==> r is None,
    {
        let ghost s = self.text@;
        let ghost pos = self.pos as int;
        match self.find_stop() {
            None => {
                self.pos = self.text.len();
                None
            },
            Some(j) => {
                proof {
                    assert forall|k: int| stops_at(s, pos, k) implies k == j by {
                        if k < j {
                            assert(!is_stop(s, pos, k));
                        } else if j < k {
                            assert(!is_stop(s, pos, j as int));
                        }
                    }
                }
                let c = self.text[j];
                let n = self.text.len();
                assert(j < n);
                self.pos = j + 1;
                if c == '\n' {
                    self.col = 0;
                    self.line = self.line.saturating_add(1);
                    None
                } else {
                    Some(c)
                }
            },
        }
    }
}

/// Why a map text could not be read. Each error but the last ones carries
/// the line and column the reader had reached.
#[derive(Debug, Clone, Copy, PartialEq, Eq, Structural)]
pub enum MapParseError {
    /// `EARTH` or `MARS` must be followed by a colon.
    MissingColon { line: usize },
    /// A map row was drawn before a planet was named.
    NoPlanetForMap { line: usize, col: usize },
    /// A map row was drawn before the planet's height was set.
    NoHeightForMap { line: usize, col: usize },
    /// More map rows were drawn than the height allows.
    TooManyLines { line: usize, col: usize },
    /// A map row was drawn before the planet's symmetry was set.
    NoSymmetryForMap { line: usize, col: usize },
    /// A map row was drawn before the planet's width was set.
    NoWidthForMap { line: usize, col: usize },
    /// A map row has more symbols than the width allows.
    MapTooWide { line: usize, col: usize },
    /// A map row uses a symbol that was never defined.
    UnknownSymbol { symbol: char, line: usize, col: usize },
    /// An asteroid line is not four numbers.
    BadAsteroid { line: usize },
    /// A name is not followed by `=` or `:`.
    ExpectedSeparator { line: usize, col: usize },
    /// A map symbol is more than one character.
    SymbolTooLong { line: usize, col: usize },
    /// A karbonite attribute is not a number followed by `k`.
    BadKarbonite { line: usize, col: usize },
    /// A symbol has an attribute that is not known.
    UnknownAttribute { line: usize, col: usize },
    /// A property has no value.
    ExpectedValue { line: usize, col: usize },
    /// A symmetry was set before a planet was named.
    NoPlanetForSymmetry { line: usize, col: usize },
    /// A symmetry that is not known.
    UnknownSymmetry { line: usize, col: usize },
    /// A property value is not a number.
    BadInteger { line: usize, col: usize },
    /// A width or height was set before a planet was named.
    NoPlanetForDimension { line: usize, col: usize },
    /// A height of zero.
    ZeroHeight { line: usize, col: usize },
    /// A property that is not known.
    UnknownProperty { line: usize, col: usize },
    /// The orbit amplitude was never set.
    OrbitAmplitudeUnset,
    /// The orbit period was never set.
    OrbitPeriodUnset,
    /// The orbit center was never set.
    OrbitCenterUnset,
    /// The seed was never set.
    SeedUnset,
    /// A planet's width was never set.
    WidthUnset,
    /// A planet's height was never set.
    HeightUnset,
    /// A symbol was drawn outside the planet's final dimensions.
    SymbolOffMap,
    /// More workers than unit IDs.
    TooManyUnits,
}

/// What a map symbol puts on its square.
#[derive(Clone, Copy)]
pub struct Thing {
    /// Whether the square is passable.
    pub passable: bool,
    /// The team of the worker that starts on the square, if any.
    pub team: Option<Team>,
    /// The karbonite on the square.
    pub karbonite: u32,
}

/// How a drawn square is mirrored: across the vertical axis, the
/// horizontal axis, through the center, or not at all.
#[derive(Clone, Copy)]
pub enum Symmetry {
    Horiz,
    Vert,
    Spiral,
    NoSymmetry,
}

/// The square that mirrors `loc` under the symmetry, if it has one.
fn get_opposite(sym: Symmetry, loc: (usize, usize), width: usize, height: usize) -> (r: Option<(usize, usize)>)
    requires
        loc.0 < width,
        loc.1 < height,
    ensures
        r matches Some(o) ==> o.0 < width && o.1 < height,
        r == match sym {
            Symmetry::Horiz => Some(((width - 1 - loc.0) as usize, loc.1)),
            Symmetry::Vert => Some((loc.0, (height - 1 - loc.1) as usize)),
            Symmetry::Spiral => Some(((width - 1 - loc.0) as usize, (height - 1 - loc.1) as usize)),
            Symmetry::NoSymmetry => None::<(usize, usize)>,
        },
{
    match sym {
        Symmetry::Horiz => Some((width - 1 - loc.0, loc.1)),
        Symmetry::Vert => Some((loc.0, height - 1 - loc.1)),
        Symmetry::Spiral => Some((width - 1 - loc.0, height - 1 - loc.1)),
        Symmetry::NoSymmetry => None,
    }
}

/// The row that marks a planet whose drawing is finished.
pub const FINISHED_ROW: usize = 9999;

/// What has been set of a planet so far.
#[derive(Clone, Copy)]
pub struct Dims {
    /// The width, once set.
    pub width: Option<usize>,
    /// The height, once set.
    pub height: Option<usize>,
    /// The symmetry, once set.
    pub symmetry: Option<Symmetry>,
    /// The row the next line of the drawing fills.
    pub cur_y: Option<usize>,
}

impl Dims {
    pub open spec fn wf(&self) -> bool {
        &&& self.cur_y is Some ==> self.height is Some
        &&& self.cur_y matches Some(y) ==> y < self.height->0 || y == FINISHED_ROW
    }
}

fn is_word(t: &Vec<char>, w: &str) -> (r: bool)
    ensures
        r == (t@ == w@),
{
    chars_eq(t.as_slice(), w)
}

/// The shape that every planet map read from text has: a grid of the
/// planet's height and width, and workers numbered from 1 that stand on the
/// planet.
pub open spec fn parsed_planet(m: PlanetMap, planet: Planet) -> bool {
    &&& m.planet == planet
    &&& m.is_passable_terrain@.len() == m.height
    &&& forall|y: int| 0 <= y < m.height ==> (#[trigger] m.is_passable_terrain@[y])@.len() == m.width
    &&& m.initial_karbonite@.len() == m.height
    &&& forall|y: int| 0 <= y < m.height ==> (#[trigger] m.initial_karbonite@[y])@.len() == m.width
    &&& forall|i: int| 0 <= i < m.initial_units@.len() ==> {
        let u = #[trigger] m.initial_units@[i];
        &&& u.id == i + 1
        &&& u.location matches crate::location::Location::OnMap(l)
        &&& l.planet == planet
        &&& fresh_worker(u, u.id, u.team, l)
    }
}

/// Writes one square of a grid.
fn set_cell<T: Copy>(grid: &mut Vec<Vec<T>>, y: usize, x: usize, v: T)
    requires
        y < old(grid)@.len(),
        x < old(grid)@[y as int]@.len(),
    ensures
        final(grid)@.len() == old(grid)@.len(),
        final(grid)@[y as int]@ == old(grid)@[y as int]@.update(x as int, v),
        forall|k: int| 0 <= k < final(grid)@.len() && k != y ==> (#[trigger] final(grid)@[k])@ == old(grid)@[k]@,
{
    let mut row: Vec<T> = Vec::new();
    let mut i: usize = 0;
    let n = grid[y].len();
    while i < n
        invariant
            0 <= i <= n,
            n == grid@[y as int]@.len(),
            y < grid@.len(),
            row@.len() == i,
            forall|k: int| 0 <= k < i ==> row@[k] == (if k == x { v } else { grid@[y as int]@[k] }),
        decreases n - i,
    {
        if i == x {
            row.push(v);
        } else {
            row.push(grid[y][i]);
        }
        i = i + 1;
    }
    assert(row@ =~= grid@[y as int]@.update(x as int, v));
    grid.set(y, row);
}

/// Every symbol drawn lies within the planet's dimensions.
pub open spec fn things_fit(things: Map<(usize, usize), Thing>, width: usize, height: usize) -> bool {
    forall|k: (usize, usize)| #[trigger] things.contains_key(k) ==> k.0 < width && k.1 < height
}

/// A square of a grid holds what the symbol drawn there gives it, and
/// `default` where nothing was drawn.
pub open spec fn cell_drawn<T>(cell: T, things: Map<(usize, usize), Thing>, x: usize, y: usize, of: spec_fn(Thing) -> T, default: T) -> bool {
    cell == (if things.contains_key((x, y)) { of(things[(x, y)]) } else { default })
}

/// The map is what the symbols draw on a planet of the given dimensions:
/// each square's terrain and karbonite, and one worker of its team on each
/// square whose symbol names a team, and on no other square.
pub open spec fn drawn(m: PlanetMap, things: Map<(usize, usize), Thing>, width: usize, height: usize) -> bool {
    &&& m.width == width
    &&& m.height == height
    &&& forall|x: usize, y: usize| x < width && y < height ==> {
        &&& cell_drawn(#[trigger] m.is_passable_terrain@[y as int]@[x as int], things, x, y, |t: Thing| t.passable, true)
        &&& cell_drawn(m.initial_karbonite@[y as int]@[x as int], things, x, y, |t: Thing| t.karbonite, 0u32)
    }
    &&& forall|j: int| 0 <= j < m.initial_units@.len() ==> worker_drawn(#[trigger] m.initial_units@[j], things, m.planet)
    &&& forall|k: (usize, usize)| #[trigger] things.contains_key(k) && things[k].team is Some ==> exists|j: int|
        0 <= j < m.initial_units@.len() && #[trigger] m.initial_units@[j].location == Location::OnMap(
            MapLocation { planet: m.planet, x: k.0 as i32, y: k.1 as i32 },
        )
}

/// A worker stands on a square whose symbol names the worker's team.
pub open spec fn worker_drawn(u: Unit, things: Map<(usize, usize), Thing>, planet: Planet) -> bool {
    exists|k: (usize, usize)| #[trigger] things.contains_key(k) && things[k].team == Some(u.team) && u.location
        == Location::OnMap(MapLocation { planet, x: k.0 as i32, y: k.1 as i32 })
}

/// Builds one planet's map from what the text set of it.
fn build_planet(
    planet: Planet,
    dims: Dims,
    things: &FnvHashMap<(usize, usize), Thing>,
) -> (r: Result<PlanetMap, MapParseError>)
    ensures
        r matches Ok(m) ==> parsed_planet(m, planet),
        dims.width is None ==> r == Err::<PlanetMap, MapParseError>(MapParseError::WidthUnset),
        dims.width is Some && dims.height is None ==> r == Err::<PlanetMap, MapParseError>(
            MapParseError::HeightUnset,
        ),
        dims.width is Some && dims.height is Some && things@.dom().len() < UnitID::MAX ==> {
            &&& things_fit(things@, dims.width->0, dims.height->0) ==> r is Ok
            &&& !things_fit(things@, dims.width->0, dims.height->0) ==> r == Err::<PlanetMap, MapParseError>(
                MapParseError::SymbolOffMap,
            )
        },
        r matches Ok(m) ==> drawn(m, things@, dims.width->0, dims.height->0),
{
    let width = match dims.width {
        Some(w) => w,
        None => {
            return Err(MapParseError::WidthUnset);
        },
    };
    let height = match dims.height {
        Some(h) => h,
        None => {
            return Err(MapParseError::HeightUnset);
        },
    };
    let mut map = PlanetMap {
        planet: planet,
        height: height,
        width: width,
        initial_units: Vec::new(),
        is_passable_terrain: filled_grid(true, width, height),
        initial_karbonite: filled_grid(0u32, width, height),
    };
    let mut id: UnitID = 1;
    let keys = pair_map_keys(things);
    let mut i: usize = 0;
    while i < keys.len()
        invariant
            0 <= i <= keys@.len(),
            forall|k: (usize, usize)| #[trigger] keys@.contains(k) <==> things@.contains_key(k),
            map.planet == planet,
            map.height == height,
            map.width == width,
            map.is_passable_terrain@.len() == height,
            forall|y: int| 0 <= y < height ==> (#[trigger] map.is_passable_terrain@[y])@.len() == width,
            map.initial_karbonite@.len() == height,
            forall|y: int| 0 <= y < height ==> (#[trigger] map.initial_karbonite@[y])@.len() == width,
            id == map.initial_units@.len() + 1,
            forall|j: int| 0 <= j < map.initial_units@.len() ==> {
                let u = #[trigger] map.initial_units@[j];
                &&& u.id == j + 1
                &&& u.location matches crate::location::Location::OnMap(l)
                &&& l.planet == planet
                &&& fresh_worker(u, u.id, u.team, l)
            },
            keys@.no_duplicates(),
            dims.width == Some(width),
            dims.height == Some(height),
            id <= i + 1,
            forall|j: int| 0 <= j < i ==> (#[trigger] keys@[j]).0 < width && keys@[j].1 < height,
            forall|xx: usize, yy: usize| xx < width && yy < height ==> {
                &&& cell_drawn(
                    #[trigger] map.is_passable_terrain@[yy as int]@[xx as int],
                    things@.restrict(keys@.take(i as int).to_set()),
                    xx,
                    yy,
                    |t: Thing| t.passable,
                    true,
                )
                &&& cell_drawn(
                    map.initial_karbonite@[yy as int]@[xx as int],
                    things@.restrict(keys@.take(i as int).to_set()),
                    xx,
                    yy,
                    |t: Thing| t.karbonite,
                    0u32,
                )
            },
            forall|j: int| 0 <= j < map.initial_units@.len() ==> worker_drawn(
                #[trigger] map.initial_units@[j],
                things@.restrict(keys@.take(i as int).to_set()),
                planet,
            ),
            forall|k: (usize, usize)| #[trigger] things@.restrict(keys@.take(i as int).to_set()).contains_key(k)
                && things@[k].team is Some ==> exists|j: int| 0 <= j < map.initial_units@.len()
                && #[trigger] map.initial_units@[j].location == Location::OnMap(
                    MapLocation { planet, x: k.0 as i32, y: k.1 as i32 },
                ),
        decreases keys@.len() - i,
    {
        let (x, y) = keys[i];
        assert(keys@.contains((x, y)));
        let thing = *pair_map_get(things, (x, y)).unwrap();
        let ghost done = things@.restrict(keys@.take(i as int).to_set());
        let ghost done2 = things@.restrict(keys@.take(i + 1).to_set());
        proof {
            let t1 = keys@.take(i + 1);
            let t0 = keys@.take(i as int);
            assert forall|a: (usize, usize)| #[trigger] t1.to_set().contains(a) == t0.to_set().insert((x, y)).contains(a) by {
                if t1.contains(a) {
                    let j = choose|j: int| 0 <= j < t1.len() && t1[j] == a;
                    if j < i {
                        assert(t0[j] == a);
                    }
                }
                if t0.contains(a) {
                    let j = choose|j: int| 0 <= j < t0.len() && t0[j] == a;
                    assert(t1[j] == a);
                }
                assert(t1[i as int] == (x, y));
            }
            assert(t1.to_set() =~= t0.to_set().insert((x, y)));
            assert(!keys@.take(i as int).to_set().contains((x, y))) by {
                if keys@.take(i as int).to_set().contains((x, y)) {
                    let j = choose|j: int| 0 <= j < i && keys@.take(i as int)[j] == (x, y);
                    assert(keys@[j] == keys@[i as int]);
                }
            }
            assert(done2 =~= done.insert((x, y), thing));
        }
        if x >= width || y >= height {
            proof {
                assert(things@.contains_key((x, y)));
            }
            return Err(MapParseError::SymbolOffMap);
        }
        let ghost pass0 = map.is_passable_terrain@;
        let ghost karb0 = map.initial_karbonite@;
        set_cell(&mut map.is_passable_terrain, y, x, thing.passable);
        set_cell(&mut map.initial_karbonite, y, x, thing.karbonite);
        proof {
            assert forall|xx: usize, yy: usize| xx < width && yy < height implies {
                &&& cell_drawn(
                    #[trigger] map.is_passable_terrain@[yy as int]@[xx as int],
                    done2,
                    xx,
                    yy,
                    |t: Thing| t.passable,
                    true,
                )
                &&& cell_drawn(map.initial_karbonite@[yy as int]@[xx as int], done2, xx, yy, |t: Thing| t.karbonite, 0u32)
            } by {
                assert(cell_drawn(pass0[yy as int]@[xx as int], done, xx, yy, |t: Thing| t.passable, true));
                assert(cell_drawn(karb0[yy as int]@[xx as int], done, xx, yy, |t: Thing| t.karbonite, 0u32));
            }
            assert forall|j: int| 0 <= j < map.initial_units@.len() implies worker_drawn(
                #[trigger] map.initial_units@[j],
                done2,
                planet,
            ) by {
                assert(worker_drawn(map.initial_units@[j], done, planet));
                let k = choose|k: (usize, usize)| #[trigger] done.contains_key(k) && done[k].team == Some(
                    map.initial_units@[j].team,
                ) && map.initial_units@[j].location == Location::OnMap(
                    MapLocation { planet, x: k.0 as i32, y: k.1 as i32 },
                );
                assert(done2.contains_key(k));
            }
        }
        if let Some(t) = thing.team {
            proof {
                assert(keys@.len() == things@.dom().len()) by {
                    keys@.unique_seq_to_set();
                    assert(keys@.to_set() =~= things@.dom());
                }
            }
            if id == UnitID::MAX {
                return Err(MapParseError::TooManyUnits);
            }
            let ghost before = map.initial_units@;
            map.initial_units.push(new_worker(id, t, MapLocation::new(planet, x as i32, y as i32)));
            assert(map.initial_units@ == before.push(map.initial_units@[before.len() as int]));
            proof {
                let n = before.len() as int;
                assert(done2.contains_key((x, y)));
                assert(worker_drawn(map.initial_units@[n], done2, planet));
                assert forall|j: int| 0 <= j < map.initial_units@.len() implies worker_drawn(
                    #[trigger] map.initial_units@[j],
                    done2,
                    planet,
                ) by {
                    if j < n {
                        assert(map.initial_units@[j] == before[j]);
                    }
                }
                assert forall|k: (usize, usize)| #[trigger] done2.contains_key(k) && things@[k].team is Some
                    implies exists|j: int| 0 <= j < map.initial_units@.len()
                    && #[trigger] map.initial_units@[j].location == Location::OnMap(
                        MapLocation { planet, x: k.0 as i32, y: k.1 as i32 },
                    ) by {
                    if k == (x, y) {
                        assert(map.initial_units@[n].location == Location::OnMap(
                            MapLocation { planet, x: k.0 as i32, y: k.1 as i32 },
                        ));
                    } else {
                        assert(done.contains_key(k));
                        let j = choose|j: int| 0 <= j < before.len()
                            && #[trigger] before[j].location == Location::OnMap(
                                MapLocation { planet, x: k.0 as i32, y: k.1 as i32 },
                            );
                        assert(map.initial_units@[j] == before[j]);
                    }
                }
            }
            id = id + 1;
        } else {
            proof {
                assert forall|k: (usize, usize)| #[trigger] done2.contains_key(k) && things@[k].team is Some
                    implies exists|j: int| 0 <= j < map.initial_units@.len()
                    && #[trigger] map.initial_units@[j].location == Location::OnMap(
                        MapLocation { planet, x: k.0 as i32, y: k.1 as i32 },
                    ) by {
                    assert(done.contains_key(k));
                }
            }
        }
        i = i + 1;
    }
    proof {
        assert(keys@.take(keys@.len() as int) =~= keys@);
        assert(things@.restrict(keys@.to_set()) =~= things@);
        assert forall|k: (usize, usize)| #[trigger] things@.contains_key(k) implies k.0 < width && k.1 < height by {
            assert(keys@.contains(k));
            let j = choose|j: int| 0 <= j < keys@.len() && keys@[j] == k;
        }
    }
    Ok(map)
}

/// Where the reader stands, for an error message: the line and column.
fn at(tok: &Tok) -> (r: (usize, usize))
    ensures
        r == (tok.line, tok.col),
{
    (tok.line, tok.col)
}

/// Where the reader stands in the text: the position, and the line and
/// column reached.
pub struct Cursor {
    pub pos: int,
    pub line: usize,
    pub col: usize,
}

/// The cursor of a tokenizer.
pub open spec fn cursor_of(t: Tok) -> Cursor {
    Cursor { pos: t.pos as int, line: t.line, col: t.col }
}

/// The token read from the cursor, and the cursor after it.
pub open spec fn chew_at(s: Seq<char>, c: Cursor) -> (Option<Seq<char>>, Cursor) {
    let lc = chew_line_col(s, c.pos, c.line, c.col);
    (chew_spec(s, c.pos).0, Cursor { pos: chew_spec(s, c.pos).1, line: lc.0, col: lc.1 })
}

/// The map symbol read from the cursor, and the cursor after it.
pub open spec fn chew_map_at(s: Seq<char>, c: Cursor) -> (Option<char>, Cursor) {
    let lc = chew_map_line_col(s, c.pos, c.line, c.col);
    (chew_map_spec(s, c.pos).0, Cursor { pos: chew_map_spec(s, c.pos).1, line: lc.0, col: lc.1 })
}

/// The square that mirrors `loc` under the symmetry, if it has one.
pub open spec fn opposite_of(sym: Symmetry, loc: (usize, usize), width: usize, height: usize) -> Option<(usize, usize)> {
    match sym {
        Symmetry::Horiz => Some(((width - 1 - loc.0) as usize, loc.1)),
        Symmetry::Vert => Some((loc.0, (height - 1 - loc.1) as usize)),
        Symmetry::Spiral => Some(((width - 1 - loc.0) as usize, (height - 1 - loc.1) as usize)),
        Symmetry::NoSymmetry => None,
    }
}

/// The symbol mirrored: a worker changes team.
pub open spec fn mirrored(t: Thing) -> Thing {
    match t.team {
        Some(team) => Thing { team: Some(team.spec_other()), ..t },
        None => t,
    }
}

/// The squares after a symbol is drawn at `(x, y)`, and at its mirror
/// square, if it has one.
pub open spec fn draw_square(
    things: Map<(usize, usize), Thing>,
    thing: Thing,
    sym: Symmetry,
    x: usize,
    y: usize,
    width: usize,
    height: usize,
) -> Map<(usize, usize), Thing> {
    let t1 = things.insert((x, y), thing);
    match opposite_of(sym, (x, y), width, height) {
        Some(o) => t1.insert(o, mirrored(thing)),
        None => t1,
    }
}

/// What reading the rest of a row of the drawing gives, from column `x`:
/// the squares drawn and the cursor after the row, or the error met.
pub open spec fn row_read(
    s: Seq<char>,
    c: Cursor,
    names: Map<char, Thing>,
    things: Map<(usize, usize), Thing>,
    sym: Symmetry,
    x: usize,
    y: usize,
    width: usize,
    height: usize,
) -> Result<(Map<(usize, usize), Thing>, Cursor), MapParseError>
    decreases s.len() - c.pos,
{
    let (sc, c2) = chew_map_at(s, c);
    match sc {
        None => Ok((things, c2)),
        Some(ch) => {
            if x >= width {
                Err(MapParseError::MapTooWide { line: c2.line, col: c2.col })
            } else if !names.contains_key(ch) {
                Err(MapParseError::UnknownSymbol { symbol: ch, line: c2.line, col: c2.col })
            } else if c.pos < c2.pos <= s.len() {
                row_read(
                    s,
                    c2,
                    names,
                    draw_square(things, names[ch], sym, x, y, width, height),
                    sym,
                    (x + 1) as usize,
                    y,
                    width,
                    height,
                )
            } else {
                Ok((things, c2))
            }
        },
    }
}

/// The symbol after an attribute is read into it, or the error it gives.
pub open spec fn attribute_read(attr: Seq<char>, thing: Thing, c: Cursor) -> Result<Thing, MapParseError> {
    if attr == "red_worker"@ {
        Ok(Thing { team: Some(Team::Red), ..thing })
    } else if attr == "blue_worker"@ {
        Ok(Thing { team: Some(Team::Blue), ..thing })
    } else if attr == "impassable"@ {
        Ok(Thing { passable: false, ..thing })
    } else if attr.len() > 0 && attr.last() == 'k' {
        let digits = attr.subrange(0, attr.len() - 1);
        if is_unsigned(digits) && unsigned_value(digits) <= u32::MAX {
            Ok(Thing { karbonite: unsigned_value(digits) as u32, ..thing })
        } else {
            Err(MapParseError::BadKarbonite { line: c.line, col: c.col })
        }
    } else {
        Err(MapParseError::UnknownAttribute { line: c.line, col: c.col })
    }
}

/// What reading the rest of a symbol's attributes gives: the symbol and
/// the cursor after the line, or the error met.
pub open spec fn attributes_read(s: Seq<char>, c: Cursor, thing: Thing) -> Result<(Thing, Cursor), MapParseError>
    decreases s.len() - c.pos,
{
    let (a, c2) = chew_at(s, c);
    match a {
        None => Ok((thing, c2)),
        Some(attr) => match attribute_read(attr, thing, c2) {
            Err(e) => Err(e),
            Ok(t) => if c.pos < c2.pos <= s.len() {
                attributes_read(s, c2, t)
            } else {
                Ok((t, c2))
            },
        },
    }
}

/// What the reader has gathered from the text so far.
pub struct ParseState {
    pub cur: Cursor,
    pub amplitude: Option<Rounds>,
    pub period: Option<Rounds>,
    pub center: Option<Rounds>,
    pub seed: Option<u16>,
    pub names: Map<char, Thing>,
    pub planet: Option<Planet>,
    pub earth: Dims,
    pub mars: Dims,
    pub earth_things: Map<(usize, usize), Thing>,
    pub mars_things: Map<(usize, usize), Thing>,
    pub asteroids: Seq<(usize, usize, usize, usize)>,
}

/// What the reader has gathered before reading the text.
pub open spec fn parse_start() -> ParseState {
    let none = Dims { width: None, height: None, symmetry: None, cur_y: None };
    ParseState {
        cur: Cursor { pos: 0, line: 0, col: 0 },
        amplitude: None,
        period: None,
        center: None,
        seed: None,
        names: Map::empty(),
        planet: None,
        earth: none,
        mars: none,
        earth_things: Map::empty(),
        mars_things: Map::empty(),
        asteroids: Seq::empty(),
    }
}

/// The value of a number in the text, if it is one within `limit`.
pub open spec fn number_of(t: Seq<char>, limit: int) -> Option<int> {
    if is_unsigned(t) && unsigned_value(t) <= limit {
        Some(unsigned_value(t))
    } else {
        None
    }
}

/// The dimensions of the planet with a row of the drawing done.
pub open spec fn row_done(d: Dims, y: usize) -> Dims {
    Dims { cur_y: Some(if y > 0 { (y - 1) as usize } else { FINISHED_ROW }), ..d }
}

/// What reading a row of the drawing after `>` gives.
pub open spec fn drawing_read(s: Seq<char>, st: ParseState, c: Cursor) -> Result<ParseState, MapParseError> {
    match st.planet {
        None => Err(MapParseError::NoPlanetForMap { line: c.line, col: c.col }),
        Some(p) => {
            let dims = if p == Planet::Earth { st.earth } else { st.mars };
            if dims.cur_y is None {
                Err(MapParseError::NoHeightForMap { line: c.line, col: c.col })
            } else if dims.cur_y->0 == FINISHED_ROW {
                Err(MapParseError::TooManyLines { line: c.line, col: c.col })
            } else if dims.symmetry is None {
                Err(MapParseError::NoSymmetryForMap { line: c.line, col: c.col })
            } else if dims.height is None {
                Err(MapParseError::NoHeightForMap { line: c.line, col: c.col })
            } else if dims.width is None {
                Err(MapParseError::NoWidthForMap { line: c.line, col: c.col })
            } else {
                let y = dims.cur_y->0;
                let things = if p == Planet::Earth { st.earth_things } else { st.mars_things };
                match row_read(s, c, st.names, things, dims.symmetry->0, 0, y, dims.width->0, dims.height->0) {
                    Err(e) => Err(e),
                    Ok((t, c2)) => Ok(
                        if p == Planet::Earth {
                            ParseState { cur: c2, earth_things: t, earth: row_done(st.earth, y), ..st }
                        } else {
                            ParseState { cur: c2, mars_things: t, mars: row_done(st.mars, y), ..st }
                        },
                    ),
                }
            }
        },
    }
}

/// What reading an asteroid line after `*` gives.
pub open spec fn asteroid_read(s: Seq<char>, st: ParseState, c: Cursor) -> Result<ParseState, MapParseError> {
    let (a, c1) = chew_at(s, c);
    let (b, c2) = chew_at(s, c1);
    let (d, c3) = chew_at(s, c2);
    let (k, c4) = chew_at(s, c3);
    let lim = usize::MAX as int;
    if a is Some && b is Some && d is Some && k is Some && number_of(a->0, lim) is Some && number_of(b->0, lim)
        is Some && number_of(d->0, lim) is Some && number_of(k->0, lim) is Some {
        Ok(
            ParseState {
                cur: c4,
                asteroids: st.asteroids.push(
                    (
                        number_of(a->0, lim)->0 as usize,
                        number_of(b->0, lim)->0 as usize,
                        number_of(d->0, lim)->0 as usize,
                        number_of(k->0, lim)->0 as usize,
                    ),
                ),
                ..st
            },
        )
    } else {
        Err(MapParseError::BadAsteroid { line: c4.line })
    }
}

/// The symmetry a word names, if any.
pub open spec fn symmetry_named(w: Seq<char>) -> Option<Symmetry> {
    if w == "vert"@ || w == "vertical"@ || w == "v"@ {
        Some(Symmetry::Vert)
    } else if w == "hor"@ || w == "horizontal"@ || w == "h"@ {
        Some(Symmetry::Horiz)
    } else if w == "spiral"@ {
        Some(Symmetry::Spiral)
    } else if w == "none"@ {
        Some(Symmetry::NoSymmetry)
    } else {
        None
    }
}

/// What reading a property `name: value` gives, the value read up to `c`.
pub open spec fn property_read(st: ParseState, name: Seq<char>, value: Seq<char>, c: Cursor) -> Result<ParseState, MapParseError> {
    if name == "symmetry"@ {
        match st.planet {
            None => Err(MapParseError::NoPlanetForSymmetry { line: c.line, col: c.col }),
            Some(p) => match symmetry_named(value) {
                None => Err(MapParseError::UnknownSymmetry { line: c.line, col: c.col }),
                Some(sym) => Ok(
                    if p == Planet::Earth {
                        ParseState { cur: c, earth: Dims { symmetry: Some(sym), ..st.earth }, ..st }
                    } else {
                        ParseState { cur: c, mars: Dims { symmetry: Some(sym), ..st.mars }, ..st }
                    },
                ),
            },
        }
    } else {
        match number_of(value, usize::MAX as int) {
            None => Err(MapParseError::BadInteger { line: c.line, col: c.col }),
            Some(v) => {
                let v = v as usize;
                if name == "width"@ || name == "height"@ {
                    match st.planet {
                        None => Err(MapParseError::NoPlanetForDimension { line: c.line, col: c.col }),
                        Some(p) => {
                            let d = if p == Planet::Earth { st.earth } else { st.mars };
                            if name != "width"@ && v == 0 {
                                Err(MapParseError::ZeroHeight { line: c.line, col: c.col })
                            } else {
                                let d2 = if name == "width"@ {
                                    Dims { width: Some(v), ..d }
                                } else {
                                    Dims { cur_y: Some((v - 1) as usize), height: Some(v), ..d }
                                };
                                Ok(
                                    if p == Planet::Earth {
                                        ParseState { cur: c, earth: d2, ..st }
                                    } else {
                                        ParseState { cur: c, mars: d2, ..st }
                                    },
                                )
                            }
                        },
                    }
                } else if name == "orbit_amplitude"@ {
                    Ok(ParseState { cur: c, amplitude: Some(v as Rounds), ..st })
                } else if name == "orbit_period"@ {
                    Ok(ParseState { cur: c, period: Some(v as Rounds), ..st })
                } else if name == "orbit_center"@ {
                    Ok(ParseState { cur: c, center: Some(v as Rounds), ..st })
                } else if name == "seed"@ {
                    Ok(ParseState { cur: c, seed: Some(v as u16), ..st })
                } else {
                    Err(MapParseError::UnknownProperty { line: c.line, col: c.col })
                }
            },
        }
    }
}

/// What reading one line of the text from the state's cursor gives: a
/// planet's name, a row of its drawing, an asteroid, a symbol's definition
/// or a property.
pub open spec fn line_read(s: Seq<char>, st: ParseState) -> Result<ParseState, MapParseError> {
    let (t, c1) = chew_at(s, st.cur);
    match t {
        None => Ok(ParseState { cur: c1, ..st }),
        Some(start) => {
            if start == "EARTH"@ || start == "MARS"@ {
                let (t2, c2) = chew_at(s, c1);
                if t2 == Some(":"@) {
                    Ok(
                        ParseState {
                            cur: c2,
                            planet: Some(if start == "EARTH"@ { Planet::Earth } else { Planet::Mars }),
                            ..st
                        },
                    )
                } else {
                    Err(MapParseError::MissingColon { line: c2.line })
                }
            } else if start == ">"@ {
                drawing_read(s, st, c1)
            } else if start == "*"@ {
                asteroid_read(s, st, c1)
            } else {
                let (sep, c2) = chew_at(s, c1);
                match sep {
                    None => Err(MapParseError::ExpectedSeparator { line: c2.line, col: c2.col }),
                    Some(sp) => if sp == "="@ {
                        if start.len() != 1 {
                            Err(MapParseError::SymbolTooLong { line: c2.line, col: c2.col })
                        } else {
                            match attributes_read(s, c2, Thing { passable: true, team: None, karbonite: 0 }) {
                                Err(e) => Err(e),
                                Ok((thing, c3)) => Ok(
                                    ParseState { cur: c3, names: st.names.insert(start[0], thing), ..st },
                                ),
                            }
                        }
                    } else if sp == ":"@ {
                        let (v, c3) = chew_at(s, c2);
                        match v {
                            None => Err(MapParseError::ExpectedValue { line: c3.line, col: c3.col }),
                            Some(value) => property_read(st, start, value, c3),
                        }
                    } else {
                        Ok(ParseState { cur: c2, ..st })
                    },
                }
            }
        },
    }
}

/// What reading the text from the state on gives: the state at its end,
/// or the first error met.
pub open spec fn text_read(s: Seq<char>, st: ParseState) -> Result<ParseState, MapParseError>
    decreases s.len() - st.cur.pos,
{
    if st.cur.pos >= s.len() || st.cur.pos < 0 {
        Ok(st)
    } else {
        match line_read(s, st) {
            Err(e) => Err(e),
            Ok(st2) => if st.cur.pos < st2.cur.pos <= s.len() {
                text_read(s, st2)
            } else {
                Ok(st2)
            },
        }
    }
}

/// The asteroid strikes listed, a later one on a round replacing an
/// earlier.
pub open spec fn strikes_listed(a: Seq<(usize, usize, usize, usize)>) -> Map<Rounds, AsteroidStrike>
    decreases a.len(),
{
    if a.len() == 0 {
        Map::empty()
    } else {
        let (round, x, y, k) = a.last();
        strikes_listed(a.drop_last()).insert(
            round as Rounds,
            AsteroidStrike { karbonite: k as u32, location: MapLocation { planet: Planet::Mars, x: x as i32, y: y as i32 } },
        )
    }
}

/// What `build_planet` gives of a planet's dimensions and squares.
pub open spec fn planet_built(planet: Planet, dims: Dims, things: Map<(usize, usize), Thing>, r: Result<PlanetMap, MapParseError>) -> bool {
    &&& r matches Ok(m) ==> parsed_planet(m, planet)
    &&& dims.width is None ==> r == Err::<PlanetMap, MapParseError>(MapParseError::WidthUnset)
    &&& dims.width is Some && dims.height is None ==> r == Err::<PlanetMap, MapParseError>(MapParseError::HeightUnset)
    &&& dims.width is Some && dims.height is Some && things.dom().len() < UnitID::MAX ==> {
        &&& things_fit(things, dims.width->0, dims.height->0) ==> r is Ok
        &&& !things_fit(things, dims.width->0, dims.height->0) ==> r == Err::<PlanetMap, MapParseError>(
            MapParseError::SymbolOffMap,
        )
    }
    &&& r matches Ok(m) ==> drawn(m, things, dims.width->0, dims.height->0)
}

/// The game map read from the text is what the text says, given the maps
/// built of the two planets: the first property left unset, or the first
/// planet that cannot be built, gives the error; else the map has the
/// seed, orbit, planets and asteroids the text gives.
pub open spec fn map_read(st: ParseState, earth: Result<PlanetMap, MapParseError>, mars: Result<PlanetMap, MapParseError>, r: Result<GameMap, MapParseError>) -> bool {
    if st.amplitude is None {
        r == Err::<GameMap, MapParseError>(MapParseError::OrbitAmplitudeUnset)
    } else if st.period is None {
        r == Err::<GameMap, MapParseError>(MapParseError::OrbitPeriodUnset)
    } else if st.center is None {
        r == Err::<GameMap, MapParseError>(MapParseError::OrbitCenterUnset)
    } else if st.seed is None {
        r == Err::<GameMap, MapParseError>(MapParseError::SeedUnset)
    } else {
        &&& planet_built(Planet::Earth, st.earth, st.earth_things, earth)
        &&& earth is Ok ==> planet_built(Planet::Mars, st.mars, st.mars_things, mars)
        &&& earth matches Err(e) ==> r == Err::<GameMap, MapParseError>(e)
        &&& earth is Ok && mars is Err ==> r == Err::<GameMap, MapParseError>(mars->Err_0)
        &&& earth is Ok && mars is Ok ==> {
            &&& r is Ok
            &&& r->Ok_0.seed == st.seed->0
            &&& r->Ok_0.orbit == (OrbitPattern {
                amplitude: st.amplitude->0,
                period: st.period->0,
                center: st.center->0,
            })
            &&& r->Ok_0.earth_map == earth->Ok_0
            &&& r->Ok_0.mars_map == mars->Ok_0
            &&& r->Ok_0.asteroids.strikes() == strikes_listed(st.asteroids)
        }
    }
}

/// The reader of a map's text: the tokenizer and what has been gathered.
struct Reader {
    tok: Tok,
    amplitude: Option<Rounds>,
    period: Option<Rounds>,
    center: Option<Rounds>,
    seed: Option<u16>,
    names: FnvHashMap<char, Thing>,
    planet: Option<Planet>,
    earth: Dims,
    mars: Dims,
    earth_things: FnvHashMap<(usize, usize), Thing>,
    mars_things: FnvHashMap<(usize, usize), Thing>,
    asteroids: Vec<(usize, usize, usize, usize)>,
}

/// The state reached is the one a reading gives, and the result its
/// success or its error.
pub open spec fn read_as(res: Result<ParseState, MapParseError>, after: ParseState, r: Result<(), MapParseError>) -> bool {
    match res {
        Ok(st) => r is Ok && after == st,
        Err(e) => r == Err::<(), MapParseError>(e),
    }
}

impl Reader {
    /// What the reader has gathered, with its cursor.
    spec fn state(&self) -> ParseState {
        ParseState {
            cur: cursor_of(self.tok),
            amplitude: self.amplitude,
            period: self.period,
            center: self.center,
            seed: self.seed,
            names: self.names@,
            planet: self.planet,
            earth: self.earth,
            mars: self.mars,
            earth_things: self.earth_things@,
            mars_things: self.mars_things@,
            asteroids: self.asteroids@,
        }
    }

    spec fn wf(&self) -> bool {
        &&& self.tok.wf()
        &&& self.earth.wf()
        &&& self.mars.wf()
    }

    /// Reads the rest of a row of the drawing of planet `p`.
    fn read_row(&mut self, p: Planet, sym: Symmetry, y: usize, width: usize, height: usize) -> (r: Result<(), MapParseError>)
        requires
            old(self).wf(),
            y < height,
        ensures
            final(self).wf(),
            final(self).tok.text == old(self).tok.text,
            old(self).tok.pos <= final(self).tok.pos,
            ({
                let st = old(self).state();
                let things = if p == Planet::Earth { st.earth_things } else { st.mars_things };
                match row_read(old(self).tok.text@, st.cur, st.names, things, sym, 0, y, width, height) {
                    Ok((t, c)) => r is Ok && final(self).state() == (if p == Planet::Earth {
                        ParseState { cur: c, earth_things: t, ..st }
                    } else {
                        ParseState { cur: c, mars_things: t, ..st }
                    }),
                    Err(e) => r == Err::<(), MapParseError>(e),
                }
            }),
    {
        let ghost chars = self.tok.text@;
        let ghost st = old(self).state();
        let ghost things0 = if p == Planet::Earth { st.earth_things } else { st.mars_things };
        let ghost row = row_read(chars, st.cur, st.names, things0, sym, 0, y, width, height);
        let mut x: usize = 0;
        loop
            invariant
                self.wf(),
                self.tok.text@ == chars,
                self.tok.text == old(self).tok.text,
                old(self).tok.pos <= self.tok.pos,
                y < height,
                x <= width,
                self.amplitude == st.amplitude,
                self.period == st.period,
                self.center == st.center,
                self.seed == st.seed,
                self.names@ == st.names,
                self.planet == st.planet,
                self.earth == st.earth,
                self.mars == st.mars,
                self.asteroids@ == st.asteroids,
                p == Planet::Earth ==> self.mars_things@ == st.mars_things,
                p != Planet::Earth ==> self.earth_things@ == st.earth_things,
                st == old(self).state(),
                chars == old(self).tok.text@,
                things0 == (if p == Planet::Earth { st.earth_things } else { st.mars_things }),
                row == row_read(chars, st.cur, st.names, things0, sym, 0, y, width, height),
                row == row_read(
                    chars,
                    cursor_of(self.tok),
                    st.names,
                    if p == Planet::Earth { self.earth_things@ } else { self.mars_things@ },
                    sym,
                    x,
                    y,
                    width,
                    height,
                ),
            decreases self.tok.text@.len() - self.tok.pos,
        {
            let ghost tb = if p == Planet::Earth { self.earth_things@ } else { self.mars_things@ };
            let ghost cb = cursor_of(self.tok);
            let ghost xb = x;
            let sc = self.tok.chew_map();
            proof {
                assert(chew_map_at(chars, cb) == (sc, cursor_of(self.tok)));
                assert(row == row_read(chars, cb, st.names, tb, sym, xb, y, width, height));
            }
            let symbol = match sc {
                Some(c) => c,
                None => {
                    proof {
                        assert(chew_map_at(chars, cb).0 is None);
                        assert(row_read(chars, cb, st.names, tb, sym, xb, y, width, height) == Ok::<
                            (Map<(usize, usize), Thing>, Cursor),
                            MapParseError,
                        >((tb, cursor_of(self.tok))));
                        assert(self.state() == (if p == Planet::Earth {
                            ParseState { cur: cursor_of(self.tok), earth_things: tb, ..st }
                        } else {
                            ParseState { cur: cursor_of(self.tok), mars_things: tb, ..st }
                        }));
                    }
                    return Ok(());
                },
            };
            if x >= width {
                return Err(MapParseError::MapTooWide { line: self.tok.line, col: self.tok.col });
            }
            match char_map_get(&self.names, symbol) {
                Some(thing) => {
                    let thing = *thing;
                    if p == Planet::Earth {
                        pair_map_insert(&mut self.earth_things, (x, y), thing);
                    } else {
                        pair_map_insert(&mut self.mars_things, (x, y), thing);
                    }
                    if let Some(opposite) = get_opposite(sym, (x, y), width, height) {
                        let mut otherthing = thing;
                        // Teams swap on inversion.
                        if let Some(team) = thing.team {
                            otherthing.team = Some(team.other());
                        }
                        if p == Planet::Earth {
                            pair_map_insert(&mut self.earth_things, opposite, otherthing);
                        } else {
                            pair_map_insert(&mut self.mars_things, opposite, otherthing);
                        }
                    }
                    proof {
                        let ta = if p == Planet::Earth { self.earth_things@ } else { self.mars_things@ };
                        assert(ta =~= draw_square(tb, thing, sym, x, y, width, height));
                        assert(cb.pos < cursor_of(self.tok).pos <= chars.len());
                        assert(thing == st.names[symbol]);
                    }
                },
                None => {
                    return Err(MapParseError::UnknownSymbol { symbol, line: self.tok.line, col: self.tok.col });
                },
            }
            x = x + 1;
        }
    }

    /// Reads a row of the drawing, after its `>`.
    fn read_drawing(&mut self) -> (r: Result<(), MapParseError>)
        requires
            old(self).wf(),
        ensures
            final(self).wf(),
            final(self).tok.text == old(self).tok.text,
            old(self).tok.pos <= final(self).tok.pos,
            read_as(drawing_read(old(self).tok.text@, old(self).state(), old(self).state().cur), final(self).state(), r),
    {
        let (line, col) = at(&self.tok);
        let p = match self.planet {
            Some(p) => p,
            None => {
                return Err(MapParseError::NoPlanetForMap { line, col });
            },
        };
        let dims = if p == Planet::Earth { self.earth } else { self.mars };
        let y = match dims.cur_y {
            Some(y) => y,
            None => {
                return Err(MapParseError::NoHeightForMap { line, col });
            },
        };
        if y == FINISHED_ROW {
            return Err(MapParseError::TooManyLines { line, col });
        }
        let sym = match dims.symmetry {
            Some(sym) => sym,
            None => {
                return Err(MapParseError::NoSymmetryForMap { line, col });
            },
        };
        let height = match dims.height {
            Some(h) => h,
            None => {
                return Err(MapParseError::NoHeightForMap { line, col });
            },
        };
        let width = match dims.width {
            Some(w) => w,
            None => {
                return Err(MapParseError::NoWidthForMap { line, col });
            },
        };
        match self.read_row(p, sym, y, width, height) {
            Ok(()) => {},
            Err(e) => {
                return Err(e);
            },
        }
        let next_y = if y > 0 { y - 1 } else { FINISHED_ROW };
        if p == Planet::Earth {
            self.earth.cur_y = Some(next_y);
        } else {
            self.mars.cur_y = Some(next_y);
        }
        Ok(())
    }

    /// Reads an asteroid strike, after its `*`.
    fn read_asteroid(&mut self) -> (r: Result<(), MapParseError>)
        requires
            old(self).wf(),
        ensures
            final(self).wf(),
            final(self).tok.text == old(self).tok.text,
            old(self).tok.pos <= final(self).tok.pos,
            read_as(asteroid_read(old(self).tok.text@, old(self).state(), old(self).state().cur), final(self).state(), r),
    {
        let round = self.tok.chew();
        let x = self.tok.chew();
        let y = self.tok.chew();
        let karbonite = self.tok.chew();
        match (round, x, y, karbonite) {
            (Some(round), Some(x), Some(y), Some(karbonite)) => {
                let limit = usize::MAX as u64;
                match (
                    parse_unsigned(round.as_slice(), limit),
                    parse_unsigned(x.as_slice(), limit),
                    parse_unsigned(y.as_slice(), limit),
                    parse_unsigned(karbonite.as_slice(), limit),
                ) {
                    (Some(round), Some(x), Some(y), Some(karbonite)) => {
                        self.asteroids.push((round as usize, x as usize, y as usize, karbonite as usize));
                        Ok(())
                    },
                    _ => Err(MapParseError::BadAsteroid { line: self.tok.line }),
                }
            },
            _ => Err(MapParseError::BadAsteroid { line: self.tok.line }),
        }
    }

    /// Reads the attributes of a symbol, up to the end of the line.
    fn read_attributes(&mut self) -> (r: Result<Thing, MapParseError>)
        requires
            old(self).wf(),
        ensures
            final(self).wf(),
            final(self).tok.text == old(self).tok.text,
            old(self).tok.pos <= final(self).tok.pos,
            match attributes_read(old(self).tok.text@, old(self).state().cur, Thing { passable: true, team: None, karbonite: 0 }) {
                Ok((t, c)) => r == Ok::<Thing, MapParseError>(t) && final(self).state() == (ParseState { cur: c, ..old(self).state() }),
                Err(e) => r == Err::<Thing, MapParseError>(e),
            },
    {
        let ghost chars = self.tok.text@;
        let ghost st = old(self).state();
        let mut thing = Thing { passable: true, team: None, karbonite: 0 };
        let ghost attrs = attributes_read(chars, st.cur, thing);
        loop
            invariant
                self.wf(),
                self.tok.text@ == chars,
                self.tok.text == old(self).tok.text,
                old(self).tok.pos <= self.tok.pos,
                self.state() == (ParseState { cur: cursor_of(self.tok), ..st }),
                st == old(self).state(),
                chars == old(self).tok.text@,
                attrs == attributes_read(chars, st.cur, Thing { passable: true, team: None, karbonite: 0 }),
                attrs == attributes_read(chars, cursor_of(self.tok), thing),
            decreases self.tok.text@.len() - self.tok.pos,
        {
            let attr = match self.tok.chew() {
                Some(a) => a,
                None => {
                    return Ok(thing);
                },
            };
            if is_word(&attr, "red_worker") {
                thing.team = Some(Team::Red);
            } else if is_word(&attr, "blue_worker") {
                thing.team = Some(Team::Blue);
            } else if is_word(&attr, "impassable") {
                thing.passable = false;
            } else if attr.len() > 0 && attr[attr.len() - 1] == 'k' {
                let digits = vstd::slice::slice_subrange(attr.as_slice(), 0, attr.len() - 1);
                assert(digits@ == attr@.subrange(0, attr@.len() - 1));
                match parse_unsigned(digits, u32::MAX as u64) {
                    Some(karb) => {
                        thing.karbonite = karb as u32;
                    },
                    None => {
                        return Err(MapParseError::BadKarbonite { line: self.tok.line, col: self.tok.col });
                    },
                }
            } else {
                return Err(MapParseError::UnknownAttribute { line: self.tok.line, col: self.tok.col });
            }
        }
    }

    /// Reads the value of a property and sets it, after its name and `:`.
    fn read_property(&mut self, start: &Vec<char>) -> (r: Result<(), MapParseError>)
        requires
            old(self).wf(),
        ensures
            final(self).wf(),
            final(self).tok.text == old(self).tok.text,
            old(self).tok.pos <= final(self).tok.pos,
            ({
                let (v, c3) = chew_at(old(self).tok.text@, old(self).state().cur);
                match v {
                    None => r == Err::<(), MapParseError>(MapParseError::ExpectedValue { line: c3.line, col: c3.col }),
                    Some(value) => read_as(property_read(old(self).state(), start@, value, c3), final(self).state(), r),
                }
            }),
    {
        let value = match self.tok.chew() {
            Some(value) => value,
            None => {
                return Err(MapParseError::ExpectedValue { line: self.tok.line, col: self.tok.col });
            },
        };
        if is_word(start, "symmetry") {
            let p = match self.planet {
                Some(p) => p,
                None => {
                    return Err(MapParseError::NoPlanetForSymmetry { line: self.tok.line, col: self.tok.col });
                },
            };
            let sym = if is_word(&value, "vert") || is_word(&value, "vertical") || is_word(&value, "v") {
                Symmetry::Vert
            } else if is_word(&value, "hor") || is_word(&value, "horizontal") || is_word(&value, "h") {
                Symmetry::Horiz
            } else if is_word(&value, "spiral") {
                Symmetry::Spiral
            } else if is_word(&value, "none") {
                Symmetry::NoSymmetry
            } else {
                return Err(MapParseError::UnknownSymmetry { line: self.tok.line, col: self.tok.col });
            };
            if p == Planet::Earth {
                self.earth.symmetry = Some(sym);
            } else {
                self.mars.symmetry = Some(sym);
            }
            return Ok(());
        }
        let value = match parse_unsigned(value.as_slice(), usize::MAX as u64) {
            Some(v) => v as usize,
            None => {
                return Err(MapParseError::BadInteger { line: self.tok.line, col: self.tok.col });
            },
        };
        if is_word(start, "width") || is_word(start, "height") {
            let p = match self.planet {
                Some(p) => p,
                None => {
                    return Err(MapParseError::NoPlanetForDimension { line: self.tok.line, col: self.tok.col });
                },
            };
            let mut dims = if p == Planet::Earth { self.earth } else { self.mars };
            if is_word(start, "width") {
                dims.width = Some(value);
            } else {
                if value == 0 {
                    return Err(MapParseError::ZeroHeight { line: self.tok.line, col: self.tok.col });
                }
                dims.cur_y = Some(value - 1);
                dims.height = Some(value);
            }
            if p == Planet::Earth {
                self.earth = dims;
            } else {
                self.mars = dims;
            }
            return Ok(());
        }
        if is_word(start, "orbit_amplitude") {
            self.amplitude = Some(value as Rounds);
        } else if is_word(start, "orbit_period") {
            self.period = Some(value as Rounds);
        } else if is_word(start, "orbit_center") {
            self.center = Some(value as Rounds);
        } else if is_word(start, "seed") {
            self.seed = Some(value as u16);
        } else {
            return Err(MapParseError::UnknownProperty { line: self.tok.line, col: self.tok.col });
        }
        Ok(())
    }

    /// Reads one line of the text.
    fn read_line(&mut self) -> (r: Result<(), MapParseError>)
        requires
            old(self).wf(),
        ensures
            final(self).wf(),
            final(self).tok.text == old(self).tok.text,
            old(self).tok.pos <= final(self).tok.pos,
            read_as(line_read(old(self).tok.text@, old(self).state()), final(self).state(), r),
            old(self).tok.pos < old(self).tok.text@.len() ==> old(self).tok.pos < final(self).tok.pos,
    {
        let start = match self.tok.chew() {
            Some(start) => start,
            None => {
                return Ok(());
            },
        };
        if is_word(&start, "EARTH") || is_word(&start, "MARS") {
            match self.tok.chew() {
                Some(colon) => {
                    if !is_word(&colon, ":") {
                        return Err(MapParseError::MissingColon { line: self.tok.line });
                    }
                },
                None => {
                    return Err(MapParseError::MissingColon { line: self.tok.line });
                },
            }
            self.planet = if is_word(&start, "EARTH") {
                Some(Planet::Earth)
            } else {
                Some(Planet::Mars)
            };
            return Ok(());
        }
        if is_word(&start, ">") {
            return self.read_drawing();
        }
        if is_word(&start, "*") {
            return self.read_asteroid();
        }
        let sep = match self.tok.chew() {
            Some(sep) => sep,
            None => {
                return Err(MapParseError::ExpectedSeparator { line: self.tok.line, col: self.tok.col });
            },
        };
        if is_word(&sep, "=") {
            if start.len() != 1 {
                return Err(MapParseError::SymbolTooLong { line: self.tok.line, col: self.tok.col });
            }
            let thing = match self.read_attributes() {
                Ok(t) => t,
                Err(e) => {
                    return Err(e);
                },
            };
            char_map_insert(&mut self.names, start[0], thing);
            Ok(())
        } else if is_word(&sep, ":") {
            self.read_property(&start)
        } else {
            Ok(())
        }
    }
}

/// Reads a map from its text.
///
/// The text names properties (`name: value`), defines map symbols (`c =
/// attributes`), lists asteroid strikes (`* round x y karbonite`), and
/// draws each planet row by row, top row first, after a `>`. Errors name
/// what is missing or malformed, with where the reader was.
pub fn parse_text_map(text: &str) -> (r: Result<GameMap, MapParseError>)
    ensures
        r matches Ok(m) ==> {
            &&& parsed_planet(m.earth_map, Planet::Earth)
            &&& parsed_planet(m.mars_map, Planet::Mars)
        },
        text_read(text@, parse_start()) matches Err(e) ==> r == Err::<GameMap, MapParseError>(e),
        text_read(text@, parse_start()) matches Ok(st) ==> exists|
            earth: Result<PlanetMap, MapParseError>,
            mars: Result<PlanetMap, MapParseError>,
        | #[trigger] map_read(st, earth, mars, r),
{
    let none = Dims { width: None, height: None, symmetry: None, cur_y: None };
    let mut rd = Reader {
        tok: Tok::new(chars_of(text)),
        amplitude: None,
        period: None,
        center: None,
        seed: None,
        names: fnv_new(),
        planet: None,
        earth: none,
        mars: none,
        earth_things: fnv_new(),
        mars_things: fnv_new(),
        asteroids: Vec::new(),
    };
    let ghost chars = rd.tok.text@;
    let ghost total = text_read(chars, parse_start());
    proof {
        assert(rd.names@ =~= Map::<char, Thing>::empty());
        assert(rd.earth_things@ =~= Map::<(usize, usize), Thing>::empty());
        assert(rd.mars_things@ =~= Map::<(usize, usize), Thing>::empty());
        assert(rd.asteroids@ =~= Seq::<(usize, usize, usize, usize)>::empty());
        assert(rd.state() == parse_start());
    }
    while rd.tok.has()
        invariant
            rd.wf(),
            rd.tok.text@ == chars,
            chars == text@,
            total == text_read(chars, parse_start()),
            text_read(chars, rd.state()) == total,
        decreases rd.tok.text@.len() - rd.tok.pos,
    {
        let ghost st0 = rd.state();
        match rd.read_line() {
            Ok(()) => {},
            Err(e) => {
                return Err(e);
            },
        }
        proof {
            assert(line_read(chars, st0) == Ok::<ParseState, MapParseError>(rd.state()));
            assert(st0.cur.pos < rd.state().cur.pos <= chars.len());
        }
    }
    let ghost fin = rd.state();
    proof {
        assert(total == Ok::<ParseState, MapParseError>(fin));
    }
    let orbit_amplitude = match rd.amplitude {
        Some(v) => v,
        None => {
            proof {
                let w: Result<PlanetMap, MapParseError> = Err(MapParseError::WidthUnset);
                assert(map_read(fin, w, w, Err(MapParseError::OrbitAmplitudeUnset)));
            }
            return Err(MapParseError::OrbitAmplitudeUnset);
        },
    };
    let orbit_period = match rd.period {
        Some(v) => v,
        None => {
            proof {
                let w: Result<PlanetMap, MapParseError> = Err(MapParseError::WidthUnset);
                assert(map_read(fin, w, w, Err(MapParseError::OrbitPeriodUnset)));
            }
            return Err(MapParseError::OrbitPeriodUnset);
        },
    };
    let orbit_center = match rd.center {
        Some(v) => v,
        None => {
            proof {
                let w: Result<PlanetMap, MapParseError> = Err(MapParseError::WidthUnset);
                assert(map_read(fin, w, w, Err(MapParseError::OrbitCenterUnset)));
            }
            return Err(MapParseError::OrbitCenterUnset);
        },
    };
    let orbit = OrbitPattern::new(orbit_amplitude, orbit_period, orbit_center);
    let seed = match rd.seed {
        Some(v) => v,
        None => {
            proof {
                let w: Result<PlanetMap, MapParseError> = Err(MapParseError::WidthUnset);
                assert(map_read(fin, w, w, Err(MapParseError::SeedUnset)));
            }
            return Err(MapParseError::SeedUnset);
        },
    };
    let earth_built = build_planet(Planet::Earth, rd.earth, &rd.earth_things);
    let earth_map = match earth_built {
        Ok(m) => m,
        Err(e) => {
            proof {
                assert(map_read(fin, Err(e), Err(e), Err(e)));
            }
            return Err(e);
        },
    };
    let ghost eb: Result<PlanetMap, MapParseError> = Ok(earth_map);
    let mars_built = build_planet(Planet::Mars, rd.mars, &rd.mars_things);
    let mars_map = match mars_built {
        Ok(m) => m,
        Err(e) => {
            proof {
                assert(map_read(fin, eb, Err(e), Err(e)));
            }
            return Err(e);
        },
    };
    let ghost mb: Result<PlanetMap, MapParseError> = Ok(mars_map);
    let mut ast: FnvHashMap<Rounds, AsteroidStrike> = fnv_new();
    let mut i: usize = 0;
    proof {
        assert(rd.asteroids@.take(0) =~= Seq::<(usize, usize, usize, usize)>::empty());
        assert(ast@ =~= strikes_listed(rd.asteroids@.take(0)));
    }
    while i < rd.asteroids.len()
        invariant
            0 <= i <= rd.asteroids@.len(),
            ast@ == strikes_listed(rd.asteroids@.take(i as int)),
        decreases rd.asteroids@.len() - i,
    {
        let (round, x, y, k) = rd.asteroids[i];
        u32_map_insert(
            &mut ast,
            round as Rounds,
            AsteroidStrike {
                karbonite: k as u32,
                location: MapLocation::new(Planet::Mars, x as i32, y as i32),
            },
        );
        proof {
            assert(rd.asteroids@.take(i + 1).drop_last() =~= rd.asteroids@.take(i as int));
        }
        i = i + 1;
    }
    proof {
        assert(rd.asteroids@.take(rd.asteroids@.len() as int) =~= rd.asteroids@);
    }
    let r = GameMap {
        seed: seed,
        earth_map: earth_map,
        mars_map: mars_map,
        asteroids: AsteroidPattern::new(&ast),
        orbit: orbit,
    };
    proof {
        assert(map_read(fin, eb, mb, Ok(r)));
    }
    Ok(r)
}

} // verus!

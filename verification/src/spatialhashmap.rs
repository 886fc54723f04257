//! A map from locations, pairs of bytes below 63, to values, kept in square
//! buckets of eight by eight locations.
use vstd::prelude::*;
use vstd::pervasive::VecAdditionalExecFns;
use crate::location::{MapLocation, Planet, is_isqrt, isqrt, lemma_isqrt_bound};

verus! {

/// A coordinate representable in the map.
pub type Coord = u8;

/// A location in the map.
pub type Loc = (Coord, Coord);

/// The minimum possible coordinate.
pub const MIN_COORD: Coord = 0;

/// The maximum possible coordinate. Locations at it are out of the map.
pub const MAX_COORD: Coord = 63;

/// The size of the world represented by the map.
pub const SIZE: usize = 64;

/// The width and height of a bucket.
pub const BUCKET_SIZE: usize = 8;

/// The number of buckets along each axis.
pub const BUCKETS_PER_DIM: usize = 8;

/// The number of buckets.
pub const BUCKET_COUNT: usize = 64;

/// An entry in the map.
#[derive(Debug)]
pub struct Entry<T> {
    pub loc: Loc,
    pub value: T,
}

/// A rectangle of locations, bounds included.
#[derive(Clone, Copy, Debug, PartialEq, Eq, Structural)]
pub struct Bounds {
    pub minx: Coord,
    pub maxx: Coord,
    pub miny: Coord,
    pub maxy: Coord,
}

/// Whether the rectangle holds the location.
pub open spec fn in_bounds(b: Bounds, l: Loc) -> bool {
    b.minx <= l.0 && b.miny <= l.1 && b.maxx >= l.0 && b.maxy >= l.1
}

impl Bounds {
    /// The rectangle of the whole map.
    pub fn top_level() -> (r: Bounds)
        ensures
            r == (Bounds { minx: MIN_COORD, maxx: MAX_COORD, miny: MIN_COORD, maxy: MAX_COORD }),
    {
        Bounds { minx: MIN_COORD, maxx: MAX_COORD, miny: MIN_COORD, maxy: MAX_COORD }
    }

    /// Whether the rectangle holds the location.
    pub fn contains(&self, loc: Loc) -> (r: bool)
        ensures
            r == in_bounds(*self, loc),
    {
        self.minx <= loc.0 && self.miny <= loc.1 && self.maxx >= loc.0 && self.maxy >= loc.1
    }

    /// Whether the two rectangles overlap.
    pub fn overlaps(&self, other: &Bounds) -> (r: bool)
        ensures
            r == (!(self.maxx < other.minx || other.maxx < self.minx) && !(self.maxy < other.miny
                || other.maxy < self.miny)),
    {
        if self.maxx < other.minx || other.maxx < self.minx {
            false
        } else if self.maxy < other.miny || other.maxy < self.miny {
            false
        } else {
            true
        }
    }
}

/// Whether the location is out of the map.
pub open spec fn out_of_map(l: Loc) -> bool {
    l.0 >= 63 || l.1 >= 63
}

/// The index of the bucket of a location.
pub open spec fn bucket_of(l: Loc) -> int {
    (l.0 / 8) * 8 + l.1 / 8
}

/// Some entry of the sequence has location `l`.
pub open spec fn has_loc<T>(s: Seq<Entry<T>>, l: Loc) -> bool {
    exists|k: int| 0 <= k < s.len() && (#[trigger] s[k]).loc == l
}

/// The value of an entry of the sequence with location `l`.
pub open spec fn value_at<T>(s: Seq<Entry<T>>, l: Loc) -> T {
    s[choose|k: int| 0 <= k < s.len() && (#[trigger] s[k]).loc == l].value
}

/// No two entries of the sequence share a location.
pub open spec fn distinct_locs<T>(s: Seq<Entry<T>>) -> bool {
    forall|a: int, b: int| 0 <= a < b < s.len() ==> (#[trigger] s[a]).loc != (#[trigger] s[b]).loc
}

/// In a sequence without repeated locations, the value at a location is
/// that of the entry with that location.
proof fn lemma_value_at<T>(s: Seq<Entry<T>>, k: int)
    requires
        distinct_locs(s),
        0 <= k < s.len(),
    ensures
        has_loc(s, s[k].loc),
        value_at(s, s[k].loc) == s[k].value,
{
    let l = s[k].loc;
    assert(has_loc(s, l));
    let c = choose|c: int| 0 <= c < s.len() && (#[trigger] s[c]).loc == l;
    if c != k {
        if c < k {
            assert(s[c].loc != s[k].loc);
        } else {
            assert(s[k].loc != s[c].loc);
        }
    }
}

/// A map from locations to values, kept in buckets.
pub struct SpatialHashMap<T> {
    /// The buckets, each with the entries of its square.
    buckets: Vec<Vec<Entry<T>>>,
}

/// Some pair of the list is at location `l`.
pub open spec fn lists<T>(out: Seq<(Loc, T)>, l: Loc) -> bool {
    exists|i: int| 0 <= i < out.len() && (#[trigger] out[i]).0 == l
}

impl<T> SpatialHashMap<T> {
    /// There are 64 buckets; each entry is in the map and in the bucket of
    /// its location; no bucket holds a location twice.
    pub closed spec fn wf(&self) -> bool {
        &&& self.buckets@.len() == 64
        &&& forall|b: int, k: int| 0 <= b < 64 && 0 <= k < self.buckets@[b]@.len() ==> {
            &&& !out_of_map((#[trigger] self.buckets@[b]@[k]).loc)
            &&& bucket_of(self.buckets@[b]@[k].loc) == b
        }
        &&& forall|b: int| 0 <= b < 64 ==> distinct_locs((#[trigger] self.buckets@[b])@)
    }

    /// The locations held by the map, each with its value.
    pub closed spec fn view(&self) -> Map<Loc, T> {
        Map::new(
            |l: Loc| !out_of_map(l) && has_loc(self.buckets@[bucket_of(l)]@, l),
            |l: Loc| value_at(self.buckets@[bucket_of(l)]@, l),
        )
    }

    /// Make a new, empty map.
    pub fn new() -> (r: SpatialHashMap<T>)
        ensures
            r.wf(),
            r@ == Map::<Loc, T>::empty(),
    {
        let mut buckets: Vec<Vec<Entry<T>>> = Vec::with_capacity(BUCKET_COUNT);
        let mut i: usize = 0;
        while i < BUCKET_COUNT
            invariant
                0 <= i <= 64,
                buckets@.len() == i,
                forall|b: int| 0 <= b < i ==> (#[trigger] buckets@[b])@.len() == 0,
            decreases 64 - i,
        {
            buckets.push(Vec::new());
            i = i + 1;
        }
        let r = SpatialHashMap { buckets };
        assert(r@ =~= Map::<Loc, T>::empty());
        r
    }

    /// The bucket for a given location.
    pub fn bucket(&self, loc: Loc) -> (r: usize)
        requires
            !out_of_map(loc),
        ensures
            r as int == bucket_of(loc),
            r < 64,
    {
        (loc.0 as usize / BUCKET_SIZE) * BUCKETS_PER_DIM + (loc.1 as usize / BUCKET_SIZE)
    }

    /// The bounds of the bucket of a given location.
    pub fn bounds(&self, loc: Loc) -> (r: Bounds)
        requires
            !out_of_map(loc),
        ensures
            r.minx == (loc.0 / 8) * 8,
            r.miny == (loc.1 / 8) * 8,
            r.maxx == r.minx + 7,
            r.maxy == r.miny + 7,
            in_bounds(r, loc),
    {
        let minx = (loc.0 as usize / BUCKET_SIZE) * BUCKET_SIZE;
        let miny = (loc.1 as usize / BUCKET_SIZE) * BUCKET_SIZE;
        let maxx = minx + BUCKET_SIZE - 1;
        let maxy = miny + BUCKET_SIZE - 1;
        Bounds { minx: minx as Coord, miny: miny as Coord, maxx: maxx as Coord, maxy: maxy as Coord }
    }

    /// Whether the location is out of the map.
    pub fn oob(&self, loc: Loc) -> (r: bool)
        ensures
            r == out_of_map(loc),
    {
        loc.0 >= MAX_COORD || loc.1 >= MAX_COORD
    }

    /// Insert a value into the map, at a location that holds none. A
    /// location out of the map is ignored.
    pub fn insert(&mut self, loc: Loc, value: T)
        requires
            old(self).wf(),
            !old(self)@.contains_key(loc),
        ensures
            final(self).wf(),
            final(self)@ == (if out_of_map(loc) { old(self)@ } else { old(self)@.insert(loc, value) }),
    {
        if self.oob(loc) {
            return;
        }
        let idx = self.bucket(loc);
        let ghost a = self.buckets@;
        let mut bucket: Vec<Entry<T>> = Vec::new();
        self.buckets.set_and_swap(idx, &mut bucket);
        let ghost ea = bucket@;
        assert(ea == a[idx as int]@);
        bucket.push(Entry { loc, value });
        self.buckets.set(idx, bucket);
        proof {
            let eb = self.buckets@[idx as int]@;
            assert(!has_loc(ea, loc));
            assert forall|x: int, y: int| 0 <= x < y < eb.len() implies (#[trigger] eb[x]).loc != (#[trigger] eb[y]).loc by {
                assert(eb[x] == ea[x]);
                if y < ea.len() {
                    assert(eb[y] == ea[y]);
                } else {
                    assert(ea[x].loc != loc);
                }
            }
            assert forall|b: int| 0 <= b < 64 implies distinct_locs((#[trigger] self.buckets@[b])@) by {
                if b != idx {
                    assert(self.buckets@[b] == a[b]);
                }
            }
            assert forall|b: int, k: int| 0 <= b < 64 && 0 <= k < self.buckets@[b]@.len() implies {
                &&& !out_of_map((#[trigger] self.buckets@[b]@[k]).loc)
                &&& bucket_of(self.buckets@[b]@[k].loc) == b
            } by {
                if b != idx {
                    assert(self.buckets@[b] == a[b]);
                } else if k < ea.len() {
                    assert(eb[k] == ea[k]);
                }
            }
            assert forall|l: Loc| #[trigger] self@.contains_key(l) == old(self)@.insert(loc, value).contains_key(l)
                && (self@.contains_key(l) ==> self@[l] == old(self)@.insert(loc, value)[l]) by {
                if !out_of_map(l) {
                    let bl = bucket_of(l);
                    if bl == idx {
                        if l == loc {
                            lemma_value_at(eb, ea.len() as int);
                        } else {
                            if has_loc(ea, l) {
                                let k = choose|k: int| 0 <= k < ea.len() && (#[trigger] ea[k]).loc == l;
                                assert(eb[k] == ea[k]);
                                lemma_value_at(ea, k);
                                lemma_value_at(eb, k);
                            }
                            if has_loc(eb, l) {
                                let k = choose|k: int| 0 <= k < eb.len() && (#[trigger] eb[k]).loc == l;
                                assert(k < ea.len());
                                assert(ea[k] == eb[k]);
                            }
                        }
                    } else {
                        assert(0 <= bl < 64) by {
                            assert(l.0 / 8 <= 7 && l.1 / 8 <= 7);
                        }
                        assert(self.buckets@[bl] == a[bl]);
                    }
                }
            }
            assert(self@ =~= old(self)@.insert(loc, value));
        }
    }

    /// Get the value stored at a particular location.
    pub fn get(&self, loc: Loc) -> (r: Option<&T>)
        requires
            self.wf(),
        ensures
            r is Some <==> self@.contains_key(loc),
            r is Some ==> *r->0 == self@[loc],
    {
        if self.oob(loc) {
            return None;
        }
        let idx = self.bucket(loc);
        let bucket = &self.buckets[idx];
        let mut k: usize = 0;
        while k < bucket.len()
            invariant
                self.wf(),
                idx == bucket_of(loc),
                idx < 64,
                *bucket == self.buckets@[idx as int],
                0 <= k <= bucket@.len(),
                forall|j: int| 0 <= j < k ==> (#[trigger] bucket@[j]).loc != loc,
            decreases bucket@.len() - k,
        {
            if bucket[k].loc.0 == loc.0 && bucket[k].loc.1 == loc.1 {
                proof {
                    assert(bucket@[k as int].loc == loc);
                    lemma_value_at(bucket@, k as int);
                }
                return Some(&bucket[k].value);
            }
            k = k + 1;
        }
        None
    }

    /// Remove a location and its attached data from the map.
    /// If the location is found, its attached data is returned; if it is not
    /// present, None is returned.
    pub fn remove(&mut self, loc: Loc) -> (r: Option<T>)
        requires
            old(self).wf(),
        ensures
            final(self).wf(),
            final(self)@ == old(self)@.remove(loc),
            r == (if old(self)@.contains_key(loc) { Some(old(self)@[loc]) } else { None::<T> }),
    {
        if self.oob(loc) {
            assert(self@.remove(loc) =~= self@);
            return None;
        }
        let idx = self.bucket(loc);
        let ghost a = self.buckets@;
        let mut bucket: Vec<Entry<T>> = Vec::new();
        self.buckets.set_and_swap(idx, &mut bucket);
        let ghost ea = bucket@;
        assert(ea == a[idx as int]@);
        let mut k: usize = 0;
        while k < bucket.len()
            invariant
                bucket@ == ea,
                0 <= k <= ea.len(),
                forall|j: int| 0 <= j < k ==> (#[trigger] ea[j]).loc != loc,
            ensures
                bucket@ == ea,
                0 <= k <= ea.len(),
                forall|j: int| 0 <= j < k ==> (#[trigger] ea[j]).loc != loc,
                k < ea.len() ==> ea[k as int].loc == loc,
            decreases ea.len() - k,
        {
            if bucket[k].loc.0 == loc.0 && bucket[k].loc.1 == loc.1 {
                break;
            }
            k = k + 1;
        }
        if k < bucket.len() {
            let e = bucket.swap_remove(k);
            self.buckets.set(idx, bucket);
            proof {
                let eb = self.buckets@[idx as int]@;
                let n = ea.len() - 1;
                lemma_value_at(ea, k as int);
                assert forall|j: int| 0 <= j < eb.len() implies (#[trigger] eb[j]) == ea[if j == k { n } else { j }] by {
                }
                assert forall|x: int, y: int| 0 <= x < y < eb.len() implies (#[trigger] eb[x]).loc != (#[trigger] eb[y]).loc by {
                    let p = if x == k { n } else { x };
                    let q = if y == k { n } else { y };
                    assert(eb[x] == ea[p]);
                    assert(eb[y] == ea[q]);
                    if p < q {
                        assert(ea[p].loc != ea[q].loc);
                    } else {
                        assert(ea[q].loc != ea[p].loc);
                    }
                }
                assert forall|b: int| 0 <= b < 64 implies distinct_locs((#[trigger] self.buckets@[b])@) by {
                    if b != idx {
                        assert(self.buckets@[b] == a[b]);
                    }
                }
                assert forall|b: int, j: int| 0 <= b < 64 && 0 <= j < self.buckets@[b]@.len() implies {
                    &&& !out_of_map((#[trigger] self.buckets@[b]@[j]).loc)
                    &&& bucket_of(self.buckets@[b]@[j].loc) == b
                } by {
                    if b != idx {
                        assert(self.buckets@[b] == a[b]);
                    } else {
                        assert(eb[j] == ea[if j == k { n } else { j }]);
                    }
                }
                assert forall|l: Loc| #[trigger] self@.contains_key(l) == old(self)@.remove(loc).contains_key(l)
                    && (self@.contains_key(l) ==> self@[l] == old(self)@[l]) by {
                    if !out_of_map(l) {
                        let bl = bucket_of(l);
                        assert(0 <= bl < 64) by {
                            assert(l.0 / 8 <= 7 && l.1 / 8 <= 7);
                        }
                        if bl == idx {
                            if has_loc(eb, l) {
                                let j = choose|j: int| 0 <= j < eb.len() && (#[trigger] eb[j]).loc == l;
                                let x = if j == k { n } else { j };
                                assert(eb[j] == ea[x]);
                                if x < k {
                                    assert(ea[x].loc != ea[k as int].loc);
                                } else if x > k {
                                    assert(ea[k as int].loc != ea[x].loc);
                                }
                                lemma_value_at(ea, x);
                                lemma_value_at(eb, j);
                            }
                            if l != loc && has_loc(ea, l) {
                                let m = choose|m: int| 0 <= m < ea.len() && (#[trigger] ea[m]).loc == l;
                                let j = if m == n { k as int } else { m };
                                assert(eb[j] == ea[m]);
                            }
                        } else {
                            assert(self.buckets@[bl] == a[bl]);
                        }
                    }
                }
                assert(self@ =~= old(self)@.remove(loc));
            }
            Some(e.value)
        } else {
            self.buckets.set(idx, bucket);
            proof {
                assert(self.buckets@ =~= a);
                assert(old(self)@.remove(loc) =~= old(self)@);
            }
            None
        }
    }

    /// Whether each entry lies in the bounds of its bucket; always so.
    pub fn check(&self) -> (r: bool)
        requires
            self.wf(),
        ensures
            r,
    {
        let mut x: usize = 0;
        while x < BUCKETS_PER_DIM
            invariant
                self.wf(),
                0 <= x <= 8,
            decreases 8 - x,
        {
            let mut y: usize = 0;
            while y < BUCKETS_PER_DIM
                invariant
                    self.wf(),
                    0 <= x < 8,
                    0 <= y <= 8,
                decreases 8 - y,
            {
                let loc: Loc = ((x * BUCKET_SIZE) as Coord, (y * BUCKET_SIZE) as Coord);
                let bounds = self.bounds(loc);
                let idx = self.bucket(loc);
                let bucket = &self.buckets[idx];
                let mut k: usize = 0;
                while k < bucket.len()
                    invariant
                        self.wf(),
                        idx < 64,
                        !out_of_map(loc),
                        idx == bucket_of(loc),
                        bounds.minx == (loc.0 / 8) * 8,
                        bounds.miny == (loc.1 / 8) * 8,
                        bounds.maxx == bounds.minx + 7,
                        bounds.maxy == bounds.miny + 7,
                        *bucket == self.buckets@[idx as int],
                        0 <= k <= bucket@.len(),
                    decreases bucket@.len() - k,
                {
                    proof {
                        let l = bucket@[k as int].loc;
                        assert(bucket_of(l) == idx);
                        assert(!out_of_map(l));
                        let a1 = l.0 / 8;
                        let b1 = l.1 / 8;
                        let a2 = loc.0 / 8;
                        let b2 = loc.1 / 8;
                        assert(a1 == a2 && b1 == b2) by (nonlinear_arith)
                            requires
                                a1 * 8 + b1 == a2 * 8 + b2,
                                0 <= b1 <= 7,
                                0 <= b2 <= 7;
                    }
                    if !bounds.contains(bucket[k].loc) {
                        return false;
                    }
                    k = k + 1;
                }
                y = y + 1;
            }
            x = x + 1;
        }
        true
    }
}

/// The distance squared between two locations.
pub open spec fn loc_dist(a: Loc, b: Loc) -> int {
    (a.0 - b.0) * (a.0 - b.0) + (a.1 - b.1) * (a.1 - b.1)
}

/// The first coordinate of the bucket column or row that holds `c`.
pub open spec fn start_of(c: int) -> int {
    (c / 8) * 8
}

/// No location is listed twice.
pub open spec fn listed_once<T>(out: Seq<(Loc, T)>) -> bool {
    forall|i: int, j: int| 0 <= i < j < out.len() ==> (#[trigger] out[i]).0 != (#[trigger] out[j]).0
}

/// A location of the bucket that starts at `(x, y)` comes after every
/// location of a bucket that comes before it, bucket by bucket.
pub open spec fn before_bucket(l: Loc, x: int, y: int) -> bool {
    start_of(l.0 as int) < x || (start_of(l.0 as int) == x && start_of(l.1 as int) < y)
}

/// Each pair of the list is a location held by the map, with its value.
pub open spec fn all_held<T>(out: Seq<(Loc, T)>, m: Map<Loc, T>) -> bool {
    forall|i: int| 0 <= i < out.len() ==> m.contains_key((#[trigger] out[i]).0) && m[out[i].0] == out[i].1
}

impl<T: Copy> SpatialHashMap<T> {
    /// The entries of the buckets whose first column is in `x0..maxx` and
    /// whose first row is in `y0..maxy`, bucket by bucket.
    fn gather(&self, x0: usize, maxx: usize, y0: usize, maxy: usize) -> (r: Vec<(Loc, T)>)
        requires
            self.wf(),
            x0 % 8 == 0,
            y0 % 8 == 0,
            maxx <= 64,
            maxy <= 64,
        ensures
            all_held(r@, self@),
            forall|i: int| 0 <= i < r@.len() ==> x0 <= start_of((#[trigger] r@[i]).0.0 as int) < maxx
                && y0 <= start_of(r@[i].0.1 as int) < maxy,
            forall|l: Loc| #![trigger lists(r@, l)] self@.contains_key(l) && x0 <= start_of(l.0 as int) < maxx
                && y0 <= start_of(l.1 as int) < maxy ==> lists(r@, l),
            listed_once(r@),
    {
        let mut out: Vec<(Loc, T)> = Vec::new();
        let mut x: usize = x0;
        while x < maxx
            invariant
                self.wf(),
                x0 % 8 == 0,
                y0 % 8 == 0,
                maxx <= 64,
                maxy <= 64,
                x % 8 == 0,
                x0 <= x,
                all_held(out@, self@),
                forall|i: int| 0 <= i < out@.len() ==> x0 <= start_of((#[trigger] out@[i]).0.0 as int) < x
                    && start_of(out@[i].0.0 as int) < maxx && y0 <= start_of(out@[i].0.1 as int) < maxy,
                forall|l: Loc| #![trigger lists(out@, l)] self@.contains_key(l) && x0 <= start_of(l.0 as int) < x
                    && start_of(l.0 as int) < maxx && y0 <= start_of(l.1 as int) < maxy ==> lists(out@, l),
                listed_once(out@),
            decreases maxx + 8 - x,
        {
            let mut y: usize = y0;
            while y < maxy
                invariant
                    self.wf(),
                    y0 % 8 == 0,
                    maxx <= 64,
                    maxy <= 64,
                    x % 8 == 0,
                    y % 8 == 0,
                    x0 <= x < maxx,
                    y0 <= y,
                    all_held(out@, self@),
                    forall|i: int| 0 <= i < out@.len() ==> x0 <= start_of((#[trigger] out@[i]).0.0 as int) <= x
                        && start_of(out@[i].0.0 as int) < maxx && y0 <= start_of(out@[i].0.1 as int) < maxy,
                    forall|l: Loc| #![trigger lists(out@, l)] self@.contains_key(l) && x0 <= start_of(l.0 as int)
                        < maxx && y0 <= start_of(l.1 as int) < maxy && (start_of(l.0 as int) < x || (start_of(
                        l.0 as int,
                    ) == x && start_of(l.1 as int) < y)) ==> lists(out@, l),
                    listed_once(out@),
                    forall|i: int| 0 <= i < out@.len() ==> before_bucket((#[trigger] out@[i]).0, x as int, y as int),
                decreases maxy + 8 - y,
            {
                let loc: Loc = (x as Coord, y as Coord);
                let idx = self.bucket(loc);
                let bucket = &self.buckets[idx];
                let ghost start = out@;
                let mut k: usize = 0;
                while k < bucket.len()
                    invariant
                        self.wf(),
                        idx < 64,
                        idx == bucket_of(loc),
                        loc.0 == x,
                        loc.1 == y,
                        x % 8 == 0,
                        y % 8 == 0,
                        x0 <= x < maxx,
                        y0 <= y < maxy,
                        maxx <= 64,
                        maxy <= 64,
                        *bucket == self.buckets@[idx as int],
                        0 <= k <= bucket@.len(),
                        out@.len() >= start.len(),
                        forall|i: int| 0 <= i < start.len() ==> #[trigger] out@[i] == start[i],
                        all_held(out@, self@),
                        forall|i: int| 0 <= i < out@.len() ==> x0 <= start_of((#[trigger] out@[i]).0.0 as int) <= x
                            && start_of(out@[i].0.0 as int) < maxx && y0 <= start_of(out@[i].0.1 as int) < maxy,
                        forall|j: int| 0 <= j < k ==> lists(out@, (#[trigger] bucket@[j]).loc),
                        out@.len() == start.len() + k,
                        forall|i: int| start.len() <= i < out@.len() ==> (#[trigger] out@[i]).0 == bucket@[i
                            - start.len()].loc,
                        forall|i: int| 0 <= i < start.len() ==> before_bucket((#[trigger] start[i]).0, x as int, y as int),
                        listed_once(start),
                        listed_once(out@),
                        distinct_locs(bucket@),
                    decreases bucket@.len() - k,
                {
                    let e = &bucket[k];
                    let ghost before = out@;
                    proof {
                        lemma_value_at(bucket@, k as int);
                        let l = e.loc;
                        assert(bucket_of(l) == idx);
                        assert(!out_of_map(l));
                        let a1 = l.0 / 8;
                        let b1 = l.1 / 8;
                        let a2 = x as int / 8;
                        let b2 = y as int / 8;
                        assert(a1 == a2 && b1 == b2) by (nonlinear_arith)
                            requires
                                a1 * 8 + b1 == a2 * 8 + b2,
                                0 <= b1 <= 7,
                                0 <= b2 <= 7;
                        assert(start_of(l.0 as int) == x);
                        assert(start_of(l.1 as int) == y);
                    }
                    out.push((e.loc, e.value));
                    proof {
                        assert(out@[before.len() as int].0 == e.loc);
                        assert forall|a: int, b: int| 0 <= a < b < out@.len() implies (#[trigger] out@[a]).0
                            != (#[trigger] out@[b]).0 by {
                            if b < before.len() {
                                assert(out@[a] == before[a] && out@[b] == before[b]);
                            } else if a < start.len() {
                                assert(out@[a] == start[a]);
                                assert(before_bucket(start[a].0, x as int, y as int));
                            } else {
                                assert(out@[a] == before[a]);
                                assert(out@[a].0 == bucket@[a - start.len()].loc);
                                assert(bucket@[a - start.len()].loc != bucket@[k as int].loc);
                            }
                        }
                        assert forall|j: int| 0 <= j < k + 1 implies lists(out@, (#[trigger] bucket@[j]).loc) by {
                            if j < k {
                                assert(lists(before, bucket@[j].loc));
                                let i = choose|i: int| 0 <= i < before.len() && (#[trigger] before[i]).0
                                    == bucket@[j].loc;
                                assert(out@[i] == before[i]);
                            }
                        }
                    }
                    k = k + 1;
                }
                proof {
                    assert forall|l: Loc| #![trigger lists(out@, l)] self@.contains_key(l) && x0 <= start_of(
                        l.0 as int,
                    ) < maxx && y0 <= start_of(l.1 as int) < maxy && (start_of(l.0 as int) < x || (start_of(
                        l.0 as int,
                    ) == x && start_of(l.1 as int) < y + 8)) implies lists(out@, l) by {
                        if start_of(l.0 as int) < x || start_of(l.1 as int) < y {
                            assert(lists(start, l));
                            let i = choose|i: int| 0 <= i < start.len() && (#[trigger] start[i]).0 == l;
                            assert(out@[i] == start[i]);
                        } else {
                            assert(start_of(l.1 as int) == y);
                            assert(bucket_of(l) == idx);
                            let j = choose|j: int| 0 <= j < bucket@.len() && (#[trigger] bucket@[j]).loc == l;
                            assert(lists(out@, bucket@[j].loc));
                        }
                    }
                }
                proof {
                    assert forall|i: int| 0 <= i < out@.len() implies before_bucket(
                        (#[trigger] out@[i]).0,
                        x as int,
                        y + 8,
                    ) by {
                        if i < start.len() {
                            assert(out@[i] == start[i]);
                        } else {
                            assert(out@[i].0 == bucket@[i - start.len()].loc);
                            let l = bucket@[i - start.len()].loc;
                            assert(bucket_of(l) == idx);
                            let a1 = l.0 / 8;
                            let b1 = l.1 / 8;
                            let a2 = x as int / 8;
                            let b2 = y as int / 8;
                            assert(a1 == a2 && b1 == b2) by (nonlinear_arith)
                                requires
                                    a1 * 8 + b1 == a2 * 8 + b2,
                                    0 <= b1 <= 7,
                                    0 <= b2 <= 7;
                        }
                    }
                }
                y = y + 8;
            }
            x = x + 8;
        }
        out
    }

    /// All the values in a rectangle, bounds included, each with its
    /// location.
    pub fn rect_query(&self, minx: Coord, maxx: Coord, miny: Coord, maxy: Coord) -> (r: Vec<(Loc, T)>)
        requires
            self.wf(),
        ensures
            all_held(r@, self@),
            forall|i: int| 0 <= i < r@.len() ==> in_bounds(Bounds { minx, maxx, miny, maxy }, (#[trigger] r@[i]).0),
            forall|l: Loc| #![trigger lists(r@, l)] self@.contains_key(l) && in_bounds(
                Bounds { minx, maxx, miny, maxy },
                l,
            ) ==> lists(r@, l),
            listed_once(r@),
    {
        let bounds = Bounds { minx, maxx, miny, maxy };
        let x0 = (minx as usize / BUCKET_SIZE) * BUCKET_SIZE;
        let y0 = (miny as usize / BUCKET_SIZE) * BUCKET_SIZE;
        let xend = if (maxx as usize) < SIZE - 1 { maxx as usize + 1 } else { SIZE };
        let yend = if (maxy as usize) < SIZE - 1 { maxy as usize + 1 } else { SIZE };
        let all = self.gather(x0, xend, y0, yend);
        let mut out: Vec<(Loc, T)> = Vec::new();
        let mut i: usize = 0;
        while i < all.len()
            invariant
                all_held(all@, self@),
                all_held(out@, self@),
                0 <= i <= all@.len(),
                forall|j: int| 0 <= j < out@.len() ==> in_bounds(bounds, (#[trigger] out@[j]).0),
                forall|j: int| 0 <= j < i && in_bounds(bounds, (#[trigger] all@[j]).0) ==> lists(out@, all@[j].0),
                listed_once(all@),
                listed_once(out@),
                forall|t: int| 0 <= t < out@.len() ==> exists|j: int| 0 <= j < i && #[trigger] out@[t] == all@[j],
            decreases all@.len() - i,
        {
            let ghost before = out@;
            if bounds.contains(all[i].0) {
                out.push(all[i]);
                proof {
                    assert(out@[before.len() as int] == all@[i as int]);
                    assert forall|t: int| 0 <= t < out@.len() implies exists|j: int| 0 <= j < i + 1
                        && #[trigger] out@[t] == all@[j] by {
                        if t < before.len() {
                            assert(out@[t] == before[t]);
                        } else {
                            assert(out@[t] == all@[i as int]);
                        }
                    }
                    assert forall|a: int, b: int| 0 <= a < b < out@.len() implies (#[trigger] out@[a]).0
                        != (#[trigger] out@[b]).0 by {
                        assert(out@[a] == before[a]);
                        if b < before.len() {
                            assert(out@[b] == before[b]);
                        } else {
                            let j = choose|j: int| 0 <= j < i && #[trigger] before[a] == all@[j];
                            assert(all@[j].0 != all@[i as int].0);
                        }
                    }
                    assert forall|j: int| 0 <= j < i + 1 && in_bounds(bounds, (#[trigger] all@[j]).0) implies lists(
                        out@,
                        all@[j].0,
                    ) by {
                        if j < i {
                            assert(lists(before, all@[j].0));
                            let t = choose|t: int| 0 <= t < before.len() && (#[trigger] before[t]).0 == all@[j].0;
                            assert(out@[t] == before[t]);
                        }
                    }
                }
            }
            i = i + 1;
        }
        proof {
            assert forall|l: Loc| #![trigger lists(out@, l)] self@.contains_key(l) && in_bounds(bounds, l) implies lists(
                out@,
                l,
            ) by {
                assert(!out_of_map(l));
                assert(start_of(l.0 as int) <= l.0 && start_of(l.1 as int) <= l.1);
                assert(start_of(l.0 as int) < xend && start_of(l.1 as int) < yend);
                assert(start_of(l.0 as int) >= x0);
                assert(start_of(l.1 as int) >= y0);
                assert(lists(all@, l));
                let j = choose|j: int| 0 <= j < all@.len() && (#[trigger] all@[j]).0 == l;
            }
        }
        out
    }

    /// All the values at distance squared at most `distsq` from `loc`, each
    /// with its location.
    pub fn range_query(&self, loc: Loc, distsq: Coord) -> (r: Vec<(Loc, T)>)
        requires
            self.wf(),
        ensures
            all_held(r@, self@),
            forall|i: int| 0 <= i < r@.len() ==> loc_dist((#[trigger] r@[i]).0, loc) <= distsq,
            forall|l: Loc| #![trigger lists(r@, l)] self@.contains_key(l) && loc_dist(l, loc) <= distsq ==> lists(
                r@,
                l,
            ),
    {
        let root = isqrt(distsq as u32);
        let range = root as i32 + 1;
        let lx = loc.0 as i32 - range;
        let hx = loc.0 as i32 + range;
        let ly = loc.1 as i32 - range;
        let hy = loc.1 as i32 + range;
        let minx: Coord = if lx < 0 { 0 } else if lx > 63 { 63 } else { lx as Coord };
        let maxx: Coord = if hx < 0 { 0 } else if hx > 63 { 63 } else { hx as Coord };
        let miny: Coord = if ly < 0 { 0 } else if ly > 63 { 63 } else { ly as Coord };
        let maxy: Coord = if hy < 0 { 0 } else if hy > 63 { 63 } else { hy as Coord };
        let x0 = (minx as usize / BUCKET_SIZE) * BUCKET_SIZE;
        let y0 = (miny as usize / BUCKET_SIZE) * BUCKET_SIZE;
        let all = self.gather(x0, maxx as usize, y0, maxy as usize);
        let mut out: Vec<(Loc, T)> = Vec::new();
        let mut i: usize = 0;
        let d = distsq as i32;
        while i < all.len()
            invariant
                all_held(all@, self@),
                all_held(out@, self@),
                d == distsq,
                0 <= i <= all@.len(),
                forall|j: int| 0 <= j < out@.len() ==> loc_dist((#[trigger] out@[j]).0, loc) <= distsq,
                forall|j: int| 0 <= j < i && loc_dist((#[trigger] all@[j]).0, loc) <= distsq ==> lists(
                    out@,
                    all@[j].0,
                ),
            decreases all@.len() - i,
        {
            let ghost before = out@;
            let e = all[i];
            let dx = e.0.0 as i32 - loc.0 as i32;
            let dy = e.0.1 as i32 - loc.1 as i32;
            assert(dx * dx <= 255 * 255 && dy * dy <= 255 * 255 && dx * dx >= 0 && dy * dy >= 0) by (nonlinear_arith)
                requires -255 <= dx <= 255, -255 <= dy <= 255;
            assert(loc_dist(e.0, loc) == dx * dx + dy * dy);
            if dx * dx + dy * dy <= d {
                out.push(e);
                proof {
                    assert(out@[before.len() as int] == all@[i as int]);
                    assert forall|j: int| 0 <= j < i + 1 && loc_dist((#[trigger] all@[j]).0, loc) <= distsq implies lists(
                        out@,
                        all@[j].0,
                    ) by {
                        if j < i {
                            assert(lists(before, all@[j].0));
                            let t = choose|t: int| 0 <= t < before.len() && (#[trigger] before[t]).0 == all@[j].0;
                            assert(out@[t] == before[t]);
                        }
                    }
                }
            }
            i = i + 1;
        }
        proof {
            assert forall|l: Loc| #![trigger lists(out@, l)] self@.contains_key(l) && loc_dist(l, loc) <= distsq
                implies lists(out@, l) by {
                assert(!out_of_map(l));
                let ddx = l.0 - loc.0;
                let ddy = l.1 - loc.1;
                assert(ddx * ddx >= 0 && ddy * ddy >= 0) by (nonlinear_arith);
                lemma_isqrt_bound(distsq as int, root as int, ddx);
                lemma_isqrt_bound(distsq as int, root as int, ddy);
                assert(l.0 < maxx && l.0 >= minx);
                assert(l.1 < maxy && l.1 >= miny);
                assert(start_of(l.0 as int) <= l.0);
                assert(start_of(l.1 as int) <= l.1);
                assert(start_of(l.0 as int) >= x0);
                assert(start_of(l.1 as int) >= y0);
                assert(lists(all@, l));
                let j = choose|j: int| 0 <= j < all@.len() && (#[trigger] all@[j]).0 == l;
            }
        }
        out
    }
}

/// The location in a planet's map of a map location, relative to the
/// origin of that map (the difference, cut to a byte).
pub open spec fn relative(origin: MapLocation, loc: MapLocation) -> Loc {
    (((loc.x - origin.x) as i32) as u8, ((loc.y - origin.y) as i32) as u8)
}

/// The map location of a location of a planet's map.
pub open spec fn absolute(origin: MapLocation, l: Loc) -> MapLocation {
    MapLocation { planet: origin.planet, x: (origin.x + l.0) as i32, y: (origin.y + l.1) as i32 }
}

/// The difference of the location and the origin fits in an `i32`.
pub open spec fn fits_origin(origin: MapLocation, loc: MapLocation) -> bool {
    i32::MIN <= loc.x - origin.x <= i32::MAX && i32::MIN <= loc.y - origin.y <= i32::MAX
}

/// A map from the map locations of both planets to values, each planet's
/// locations taken relative to an origin.
pub struct MapLocationMap<T> {
    earth: SpatialHashMap<T>,
    mars: SpatialHashMap<T>,
    earth_origin: MapLocation,
    mars_origin: MapLocation,
}

impl<T> MapLocationMap<T> {
    /// Both maps are well formed.
    pub closed spec fn wf(&self) -> bool {
        self.earth.wf() && self.mars.wf()
    }

    /// The origin of the given planet's locations.
    pub closed spec fn origin(&self, p: Planet) -> MapLocation {
        if p == Planet::Earth {
            self.earth_origin
        } else {
            self.mars_origin
        }
    }

    /// The locations held for the given planet, relative to its origin.
    pub closed spec fn side(&self, p: Planet) -> Map<Loc, T> {
        if p == Planet::Earth {
            self.earth@
        } else {
            self.mars@
        }
    }

    /// An empty map with the given origins.
    pub fn new(earth_origin: MapLocation, mars_origin: MapLocation) -> (r: MapLocationMap<T>)
        requires
            earth_origin.planet == Planet::Earth,
            mars_origin.planet == Planet::Mars,
        ensures
            r.wf(),
            r.origin(Planet::Earth) == earth_origin,
            r.origin(Planet::Mars) == mars_origin,
            r.side(Planet::Earth) == Map::<Loc, T>::empty(),
            r.side(Planet::Mars) == Map::<Loc, T>::empty(),
    {
        MapLocationMap { earth: SpatialHashMap::new(), mars: SpatialHashMap::new(), earth_origin, mars_origin }
    }

    /// The planet of a map location and its location relative to that
    /// planet's origin.
    fn convert(&self, loc: MapLocation) -> (r: (Planet, Loc))
        requires
            fits_origin(self.origin(loc.planet), loc),
        ensures
            r.0 == loc.planet,
            r.1 == relative(self.origin(loc.planet), loc),
    {
        if loc.planet == Planet::Earth {
            (loc.planet, ((loc.x - self.earth_origin.x) as Coord, (loc.y - self.earth_origin.y) as Coord))
        } else {
            (loc.planet, ((loc.x - self.mars_origin.x) as Coord, (loc.y - self.mars_origin.y) as Coord))
        }
    }

    /// Insert a value at a location that holds none.
    pub fn insert(&mut self, loc: MapLocation, value: T)
        requires
            old(self).wf(),
            fits_origin(old(self).origin(loc.planet), loc),
            !old(self).side(loc.planet).contains_key(relative(old(self).origin(loc.planet), loc)),
        ensures
            final(self).wf(),
            final(self).origin(Planet::Earth) == old(self).origin(Planet::Earth),
            final(self).origin(Planet::Mars) == old(self).origin(Planet::Mars),
            final(self).side(loc.planet.other()) == old(self).side(loc.planet.other()),
            final(self).side(loc.planet) == (if out_of_map(relative(old(self).origin(loc.planet), loc)) {
                old(self).side(loc.planet)
            } else {
                old(self).side(loc.planet).insert(relative(old(self).origin(loc.planet), loc), value)
            }),
    {
        let (planet, l) = self.convert(loc);
        if planet == Planet::Earth {
            self.earth.insert(l, value);
        } else {
            self.mars.insert(l, value);
        }
    }

    /// The value at a location.
    pub fn get(&self, loc: MapLocation) -> (r: Option<&T>)
        requires
            self.wf(),
            fits_origin(self.origin(loc.planet), loc),
        ensures
            r is Some <==> self.side(loc.planet).contains_key(relative(self.origin(loc.planet), loc)),
            r is Some ==> *r->0 == self.side(loc.planet)[relative(self.origin(loc.planet), loc)],
    {
        let (planet, l) = self.convert(loc);
        if planet == Planet::Earth {
            self.earth.get(l)
        } else {
            self.mars.get(l)
        }
    }

    /// Whether a location holds a value.
    pub fn contains(&self, loc: MapLocation) -> (r: bool)
        requires
            self.wf(),
            fits_origin(self.origin(loc.planet), loc),
        ensures
            r == self.side(loc.planet).contains_key(relative(self.origin(loc.planet), loc)),
    {
        self.get(loc).is_some()
    }

    /// Remove a location and its value, which is returned if there was one.
    pub fn remove(&mut self, loc: MapLocation) -> (r: Option<T>)
        requires
            old(self).wf(),
            fits_origin(old(self).origin(loc.planet), loc),
        ensures
            final(self).wf(),
            final(self).origin(Planet::Earth) == old(self).origin(Planet::Earth),
            final(self).origin(Planet::Mars) == old(self).origin(Planet::Mars),
            final(self).side(loc.planet.other()) == old(self).side(loc.planet.other()),
            final(self).side(loc.planet) == old(self).side(loc.planet).remove(
                relative(old(self).origin(loc.planet), loc),
            ),
            r == (if old(self).side(loc.planet).contains_key(relative(old(self).origin(loc.planet), loc)) {
                Some(old(self).side(loc.planet)[relative(old(self).origin(loc.planet), loc)])
            } else {
                None::<T>
            }),
    {
        let (planet, l) = self.convert(loc);
        if planet == Planet::Earth {
            self.earth.remove(l)
        } else {
            self.mars.remove(l)
        }
    }
}

impl<T: Copy> MapLocationMap<T> {
    /// The values at distance squared at most `range` from the location,
    /// on its planet, each with its map location.
    pub fn range_query(&self, loc: MapLocation, range: Coord) -> (r: Vec<(MapLocation, T)>)
        requires
            self.wf(),
            fits_origin(self.origin(loc.planet), loc),
            self.origin(loc.planet).x <= i32::MAX - 255,
            self.origin(loc.planet).y <= i32::MAX - 255,
        ensures
            forall|i: int| #![trigger r@[i]] 0 <= i < r@.len() ==> exists|l: Loc| {
                &&& #[trigger] absolute(self.origin(loc.planet), l) == r@[i].0
                &&& self.side(loc.planet).contains_key(l)
                &&& self.side(loc.planet)[l] == r@[i].1
                &&& loc_dist(l, relative(self.origin(loc.planet), loc)) <= range
            },
            forall|l: Loc| self.side(loc.planet).contains_key(l) && loc_dist(
                l,
                relative(self.origin(loc.planet), loc),
            ) <= range ==> exists|i: int| 0 <= i < r@.len() && (#[trigger] r@[i]).0 == absolute(
                self.origin(loc.planet),
                l,
            ),
    {
        let origin = if loc.planet == Planet::Earth { self.earth_origin } else { self.mars_origin };
        let (planet, l) = self.convert(loc);
        let found = if planet == Planet::Earth { self.earth.range_query(l, range) } else { self.mars.range_query(l, range) };
        let ghost side = self.side(loc.planet);
        let mut out: Vec<(MapLocation, T)> = Vec::new();
        let mut i: usize = 0;
        while i < found.len()
            invariant
                all_held(found@, side),
                forall|j: int| 0 <= j < found@.len() ==> loc_dist((#[trigger] found@[j]).0, l) <= range,
                origin.x <= i32::MAX - 255,
                origin.y <= i32::MAX - 255,
                0 <= i <= found@.len(),
                out@.len() == i,
                forall|j: int| 0 <= j < i ==> (#[trigger] out@[j]).0 == absolute(origin, found@[j].0) && out@[j].1
                    == found@[j].1,
            decreases found@.len() - i,
        {
            let (q, v) = found[i];
            let ml = MapLocation { x: origin.x + q.0 as i32, y: origin.y + q.1 as i32, planet: origin.planet };
            out.push((ml, v));
            i = i + 1;
        }
        proof {
            assert forall|i: int| #![trigger out@[i]] 0 <= i < out@.len() implies exists|q: Loc| {
                &&& #[trigger] absolute(origin, q) == out@[i].0
                &&& side.contains_key(q)
                &&& side[q] == out@[i].1
                &&& loc_dist(q, l) <= range
            } by {
                let q = found@[i].0;
                assert(absolute(origin, q) == out@[i].0);
            }
            assert forall|q: Loc| side.contains_key(q) && loc_dist(q, l) <= range implies exists|i: int| 0 <= i
                < out@.len() && (#[trigger] out@[i]).0 == absolute(origin, q) by {
                assert(lists(found@, q));
                let j = choose|j: int| 0 <= j < found@.len() && (#[trigger] found@[j]).0 == q;
                assert(out@[j].0 == absolute(origin, q));
            }
        }
        out
    }
}

} // verus!

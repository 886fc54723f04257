//! Rockets are the only unit that can initiate travel between planets.
use vstd::prelude::*;
use vstd::multiset::Multiset;
use fnv::FnvHashMap;
use crate::fnv_map::{fnv_new, u32_map_get, u32_map_insert, u32_map_keys, u32_map_remove};
use crate::location::MapLocation;
use crate::unit::UnitID;
use crate::world::Rounds;

verus! {

/// A rocket landing.
#[derive(Debug, Clone, Copy, PartialEq, Eq, Structural)]
pub struct RocketLanding {
    pub rocket_id: UnitID,
    pub destination: MapLocation,
}

impl RocketLanding {
    /// Construct a new rocket landing.
    pub fn new(rocket_id: UnitID, destination: MapLocation) -> (r: Self)
        ensures
            r == (RocketLanding { rocket_id, destination }),
    {
        RocketLanding { rocket_id: rocket_id, destination: destination }
    }
}

/// Whether landing `a` (with its round) comes no later than `b`: by round,
/// then by rocket ID.
pub open spec fn landing_le(a: (Rounds, RocketLanding), b: (Rounds, RocketLanding)) -> bool {
    a.0 < b.0 || (a.0 == b.0 && a.1.rocket_id <= b.1.rocket_id)
}

/// Whether a list of landings is ordered by round, then by rocket ID.
pub open spec fn landings_sorted(s: Seq<(Rounds, RocketLanding)>) -> bool {
    forall|i: int, j: int| 0 <= i < j < s.len() ==> landing_le(s[i], s[j])
}

/// All rocket landings.
#[derive(Debug)]
pub struct RocketLandingInfo {
    landings: FnvHashMap<Rounds, Vec<RocketLanding>>,
}

impl RocketLandingInfo {
    /// The landings of each round, in the order they were added.
    pub closed spec fn landings_view(&self) -> Map<Rounds, Seq<RocketLanding>> {
        Map::new(|r: Rounds| self.landings@.contains_key(r), |r: Rounds| self.landings@[r]@)
    }

    /// The landings on one round, in the order they were added.
    pub open spec fn on_round(&self, round: Rounds) -> Seq<RocketLanding> {
        if self.landings_view().contains_key(round) {
            self.landings_view()[round]
        } else {
            Seq::empty()
        }
    }

    /// How many times a landing is scheduled on a round.
    pub open spec fn times_scheduled(&self, x: (Rounds, RocketLanding)) -> nat {
        self.on_round(x.0).to_multiset().count(x.1)
    }

    /// Construct an empty rocket landing info.
    pub fn new() -> (r: RocketLandingInfo)
        ensures
            r.landings_view() == Map::<Rounds, Seq<RocketLanding>>::empty(),
    {
        let r = RocketLandingInfo { landings: fnv_new() };
        assert(r.landings_view() =~= Map::<Rounds, Seq<RocketLanding>>::empty());
        r
    }

    /// Add a rocket landing on this round.
    pub fn add_landing(&mut self, round: Rounds, landing: RocketLanding)
        ensures
            final(self).landings_view() == old(self).landings_view().insert(
                round,
                old(self).on_round(round).push(landing),
            ),
    {
        let mut v = match u32_map_remove(&mut self.landings, round) {
            Some(v) => v,
            None => Vec::new(),
        };
        v.push(landing);
        u32_map_insert(&mut self.landings, round, v);
        assert(self.landings_view() =~= old(self).landings_view().insert(
            round,
            old(self).on_round(round).push(landing),
        ));
    }

    /// Add many rocket landings on this round.
    pub fn add_landings(&mut self, round: Rounds, landings: Vec<RocketLanding>)
        ensures
            final(self).landings_view() == old(self).landings_view().insert(
                round,
                old(self).on_round(round) + landings@,
            ),
    {
        let mut v = match u32_map_remove(&mut self.landings, round) {
            Some(v) => v,
            None => Vec::new(),
        };
        let ghost start = v@;
        let mut i: usize = 0;
        while i < landings.len()
            invariant
                0 <= i <= landings@.len(),
                v@ == start + landings@.take(i as int),
            decreases landings@.len() - i,
        {
            v.push(landings[i]);
            assert(landings@.take(i + 1) == landings@.take(i as int).push(landings@[i as int]));
            i = i + 1;
        }
        assert(landings@.take(i as int) == landings@);
        u32_map_insert(&mut self.landings, round, v);
        assert(self.landings_view() =~= old(self).landings_view().insert(
            round,
            old(self).on_round(round) + landings@,
        ));
    }

    /// Get the rocket landings on this round.
    pub fn landings_on(&self, round: Rounds) -> (r: Vec<RocketLanding>)
        ensures
            r@ == self.on_round(round),
    {
        match u32_map_get(&self.landings, round) {
            Some(landings) => landings.clone(),
            None => Vec::new(),
        }
    }

    /// All rocket landings, ordered by round (and by rocket ID within a
    /// round): each scheduled landing appears with its round as often as it
    /// was scheduled.
    pub fn all(&self) -> (r: Vec<(Rounds, RocketLanding)>)
        ensures
            landings_sorted(r@),
            forall|x: (Rounds, RocketLanding)| #[trigger] r@.to_multiset().count(x)
                == self.times_scheduled(x),
    {
        broadcast use vstd::seq_lib::group_to_multiset_ensures;

        let keys = u32_map_keys(&self.landings);
        let mut flat: Vec<(Rounds, RocketLanding)> = Vec::new();
        let mut j: usize = 0;
        proof {
            flat@.to_multiset_ensures();
            assert forall|y: (Rounds, RocketLanding)| flat@.to_multiset().count(y) == 0 by {
                assert(!flat@.contains(y));
            }
            assert(keys@.take(0) =~= Seq::<u32>::empty());
        }
        while j < keys.len()
            invariant
                0 <= j <= keys@.len(),
                keys@.no_duplicates(),
                forall|k: u32| #[trigger] keys@.contains(k) <==> self.landings@.contains_key(k),
                forall|x: (Rounds, RocketLanding)| #[trigger] flat@.to_multiset().count(x) == if keys@.take(
                    j as int,
                ).contains(x.0) {
                    self.times_scheduled(x)
                } else {
                    0
                },
            decreases keys@.len() - j,
        {
            let k = keys[j];
            assert(keys@.contains(k));
            let ls = u32_map_get(&self.landings, k).unwrap();
            assert(ls@ == self.on_round(k));
            let ghost before = flat@;
            let mut i: usize = 0;
            proof {
                assert(ls@.take(0) =~= Seq::<RocketLanding>::empty());
                ls@.take(0).to_multiset_ensures();
                assert forall|y: RocketLanding| ls@.take(0).to_multiset().count(y) == 0 by {
                    assert(!ls@.take(0).contains(y));
                }
            }
            while i < ls.len()
                invariant
                    0 <= i <= ls@.len(),
                    ls@ == self.on_round(k),
                    forall|x: (Rounds, RocketLanding)| #[trigger] flat@.to_multiset().count(x)
                        == before.to_multiset().count(x) + if x.0 == k {
                        ls@.take(i as int).to_multiset().count(x.1)
                    } else {
                        0
                    },
                decreases ls@.len() - i,
            {
                let ghost f0 = flat@;
                flat.push((k, ls[i]));
                proof {
                    assert(ls@.take(i + 1) == ls@.take(i as int).push(ls@[i as int]));
                    assert(f0.push((k, ls@[i as int])) == flat@);
                    vstd::seq_lib::to_multiset_build(f0, (k, ls@[i as int]));
                    vstd::seq_lib::to_multiset_build(ls@.take(i as int), ls@[i as int]);
                    assert forall|x: (Rounds, RocketLanding)| #[trigger] flat@.to_multiset().count(x)
                        == before.to_multiset().count(x) + if x.0 == k {
                        ls@.take(i + 1).to_multiset().count(x.1)
                    } else {
                        0
                    } by {
                        assert(f0.to_multiset().count(x) == before.to_multiset().count(x) + if x.0 == k {
                            ls@.take(i as int).to_multiset().count(x.1)
                        } else {
                            0
                        });
                    }
                }
                i = i + 1;
            }
            proof {
                assert(ls@.take(i as int) == ls@);
                assert(keys@.take(j + 1) == keys@.take(j as int).push(k));
                assert forall|x: (Rounds, RocketLanding)| #[trigger] flat@.to_multiset().count(x)
                    == if keys@.take(j + 1).contains(x.0) {
                    self.times_scheduled(x)
                } else {
                    0
                } by {
                    if x.0 == k {
                        assert(!keys@.take(j as int).contains(k)) by {
                            if keys@.take(j as int).contains(k) {
                                let t = choose|t: int| 0 <= t < j && #[trigger] keys@.take(j as int)[t] == k;
                                assert(keys@[t] == keys@[j as int]);
                            }
                        }
                    }
                    if keys@.take(j as int).contains(x.0) {
                        let t = choose|t: int| 0 <= t < j && #[trigger] keys@.take(j as int)[t] == x.0;
                        assert(keys@.take(j + 1)[t] == x.0);
                    }
                    if x.0 == k {
                        assert(keys@.take(j + 1)[j as int] == k);
                    }
                    if keys@.take(j + 1).contains(x.0) {
                        let t = choose|t: int| 0 <= t < j + 1 && #[trigger] keys@.take(j + 1)[t] == x.0;
                        if t < j {
                            assert(keys@.take(j as int)[t] == x.0);
                        }
                    }
                    assert(keys@.take(j + 1).contains(x.0) <==> (keys@.take(j as int).contains(x.0)
                        || x.0 == k));
                }
            }
            j = j + 1;
        }
        proof {
            assert(keys@.take(j as int) == keys@);
            assert forall|x: (Rounds, RocketLanding)| #[trigger] flat@.to_multiset().count(x)
                == self.times_scheduled(x) by {
                if !keys@.contains(x.0) {
                    assert(!self.landings_view().contains_key(x.0));
                    assert(self.on_round(x.0) == Seq::<RocketLanding>::empty());
                    self.on_round(x.0).to_multiset_ensures();
                    assert(!self.on_round(x.0).contains(x.1));
                }
            }
        }
        sort_landings(flat)
    }
}

impl RocketLandingInfo {
    /// All rocket landings, grouped by round but in no particular order.
    pub fn all_grouped(&self) -> (r: FnvHashMap<Rounds, Vec<RocketLanding>>)
        ensures
            forall|k: Rounds| #[trigger] r@.contains_key(k) <==> self.landings_view().contains_key(k),
            forall|k: Rounds| r@.contains_key(k) ==> #[trigger] r@[k]@ == self.landings_view()[k],
    {
        self.landings.clone()
    }
}

impl Clone for RocketLandingInfo {
    fn clone(&self) -> (r: Self)
        ensures
            r.landings_view() == self.landings_view(),
    {
        let r = RocketLandingInfo { landings: self.landings.clone() };
        assert(r.landings_view() =~= self.landings_view());
        r
    }
}

/// A stable insertion sort of landings by round, then rocket ID.
fn sort_landings(v: Vec<(Rounds, RocketLanding)>) -> (r: Vec<(Rounds, RocketLanding)>)
    ensures
        landings_sorted(r@),
        r@.to_multiset() == v@.to_multiset(),
{
    broadcast use vstd::seq_lib::group_to_multiset_ensures;

    let mut out: Vec<(Rounds, RocketLanding)> = Vec::new();
    let mut i: usize = 0;
    proof {
        assert(v@.take(0) =~= Seq::<(Rounds, RocketLanding)>::empty());
        assert(out@.to_multiset() =~= v@.take(0).to_multiset()) by {
            out@.to_multiset_ensures();
            v@.take(0).to_multiset_ensures();
            assert forall|y: (Rounds, RocketLanding)| out@.to_multiset().count(y) == 0 by {
                assert(!out@.contains(y));
            }
            assert forall|y: (Rounds, RocketLanding)| v@.take(0).to_multiset().count(y) == 0 by {
                assert(!v@.take(0).contains(y));
            }
        }
    }
    while i < v.len()
        invariant
            0 <= i <= v@.len(),
            landings_sorted(out@),
            out@.to_multiset() == v@.take(i as int).to_multiset(),
        decreases v@.len() - i,
    {
        let x = v[i];
        let mut p: usize = 0;
        while p < out.len() && (out[p].0 < x.0 || (out[p].0 == x.0 && out[p].1.rocket_id
            <= x.1.rocket_id))
            invariant
                0 <= p <= out@.len(),
                forall|q: int| 0 <= q < p ==> landing_le(#[trigger] out@[q], x),
            decreases out@.len() - p,
        {
            p = p + 1;
        }
        let ghost o0 = out@;
        out.insert(p, x);
        proof {
            vstd::seq_lib::to_multiset_insert(o0, p as int, x);
            assert(v@.take(i + 1) == v@.take(i as int).push(v@[i as int]));
            vstd::seq_lib::to_multiset_build(v@.take(i as int), v@[i as int]);
            assert forall|a: int, b: int| 0 <= a < b < out@.len() implies landing_le(
                out@[a],
                out@[b],
            ) by {
                if p < o0.len() {
                    assert(!landing_le(o0[p as int], x));
                }
                if a < p && b == p {
                } else if a == p && b > p {
                    assert(landings_sorted(o0));
                    if p < o0.len() {
                        assert(landing_le(o0[p as int], o0[b - 1]) || b - 1 == p);
                    }
                } else {
                }
            }
        }
        i = i + 1;
    }
    assert(v@.take(i as int) == v@);
    out
}

} // verus!

//! The communication arrays for a single team.
//!
//! A team has a different array on each planet. A player can read the most
//! recent team array for its planet, but reads a delayed version of the team
//! array for the other planet.
use vstd::prelude::*;
use fnv::FnvHashMap;
use crate::constants::{COMMUNICATION_ARRAY_LENGTH, COMMUNICATION_DELAY};
use crate::error::GameError;
use crate::fnv_map::{fnv_new, planet_map_get, planet_map_insert, planet_map_remove};
use crate::location::Planet;

verus! {

/// A team-shared communication array for a single player.
pub type TeamArray = Vec<i32>;

/// The contents of a history of arrays, newest first.
pub open spec fn arrays_view(h: Seq<TeamArray>) -> Seq<Seq<i32>> {
    h.map_values(|a: TeamArray| a@)
}

/// A zeroed array of the communication length.
pub open spec fn zero_array() -> Seq<i32> {
    Seq::new(COMMUNICATION_ARRAY_LENGTH as nat, |i: int| 0i32)
}

/// The history a team starts with: one zeroed array for each round of
/// delay, plus the current one.
pub open spec fn initial_history() -> Seq<Seq<i32>> {
    Seq::new((COMMUNICATION_DELAY + 1) as nat, |i: int| zero_array())
}

/// The history of the communication arrays of one team.
#[derive(Debug)]
pub struct TeamArrayInfo {
    history: FnvHashMap<Planet, Vec<TeamArray>>,
}

fn zeroed_array() -> (r: TeamArray)
    ensures
        r@ == zero_array(),
{
    let mut v: Vec<i32> = Vec::new();
    let mut i: usize = 0;
    while i < COMMUNICATION_ARRAY_LENGTH
        invariant
            0 <= i <= COMMUNICATION_ARRAY_LENGTH,
            v@ == Seq::new(i as nat, |j: int| 0i32),
        decreases COMMUNICATION_ARRAY_LENGTH - i,
    {
        v.push(0);
        i = i + 1;
        assert(v@ =~= Seq::new(i as nat, |j: int| 0i32));
    }
    v
}

fn initial_arrays() -> (r: Vec<TeamArray>)
    ensures
        arrays_view(r@) == initial_history(),
{
    let mut v: Vec<TeamArray> = Vec::new();
    let mut i: usize = 0;
    while i < COMMUNICATION_DELAY + 1
        invariant
            0 <= i <= COMMUNICATION_DELAY + 1,
            v@.len() == i,
            forall|j: int| 0 <= j < i ==> (#[trigger] v@[j])@ == zero_array(),
        decreases COMMUNICATION_DELAY + 1 - i,
    {
        v.push(zeroed_array());
        i = i + 1;
    }
    assert(arrays_view(v@) =~= initial_history());
    v
}

fn clone_array(a: &TeamArray) -> (r: TeamArray)
    ensures
        r@ == a@,
{
    a.clone()
}

/// A planet's history after a round ends: the newest array is kept for the
/// next round, and the oldest is dropped.
pub open spec fn history_aged(h: Seq<Seq<i32>>) -> Seq<Seq<i32>> {
    seq![h[0]] + h.drop_last()
}

/// A planet's history after `k` rounds end with nothing written.
pub open spec fn history_aged_by(h: Seq<Seq<i32>>, k: nat) -> Seq<Seq<i32>>
    decreases k,
{
    if k == 0 {
        h
    } else {
        history_aged(history_aged_by(h, (k - 1) as nat))
    }
}

/// After `k` rounds each array of a history has moved `k` places older,
/// and the newest array fills the places it left.
pub proof fn lemma_history_aged_by(h: Seq<Seq<i32>>, k: nat)
    requires
        h.len() >= 1,
    ensures
        history_aged_by(h, k).len() == h.len(),
        forall|j: int| 0 <= j < h.len() ==> #[trigger] history_aged_by(h, k)[j] == (if j <= k {
            h[0]
        } else {
            h[j - k]
        }),
    decreases k,
{
    if k > 0 {
        lemma_history_aged_by(h, (k - 1) as nat);
        let prev = history_aged_by(h, (k - 1) as nat);
        assert forall|j: int| 0 <= j < h.len() implies #[trigger] history_aged_by(h, k)[j] == (if j <= k {
            h[0]
        } else {
            h[j - k]
        }) by {
            if j > 0 {
                assert(history_aged_by(h, k)[j] == prev[j - 1]);
            }
        }
    }
}

/// A team array written on a planet reaches the other planet after the
/// communication delay: once as many rounds have ended as the planet's
/// history holds older arrays, the oldest array, which the other planet
/// reads, is the array that was newest.
pub proof fn lemma_array_arrives(h: Seq<Seq<i32>>)
    requires
        h.len() >= 1,
    ensures
        history_aged_by(h, (h.len() - 1) as nat).last() == h[0],
{
    lemma_history_aged_by(h, (h.len() - 1) as nat);
}

/// Every array of the history has the communication length.
pub open spec fn all_full(h: Seq<Seq<i32>>) -> bool {
    forall|j: int| 0 <= j < h.len() ==> (#[trigger] h[j]).len() == COMMUNICATION_ARRAY_LENGTH
}

/// One step of a planet's history: where `ages`, the round ends
/// ([`history_aged`]); else only the newest array may change, as a write
/// changes it.
pub open spec fn history_step(a: Seq<Seq<i32>>, b: Seq<Seq<i32>>, ages: bool) -> bool {
    if ages {
        b == history_aged(a)
    } else {
        &&& b.len() == a.len()
        &&& forall|j: int| 1 <= j < a.len() ==> #[trigger] b[j] == a[j]
    }
}

/// The number of steps that end a round.
pub open spec fn count_ages(labels: Seq<bool>) -> nat
    decreases labels.len(),
{
    if labels.len() == 0 {
        0
    } else {
        count_ages(labels.drop_last()) + if labels.last() {
            1nat
        } else {
            0nat
        }
    }
}

/// Whether `hs` is a run of histories, each a step from the one before it,
/// with the steps labelled by whether they end a round.
pub open spec fn history_run(hs: Seq<Seq<Seq<i32>>>, labels: Seq<bool>) -> bool {
    &&& hs.len() == labels.len() + 1
    &&& forall|i: int| 0 <= i < labels.len() ==> #[trigger] history_step(hs[i], hs[i + 1], labels[i])
}

proof fn lemma_run_prefix(hs: Seq<Seq<Seq<i32>>>, labels: Seq<bool>, n: int)
    requires
        history_run(hs, labels),
        hs[0].len() >= 1,
        1 <= n <= labels.len(),
        labels[0],
    ensures
        hs[n].len() == hs[0].len(),
        count_ages(labels.take(n)) >= 1,
        count_ages(labels.take(n)) < hs[0].len() ==> hs[n][count_ages(labels.take(n)) as int] == hs[0][0],
    decreases n,
{
    let i = n - 1;
    assert(history_step(hs[i], hs[i + 1], labels[i]));
    assert(hs[i + 1] == hs[n]);
    assert(labels.take(n).drop_last() =~= labels.take(n - 1));
    if n == 1 {
        assert(labels.take(0) =~= Seq::<bool>::empty());
    } else {
        lemma_run_prefix(hs, labels, n - 1);
    }
}

/// What is written to a planet's team array reaches the other planet after
/// the communication delay, whatever is written in between: from the round
/// end that follows the write on, the array that was newest moves one place
/// older with each round that ends, and writes change only the newest
/// array. So once as many rounds have ended as the history holds older
/// arrays, the oldest array, which the other planet reads, is that array.
pub proof fn lemma_write_arrives(hs: Seq<Seq<Seq<i32>>>, labels: Seq<bool>)
    requires
        history_run(hs, labels),
        hs[0].len() >= 1,
        labels.len() >= 1,
        labels[0],
    ensures
        hs.last().len() == hs[0].len(),
        count_ages(labels) < hs[0].len() ==> hs.last()[count_ages(labels) as int] == hs[0][0],
        count_ages(labels) == hs[0].len() - 1 ==> hs.last().last() == hs[0][0],
{
    lemma_run_prefix(hs, labels, labels.len() as int);
    assert(labels.take(labels.len() as int) =~= labels);
}

impl TeamArrayInfo {
    /// The arrays kept for a planet, newest first.
    pub closed spec fn history_of(&self, planet: Planet) -> Seq<Seq<i32>> {
        arrays_view(self.history@[planet]@)
    }

    /// Every planet has at least one array, and every array has the
    /// communication length.
    pub closed spec fn wf(&self) -> bool {
        &&& self.history@.contains_key(Planet::Earth)
        &&& self.history@.contains_key(Planet::Mars)
        &&& self.history@[Planet::Earth]@.len() >= 1
        &&& self.history@[Planet::Mars]@.len() >= 1
        &&& all_full(arrays_view(self.history@[Planet::Earth]@))
        &&& all_full(arrays_view(self.history@[Planet::Mars]@))
    }

    /// Every planet's history holds at least one array, and every array has
    /// the communication length.
    pub proof fn lemma_histories(&self)
        requires
            self.wf(),
        ensures
            self.history_of(Planet::Earth).len() >= 1,
            self.history_of(Planet::Mars).len() >= 1,
            all_full(self.history_of(Planet::Earth)),
            all_full(self.history_of(Planet::Mars)),
    {
    }

    /// Constructs a new team array info.
    pub fn new() -> (r: TeamArrayInfo)
        ensures
            r.wf(),
            r.history_of(Planet::Earth) == initial_history(),
            r.history_of(Planet::Mars) == initial_history(),
    {
        // The length of the history is COMMUNICATION_DELAY + 1 for each array
        // from 1 to COMMUNICATION_DELAY rounds ago, and the current round.
        let mut history = fnv_new();
        planet_map_insert(&mut history, Planet::Earth, initial_arrays());
        planet_map_insert(&mut history, Planet::Mars, initial_arrays());
        let r = TeamArrayInfo { history: history };
        proof {
            assert(r.history@[Planet::Earth]@.len() == arrays_view(r.history@[Planet::Earth]@).len());
            assert(r.history@[Planet::Mars]@.len() == arrays_view(r.history@[Planet::Mars]@).len());
        }
        r
    }

    fn get_arrays(&self, planet: Planet) -> (r: &Vec<TeamArray>)
        requires
            self.wf(),
        ensures
            *r == self.history@[planet],
    {
        planet_map_get(&self.history, planet).unwrap()
    }

    /// Filters the team array history such that the new history does not store
    /// any intermediate arrays, and only the arrays that can be accessed on
    /// this planet.
    pub fn filter(&self, planet: Planet) -> (r: TeamArrayInfo)
        requires
            self.wf(),
            self.history_of(planet.other()).len() > COMMUNICATION_DELAY,
        ensures
            r.wf(),
            r.history_of(planet) == seq![self.history_of(planet)[0]],
            r.history_of(planet.other()) == seq![
                self.history_of(planet.other())[COMMUNICATION_DELAY as int],
            ],
    {
        let this_array = clone_array(&self.get_arrays(planet)[0]);
        let that_array = clone_array(&self.get_arrays(planet.other())[COMMUNICATION_DELAY]);
        let mut history = fnv_new();
        planet_map_insert(&mut history, planet, vec![this_array]);
        planet_map_insert(&mut history, planet.other(), vec![that_array]);
        let r = TeamArrayInfo { history: history };
        proof {
            assert(r.history_of(planet) =~= seq![self.history_of(planet)[0]]);
            assert(r.history_of(planet.other()) =~= seq![
                self.history_of(planet.other())[COMMUNICATION_DELAY as int],
            ]);
            assert(planet == Planet::Earth || planet.other() == Planet::Earth);
        }
        r
    }

    /// The number of versions of this planet's team array that are kept.
    pub fn history_len(&self, planet: Planet) -> (r: usize)
        requires
            self.wf(),
        ensures
            r == self.history_of(planet).len(),
    {
        self.get_arrays(planet).len()
    }

    /// Get the most recent version of this planet's team array.
    pub fn first_array(&self, planet: Planet) -> (r: &TeamArray)
        requires
            self.wf(),
        ensures
            r@ == self.history_of(planet)[0],
    {
        &self.get_arrays(planet)[0]
    }

    /// Get the oldest version of this planet's team array.
    pub fn last_array(&self, planet: Planet) -> (r: &TeamArray)
        requires
            self.wf(),
        ensures
            r@ == self.history_of(planet).last(),
    {
        let arrays = self.get_arrays(planet);
        &arrays[arrays.len() - 1]
    }

    /// Writes the value at the index of this planet's team array.
    ///
    /// * ArrayOutOfBounds - the index is not below the array's length.
    pub fn write(&mut self, planet: Planet, index: usize, value: i32) -> (r: Result<(), GameError>)
        requires
            old(self).wf(),
        ensures
            final(self).wf(),
            index < old(self).history_of(planet)[0].len() ==> r == Ok::<(), GameError>(()) && final(self).history_of(planet) == old(self).history_of(planet).update(
                0,
                old(self).history_of(planet)[0].update(index as int, value),
            ),
            index >= old(self).history_of(planet)[0].len() ==> r == Err::<(), GameError>(
                GameError::ArrayOutOfBounds,
            ) && final(self).history_of(planet) == old(self).history_of(planet),
            final(self).history_of(planet.other()) == old(self).history_of(planet.other()),
            r is Ok <==> index < COMMUNICATION_ARRAY_LENGTH,
    {
        let mut arrays = planet_map_remove(&mut self.history, planet).unwrap();
        let mut first = arrays.remove(0);
        let result = if index < first.len() {
            first.set(index, value);
            Ok(())
        } else {
            Err(GameError::ArrayOutOfBounds)
        };
        let ghost a0 = arrays@;
        arrays.insert(0, first);
        planet_map_insert(&mut self.history, planet, arrays);
        proof {
            assert(planet == Planet::Earth || planet.other() == Planet::Earth);
            if index < old(self).history_of(planet)[0].len() {
                assert(self.history_of(planet) =~= old(self).history_of(planet).update(
                    0,
                    old(self).history_of(planet)[0].update(index as int, value),
                ));
            } else {
                assert(self.history_of(planet) =~= old(self).history_of(planet));
            }
        }
        result
    }

    fn end_round_for(&mut self, planet: Planet)
        requires
            old(self).wf(),
        ensures
            final(self).wf(),
            final(self).history_of(planet) == seq![old(self).history_of(planet)[0]]
                + old(self).history_of(planet).drop_last(),
            final(self).history_of(planet.other()) == old(self).history_of(planet.other()),
    {
        let mut arrays = planet_map_remove(&mut self.history, planet).unwrap();
        let array = clone_array(&arrays[0]);
        let ghost h0 = arrays@;
        arrays.pop();
        arrays.insert(0, array);
        planet_map_insert(&mut self.history, planet, arrays);
        proof {
            assert(planet == Planet::Earth || planet.other() == Planet::Earth);
            assert(self.history_of(planet) =~= seq![old(self).history_of(planet)[0]]
                + old(self).history_of(planet).drop_last());
        }
    }

    /// Ends the round by discarding the oldest version of each planet's team
    /// array in favor of another version that is a round more recent.
    pub fn end_round(&mut self)
        requires
            old(self).wf(),
        ensures
            final(self).wf(),
            final(self).history_of(Planet::Earth) == seq![old(self).history_of(Planet::Earth)[0]]
                + old(self).history_of(Planet::Earth).drop_last(),
            final(self).history_of(Planet::Mars) == seq![old(self).history_of(Planet::Mars)[0]]
                + old(self).history_of(Planet::Mars).drop_last(),
            final(self).history_of(Planet::Earth) == history_aged(old(self).history_of(Planet::Earth)),
            final(self).history_of(Planet::Mars) == history_aged(old(self).history_of(Planet::Mars)),
    {
        self.end_round_for(Planet::Earth);
        self.end_round_for(Planet::Mars);
    }
}

fn clone_arrays(a: &Vec<TeamArray>) -> (r: Vec<TeamArray>)
    ensures
        arrays_view(r@) == arrays_view(a@),
{
    let mut v: Vec<TeamArray> = Vec::new();
    let mut i: usize = 0;
    while i < a.len()
        invariant
            0 <= i <= a.len(),
            v@.len() == i,
            forall|j: int| 0 <= j < i ==> (#[trigger] v@[j])@ == a@[j]@,
        decreases a.len() - i,
    {
        v.push(clone_array(&a[i]));
        i = i + 1;
    }
    assert(arrays_view(v@) =~= arrays_view(a@));
    v
}

impl Clone for TeamArrayInfo {
    fn clone(&self) -> (r: Self)
        ensures
            self.wf() ==> r.wf(),
            self.wf() ==> forall|p: Planet| #[trigger] r.history_of(p) == self.history_of(p),
    {
        let mut history = fnv_new();
        if let Some(a) = planet_map_get(&self.history, Planet::Earth) {
            planet_map_insert(&mut history, Planet::Earth, clone_arrays(a));
        }
        if let Some(a) = planet_map_get(&self.history, Planet::Mars) {
            planet_map_insert(&mut history, Planet::Mars, clone_arrays(a));
        }
        let r = TeamArrayInfo { history: history };
        proof {
            if self.wf() {
                assert forall|p: Planet| #[trigger] r.history_of(p) == self.history_of(p) by {
                    assert(p == Planet::Earth || p == Planet::Mars);
                }
                assert(self.history@[Planet::Earth]@.len() == arrays_view(self.history@[Planet::Earth]@).len());
                assert(self.history@[Planet::Mars]@.len() == arrays_view(self.history@[Planet::Mars]@).len());
                assert(r.history@[Planet::Earth]@.len() == arrays_view(r.history@[Planet::Earth]@).len());
                assert(r.history@[Planet::Mars]@.len() == arrays_view(r.history@[Planet::Mars]@).len());
            }
        }
        r
    }
}

} // verus!

//! The Fowler–Noll–Vo hash maps that the engine keeps its tables in.
//!
//! `FnvHashMap<K, V>` is the standard `HashMap` with the `fnv` crate's
//! hasher. Its contents are modelled by the standard map's view, `m@`. The
//! hasher only changes how keys are spread over buckets, never which key
//! maps to which value, so each operation below states what the standard
//! library documents for `HashMap` with a key type whose `Eq` and `Hash`
//! agree (all the key types here derive both).
use vstd::prelude::*;
use fnv::{FnvHashMap, FnvHasher};
use std::hash::BuildHasherDefault;
use crate::location::{MapLocation, Planet};
use crate::unit::UnitID;
use crate::world::Team;
use crate::unit::UnitType;

verus! {

/// The `fnv` crate's hasher, carried as an opaque value.
#[verifier::external_type_specification]
#[verifier::external_body]
pub struct ExFnvHasher(FnvHasher);

/// The standard builder of default-constructed hashers, carried as an
/// opaque value.
#[verifier::external_type_specification]
#[verifier::external_body]
#[verifier::reject_recursive_types(H)]
pub struct ExBuildHasherDefault<H>(BuildHasherDefault<H>);

/// `HashMap::default` on an FNV map: the map is empty.
#[verifier::external_body]
pub fn fnv_new<K, V>() -> (r: FnvHashMap<K, V>)
    ensures
        r@.dom().is_empty(),
{
    FnvHashMap::default()
}

/// `HashMap::get` on a map keyed by unit type: the value stored under the
/// key, if any.
#[verifier::external_body]
pub fn type_map_get<V>(m: &FnvHashMap<UnitType, V>, k: UnitType) -> (r: Option<&V>)
    ensures
        m@.contains_key(k) ==> r == Some(&m@[k]),
        !m@.contains_key(k) ==> r is None,
{
    m.get(&k)
}

/// `HashMap::insert` on a map keyed by unit type: afterwards the key maps to
/// the value and every other key is unchanged.
#[verifier::external_body]
pub fn type_map_insert<V>(m: &mut FnvHashMap<UnitType, V>, k: UnitType, v: V)
    ensures
        final(m)@ == old(m)@.insert(k, v),
{
    m.insert(k, v);
}

/// `HashMap::clone` on a map keyed by unit type with copyable values: the
/// copy holds the same entries.
#[verifier::external_body]
pub fn type_map_clone<V: Copy>(m: &FnvHashMap<UnitType, V>) -> (r: FnvHashMap<UnitType, V>)
    ensures
        r@ == m@,
{
    m.clone()
}


/// `HashMap::get` on a map keyed by `u32`: the value stored under the key,
/// if any.
#[verifier::external_body]
pub fn u32_map_get<V>(m: &FnvHashMap<u32, V>, k: u32) -> (r: Option<&V>)
    ensures
        m@.contains_key(k) ==> r == Some(&m@[k]),
        !m@.contains_key(k) ==> r is None,
{
    m.get(&k)
}

/// `HashMap::insert` on a map keyed by `u32`: afterwards the key maps to the
/// value and every other key is unchanged.
#[verifier::external_body]
pub fn u32_map_insert<V>(m: &mut FnvHashMap<u32, V>, k: u32, v: V)
    ensures
        final(m)@ == old(m)@.insert(k, v),
{
    m.insert(k, v);
}

/// `HashMap::remove` on a map keyed by `u32`: the key is gone afterwards,
/// and its value, if it had one, is returned.
#[verifier::external_body]
pub fn u32_map_remove<V>(m: &mut FnvHashMap<u32, V>, k: u32) -> (r: Option<V>)
    ensures
        final(m)@ == old(m)@.remove(k),
        old(m)@.contains_key(k) ==> r == Some(old(m)@[k]),
        !old(m)@.contains_key(k) ==> r is None,
{
    m.remove(&k)
}

/// `HashMap::clone` on a map keyed by `u32` with copyable values: the copy
/// holds the same entries.
#[verifier::external_body]
pub fn u32_map_clone<V: Copy>(m: &FnvHashMap<u32, V>) -> (r: FnvHashMap<u32, V>)
    ensures
        r@ == m@,
{
    m.clone()
}

/// `HashMap::keys` on a map keyed by `u32`, collected: every key exactly
/// once, in the map's own (unspecified) order.
#[verifier::external_body]
pub fn u32_map_keys<V>(m: &FnvHashMap<u32, V>) -> (r: Vec<u32>)
    ensures
        r@.no_duplicates(),
        forall|k: u32| #[trigger] r@.contains(k) <==> m@.contains_key(k),
{
    m.keys().cloned().collect()
}


/// `HashMap::get` on a map keyed by planet: the value stored under the key,
/// if any.
#[verifier::external_body]
pub fn planet_map_get<V>(m: &FnvHashMap<Planet, V>, k: Planet) -> (r: Option<&V>)
    ensures
        m@.contains_key(k) ==> r == Some(&m@[k]),
        !m@.contains_key(k) ==> r is None,
{
    m.get(&k)
}

/// `HashMap::insert` on a map keyed by planet: afterwards the key maps to the
/// value and every other key is unchanged.
#[verifier::external_body]
pub fn planet_map_insert<V>(m: &mut FnvHashMap<Planet, V>, k: Planet, v: V)
    ensures
        final(m)@ == old(m)@.insert(k, v),
{
    m.insert(k, v);
}

/// `HashMap::remove` on a map keyed by planet: the key is gone afterwards,
/// and its value, if it had one, is returned.
#[verifier::external_body]
pub fn planet_map_remove<V>(m: &mut FnvHashMap<Planet, V>, k: Planet) -> (r: Option<V>)
    ensures
        final(m)@ == old(m)@.remove(k),
        old(m)@.contains_key(k) ==> r == Some(old(m)@[k]),
        !old(m)@.contains_key(k) ==> r is None,
{
    m.remove(&k)
}

/// `HashMap::get` on a map keyed by a pair of indices: the value stored
/// under the key, if any.
#[verifier::external_body]
pub fn pair_map_get<V>(m: &FnvHashMap<(usize, usize), V>, k: (usize, usize)) -> (r: Option<&V>)
    ensures
        m@.contains_key(k) ==> r == Some(&m@[k]),
        !m@.contains_key(k) ==> r is None,
{
    m.get(&k)
}

/// `HashMap::insert` on a map keyed by a pair of indices: afterwards the key
/// maps to the value and every other key is unchanged.
#[verifier::external_body]
pub fn pair_map_insert<V>(m: &mut FnvHashMap<(usize, usize), V>, k: (usize, usize), v: V)
    ensures
        final(m)@ == old(m)@.insert(k, v),
{
    m.insert(k, v);
}

/// `HashMap::keys` on a map keyed by a pair of indices, collected: every key
/// exactly once, in the map's own (unspecified) order.
#[verifier::external_body]
pub fn pair_map_keys<V>(m: &FnvHashMap<(usize, usize), V>) -> (r: Vec<(usize, usize)>)
    ensures
        r@.no_duplicates(),
        forall|k: (usize, usize)| #[trigger] r@.contains(k) <==> m@.contains_key(k),
{
    m.keys().cloned().collect()
}

/// `HashMap::get` on a map keyed by character: the value stored under the
/// key, if any.
#[verifier::external_body]
pub fn char_map_get<V>(m: &FnvHashMap<char, V>, k: char) -> (r: Option<&V>)
    ensures
        m@.contains_key(k) ==> r == Some(&m@[k]),
        !m@.contains_key(k) ==> r is None,
{
    m.get(&k)
}

/// `HashMap::insert` on a map keyed by character: afterwards the key maps to
/// the value and every other key is unchanged.
#[verifier::external_body]
pub fn char_map_insert<V>(m: &mut FnvHashMap<char, V>, k: char, v: V)
    ensures
        final(m)@ == old(m)@.insert(k, v),
{
    m.insert(k, v);
}

/// `HashMap::get` on a map keyed by unit ID: the value stored under the key,
/// if any.
#[verifier::external_body]
pub fn id_map_get<V>(m: &FnvHashMap<UnitID, V>, k: UnitID) -> (r: Option<&V>)
    ensures
        m@.contains_key(k) ==> r == Some(&m@[k]),
        !m@.contains_key(k) ==> r is None,
{
    m.get(&k)
}

/// `HashMap::insert` on a map keyed by unit ID: afterwards the key maps to the
/// value and every other key is unchanged.
#[verifier::external_body]
pub fn id_map_insert<V>(m: &mut FnvHashMap<UnitID, V>, k: UnitID, v: V)
    ensures
        final(m)@ == old(m)@.insert(k, v),
{
    m.insert(k, v);
}

/// `HashMap::remove` on a map keyed by unit ID: the key is gone afterwards,
/// and its value, if it had one, is returned.
#[verifier::external_body]
pub fn id_map_remove<V>(m: &mut FnvHashMap<UnitID, V>, k: UnitID) -> (r: Option<V>)
    ensures
        final(m)@ == old(m)@.remove(k),
        old(m)@.contains_key(k) ==> r == Some(old(m)@[k]),
        !old(m)@.contains_key(k) ==> r is None,
{
    m.remove(&k)
}

/// `HashMap::keys` on a map keyed by unit ID, collected: every key exactly
/// once, in the map's own (unspecified) order.
#[verifier::external_body]
pub fn id_map_keys<V>(m: &FnvHashMap<UnitID, V>) -> (r: Vec<UnitID>)
    ensures
        r@.no_duplicates(),
        forall|k: UnitID| #[trigger] r@.contains(k) <==> m@.contains_key(k),
{
    m.keys().cloned().collect()
}

/// `HashMap::get` on a map keyed by map location: the value stored under the key,
/// if any.
#[verifier::external_body]
pub fn loc_map_get<V>(m: &FnvHashMap<MapLocation, V>, k: MapLocation) -> (r: Option<&V>)
    ensures
        m@.contains_key(k) ==> r == Some(&m@[k]),
        !m@.contains_key(k) ==> r is None,
{
    m.get(&k)
}

/// `HashMap::insert` on a map keyed by map location: afterwards the key maps to the
/// value and every other key is unchanged.
#[verifier::external_body]
pub fn loc_map_insert<V>(m: &mut FnvHashMap<MapLocation, V>, k: MapLocation, v: V)
    ensures
        final(m)@ == old(m)@.insert(k, v),
{
    m.insert(k, v);
}

/// `HashMap::remove` on a map keyed by map location: the key is gone afterwards,
/// and its value, if it had one, is returned.
#[verifier::external_body]
pub fn loc_map_remove<V>(m: &mut FnvHashMap<MapLocation, V>, k: MapLocation) -> (r: Option<V>)
    ensures
        final(m)@ == old(m)@.remove(k),
        old(m)@.contains_key(k) ==> r == Some(old(m)@[k]),
        !old(m)@.contains_key(k) ==> r is None,
{
    m.remove(&k)
}

/// `HashMap::keys` on a map keyed by map location, collected: every key
/// exactly once, in the map's own (unspecified) order.
#[verifier::external_body]
pub fn loc_map_keys<V>(m: &FnvHashMap<MapLocation, V>) -> (r: Vec<MapLocation>)
    ensures
        r@.no_duplicates(),
        forall|k: MapLocation| #[trigger] r@.contains(k) <==> m@.contains_key(k),
{
    m.keys().cloned().collect()
}

/// `HashMap::get` on a map keyed by team: the value stored under the key,
/// if any.
#[verifier::external_body]
pub fn team_map_get<V>(m: &FnvHashMap<Team, V>, k: Team) -> (r: Option<&V>)
    ensures
        m@.contains_key(k) ==> r == Some(&m@[k]),
        !m@.contains_key(k) ==> r is None,
{
    m.get(&k)
}

/// `HashMap::insert` on a map keyed by team: afterwards the key maps to the
/// value and every other key is unchanged.
#[verifier::external_body]
pub fn team_map_insert<V>(m: &mut FnvHashMap<Team, V>, k: Team, v: V)
    ensures
        final(m)@ == old(m)@.insert(k, v),
{
    m.insert(k, v);
}

/// `HashMap::remove` on a map keyed by team: the key is gone afterwards,
/// and its value, if it had one, is returned.
#[verifier::external_body]
pub fn team_map_remove<V>(m: &mut FnvHashMap<Team, V>, k: Team) -> (r: Option<V>)
    ensures
        final(m)@ == old(m)@.remove(k),
        old(m)@.contains_key(k) ==> r == Some(old(m)@[k]),
        !old(m)@.contains_key(k) ==> r is None,
{
    m.remove(&k)
}

} // verus!

//! The calls into `std`'s hash map where it hashes with FNV.
//!
//! `vstd` describes `HashMap` for every hasher, but what it says of a lookup
//! or an update is conditional on the hasher being deterministic, which it
//! grants to `std`'s own `RandomState` only. The functions here make those
//! calls on an [`FnvHashMap`] and state the same contracts without that
//! condition: an `FnvHasher` always starts from the same offset basis and
//! folds the bytes it is given into its state and nothing else, so two of
//! them fed the same bytes agree.

use fnv::FnvHashMap;
use fnv::FnvHasher;
use std::hash::BuildHasherDefault;
use std::hash::Hash;
use vstd::prelude::*;
use vstd::std_specs::hash::obeys_key_model;

verus! {

/// `fnv::FnvHasher`, opaque to the verifier.
#[verifier::external_type_specification]
#[verifier::external_body]
pub struct ExFnvHasher(FnvHasher);

/// `std::hash::BuildHasherDefault`, opaque to the verifier.
#[verifier::external_type_specification]
#[verifier::external_body]
#[verifier::reject_recursive_types(H)]
pub struct ExBuildHasherDefault<H>(BuildHasherDefault<H>);

/// Calls `HashMap::insert`: afterwards the map holds `value` under `key` and
/// is otherwise as before; what was under `key` is handed back.
#[verifier::external_body]
pub(crate) fn insert<K: Eq + Hash, V>(map: &mut FnvHashMap<K, V>, key: K, value: V) -> (r: Option<V>)
    ensures
        obeys_key_model::<K>() ==> final(map)@ == old(map)@.insert(key, value),
        obeys_key_model::<K>() ==> match r {
            Some(v) => old(map)@.contains_key(key) && v == old(map)@[key],
            None => !old(map)@.contains_key(key),
        },
{
    map.insert(key, value)
}

/// Calls `HashMap::remove`: afterwards the map holds nothing under `key` and
/// is otherwise as before; what was under `key` is handed back.
#[verifier::external_body]
pub(crate) fn remove<K: Eq + Hash, V>(map: &mut FnvHashMap<K, V>, key: &K) -> (r: Option<V>)
    ensures
        obeys_key_model::<K>() ==> final(map)@ == old(map)@.remove(*key),
        obeys_key_model::<K>() ==> match r {
            Some(v) => old(map)@.contains_key(*key) && v == old(map)@[*key],
            None => !old(map)@.contains_key(*key),
        },
{
    map.remove(key)
}

/// Calls `HashMap::get`: a reference to what the map holds under `key`, if
/// anything.
#[verifier::external_body]
pub(crate) fn get<'a, K: Eq + Hash, V>(map: &'a FnvHashMap<K, V>, key: &K) -> (r: Option<&'a V>)
    ensures
        obeys_key_model::<K>() ==> match r {
            Some(v) => map@.contains_key(*key) && *v == map@[*key],
            None => !map@.contains_key(*key),
        },
{
    map.get(key)
}

/// Calls `HashMap::len`: the number of keys the map holds.
#[verifier::external_body]
pub(crate) fn len<K: Eq + Hash, V>(map: &FnvHashMap<K, V>) -> (r: usize)
    ensures
        obeys_key_model::<K>() ==> r == map@.len(),
{
    map.len()
}

} // verus!

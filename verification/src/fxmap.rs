//! Thin trusted wrappers around the definition tables' hash maps, which use
//! fxhash's deterministic hasher. Each wrapper states what std documents of
//! the corresponding `HashMap` method, over the map's mathematical view.

use fxhash::FxHashMap;
use vstd::prelude::*;

verus! {

/// The hasher-builder type of fxhash's deterministic hasher, declared so
/// maps built with it can appear in verified signatures.
#[verifier::external_type_specification]
#[verifier::external_body]
#[verifier::reject_recursive_types(H)]
pub struct ExBuildHasherDefault<H>(std::hash::BuildHasherDefault<H>);

/// fxhash's deterministic hasher.
#[verifier::external_type_specification]
#[verifier::external_body]
pub struct ExFxHasher(fxhash::FxHasher);

/// The empty table.
pub open spec fn fx_empty<V>() -> Map<u64, V> {
    Map::empty()
}

/// Relies on HashMap::default (via fxhash's FxHashMap alias): a fresh map is
/// empty.
#[verifier::external_body]
pub fn fx_new<V>() -> (m: FxHashMap<u64, V>)
    ensures
        m@ == fx_empty::<V>(),
{
    FxHashMap::default()
}

/// Relies on HashMap::insert: maps the key to the value, returning the
/// previously stored value if one existed.
#[verifier::external_body]
pub fn fx_insert<V>(m: &mut FxHashMap<u64, V>, k: u64, v: V) -> (r: Option<V>)
    ensures
        final(m)@ == old(m)@.insert(k, v),
        match r {
            Some(prev) => old(m)@.contains_key(k) && prev == old(m)@[k],
            None => !old(m)@.contains_key(k),
        },
{
    m.insert(k, v)
}

/// Relies on HashMap::remove: takes the value stored under the key out of
/// the map.
#[verifier::external_body]
pub fn fx_remove<V>(m: &mut FxHashMap<u64, V>, k: u64) -> (r: Option<V>)
    ensures
        final(m)@ == old(m)@.remove(k),
        match r {
            Some(prev) => old(m)@.contains_key(k) && prev == old(m)@[k],
            None => !old(m)@.contains_key(k),
        },
{
    m.remove(&k)
}

/// Relies on HashMap::contains_key.
#[verifier::external_body]
pub fn fx_contains<V>(m: &FxHashMap<u64, V>, k: u64) -> (r: bool)
    ensures
        r == m@.contains_key(k),
{
    m.contains_key(&k)
}

/// Relies on HashMap::get: a shared borrow of the value stored under the key.
#[verifier::external_body]
pub fn fx_get<'a, V>(m: &'a FxHashMap<u64, V>, k: u64) -> (r: Option<&'a V>)
    ensures
        match r {
            Some(v) => m@.contains_key(k) && *v == m@[k],
            None => !m@.contains_key(k),
        },
{
    m.get(&k)
}

/// Relies on HashMap::get_mut: an exclusive borrow of the value stored under
/// a key known to be present.
#[verifier::external_body]
pub fn fx_get_mut<'a, V>(m: &'a mut FxHashMap<u64, V>, k: u64) -> (r: &'a mut V)
    requires
        old(m)@.contains_key(k),
    ensures
        *r == old(m)@[k],
        final(m)@ == old(m)@.insert(k, *final(r)),
{
    m.get_mut(&k).unwrap()
}

} // verus!

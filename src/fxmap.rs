//! The keyed stores of a container: `FxHashMap`s keyed by child identifier.
//!
//! fxhash's hasher is deterministic, so a map behaves as the mathematical map
//! of its entries; the three operations the containers use are stated here.
use fxhash::FxHashMap;
use vstd::prelude::*;

verus! {

/// fxhash's hasher, carried as an opaque part of the map's type.
#[verifier::external_type_specification]
#[verifier::external_body]
pub struct ExFxHasher(fxhash::FxHasher);

/// std's hasher builder that fxhash's maps are parameterised with, carried
/// as an opaque part of the map's type.
#[verifier::external_type_specification]
#[verifier::external_body]
#[verifier::reject_recursive_types(H)]
pub struct ExBuildHasherDefault<H>(std::hash::BuildHasherDefault<H>);

/// Relies on `HashMap::get` (fxhash's `FxHashMap`): it returns the value stored
/// under the key, or `None` when there is none.
#[verifier::external_body]
pub(crate) fn map_get<V>(m: &FxHashMap<isize, V>, k: isize) -> (r: Option<&V>)
    ensures
        match r {
            Some(v) => m@.contains_key(k) && *v == m@[k],
            None => !m@.contains_key(k),
        },
{
    m.get(&k)
}

/// Relies on `HashMap::insert` (fxhash's `FxHashMap`): afterwards the key maps
/// to the new value and every other entry is kept.
#[verifier::external_body]
pub(crate) fn map_insert<V>(m: &mut FxHashMap<isize, V>, k: isize, v: V)
    ensures
        final(m)@ == old(m)@.insert(k, v),
{
    m.insert(k, v);
}

/// Relies on `HashMap::remove` (fxhash's `FxHashMap`): afterwards the key is
/// gone, every other entry is kept, and the removed value is returned.
#[verifier::external_body]
pub(crate) fn map_remove<V>(m: &mut FxHashMap<isize, V>, k: isize) -> (r: Option<V>)
    ensures
        final(m)@ == old(m)@.remove(k),
        match r {
            Some(v) => old(m)@.contains_key(k) && v == old(m)@[k],
            None => !old(m)@.contains_key(k),
        },
{
    m.remove(&k)
}

} // verus!

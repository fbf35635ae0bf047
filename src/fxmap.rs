use std::hash::Hash;
use vstd::prelude::*;
use vstd::std_specs::hash::obeys_key_model;

use rustc_hash::FxBuildHasher;
use rustc_hash::FxHashMap;

verus! {

/// rustc_hash's hasher builder, carried opaquely as the hasher of the
/// worker's maps.
#[verifier::external_type_specification]
#[verifier::external_body]
pub struct ExFxBuildHasher(FxBuildHasher);

/// Relies on `HashMap::get` under rustc_hash's `FxBuildHasher`, a
/// deterministic hasher: the value stored under the key, if any.
#[verifier::external_body]
pub(crate) fn fx_get<K: Eq + Hash, V: Copy>(m: &FxHashMap<K, V>, k: &K) -> (r: Option<V>)
    requires
        obeys_key_model::<K>(),
    ensures
        match r {
            Some(v) => m@.contains_key(*k) && v == m@[*k],
            None => !m@.contains_key(*k),
        },
{
    m.get(k).copied()
}

/// Relies on `HashMap::insert` under rustc_hash's `FxBuildHasher`, a
/// deterministic hasher: the key now maps to the value.
#[verifier::external_body]
pub(crate) fn fx_insert<K: Eq + Hash, V>(m: &mut FxHashMap<K, V>, k: K, v: V)
    requires
        obeys_key_model::<K>(),
    ensures
        final(m)@ == old(m)@.insert(k, v),
{
    m.insert(k, v);
}

} // verus!

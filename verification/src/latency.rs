//! The pool's latency cache: a concurrent map from credential index to the
//! most recent latency sample in milliseconds, held in a `dashmap::DashMap`.
//!
//! The map itself is outside code; its contents are named by
//! [`latency_entries`], and the few operations the pool needs are trusted
//! wrappers whose contracts state what dashmap's source shows.

use vstd::prelude::*;

verus! {

#[verifier::external_type_specification]
#[verifier::external_body]
#[verifier::reject_recursive_types(K)]
#[verifier::reject_recursive_types(V)]
#[verifier::reject_recursive_types(S)]
pub struct ExDashMap<K, V, S>(dashmap::DashMap<K, V, S>);

/// The concrete cache type: credential index to latency in milliseconds.
pub type LatencyMap = dashmap::DashMap<usize, u64>;

/// The entries a latency cache currently holds.
pub uninterp spec fn latency_entries(m: LatencyMap) -> Map<usize, u64>;

/// Relies on dashmap::DashMap::new. Nothing is stated here; a fresh map is
/// brought to a known state with [`cache_clear`] before use.
#[verifier::external_body]
pub(crate) fn cache_new() -> dashmap::DashMap<usize, u64> {
    dashmap::DashMap::new()
}

/// Relies on dashmap::DashMap::clear: removes every entry from the map.
#[verifier::external_body]
pub(crate) fn cache_clear(m: &mut LatencyMap)
    ensures
        forall|k: usize| !latency_entries(*final(m)).contains_key(k),
{
    m.clear();
}

/// Relies on dashmap::DashMap::insert: maps the key to the new value and
/// leaves every other key as it was.
#[verifier::external_body]
pub(crate) fn cache_insert(m: &mut LatencyMap, key: usize, value: u64)
    ensures
        latency_entries(*final(m)) == latency_entries(*old(m)).insert(key, value),
{
    m.insert(key, value);
}

/// Relies on dashmap::DashMap::get: returns the value the key maps to, or
/// nothing when the key is absent.
#[verifier::external_body]
pub(crate) fn cache_get(m: &LatencyMap, key: usize) -> (r: Option<u64>)
    ensures
        r == if latency_entries(*m).contains_key(key) {
            Some(latency_entries(*m)[key])
        } else {
            None::<u64>
        },
{
    m.get(&key).map(|entry| *entry.value())
}

} // verus!

//! Trusted interface to the sharded concurrent map that backs the metric
//! registry. The map itself comes from the `dashmap` crate; the library sees
//! it only through the contracts below, stated over `shared_map_view`.

use vstd::prelude::*;

verus! {

use std::collections::VecDeque;

/// The concrete map type the registry shares between its writer and readers.
pub type SampleMap = dashmap::DashMap<String, VecDeque<(u64, u64)>>;

#[verifier::external_type_specification]
#[verifier::external_body]
#[verifier::reject_recursive_types(K)]
#[verifier::reject_recursive_types(V)]
#[verifier::reject_recursive_types(S)]
pub struct ExDashMap<K, V, S>(dashmap::DashMap<K, V, S>);

/// The entries a shared sample map holds: each key's characters mapped to
/// that key's sample window.
pub uninterp spec fn shared_map_view(m: SampleMap) -> Map<Seq<char>, Seq<(u64, u64)>>;

/// Relies on dashmap::DashMap::new: a freshly created map holds no entries.
#[verifier::external_body]
pub(crate) fn shared_map_new() -> (r: SampleMap)
    ensures
        shared_map_view(r).dom() == Set::<Seq<char>>::empty(),
{
    dashmap::DashMap::new()
}

/// Relies on dashmap::DashMap::get: returns a copy of the value stored under
/// the key, or nothing when the key is absent.
#[verifier::external_body]
pub(crate) fn shared_map_get(m: &SampleMap, key: &str) -> (r: Option<VecDeque<(u64, u64)>>)
    ensures
        match r {
            Some(w) => shared_map_view(*m).dom().contains(key@) && w@ == shared_map_view(*m)[key@],
            None => !shared_map_view(*m).dom().contains(key@),
        },
{
    m.get(key).map(|entry| entry.value().clone())
}

/// Relies on dashmap::DashMap::insert: stores the value under the key,
/// replacing whatever was there before.
#[verifier::external_body]
pub(crate) fn shared_map_put(m: &mut SampleMap, key: &str, w: VecDeque<(u64, u64)>)
    ensures
        shared_map_view(*final(m)) == shared_map_view(*old(m)).insert(key@, w@),
{
    m.insert(key.to_owned(), w);
}

/// Relies on dashmap::DashMap::remove: deletes the entry stored under the
/// key, if there is one.
#[verifier::external_body]
pub(crate) fn shared_map_remove(m: &mut SampleMap, key: &str)
    ensures
        shared_map_view(*final(m)) == shared_map_view(*old(m)).remove(key@),
{
    m.remove(key);
}

/// Relies on dashmap::DashMap::iter: visits every entry exactly once, in no
/// particular order.
#[verifier::external_body]
pub(crate) fn shared_map_keys(m: &SampleMap) -> (r: Vec<String>)
    ensures
        r@.map_values(|s: String| s@).to_set() == shared_map_view(*m).dom(),
        r@.map_values(|s: String| s@).no_duplicates(),
{
    m.iter().map(|entry| entry.key().clone()).collect()
}

} // verus!

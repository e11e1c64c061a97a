//! The catalog's storage: a concurrent hash map of the `dashmap` crate, from a
//! node's address to the node. What the map holds is named `table_contents`;
//! each method that the catalog calls has a wrapper that states its effect on
//! the contents.
use vstd::prelude::*;
use dashmap::DashMap;
use crate::manager::Node;
use crate::net::NetAddress;

verus! {

#[verifier::external_type_specification]
#[verifier::external_body]
#[verifier::reject_recursive_types(K)]
#[verifier::reject_recursive_types(V)]
#[verifier::reject_recursive_types(S)]
pub struct ExDashMap<K, V, S>(DashMap<K, V, S>);

/// The entries that a map holds.
pub uninterp spec fn table_contents(m: DashMap<NetAddress, Node>) -> Map<NetAddress, Node>;

/// Relies on `DashMap::new`: an empty map.
#[verifier::external_body]
pub(crate) fn table_new() -> (r: DashMap<NetAddress, Node>)
    ensures
        forall|k: NetAddress| !(#[trigger] table_contents(r).contains_key(k)),
{
    DashMap::new()
}

/// Relies on `DashMap::get`: a copy of the value under `k`, if any.
#[verifier::external_body]
pub(crate) fn table_get(m: &DashMap<NetAddress, Node>, k: &NetAddress) -> (r: Option<Node>)
    ensures
        r == (if table_contents(*m).contains_key(*k) {
            Some(table_contents(*m)[*k])
        } else {
            None
        }),
{
    m.get(k).map(|e| e.value().clone())
}

/// Relies on `DashMap::insert`: `k` maps to `v` afterwards, other keys are unchanged.
#[verifier::external_body]
pub(crate) fn table_insert(m: &mut DashMap<NetAddress, Node>, k: NetAddress, v: Node)
    ensures
        table_contents(*final(m)) == table_contents(*old(m)).insert(k, v),
{
    m.insert(k, v);
}

/// Relies on `DashMap::remove`: `k` maps to nothing afterwards, other keys are unchanged.
#[verifier::external_body]
pub(crate) fn table_remove(m: &mut DashMap<NetAddress, Node>, k: &NetAddress)
    ensures
        table_contents(*final(m)) == table_contents(*old(m)).remove(*k),
{
    m.remove(k);
}

/// Relies on `DashMap::len`: the number of entries.
#[verifier::external_body]
pub(crate) fn table_len(m: &DashMap<NetAddress, Node>) -> (r: usize)
    ensures
        r == table_contents(*m).len(),
{
    m.len()
}

/// Relies on `DashMap::iter`: every entry once, as key and a copy of the value,
/// in an order that the map chooses.
#[verifier::external_body]
pub(crate) fn table_entries(m: &DashMap<NetAddress, Node>) -> (r: Vec<(NetAddress, Node)>)
    ensures
        r@.len() == table_contents(*m).len(),
        forall|i: int|
            0 <= i < r@.len() ==> table_contents(*m).contains_key(#[trigger] r@[i].0)
                && table_contents(*m)[r@[i].0] == r@[i].1,
        forall|i: int, j: int|
            0 <= i < r@.len() && 0 <= j < r@.len() && i != j ==> (#[trigger] r@[i]).0 != (
            #[trigger] r@[j]).0,
{
    m.iter().map(|e| (*e.key(), e.value().clone())).collect()
}

} // verus!

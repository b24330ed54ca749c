//! Trusted declarations for the insertion-ordered map of the `indexmap` crate.

use vstd::prelude::*;
use indexmap::IndexMap;
use crate::registry::{has_key, PeerAddr};

verus! {

#[verifier::external_type_specification]
#[verifier::external_body]
#[verifier::reject_recursive_types(K)]
#[verifier::reject_recursive_types(V)]
#[verifier::reject_recursive_types(S)]
pub struct ExIndexMap<K, V, S>(IndexMap<K, V, S>);

/// The entries of a name table, in insertion order: each address with the
/// characters of its username.
pub uninterp spec fn entries_of(m: IndexMap<PeerAddr, String>) -> Seq<(PeerAddr, Seq<char>)>;

/// Relies on `IndexMap::new`: a new map holds no entry.
#[verifier::external_body]
pub(crate) fn map_new() -> (r: IndexMap<PeerAddr, String>)
    ensures
        entries_of(r) == Seq::<(PeerAddr, Seq<char>)>::empty(),
{
    IndexMap::new()
}

/// Whether the entry `x` has an address other than `k`.
pub open spec fn key_differs(k: PeerAddr) -> spec_fn((PeerAddr, Seq<char>)) -> bool {
    |x: (PeerAddr, Seq<char>)| x.0 != k
}

/// The entries without the one whose address is `k`.
pub open spec fn without_key(e: Seq<(PeerAddr, Seq<char>)>, k: PeerAddr) -> Seq<(PeerAddr, Seq<char>)> {
    e.filter(key_differs(k))
}

/// Relies on `IndexMap::len`: the number of entries.
#[verifier::external_body]
pub(crate) fn map_len(m: &IndexMap<PeerAddr, String>) -> (r: usize)
    ensures
        r == entries_of(*m).len(),
{
    m.len()
}

/// Relies on `IndexMap::contains_key`: whether an entry has the key.
#[verifier::external_body]
pub(crate) fn map_contains(m: &IndexMap<PeerAddr, String>, k: &PeerAddr) -> (r: bool)
    ensures
        r == has_key(entries_of(*m), *k),
{
    m.contains_key(k)
}

/// Relies on `IndexMap::get_index`: the entry at a position of the order.
#[verifier::external_body]
pub(crate) fn map_get_index(m: &IndexMap<PeerAddr, String>, i: usize) -> (r: Option<
    (PeerAddr, String),
>)
    ensures
        r is Some <==> i < entries_of(*m).len(),
        r matches Some(p) ==> p.0 == entries_of(*m)[i as int].0 && p.1@ == entries_of(
            *m,
        )[i as int].1,
{
    m.get_index(i).map(|(k, v)| (*k, v.clone()))
}

/// Relies on `IndexMap::insert`: a new key goes last in the order; an
/// existing key keeps its place and has its value replaced.
#[verifier::external_body]
pub(crate) fn map_insert(m: &mut IndexMap<PeerAddr, String>, k: PeerAddr, v: String) -> (r: Option<String>)
    ensures
        r is Some <==> has_key(entries_of(*old(m)), k),
        !has_key(entries_of(*old(m)), k) ==> entries_of(*final(m)) == entries_of(*old(m)).push(
            (k, v@),
        ),
        r matches Some(o) ==> exists|i: int|
            0 <= i < entries_of(*old(m)).len() && entries_of(*old(m))[i].0 == k && o@ == entries_of(
                *old(m),
            )[i].1 && entries_of(*final(m)) == entries_of(*old(m)).update(i, (k, v@)),
{
    m.insert(k, v)
}

/// Relies on `IndexMap::shift_remove`: the entry with the key leaves, the
/// others keep their order; its value is returned.
#[verifier::external_body]
pub(crate) fn map_shift_remove(m: &mut IndexMap<PeerAddr, String>, k: &PeerAddr) -> (r: Option<String>)
    ensures
        entries_of(*final(m)) == without_key(entries_of(*old(m)), *k),
        r is Some <==> has_key(entries_of(*old(m)), *k),
        r matches Some(o) ==> exists|i: int|
            0 <= i < entries_of(*old(m)).len() && entries_of(*old(m))[i].0 == *k && o@ == entries_of(
                *old(m),
            )[i].1,
{
    m.shift_remove(k)
}

} // verus!

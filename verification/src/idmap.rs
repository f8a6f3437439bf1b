//! Hash maps and sets keyed by commit id.
//!
//! `CommitId` derives `PartialEq`, `Eq` and `Hash` from its three integer
//! fields, so two ids are equal for the map exactly when they are the same
//! value; the wrappers below state the std operations over the maps' views
//! on that basis.

use vstd::prelude::*;
use std::collections::{HashMap, HashSet};
use crate::git::types::CommitId;

verus! {

/// `HashMap::get`: the value stored under `k`, if any.
#[verifier::external_body]
pub fn id_map_get<'a, V>(m: &'a HashMap<CommitId, V>, k: &CommitId) -> (r: Option<&'a V>)
    ensures
        match r {
            Some(v) => m@.contains_key(*k) && *v == m@[*k],
            None => !m@.contains_key(*k),
        },
{
    m.get(k)
}

/// `HashMap::insert`: stores `v` under `k`, replacing any earlier value.
#[verifier::external_body]
pub fn id_map_insert<V>(m: &mut HashMap<CommitId, V>, k: CommitId, v: V)
    ensures
        final(m)@ == old(m)@.insert(k, v),
{
    m.insert(k, v);
}

/// `HashMap::remove`: takes out the value stored under `k`, if any.
#[verifier::external_body]
pub fn id_map_remove<V>(m: &mut HashMap<CommitId, V>, k: &CommitId) -> (r: Option<V>)
    ensures
        final(m)@ == old(m)@.remove(*k),
        match r {
            Some(v) => old(m)@.contains_key(*k) && v == old(m)@[*k],
            None => !old(m)@.contains_key(*k),
        },
{
    m.remove(k)
}

/// `HashSet::contains`: membership of `k`.
#[verifier::external_body]
pub fn id_set_contains(s: &HashSet<CommitId>, k: &CommitId) -> (r: bool)
    ensures
        r == s@.contains(*k),
{
    s.contains(k)
}

/// `HashSet::insert`: adds `k`.
#[verifier::external_body]
pub fn id_set_insert(s: &mut HashSet<CommitId>, k: CommitId)
    ensures
        final(s)@ == old(s)@.insert(k),
{
    s.insert(k);
}

} // verus!

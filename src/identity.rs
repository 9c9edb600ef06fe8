//! Owner and group names: a process-wide cache of looked-up names, with the
//! decimal id as the display value of every id that has no name.

use std::collections::HashMap;
use vstd::prelude::*;
use crate::text::{decimal_of, decimal_text, lemma_decimal_nonempty};

verus! {

broadcast use vstd::std_specs::hash::group_hash_axioms;

/// The display value recorded for `id` after a lookup in the identity
/// database: the name found, or else the decimal id.
pub open spec fn fallback_name(id: u32, found: Option<Seq<char>>) -> Seq<char> {
    match found {
        Some(name) => name,
        None => decimal_of(id as nat),
    }
}

/// The display value of `id` under a cache `names`: the cached name, or the
/// decimal id where nothing is cached.
pub open spec fn resolved_name(names: Map<u32, Seq<char>>, id: u32) -> Seq<char> {
    if names.contains_key(id) {
        names[id]
    } else {
        decimal_of(id as nat)
    }
}

/// The optional name that a lookup handed over, as characters.
pub open spec fn found_view(found: Option<String>) -> Option<Seq<char>> {
    match found {
        Some(s) => Some(s@),
        None => None,
    }
}

/// Names of owners and groups, filled on a miss and never invalidated.
pub struct IdentityCache {
    owners: HashMap<u32, String>,
    groups: HashMap<u32, String>,
}

impl IdentityCache {
    /// The owner names held, by uid.
    pub closed spec fn owner_names(&self) -> Map<u32, Seq<char>> {
        self.owners@.map_values(|s: String| s@)
    }

    /// The group names held, by gid.
    pub closed spec fn group_names(&self) -> Map<u32, Seq<char>> {
        self.groups@.map_values(|s: String| s@)
    }

    /// An empty cache.
    pub fn new() -> (r: IdentityCache)
        ensures
            r.owner_names() == Map::<u32, Seq<char>>::empty(),
            r.group_names() == Map::<u32, Seq<char>>::empty(),
    {
        let r = IdentityCache { owners: HashMap::new(), groups: HashMap::new() };
        assert(r.owner_names() =~= Map::<u32, Seq<char>>::empty());
        assert(r.group_names() =~= Map::<u32, Seq<char>>::empty());
        r
    }

    /// Whether a display value for `uid` is held.
    pub fn has_owner(&self, uid: u32) -> (r: bool)
        ensures
            r == self.owner_names().contains_key(uid),
    {
        self.owners.contains_key(&uid)
    }

    /// Whether a display value for `gid` is held.
    pub fn has_group(&self, gid: u32) -> (r: bool)
        ensures
            r == self.group_names().contains_key(gid),
    {
        self.groups.contains_key(&gid)
    }

    /// Records the outcome of looking `uid` up: the name found, or the
    /// decimal uid where the database has none. Returns what was recorded.
    pub fn record_owner(&mut self, uid: u32, found: Option<String>) -> (r: String)
        ensures
            r@ == fallback_name(uid, found_view(found)),
            final(self).owner_names() == old(self).owner_names().insert(uid, r@),
            final(self).group_names() == old(self).group_names(),
    {
        let name = match found {
            Some(n) => n,
            None => decimal_text(uid as u128),
        };
        let ghost before = self.owners@;
        self.owners.insert(uid, name.clone());
        assert(self.owners@ == before.insert(uid, name));
        assert(self.owner_names() =~= before.map_values(|s: String| s@).insert(uid, name@));
        name
    }

    /// Records the outcome of looking `gid` up: the name found, or the
    /// decimal gid where the database has none. Returns what was recorded.
    pub fn record_group(&mut self, gid: u32, found: Option<String>) -> (r: String)
        ensures
            r@ == fallback_name(gid, found_view(found)),
            final(self).group_names() == old(self).group_names().insert(gid, r@),
            final(self).owner_names() == old(self).owner_names(),
    {
        let name = match found {
            Some(n) => n,
            None => decimal_text(gid as u128),
        };
        let ghost before = self.groups@;
        self.groups.insert(gid, name.clone());
        assert(self.groups@ == before.insert(gid, name));
        assert(self.group_names() =~= before.map_values(|s: String| s@).insert(gid, name@));
        name
    }

    /// The display value of `uid`: its cached name, or the decimal uid.
    pub fn resolve_owner(&self, uid: u32) -> (r: String)
        ensures
            r@ == resolved_name(self.owner_names(), uid),
    {
        match self.owners.get(&uid) {
            Some(name) => name.clone(),
            None => decimal_text(uid as u128),
        }
    }

    /// The display value of `gid`: its cached name, or the decimal gid.
    pub fn resolve_group(&self, gid: u32) -> (r: String)
        ensures
            r@ == resolved_name(self.group_names(), gid),
    {
        match self.groups.get(&gid) {
            Some(name) => name.clone(),
            None => decimal_text(gid as u128),
        }
    }
}

/// An id that has no name resolves to its decimal string, which is never
/// empty; recording a failed lookup keeps that display value.
pub proof fn lemma_identity_fallback(names: Map<u32, Seq<char>>, id: u32)
    ensures
        !names.contains_key(id) ==> resolved_name(names, id) == decimal_of(id as nat),
        !names.contains_key(id) ==> resolved_name(names, id).len() >= 1,
        fallback_name(id, None) == decimal_of(id as nat),
        resolved_name(names.insert(id, fallback_name(id, None)), id) == decimal_of(id as nat),
        resolved_name(names.insert(id, fallback_name(id, None)), id).len() >= 1,
{
    lemma_decimal_nonempty(id as nat);
}

} // verus!

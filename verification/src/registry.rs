//! The identity and secret registry of the credential authority.

use crate::collections::{
    id_set_contains, id_set_contents, id_set_insert, id_set_new, secret_map_contents,
    secret_map_get, secret_map_insert, secret_map_new, Secrets,
};
use crate::entropy::random_u64;
use bevy_platform::collections::{HashMap, HashSet};
use vstd::prelude::*;

verus! {

/// How many random candidates [`Registry::allocate_identity`] draws before it
/// gives up.
pub const MAX_ALLOCATION_DRAWS: u64 = u64::MAX;

/// In-memory store of the identities in use and of the secret recorded for
/// each of them. Nothing is ever removed from it.
pub struct Registry {
    ids: HashSet<u64>,
    secrets: HashMap<u64, String>,
}

impl Registry {
    /// The identities that have been allocated.
    pub closed spec fn allocated(&self) -> Set<u64> {
        id_set_contents(self.ids)
    }

    /// The secret on file for each identity that has one.
    pub closed spec fn secrets(&self) -> Secrets {
        secret_map_contents(self.secrets)
    }

    /// A registry with no identity and no secret.
    pub fn new() -> (registry: Self)
        ensures
            registry.allocated() == Set::<u64>::empty(),
            registry.secrets() == Secrets::empty(),
    {
        Registry { ids: id_set_new(), secrets: secret_map_new() }
    }

    /// Whether `identity` has been allocated.
    pub fn is_allocated(&self, identity: u64) -> (found: bool)
        ensures
            found == self.allocated().contains(identity),
    {
        id_set_contains(&self.ids, identity)
    }

    /// Allocates `candidate` unless it is already in use, and says whether it did.
    pub fn try_allocate(&mut self, candidate: u64) -> (taken: bool)
        ensures
            taken == !old(self).allocated().contains(candidate),
            final(self).allocated() == old(self).allocated().insert(candidate),
            final(self).secrets() == old(self).secrets(),
    {
        id_set_insert(&mut self.ids, candidate)
    }

    /// Allocates an identity that was not in use: draws random 64-bit values
    /// until one is free, and takes it; after `MAX_ALLOCATION_DRAWS` draws in
    /// use it gives up. With no identity in use the first draw is taken.
    pub fn allocate_identity(&mut self) -> (identity: Option<u64>)
        ensures
            match identity {
                Some(id) => !old(self).allocated().contains(id)
                    && final(self).allocated() == old(self).allocated().insert(id),
                None => final(self).allocated() == old(self).allocated(),
            },
            final(self).secrets() == old(self).secrets(),
            old(self).allocated().is_empty() ==> identity is Some,
    {
        let mut draws_left: u64 = MAX_ALLOCATION_DRAWS;
        while draws_left > 0
            invariant
                self.allocated() == old(self).allocated(),
                self.secrets() == old(self).secrets(),
                draws_left < MAX_ALLOCATION_DRAWS ==> !old(self).allocated().is_empty(),
            decreases draws_left,
        {
            let candidate: u64 = random_u64();
            if self.try_allocate(candidate) {
                return Some(candidate);
            }
            assert(old(self).allocated().contains(candidate));
            assert(old(self).allocated().insert(candidate) =~= old(self).allocated());
            draws_left = draws_left - 1;
        }
        None
    }

    /// Records `secret` for `identity`, in place of any secret recorded before.
    pub fn record_secret(&mut self, identity: u64, secret: String)
        ensures
            final(self).secrets() == old(self).secrets().insert(identity, secret@),
            final(self).allocated() == old(self).allocated(),
    {
        let _ = secret_map_insert(&mut self.secrets, identity, secret);
    }

    /// The secret on file for `identity`, if there is one.
    pub fn lookup_secret(&self, identity: u64) -> (found: Option<String>)
        ensures
            match found {
                Some(s) => self.secrets().contains_key(identity) && s@ == self.secrets()[identity],
                None => !self.secrets().contains_key(identity),
            },
    {
        match secret_map_get(&self.secrets, identity) {
            Some(s) => Some(s.clone()),
            None => None,
        }
    }
}

/// The identities in use once the identities of `taken` were allocated, in
/// that order, on top of `start`.
pub open spec fn allocated_after(start: Set<u64>, taken: Seq<u64>) -> Set<u64>
    decreases taken.len(),
{
    if taken.len() == 0 {
        start
    } else {
        allocated_after(start, taken.drop_last()).insert(taken.last())
    }
}

/// Whether each identity of `taken` was free at the moment it was taken, as
/// [`Registry::allocate_identity`] ensures of the identity it returns.
pub open spec fn each_was_free(start: Set<u64>, taken: Seq<u64>) -> bool {
    forall|i: int|
        0 <= i < taken.len() ==> !allocated_after(start, #[trigger] taken.take(i)).contains(
            taken[i],
        )
}

/// `allocated_after` holds the starting identities and the taken ones, and
/// nothing else.
pub proof fn lemma_allocated_after_contains(start: Set<u64>, taken: Seq<u64>, identity: u64)
    ensures
        allocated_after(start, taken).contains(identity) <==> start.contains(identity)
            || taken.contains(identity),
    decreases taken.len(),
{
    if taken.len() > 0 {
        let earlier = taken.drop_last();
        lemma_allocated_after_contains(start, earlier, identity);
        if taken.contains(identity) {
            let k = choose|k: int| 0 <= k < taken.len() && taken[k] == identity;
            if k < earlier.len() {
                assert(earlier[k] == identity);
            }
        }
        if earlier.contains(identity) {
            let k = choose|k: int| 0 <= k < earlier.len() && earlier[k] == identity;
            assert(taken[k] == identity);
        }
    }
}

/// Uniqueness of identities: in any run of allocations, no identity is
/// handed out twice and none that was in use at the start is handed out;
/// every identity handed out, and every one in use at the start, is still in
/// use at the end.
pub proof fn lemma_allocated_identities_are_distinct(start: Set<u64>, taken: Seq<u64>)
    requires
        each_was_free(start, taken),
    ensures
        forall|i: int, j: int| 0 <= i < j < taken.len() ==> taken[i] != taken[j],
        forall|i: int| 0 <= i < taken.len() ==> !start.contains(#[trigger] taken[i]),
        forall|i: int|
            0 <= i < taken.len() ==> allocated_after(start, taken).contains(#[trigger] taken[i]),
        start.subset_of(allocated_after(start, taken)),
{
    assert forall|i: int, j: int| 0 <= i < j < taken.len() implies taken[i] != taken[j] by {
        let before = taken.take(j);
        lemma_allocated_after_contains(start, before, taken[j]);
        assert(before[i] == taken[i]);
    }
    assert forall|i: int| 0 <= i < taken.len() implies !start.contains(#[trigger] taken[i]) by {
        lemma_allocated_after_contains(start, taken.take(i), taken[i]);
    }
    assert forall|i: int| 0 <= i < taken.len() implies allocated_after(start, taken).contains(
        #[trigger] taken[i],
    ) by {
        lemma_allocated_after_contains(start, taken, taken[i]);
    }
    assert forall|identity: u64| start.contains(identity) implies allocated_after(
        start,
        taken,
    ).contains(identity) by {
        lemma_allocated_after_contains(start, taken, identity);
    }
}

} // verus!

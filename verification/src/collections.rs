//! The hash collections of `bevy_platform`, as far as the registry uses them.
//!
//! Nothing in this file is proved. Each function states what the
//! documentation of the collection says of the method it calls, over the
//! mathematical contents named by [`id_set_contents`] and
//! [`secret_map_contents`].

use bevy_platform::collections::{HashMap, HashSet};
use bevy_platform::hash::FixedHasher;
use vstd::prelude::*;

verus! {

/// `bevy_platform::hash::FixedHasher`, the hasher that the collections are
/// made with. Nothing is said of it.
#[verifier::external_type_specification]
#[verifier::external_body]
pub struct ExFixedHasher(FixedHasher);

/// `bevy_platform::collections::HashSet`. What a set of identities holds is
/// named by [`id_set_contents`].
#[verifier::external_type_specification]
#[verifier::external_body]
#[verifier::reject_recursive_types(T)]
#[verifier::reject_recursive_types(S)]
pub struct ExHashSet<T, S>(HashSet<T, S>);

/// `bevy_platform::collections::HashMap`. What a map of secrets holds is
/// named by [`secret_map_contents`].
#[verifier::external_type_specification]
#[verifier::external_body]
#[verifier::reject_recursive_types(K)]
#[verifier::reject_recursive_types(V)]
#[verifier::reject_recursive_types(S)]
pub struct ExHashMap<K, V, S>(HashMap<K, V, S>);

/// Secrets by identity, as a mathematical map.
pub type Secrets = Map<u64, Seq<char>>;

/// The identities that a set holds.
pub uninterp spec fn id_set_contents(ids: HashSet<u64>) -> Set<u64>;

/// The secret that a map holds for each identity it has one for.
pub uninterp spec fn secret_map_contents(secrets: HashMap<u64, String>) -> Secrets;

/// `HashSet::new`: a set that holds nothing.
#[verifier::external_body]
pub(crate) fn id_set_new() -> (ids: HashSet<u64>)
    ensures
        id_set_contents(ids) == Set::<u64>::empty(),
{
    HashSet::new()
}

/// `HashSet::contains`: whether the set holds `id`.
#[verifier::external_body]
pub(crate) fn id_set_contains(ids: &HashSet<u64>, id: u64) -> (found: bool)
    ensures
        found == id_set_contents(*ids).contains(id),
{
    ids.contains(&id)
}

/// `HashSet::insert`: afterwards the set holds `id` beside what it held; the
/// result says whether `id` was new to it.
#[verifier::external_body]
pub(crate) fn id_set_insert(ids: &mut HashSet<u64>, id: u64) -> (fresh: bool)
    ensures
        id_set_contents(*final(ids)) == id_set_contents(*old(ids)).insert(id),
        fresh == !id_set_contents(*old(ids)).contains(id),
{
    ids.insert(id)
}

/// `HashSet::remove`: afterwards the set holds what it held but `id`; the
/// result says whether it held `id`.
#[verifier::external_body]
pub(crate) fn id_set_remove(ids: &mut HashSet<u64>, id: u64) -> (found: bool)
    ensures
        id_set_contents(*final(ids)) == id_set_contents(*old(ids)).remove(id),
        found == id_set_contents(*old(ids)).contains(id),
{
    ids.remove(&id)
}

/// `HashMap::new`: a map that holds nothing.
#[verifier::external_body]
pub(crate) fn secret_map_new() -> (secrets: HashMap<u64, String>)
    ensures
        secret_map_contents(secrets) == Secrets::empty(),
{
    HashMap::new()
}

/// `HashMap::insert`: afterwards the map holds `secret` for `id` and is
/// otherwise unchanged; the result is the secret it held for `id` before.
#[verifier::external_body]
pub(crate) fn secret_map_insert(
    secrets: &mut HashMap<u64, String>,
    id: u64,
    secret: String,
) -> (previous: Option<String>)
    ensures
        secret_map_contents(*final(secrets)) == secret_map_contents(*old(secrets)).insert(
            id,
            secret@,
        ),
        match previous {
            Some(p) => secret_map_contents(*old(secrets)).contains_key(id)
                && p@ == secret_map_contents(*old(secrets))[id],
            None => !secret_map_contents(*old(secrets)).contains_key(id),
        },
{
    secrets.insert(id, secret)
}

/// `HashMap::get`: the secret that the map holds for `id`, if any.
#[verifier::external_body]
pub(crate) fn secret_map_get(secrets: &HashMap<u64, String>, id: u64) -> (found: Option<&String>)
    ensures
        match found {
            Some(s) => secret_map_contents(*secrets).contains_key(id)
                && s@ == secret_map_contents(*secrets)[id],
            None => !secret_map_contents(*secrets).contains_key(id),
        },
{
    secrets.get(&id)
}

} // verus!

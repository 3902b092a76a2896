//! Trusted boundary to the concurrent map backing the store. The map's
//! contents are abstracted by `store_contents`, and each operation's effect
//! is stated over it.

use vstd::prelude::*;
use crate::types::User;
use crate::model::{UserView, empty_store};

verus! {

/// The concurrent map backing the store.
pub type StoreMap = dashmap::DashMap<String, User>;

#[verifier::external_type_specification]
#[verifier::external_body]
#[verifier::reject_recursive_types(K)]
#[verifier::reject_recursive_types(V)]
#[verifier::reject_recursive_types(S)]
pub struct ExDashMap<K, V, S>(dashmap::DashMap<K, V, S>);

/// What the concurrent map holds: the record stored under each key.
pub uninterp spec fn store_contents(m: StoreMap) -> Map<Seq<char>, UserView>;

/// Relies on `dashmap::DashMap::new`: creates an empty map.
#[verifier::external_body]
pub(crate) fn store_new() -> (r: StoreMap)
    ensures
        store_contents(r) == empty_store(),
{
    dashmap::DashMap::new()
}

/// Relies on `dashmap::DashMap::get`: returns the value stored under the
/// key, if any (handed out as a copy of the record).
#[verifier::external_body]
pub(crate) fn store_get(m: &StoreMap, id: &str) -> (r: Option<User>)
    ensures
        match r {
            Some(u) => store_contents(*m).contains_key(id@) && u@ == store_contents(*m)[id@],
            None => !store_contents(*m).contains_key(id@),
        },
{
    m.get(id).map(|e| e.value().duplicate())
}

/// Relies on `dashmap::DashMap::insert`: stores the value under the key,
/// replacing any previous value.
#[verifier::external_body]
pub(crate) fn store_insert(m: &mut StoreMap, id: String, u: User)
    ensures
        store_contents(*final(m)) == store_contents(*old(m)).insert(id@, u@),
{
    m.insert(id, u);
}

/// Relies on `dashmap::DashMap::remove`: takes the entry under the key out
/// of the map and returns its value, if there was one.
#[verifier::external_body]
pub(crate) fn store_remove(m: &mut StoreMap, id: &str) -> (r: Option<User>)
    ensures
        store_contents(*final(m)) == store_contents(*old(m)).remove(id@),
        match r {
            Some(u) => store_contents(*old(m)).contains_key(id@) && u@ == store_contents(
                *old(m),
            )[id@],
            None => !store_contents(*old(m)).contains_key(id@),
        },
{
    m.remove(id).map(|(_, u)| u)
}

/// Relies on `dashmap::DashMap::iter`: with exclusive access, the iterator
/// yields every entry exactly once, in no particular order.
#[verifier::external_body]
pub(crate) fn store_values(m: &StoreMap) -> (r: Vec<User>)
    ensures
        r@.len() == store_contents(*m).dom().len(),
        forall|i: int|
            0 <= i < r@.len() ==> exists|k: Seq<char>|
                store_contents(*m).contains_key(k) && store_contents(*m)[k] == (#[trigger] r@[i])@,
        forall|k: Seq<char>|
            store_contents(*m).contains_key(k) ==> exists|i: int|
                0 <= i < r@.len() && (#[trigger] r@[i])@ == store_contents(*m)[k],
{
    m.iter().map(|e| e.value().duplicate()).collect()
}

} // verus!

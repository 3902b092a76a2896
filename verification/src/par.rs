//! The bulk pipeline's data-parallel stage and the parallel search filter,
//! behind a trusted boundary to rayon. The per-item work is done by
//! verified functions; rayon only schedules them.

use vstd::prelude::*;
use crate::types::{CreateUserRequest, User};
use crate::model::{spec_transform, matches_lowered};
use crate::textops::{to_uppercase, to_lowercase, contains_str};
use rayon::iter::{IntoParallelIterator, ParallelIterator, IndexedParallelIterator};

verus! {

/// The pipeline's pure per-request transform: the name is uppercased.
pub fn transform_request(req: CreateUserRequest) -> (r: CreateUserRequest)
    ensures
        r@ == spec_transform(req@),
        r@.name.len() == 0 <==> req@.name.len() == 0,
{
    let name = to_uppercase(req.name.as_str());
    CreateUserRequest { name, email: req.email, age: req.age }
}

/// Whether a record matches an already-lowercased query, by
/// case-insensitive substring search over its name or email.
pub fn matches_query(u: &User, query_lower: &String) -> (r: bool)
    ensures
        r == matches_lowered(u@, query_lower@),
{
    let name_lower = to_lowercase(u.name.as_str());
    let email_lower = to_lowercase(u.email.as_str());
    contains_str(name_lower.as_str(), query_lower.as_str()) || contains_str(
        email_lower.as_str(),
        query_lower.as_str(),
    )
}

/// Relies on rayon's indexed parallel `map` collected with
/// `collect_into_vec`: one output per input, in the input's order, each
/// produced by the verified `transform_request`.
#[verifier::external_body]
pub(crate) fn par_transform(reqs: Vec<CreateUserRequest>) -> (r: Vec<CreateUserRequest>)
    ensures
        r@.len() == reqs@.len(),
        forall|i: int| 0 <= i < reqs@.len() ==> (#[trigger] r@[i])@ == spec_transform(reqs@[i]@),
        forall|i: int|
            0 <= i < reqs@.len() ==> ((#[trigger] r@[i])@.name.len() == 0 <==> reqs@[i]@.name.len()
                == 0),
{
    let mut out = Vec::new();
    reqs.into_par_iter().map(transform_request).collect_into_vec(&mut out);
    out
}

/// Relies on rayon's parallel `filter` collected into a `Vec`: the output
/// consists of exactly the inputs on which the verified `matches_query`
/// returns true (order unspecified).
#[verifier::external_body]
pub(crate) fn par_filter_matches(users: Vec<User>, query_lower: &String) -> (r: Vec<User>)
    ensures
        forall|j: int|
            0 <= j < r@.len() ==> matches_lowered((#[trigger] r@[j])@, query_lower@) && exists|
                i: int,
            | 0 <= i < users@.len() && users@[i]@ == r@[j]@,
        forall|i: int|
            0 <= i < users@.len() && matches_lowered((#[trigger] users@[i])@, query_lower@)
                ==> exists|j: int| 0 <= j < r@.len() && r@[j]@ == users@[i]@,
{
    users.into_par_iter().filter(|u| matches_query(u, query_lower)).collect()
}

} // verus!

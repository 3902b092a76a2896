//! The mathematical model of the record store: views of records and
//! requests, validation rules, and the effect of each operation on the
//! store's map.

use vstd::prelude::*;
use crate::textops::{lower_of, upper_of};

verus! {

/// Abstract value of a stored record.
pub ghost struct UserView {
    pub id: Seq<char>,
    pub name: Seq<char>,
    pub email: Seq<char>,
    pub age: u8,
    pub created_at: u64,
    pub updated_at: u64,
}

/// Abstract value of a creation request.
pub ghost struct CreateView {
    pub name: Seq<char>,
    pub email: Seq<char>,
    pub age: u8,
}

/// Abstract value of an update request: absent fields are left unchanged.
pub ghost struct UpdateView {
    pub name: Option<Seq<char>>,
    pub email: Option<Seq<char>>,
    pub age: Option<u8>,
}

/// Abstract value of a service error.
pub ghost enum ErrorView {
    NotFound,
    AlreadyExists,
    Validation(Seq<char>),
    ImportParse(Seq<char>),
}

/// The validation rules, in order of precedence: non-empty name, an '@' in
/// the email, age within [13, 120].
pub open spec fn valid_create(r: CreateView) -> bool {
    &&& r.name.len() > 0
    &&& r.email.contains('@')
    &&& 13 <= r.age <= 120
}

/// The message of the first validation rule a request breaks.
pub open spec fn validation_msg(r: CreateView) -> Seq<char> {
    if r.name.len() == 0 {
        "Name cannot be empty"@
    } else if !r.email.contains('@') {
        "Invalid email format"@
    } else {
        "Age must be between 13 and 120"@
    }
}

/// The record a valid request materializes into at time `t`: the email is
/// normalized to lowercase and both timestamps start equal.
pub open spec fn new_record(id: Seq<char>, r: CreateView, t: u64) -> UserView {
    UserView { id, name: r.name, email: lower_of(r.email), age: r.age, created_at: t, updated_at: t }
}

/// The effect of an update at time `t`: present fields overwrite (the email
/// normalized to lowercase), absent fields stay, `updated_at` refreshes.
pub open spec fn apply_update(u: UserView, r: UpdateView, t: u64) -> UserView {
    UserView {
        id: u.id,
        name: if r.name is Some { r.name->0 } else { u.name },
        email: if r.email is Some { lower_of(r.email->0) } else { u.email },
        age: if r.age is Some { r.age->0 } else { u.age },
        created_at: u.created_at,
        updated_at: t,
    }
}

/// What a read of `id` yields on store `m`.
pub open spec fn read_model(m: Map<Seq<char>, UserView>, id: Seq<char>) -> Option<UserView> {
    if m.contains_key(id) {
        Some(m[id])
    } else {
        None
    }
}

/// The bulk pipeline's pure transform stage: the name is uppercased.
pub open spec fn spec_transform(r: CreateView) -> CreateView {
    CreateView { name: upper_of(r.name), email: r.email, age: r.age }
}

/// `needle` occurs contiguously inside `hay`.
pub open spec fn is_substring(needle: Seq<char>, hay: Seq<char>) -> bool {
    exists|i: int|
        0 <= i <= hay.len() - needle.len() && #[trigger] hay.subrange(i, i + needle.len())
            == needle
}

/// Case-insensitive match of an already-lowercased query against a record's
/// name or email.
pub open spec fn matches_lowered(u: UserView, ql: Seq<char>) -> bool {
    is_substring(ql, lower_of(u.name)) || is_substring(ql, lower_of(u.email))
}

/// A record carries the data of a creation request: same name and age, the
/// email normalized.
pub open spec fn record_matches_create(u: UserView, r: CreateView) -> bool {
    u.name == r.name && u.email == lower_of(r.email) && u.age == r.age
}

/// Every stored record's email is a fixed point of lowercasing. A fresh
/// store satisfies this, and every mutating operation states that it is
/// preserved, so it holds of every reachable store.
pub open spec fn emails_normalized(m: Map<Seq<char>, UserView>) -> bool {
    forall|k: Seq<char>| m.contains_key(k) ==> lower_of((#[trigger] m[k]).email) == m[k].email
}

/// How many of the requests pass validation.
pub open spec fn count_valid(rs: Seq<CreateView>) -> nat
    decreases rs.len(),
{
    if rs.len() == 0 {
        0
    } else {
        count_valid(rs.drop_last()) + if valid_create(rs.last()) {
            1nat
        } else {
            0nat
        }
    }
}

/// The store's map with nothing in it.
pub open spec fn empty_store() -> Map<Seq<char>, UserView> {
    Map::empty()
}

/// `s` enumerates exactly the records of `m`, in some order.
pub open spec fn is_snapshot(m: Map<Seq<char>, UserView>, s: Seq<UserView>) -> bool {
    &&& s.len() == m.dom().len()
    &&& forall|i: int| 0 <= i < s.len() ==> m.contains_key((#[trigger] s[i]).id) && m[s[i].id] == s[i]
    &&& forall|k: Seq<char>| m.contains_key(k) ==> exists|i: int| 0 <= i < s.len() && #[trigger] s[i] == m[k]
}

} // verus!

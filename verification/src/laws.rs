//! The library's laws: compositional properties of the operation models,
//! proved once and for all inputs.

use vstd::prelude::*;
use crate::types::{ServiceStats, StatCategory, stats_zero};
use crate::model::{
    UserView, CreateView, UpdateView, new_record, apply_update, read_model, emails_normalized,
    empty_store,
};
use crate::textops::lower_of;
use crate::numfmt::lemma_dec_digits_value;
use crate::service::{stats_consistent, bump, bump_many};
use crate::csvport::{
    header_row, row_of_record, export_rows, find_col, find_col_from, parse_row, parse_requests,
};

verus! {

/// A record created from a request reads back under its identifier with the
/// request's name and age, the email lowercased, and equal timestamps.
pub proof fn lemma_create_then_read(
    m: Map<Seq<char>, UserView>,
    id: Seq<char>,
    req: CreateView,
    t: u64,
)
    ensures
        ({
            let u = new_record(id, req, t);
            &&& read_model(m.insert(id, u), id) == Some(u)
            &&& u.name == req.name
            &&& u.email == lower_of(req.email)
            &&& u.age == req.age
            &&& u.created_at == u.updated_at
        }),
{
}

/// An update with every field absent changes only `updated_at`.
pub proof fn lemma_update_all_absent(u: UserView, t: u64)
    ensures
        ({
            let v = apply_update(u, UpdateView { name: None, email: None, age: None }, t);
            &&& v.id == u.id
            &&& v.name == u.name
            &&& v.email == u.email
            &&& v.age == u.age
            &&& v.created_at == u.created_at
            &&& v.updated_at == t
        }),
{
}

/// Whatever the casing of the email handed to an update, the record a
/// subsequent read returns carries the lowercased form; lowercasing is
/// applied on every write, so it holds after any number of them.
pub proof fn lemma_email_normalization(
    m: Map<Seq<char>, UserView>,
    id: Seq<char>,
    u: UserView,
    e: Seq<char>,
    t: u64,
)
    ensures
        ({
            let v = apply_update(u, UpdateView { name: None, email: Some(e), age: None }, t);
            &&& read_model(m.insert(id, v), id) == Some(v)
            &&& v.email == lower_of(e)
        }),
{
}

/// A read after a delete of the same identifier finds nothing.
pub proof fn lemma_delete_then_read(m: Map<Seq<char>, UserView>, id: Seq<char>)
    ensures
        read_model(m.remove(id), id) is None,
{
}

/// Two creations that both succeed have distinct identifiers, and both
/// records are readable afterwards.
pub proof fn lemma_distinct_creates(
    m: Map<Seq<char>, UserView>,
    id1: Seq<char>,
    id2: Seq<char>,
    r1: CreateView,
    r2: CreateView,
    t1: u64,
    t2: u64,
)
    requires
        !m.contains_key(id1),
        !m.insert(id1, new_record(id1, r1, t1)).contains_key(id2),
    ensures
        ({
            let u1 = new_record(id1, r1, t1);
            let u2 = new_record(id2, r2, t2);
            let m2 = m.insert(id1, u1).insert(id2, u2);
            &&& id1 != id2
            &&& read_model(m2, id1) == Some(u1)
            &&& read_model(m2, id2) == Some(u2)
        }),
{
}

/// A fresh store holds no record, so the email invariant holds of it;
/// every mutating operation's contract states that it is preserved, so it
/// holds of every reachable store.
pub proof fn lemma_emails_normalized_empty()
    ensures
        emails_normalized(empty_store()),
{
}

/// Zeroed counters are a coherent ledger.
pub proof fn lemma_stats_zero_consistent()
    ensures
        stats_consistent(stats_zero()),
{
}

/// One recorded operation, below saturation: the total and the category's
/// counter advance by one together and nothing else moves.
pub proof fn lemma_bump_effect(s: ServiceStats, c: StatCategory)
    requires
        stats_consistent(s),
        s.total_operations < u64::MAX,
    ensures
        stats_consistent(bump(s, c)),
        bump(s, c).total_operations == s.total_operations + 1,
        bump(s, c).create_count == s.create_count + (if c is Create {
            1int
        } else {
            0
        }),
        bump(s, c).read_count == s.read_count + (if c is Read {
            1int
        } else {
            0
        }),
        bump(s, c).update_count == s.update_count + (if c is Update {
            1int
        } else {
            0
        }),
        bump(s, c).delete_count == s.delete_count + (if c is Delete {
            1int
        } else {
            0
        }),
        bump(s, c).parallel_operations == s.parallel_operations + (if c is Parallel {
            1int
        } else {
            0
        }),
{
}

/// The resilient operation's successful effect on the record: the name is
/// prefixed with "Processed: "; email, age, identifier and `created_at`
/// stay, `updated_at` refreshes.
pub proof fn lemma_resilient_success_effect(u: UserView, t: u64)
    ensures
        ({
            let v = apply_update(
                u,
                UpdateView { name: Some("Processed: "@ + u.name), email: None, age: None },
                t,
            );
            &&& v.name == "Processed: "@ + u.name
            &&& v.id == u.id
            &&& v.email == u.email
            &&& v.age == u.age
            &&& v.created_at == u.created_at
            &&& v.updated_at == t
        }),
{
}

/// Recording `n` operations of one category adds `n` to the total and to
/// that category's counter and touches nothing else, as long as the total
/// cannot saturate.
pub proof fn lemma_bump_many_effect(s: ServiceStats, c: StatCategory, n: nat)
    requires
        stats_consistent(s),
        s.total_operations + n <= u64::MAX,
    ensures
        stats_consistent(bump_many(s, c, n)),
        bump_many(s, c, n).total_operations == s.total_operations + n,
        bump_many(s, c, n).create_count == s.create_count + (if c is Create {
            n as int
        } else {
            0
        }),
        bump_many(s, c, n).read_count == s.read_count + (if c is Read {
            n as int
        } else {
            0
        }),
        bump_many(s, c, n).update_count == s.update_count + (if c is Update {
            n as int
        } else {
            0
        }),
        bump_many(s, c, n).delete_count == s.delete_count + (if c is Delete {
            n as int
        } else {
            0
        }),
        bump_many(s, c, n).parallel_operations == s.parallel_operations + (if c is Parallel {
            n as int
        } else {
            0
        }),
    decreases n,
{
    if n > 0 {
        lemma_bump_many_effect(s, c, (n - 1) as nat);
    }
}

/// The statistics ledger: after `m` creates, `r` reads, `u` updates and `d`
/// deletes from a fresh service, each category counter matches exactly and
/// the total is their sum.
pub proof fn lemma_stats_ledger(m: nat, r: nat, u: nat, d: nat)
    requires
        m + r + u + d <= u64::MAX,
    ensures
        ({
            let s = bump_many(
                bump_many(
                    bump_many(
                        bump_many(stats_zero(), StatCategory::Create, m),
                        StatCategory::Read,
                        r,
                    ),
                    StatCategory::Update,
                    u,
                ),
                StatCategory::Delete,
                d,
            );
            &&& s.create_count == m
            &&& s.read_count == r
            &&& s.update_count == u
            &&& s.delete_count == d
            &&& s.parallel_operations == 0
            &&& s.total_operations == m + r + u + d
        }),
{
    let s0 = stats_zero();
    lemma_bump_many_effect(s0, StatCategory::Create, m);
    let s1 = bump_many(s0, StatCategory::Create, m);
    lemma_bump_many_effect(s1, StatCategory::Read, r);
    let s2 = bump_many(s1, StatCategory::Read, r);
    lemma_bump_many_effect(s2, StatCategory::Update, u);
    let s3 = bump_many(s2, StatCategory::Update, u);
    lemma_bump_many_effect(s3, StatCategory::Delete, d);
}

/// The export/import round trip: the table an export produces parses back
/// into exactly one creation request per record, carrying each record's
/// name, email and age (identifiers and timestamps are re-made on import).
pub proof fn lemma_export_import_round_trip(s: Seq<UserView>)
    ensures
        parse_requests(export_rows(s)) is Some,
        parse_requests(export_rows(s))->0.len() == s.len(),
        forall|i: int|
            0 <= i < s.len() ==> {
                let q = #[trigger] parse_requests(export_rows(s))->0[i];
                q.name == s[i].name && q.email == s[i].email && q.age == s[i].age
            },
{
    reveal_strlit("id");
    reveal_strlit("name");
    reveal_strlit("email");
    reveal_strlit("age");
    reveal_strlit("created_at");
    reveal_strlit("updated_at");
    let rows = export_rows(s);
    let h = header_row();
    assert(rows[0] == h);
    assert(h[0] == "id"@ && h[1] == "name"@ && h[2] == "email"@ && h[3] == "age"@);
    assert("id"@.len() == 2 && "name"@.len() == 4 && "email"@.len() == 5 && "age"@.len() == 3);
    assert(find_col_from(h, "name"@, 0) == find_col_from(h, "name"@, 1));
    assert(find_col(h, "name"@) == Some(1int));
    assert(find_col_from(h, "email"@, 0) == find_col_from(h, "email"@, 1));
    assert(find_col_from(h, "email"@, 1) == find_col_from(h, "email"@, 2));
    assert(find_col(h, "email"@) == Some(2int));
    assert(find_col_from(h, "age"@, 0) == find_col_from(h, "age"@, 1));
    assert(find_col_from(h, "age"@, 1) == find_col_from(h, "age"@, 2));
    assert(find_col_from(h, "age"@, 2) == find_col_from(h, "age"@, 3));
    assert(find_col(h, "age"@) == Some(3int));
    let body = rows.drop_first();
    assert(body =~= s.map_values(|u: UserView| row_of_record(u)));
    assert forall|i: int| 0 <= i < body.len() implies parse_row(#[trigger] body[i], 1, 2, 3)
        is Some by {
        assert(body[i] == row_of_record(s[i]));
        lemma_dec_digits_value(s[i].age as nat);
    }
    assert(parse_requests(rows) is Some);
    let reqs = parse_requests(rows)->0;
    assert forall|i: int| 0 <= i < s.len() implies {
        let q = #[trigger] parse_requests(export_rows(s))->0[i];
        q.name == s[i].name && q.email == s[i].email && q.age == s[i].age
    } by {
        assert(body[i] == row_of_record(s[i]));
        lemma_dec_digits_value(s[i].age as nat);
        assert(reqs[i] == parse_row(body[i], 1, 2, 3)->0);
    }
}

} // verus!

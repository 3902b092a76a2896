//! The bulk pipeline: a data-parallel transform stage followed by batched
//! insertion, plus the synthetic bulk generators.

use vstd::prelude::*;
use vstd::string::StringExecFns;
use crate::types::{User, CreateUserRequest, DatabaseError, StatCategory};
use crate::model::{
    valid_create, validation_msg, spec_transform, record_matches_create, emails_normalized,
    ErrorView, CreateView, UserView,
};
use crate::numfmt::{dec_digits, push_dec_u64};
use crate::par::par_transform;
use crate::service::{UserService, bump, bump_many};

verus! {

/// The insertion stage's batch width: one batch's creations are in flight
/// together, and a batch completes before the next starts.
pub const BATCH_SIZE: usize = 5000;

/// How many of the results are successes.
pub open spec fn ok_count(rs: Seq<Result<User, DatabaseError>>) -> nat
    decreases rs.len(),
{
    if rs.len() == 0 {
        0
    } else {
        ok_count(rs.drop_last()) + if rs.last() is Ok {
            1nat
        } else {
            0nat
        }
    }
}

/// The per-request outcome the batched pipeline owes: a success carries a
/// record with the transformed request's data, live in the final store; a
/// failure is the transformed request's validation error, or a reported
/// identifier collision on a valid request.
pub open spec fn pipeline_outcome(
    r: Result<User, DatabaseError>,
    tv: CreateView,
    store: Map<Seq<char>, UserView>,
) -> bool {
    match r {
        Ok(u) => valid_create(tv) && record_matches_create(u@, tv) && u@.created_at
            == u@.updated_at && store.contains_key(u@.id) && store[u@.id] == u@,
        Err(e) => (e@ == ErrorView::Validation(validation_msg(tv)) && !valid_create(tv)) || (e@
            == ErrorView::AlreadyExists && valid_create(tv)),
    }
}

/// The i-th fixed request of the fast burst: "Fast User i" at the demo
/// domain, ages counting up from twenty.
pub open spec fn fast_request_view(i: int) -> CreateView {
    CreateView {
        name: "Fast User "@ + dec_digits(i as nat),
        email: "fast"@ + dec_digits(i as nat) + "@demo.com"@,
        age: (20 + i) as u8,
    }
}

/// The i-th synthetic request of the concurrent bulk insertion, before the
/// transform stage uppercases its name.
pub open spec fn synth_request_view(i: int) -> CreateView {
    CreateView {
        name: "BulkConcurrent "@ + dec_digits(i as nat),
        email: "bulk"@ + dec_digits(i as nat) + "@demo.com"@,
        age: (20 + (i % 80)) as u8,
    }
}

impl UserService {
    /// The two-stage bulk pipeline: the transform stage uppercases every
    /// name in parallel, then the insertion stage creates the records in
    /// batches of `BATCH_SIZE`, collecting one result per request; the
    /// parallel-operation counter ticks once for the whole invocation.
    pub fn bulk_create_users(&mut self, requests: Vec<CreateUserRequest>) -> (results: Vec<
        Result<User, DatabaseError>,
    >)
        requires
            old(self).wf(),
        ensures
            final(self).wf(),
            results@.len() == requests@.len(),
            forall|i: int|
                0 <= i < results@.len() ==> pipeline_outcome(
                    #[trigger] results@[i],
                    spec_transform(requests@[i]@),
                    final(self)@.store,
                ),
            forall|k: Seq<char>|
                #[trigger] old(self)@.store.contains_key(k) ==> final(self)@.store.contains_key(k)
                    && final(self)@.store[k] == old(self)@.store[k],
            final(self)@.stats == bump(
                bump_many(old(self)@.stats, StatCategory::Create, ok_count(results@)),
                StatCategory::Parallel,
            ),
            final(self)@.store.dom().len() == old(self)@.store.dom().len() + ok_count(results@),
            old(self)@.store.dom().len() == 0 && (exists|t: int|
                0 <= t < requests@.len() && valid_create(
                    spec_transform((#[trigger] requests@[t])@),
                )) ==> ok_count(results@) >= 1,
            emails_normalized(old(self)@.store) ==> emails_normalized(final(self)@.store),
            old(self)@.last_ts <= final(self)@.last_ts,
            requests@.len() == 0 ==> results@.len() == 0 && final(self)@.store == old(self)@.store,
    {
        let ghost orig = self@;
        let ghost reqv = requests@;
        let mut results: Vec<Result<User, DatabaseError>> = Vec::new();
        if requests.len() > 0 {
            let processed = par_transform(requests);
            let n = processed.len();
            let mut start: usize = 0;
            while start < n
                invariant
                    self.wf(),
                    n == processed.len(),
                    0 <= start <= n,
                    results@.len() == start,
                    orig.last_ts <= self@.last_ts,
                    orig.store.dom().finite(),
                    reqv.len() == n,
                    forall|i: int|
                        0 <= i < n ==> (#[trigger] processed@[i])@ == spec_transform(reqv[i]@),
                    forall|k: Seq<char>|
                        #[trigger] orig.store.contains_key(k) ==> self@.store.contains_key(k)
                            && self@.store[k] == orig.store[k],
                    forall|i: int|
                        0 <= i < results@.len() ==> pipeline_outcome(
                            #[trigger] results@[i],
                            processed@[i]@,
                            self@.store,
                        ),
                    self@.stats == bump_many(orig.stats, StatCategory::Create, ok_count(results@)),
                    self@.store.dom().len() == orig.store.dom().len() + ok_count(results@),
                    orig.store.dom().len() == 0 && (exists|t: int|
                        0 <= t < start && valid_create((#[trigger] processed@[t])@)) ==> ok_count(
                        results@,
                    ) >= 1,
                    emails_normalized(orig.store) ==> emails_normalized(self@.store),
                decreases n - start,
            {
                let end = if n - start < BATCH_SIZE {
                    n
                } else {
                    start + BATCH_SIZE
                };
                let mut j = start;
                while j < end
                    invariant
                        self.wf(),
                        n == processed.len(),
                        0 <= start <= j <= end <= n,
                        results@.len() == j,
                        orig.last_ts <= self@.last_ts,
                        orig.store.dom().finite(),
                        forall|k: Seq<char>|
                            #[trigger] orig.store.contains_key(k) ==> self@.store.contains_key(k)
                                && self@.store[k] == orig.store[k],
                        forall|i: int|
                            0 <= i < results@.len() ==> pipeline_outcome(
                                #[trigger] results@[i],
                                processed@[i]@,
                                self@.store,
                            ),
                        self@.stats == bump_many(
                            orig.stats,
                            StatCategory::Create,
                            ok_count(results@),
                        ),
                        self@.store.dom().len() == orig.store.dom().len() + ok_count(results@),
                        orig.store.dom().len() == 0 && (exists|t: int|
                            0 <= t < j && valid_create((#[trigger] processed@[t])@)) ==> ok_count(
                            results@,
                        ) >= 1,
                        emails_normalized(orig.store) ==> emails_normalized(self@.store),
                    decreases end - j,
                {
                    let req = processed[j].duplicate();
                    let ghost before = results@;
                    let ghost store_before = self@.store;
                    let r = self.create_user(req);
                    results.push(r);
                    proof {
                        assert(results@.drop_last() =~= before);
                        if r is Ok {
                            let u = r->Ok_0;
                            assert(self@.store.dom() =~= store_before.dom().insert(u@.id));
                        }
                        if orig.store.dom().len() == 0 && ok_count(before) == 0 && valid_create(
                            processed@[j as int]@,
                        ) {
                            assert(store_before.dom().len() == 0);
                            assert(r is Ok);
                        }
                        assert forall|k: Seq<char>| #[trigger] orig.store.contains_key(k) implies
                            self@.store.contains_key(k) && self@.store[k] == orig.store[k] by {
                            assert(store_before.contains_key(k));
                        }
                        assert forall|i: int| 0 <= i < results@.len() implies pipeline_outcome(
                            #[trigger] results@[i],
                            processed@[i]@,
                            self@.store,
                        ) by {
                            if i < results@.len() - 1 {
                                assert(results@[i] == before[i]);
                                assert(pipeline_outcome(results@[i], processed@[i]@, store_before));
                            }
                        }
                    }
                    j = j + 1;
                }
                start = end;
            }
            proof {
                if orig.store.dom().len() == 0 && exists|t: int|
                    0 <= t < reqv.len() && valid_create(
                        spec_transform((#[trigger] reqv[t])@),
                    ) {
                    let t = choose|t: int|
                        0 <= t < reqv.len() && valid_create(
                            spec_transform((#[trigger] reqv[t])@),
                        );
                    assert(processed@[t]@ == spec_transform(reqv[t]@));
                    assert(exists|q: int|
                        0 <= q < n && valid_create((#[trigger] processed@[q])@));
                }
            }
        }
        self.bump_stat(StatCategory::Parallel);
        results
    }

    /// A burst of five synthetic creations ("Fast User 0" through "Fast
    /// User 4"), all valid: every record the burst adds carries one of the
    /// five fixed requests, each addition is recorded as a create, and on
    /// an empty store at least one record is added (the first identifier
    /// cannot collide there).
    pub fn fast_concurrent_operations(&mut self) -> (r: Result<(), DatabaseError>)
        requires
            old(self).wf(),
        ensures
            final(self).wf(),
            r is Ok,
            old(self)@.last_ts <= final(self)@.last_ts,
            forall|k: Seq<char>|
                #[trigger] old(self)@.store.contains_key(k) ==> final(self)@.store.contains_key(k)
                    && final(self)@.store[k] == old(self)@.store[k],
            forall|k: Seq<char>|
                !old(self)@.store.contains_key(k) && #[trigger] final(self)@.store.contains_key(k)
                    ==> exists|t: int|
                    0 <= t < 5 && record_matches_create(
                        final(self)@.store[k],
                        #[trigger] fast_request_view(t),
                    ),
            exists|n: nat|
                n <= 5 && final(self)@.stats == bump_many(
                    old(self)@.stats,
                    StatCategory::Create,
                    n,
                ) && final(self)@.store.dom().len() == old(self)@.store.dom().len() + n && (old(
                    self,
                )@.store.dom().len() == 0 ==> n >= 1),
            emails_normalized(old(self)@.store) ==> emails_normalized(final(self)@.store),
    {
        let ghost orig = self@;
        let ghost mut created: nat = 0;
        let mut i: u64 = 0;
        while i < 5
            invariant
                self.wf(),
                0 <= i <= 5,
                created <= i,
                orig.last_ts <= self@.last_ts,
                orig.store.dom().finite(),
                forall|k: Seq<char>|
                    #[trigger] orig.store.contains_key(k) ==> self@.store.contains_key(k)
                        && self@.store[k] == orig.store[k],
                forall|k: Seq<char>|
                    !orig.store.contains_key(k) && #[trigger] self@.store.contains_key(k)
                        ==> exists|t: int|
                        0 <= t < 5 && record_matches_create(
                            self@.store[k],
                            #[trigger] fast_request_view(t),
                        ),
                self@.stats == bump_many(orig.stats, StatCategory::Create, created),
                self@.store.dom().len() == orig.store.dom().len() + created,
                orig.store.dom().len() == 0 && i > 0 ==> created >= 1,
                emails_normalized(orig.store) ==> emails_normalized(self@.store),
            decreases 5 - i,
        {
            let req = synth_request("Fast User ", "fast", i, 20 + (i as u8));
            proof {
                reveal_strlit("Fast User ");
                reveal_strlit("@demo.com");
                assert(req@ == fast_request_view(i as int));
                let pre = "fast"@ + dec_digits(i as nat);
                assert(req@.email == pre + "@demo.com"@);
                assert(req@.email[pre.len() as int] == '@');
                assert(valid_create(req@));
            }
            let ghost store_before = self@.store;
            let r = self.create_user(req);
            proof {
                if r is Ok {
                    let u = r->Ok_0;
                    assert(self@.store.dom() =~= store_before.dom().insert(u@.id));
                    assert(record_matches_create(u@, fast_request_view(i as int)));
                    created = created + 1;
                } else {
                    assert(store_before.dom().len() > 0);
                }
                assert forall|k: Seq<char>| #[trigger] orig.store.contains_key(k) implies
                    self@.store.contains_key(k) && self@.store[k] == orig.store[k] by {
                    assert(store_before.contains_key(k));
                }
                assert forall|k: Seq<char>|
                    !orig.store.contains_key(k) && #[trigger] self@.store.contains_key(k)
                        implies exists|t: int|
                        0 <= t < 5 && record_matches_create(
                            self@.store[k],
                            #[trigger] fast_request_view(t),
                        ) by {
                    if store_before.contains_key(k) {
                        assert(self@.store[k] == store_before[k]);
                    } else {
                        assert(r is Ok);
                        let u = r->Ok_0;
                        assert(k == u@.id);
                        assert(record_matches_create(self@.store[k], fast_request_view(i as int)));
                    }
                }
            }
            i = i + 1;
        }
        Ok(())
    }

    /// Synthetic bulk insertion: generates `count` requests, uppercases
    /// their names through the parallel transform stage, and creates them
    /// all; every record it adds carries one of the transformed synthetic
    /// requests, each addition is recorded as a create, and on an empty
    /// store with `count > 0` at least one record is added.
    pub fn bulk_insert_concurrent(&mut self, count: usize) -> (r: Result<(), DatabaseError>)
        requires
            old(self).wf(),
        ensures
            final(self).wf(),
            r is Ok,
            old(self)@.last_ts <= final(self)@.last_ts,
            forall|k: Seq<char>|
                #[trigger] old(self)@.store.contains_key(k) ==> final(self)@.store.contains_key(k)
                    && final(self)@.store[k] == old(self)@.store[k],
            forall|k: Seq<char>|
                !old(self)@.store.contains_key(k) && #[trigger] final(self)@.store.contains_key(k)
                    ==> exists|t: int|
                    0 <= t < count && record_matches_create(
                        final(self)@.store[k],
                        #[trigger] spec_transform(synth_request_view(t)),
                    ),
            exists|n: nat|
                n <= count && final(self)@.stats == bump_many(
                    old(self)@.stats,
                    StatCategory::Create,
                    n,
                ) && final(self)@.store.dom().len() == old(self)@.store.dom().len() + n && (old(
                    self,
                )@.store.dom().len() == 0 && count > 0 ==> n >= 1),
            emails_normalized(old(self)@.store) ==> emails_normalized(final(self)@.store),
    {
        let ghost orig = self@;
        let mut requests: Vec<CreateUserRequest> = Vec::new();
        let mut i: usize = 0;
        while i < count
            invariant
                0 <= i <= count,
                requests@.len() == i,
                forall|t: int|
                    0 <= t < i ==> (#[trigger] requests@[t])@ == synth_request_view(t),
            decreases count - i,
        {
            let req = synth_request("BulkConcurrent ", "bulk", i as u64, 20 + ((i % 80) as u8));
            proof {
                assert(req@ == synth_request_view(i as int));
            }
            requests.push(req);
            i = i + 1;
        }
        let ghost reqv = requests@;
        let processed = par_transform(requests);
        proof {
            reveal_strlit("BulkConcurrent ");
            assert forall|t: int| 0 <= t < count implies (#[trigger] processed@[t])@
                == spec_transform(synth_request_view(t)) && processed@[t]@.name.len() > 0 by {
                assert(reqv[t]@ == synth_request_view(t));
                assert(reqv[t]@.name.len() > 0);
            }
        }
        let ghost mut created: nat = 0;
        let mut j: usize = 0;
        while j < processed.len()
            invariant
                self.wf(),
                0 <= j <= processed.len(),
                processed.len() == count,
                created <= j,
                orig.last_ts <= self@.last_ts,
                orig.store.dom().finite(),
                forall|t: int|
                    0 <= t < count ==> (#[trigger] processed@[t])@ == spec_transform(
                        synth_request_view(t),
                    ) && processed@[t]@.name.len() > 0,
                forall|k: Seq<char>|
                    #[trigger] orig.store.contains_key(k) ==> self@.store.contains_key(k)
                        && self@.store[k] == orig.store[k],
                forall|k: Seq<char>|
                    !orig.store.contains_key(k) && #[trigger] self@.store.contains_key(k)
                        ==> exists|t: int|
                        0 <= t < count && record_matches_create(
                            self@.store[k],
                            #[trigger] spec_transform(synth_request_view(t)),
                        ),
                self@.stats == bump_many(orig.stats, StatCategory::Create, created),
                self@.store.dom().len() == orig.store.dom().len() + created,
                orig.store.dom().len() == 0 && j > 0 ==> created >= 1,
                emails_normalized(orig.store) ==> emails_normalized(self@.store),
            decreases processed.len() - j,
        {
            let req = processed[j].duplicate();
            proof {
                reveal_strlit("@demo.com");
                assert(req@ == spec_transform(synth_request_view(j as int)));
                let pre = "bulk"@ + dec_digits(j as nat);
                assert(req@.email == pre + "@demo.com"@);
                assert(req@.email[pre.len() as int] == '@');
                assert(valid_create(req@));
            }
            let ghost store_before = self@.store;
            let r = self.create_user(req);
            proof {
                if r is Ok {
                    let u = r->Ok_0;
                    assert(self@.store.dom() =~= store_before.dom().insert(u@.id));
                    assert(record_matches_create(u@, spec_transform(synth_request_view(j as int))));
                    created = created + 1;
                } else {
                    assert(store_before.dom().len() > 0);
                }
                assert forall|k: Seq<char>| #[trigger] orig.store.contains_key(k) implies
                    self@.store.contains_key(k) && self@.store[k] == orig.store[k] by {
                    assert(store_before.contains_key(k));
                }
                assert forall|k: Seq<char>|
                    !orig.store.contains_key(k) && #[trigger] self@.store.contains_key(k)
                        implies exists|t: int|
                        0 <= t < count && record_matches_create(
                            self@.store[k],
                            #[trigger] spec_transform(synth_request_view(t)),
                        ) by {
                    if store_before.contains_key(k) {
                        assert(self@.store[k] == store_before[k]);
                    } else {
                        assert(r is Ok);
                        let u = r->Ok_0;
                        assert(k == u@.id);
                        assert(record_matches_create(
                            self@.store[k],
                            spec_transform(synth_request_view(j as int)),
                        ));
                    }
                }
            }
            j = j + 1;
        }
        Ok(())
    }
}

/// A synthetic creation request: a numbered name and a numbered email under
/// the demo domain.
fn synth_request(name_prefix: &str, email_prefix: &str, i: u64, age: u8) -> (r: CreateUserRequest)
    ensures
        r@.name == name_prefix@ + dec_digits(i as nat),
        r@.email == email_prefix@ + dec_digits(i as nat) + "@demo.com"@,
        r@.age == age,
{
    let mut name = name_prefix.to_owned();
    push_dec_u64(&mut name, i);
    let mut email = email_prefix.to_owned();
    push_dec_u64(&mut email, i);
    email.append("@demo.com");
    CreateUserRequest { name, email, age }
}

} // verus!

//! The CRUD service: validation, store access and statistics, with exact
//! contracts over the service's abstract state.

use vstd::prelude::*;
use vstd::string::StringExecFns;
use crate::types::{
    User, CreateUserRequest, UpdateUserRequest, DatabaseError, ServiceStats, StatCategory,
    stats_zero, views_of,
};
use crate::model::{
    UserView, ErrorView, valid_create, validation_msg, new_record, apply_update, matches_lowered,
    is_snapshot, empty_store, emails_normalized,
};
use crate::store::{
    StoreMap, store_contents, store_new, store_get, store_insert, store_remove, store_values,
};
use crate::sysgen::{fresh_id, wall_clock_millis};
use crate::textops::{to_lowercase, contains_char, lower_of};
use crate::par::par_filter_matches;

verus! {

/// The service's abstract state: the store's map, the counters, and the
/// clock floor under which no new timestamp is issued.
pub ghost struct ServiceView {
    pub store: Map<Seq<char>, UserView>,
    pub stats: ServiceStats,
    pub last_ts: u64,
}

/// The statistics are coherent: the total counts each categorized
/// operation exactly once.
pub open spec fn stats_consistent(s: ServiceStats) -> bool {
    s.total_operations == s.create_count + s.read_count + s.update_count + s.delete_count
        + s.parallel_operations
}

/// Recording one operation: the total and the category's counter step
/// together; once the total is saturated, the counters stop moving as one.
pub open spec fn bump(s: ServiceStats, c: StatCategory) -> ServiceStats {
    if s.total_operations == u64::MAX {
        s
    } else {
        let t = ServiceStats { total_operations: (s.total_operations + 1) as u64, ..s };
        match c {
            StatCategory::Create => ServiceStats { create_count: (s.create_count + 1) as u64, ..t },
            StatCategory::Read => ServiceStats { read_count: (s.read_count + 1) as u64, ..t },
            StatCategory::Update => ServiceStats { update_count: (s.update_count + 1) as u64, ..t },
            StatCategory::Delete => ServiceStats { delete_count: (s.delete_count + 1) as u64, ..t },
            StatCategory::Parallel => ServiceStats {
                parallel_operations: (s.parallel_operations + 1) as u64,
                ..t
            },
        }
    }
}

/// `n` operations of one category recorded in sequence.
pub open spec fn bump_many(s: ServiceStats, c: StatCategory, n: nat) -> ServiceStats
    decreases n,
{
    if n == 0 {
        s
    } else {
        bump(bump_many(s, c, (n - 1) as nat), c)
    }
}

/// Well-formedness of a service state: the store's key set is finite, every
/// record is keyed by its own identifier, record timestamps are ordered and
/// never ahead of the service clock, and the statistics are coherent.
pub open spec fn inv_state(v: ServiceView) -> bool {
    &&& v.store.dom().finite()
    &&& forall|k: Seq<char>| v.store.contains_key(k) ==> (#[trigger] v.store[k]).id == k
    &&& forall|k: Seq<char>|
        v.store.contains_key(k) ==> (#[trigger] v.store[k]).created_at <= v.store[k].updated_at
            <= v.last_ts
    &&& stats_consistent(v.stats)
}

/// The in-memory record service.
pub struct UserService {
    db: StoreMap,
    stats: ServiceStats,
    last_ts: u64,
}

impl View for UserService {
    type V = ServiceView;

    closed spec fn view(&self) -> ServiceView {
        ServiceView { store: store_contents(self.db), stats: self.stats, last_ts: self.last_ts }
    }
}

impl UserService {
    /// The service state is well-formed.
    pub open spec fn wf(&self) -> bool {
        inv_state(self@)
    }

    /// A fresh service: no records, zeroed counters, clock floor zero.
    pub fn new() -> (s: Self)
        ensures
            s@.store == empty_store(),
            s@.stats == stats_zero(),
            s@.last_ts == 0,
    {
        UserService { db: store_new(), stats: ServiceStats::zeroed(), last_ts: 0 }
    }

    /// A fresh service is well-formed.
    pub proof fn lemma_new_wf(v: ServiceView)
        requires
            v.store == empty_store(),
            v.stats == stats_zero(),
        ensures
            inv_state(v),
    {
    }

    /// Issues the next timestamp: the wall clock, forced monotone by the
    /// service's clock floor.
    fn tick(&mut self) -> (t: u64)
        ensures
            old(self)@.last_ts <= t,
            final(self)@ == (ServiceView { last_ts: t, ..old(self)@ }),
    {
        let raw = wall_clock_millis();
        let now: u64 = if raw < 0 {
            0u64
        } else {
            raw as u64
        };
        let t: u64 = if now < self.last_ts {
            self.last_ts
        } else {
            now
        };
        self.last_ts = t;
        t
    }

    /// Records one operation in the statistics.
    pub(crate) fn bump_stat(&mut self, c: StatCategory)
        requires
            stats_consistent(old(self)@.stats),
        ensures
            final(self)@ == (ServiceView { stats: bump(old(self)@.stats, c), ..old(self)@ }),
    {
        if self.stats.total_operations < u64::MAX {
            self.stats.total_operations = self.stats.total_operations + 1;
            match c {
                StatCategory::Create => {
                    self.stats.create_count = self.stats.create_count + 1;
                },
                StatCategory::Read => {
                    self.stats.read_count = self.stats.read_count + 1;
                },
                StatCategory::Update => {
                    self.stats.update_count = self.stats.update_count + 1;
                },
                StatCategory::Delete => {
                    self.stats.delete_count = self.stats.delete_count + 1;
                },
                StatCategory::Parallel => {
                    self.stats.parallel_operations = self.stats.parallel_operations + 1;
                },
            }
        }
    }

    /// The validation stage: non-empty name, an '@' in the email, age within
    /// [13, 120]; checked in that order, first failure wins.
    fn validate_user_data(&self, req: &CreateUserRequest) -> (r: Result<(), DatabaseError>)
        ensures
            r is Ok <==> valid_create(req@),
            r matches Err(e) ==> e@ == ErrorView::Validation(validation_msg(req@)),
    {
        if req.name.as_str().is_empty() {
            return Err(DatabaseError::ValidationError(String::from_str("Name cannot be empty")));
        }
        if !contains_char(req.email.as_str(), '@') {
            return Err(DatabaseError::ValidationError(String::from_str("Invalid email format")));
        }
        if req.age < 13 || req.age > 120 {
            return Err(
                DatabaseError::ValidationError(
                    String::from_str("Age must be between 13 and 120"),
                ),
            );
        }
        Ok(())
    }

    /// Creation under a caller-supplied identifier: succeeds exactly when
    /// the request is valid and the identifier is free; the stored record
    /// carries the request's data with the email normalized and equal
    /// timestamps.
    pub fn create_user_with_id(&mut self, id: String, req: CreateUserRequest) -> (r: Result<
        User,
        DatabaseError,
    >)
        requires
            old(self).wf(),
        ensures
            final(self).wf(),
            r is Ok <==> valid_create(req@) && !old(self)@.store.contains_key(id@),
            r matches Ok(u) ==> ({
                &&& u@ == new_record(id@, req@, final(self)@.last_ts)
                &&& old(self)@.last_ts <= final(self)@.last_ts
                &&& lower_of(u@.email) == u@.email
                &&& final(self)@.store == old(self)@.store.insert(id@, u@)
                &&& final(self)@.stats == bump(old(self)@.stats, StatCategory::Create)
            }),
            !valid_create(req@) ==> (r matches Err(e) && e@ == ErrorView::Validation(
                validation_msg(req@),
            ) && final(self)@ == old(self)@),
            valid_create(req@) && old(self)@.store.contains_key(id@) ==> (r matches Err(e) && e@
                == ErrorView::AlreadyExists && final(self)@ == old(self)@),
            emails_normalized(old(self)@.store) ==> emails_normalized(final(self)@.store),
    {
        if let Err(e) = self.validate_user_data(&req) {
            return Err(e);
        }
        if store_get(&self.db, id.as_str()).is_some() {
            return Err(DatabaseError::UserAlreadyExists);
        }
        let t = self.tick();
        let email = to_lowercase(req.email.as_str());
        let user = User {
            id: id.clone(),
            name: req.name,
            email,
            age: req.age,
            created_at: t,
            updated_at: t,
        };
        let result = user.duplicate();
        let ghost before = self@.store;
        store_insert(&mut self.db, id, user);
        self.bump_stat(StatCategory::Create);
        proof {
            if emails_normalized(old(self)@.store) {
                assert forall|k: Seq<char>| self@.store.contains_key(k) implies lower_of(
                    (#[trigger] self@.store[k]).email,
                ) == self@.store[k].email by {
                    if self@.store[k] != result@ {
                        assert(before.contains_key(k) && before[k] == self@.store[k]);
                    }
                }
            }
        }
        Ok(result)
    }

    /// Creation under a freshly generated identifier. Success is owed for a
    /// valid request unless the generated identifier collides with a live
    /// record, in which case the collision is reported, never absorbed.
    pub fn create_user(&mut self, req: CreateUserRequest) -> (r: Result<User, DatabaseError>)
        requires
            old(self).wf(),
        ensures
            final(self).wf(),
            r matches Ok(u) ==> ({
                &&& valid_create(req@)
                &&& !old(self)@.store.contains_key(u@.id)
                &&& u@ == new_record(u@.id, req@, final(self)@.last_ts)
                &&& old(self)@.last_ts <= final(self)@.last_ts
                &&& lower_of(u@.email) == u@.email
                &&& final(self)@.store == old(self)@.store.insert(u@.id, u@)
                &&& final(self)@.stats == bump(old(self)@.stats, StatCategory::Create)
            }),
            !valid_create(req@) ==> (r matches Err(e) && e@ == ErrorView::Validation(
                validation_msg(req@),
            ) && final(self)@ == old(self)@),
            valid_create(req@) && r is Err ==> (r matches Err(e) && e@ == ErrorView::AlreadyExists
                && final(self)@ == old(self)@ && old(self)@.store.dom().len() > 0),
            emails_normalized(old(self)@.store) ==> emails_normalized(final(self)@.store),
    {
        let id = fresh_id();
        let ghost idv = id@;
        let r = self.create_user_with_id(id, req);
        proof {
            if valid_create(req@) && r is Err {
                assert(old(self)@.store.contains_key(idv));
                if old(self)@.store.dom().len() == 0 {
                    old(self)@.store.dom().lemma_len0_is_empty();
                }
            }
        }
        r
    }

    /// A read: the record under the identifier, or `NotFound`; the read
    /// counters move on success only.
    pub fn get_user(&mut self, id: &str) -> (r: Result<User, DatabaseError>)
        requires
            old(self).wf(),
        ensures
            final(self).wf(),
            r is Ok <==> old(self)@.store.contains_key(id@),
            r matches Ok(u) ==> u@ == old(self)@.store[id@] && final(self)@ == (ServiceView {
                stats: bump(old(self)@.stats, StatCategory::Read),
                ..old(self)@
            }),
            r matches Err(e) ==> e@ == ErrorView::NotFound && final(self)@ == old(self)@,
    {
        match store_get(&self.db, id) {
            Some(u) => {
                self.bump_stat(StatCategory::Read);
                Ok(u)
            },
            None => Err(DatabaseError::UserNotFound),
        }
    }

    /// An update: present fields overwrite (the email normalized), absent
    /// fields stay, `updated_at` refreshes; fails `NotFound` on a missing
    /// identifier with nothing changed.
    pub fn update_user(&mut self, id: &str, req: UpdateUserRequest) -> (r: Result<
        User,
        DatabaseError,
    >)
        requires
            old(self).wf(),
        ensures
            final(self).wf(),
            r is Ok <==> old(self)@.store.contains_key(id@),
            r matches Ok(u) ==> ({
                &&& old(self)@.last_ts <= final(self)@.last_ts
                &&& u@ == apply_update(old(self)@.store[id@], req@, final(self)@.last_ts)
                &&& final(self)@.store == old(self)@.store.insert(id@, u@)
                &&& final(self)@.stats == bump(old(self)@.stats, StatCategory::Update)
                &&& (req@.email is Some ==> lower_of(u@.email) == u@.email)
            }),
            r matches Err(e) ==> e@ == ErrorView::NotFound && final(self)@ == old(self)@,
            emails_normalized(old(self)@.store) ==> emails_normalized(final(self)@.store),
    {
        let cur = match store_get(&self.db, id) {
            Some(u) => u,
            None => {
                return Err(DatabaseError::UserNotFound);
            },
        };
        let name = match req.name {
            Some(n) => n,
            None => cur.name,
        };
        let email = match req.email {
            Some(e) => to_lowercase(e.as_str()),
            None => cur.email,
        };
        let age = match req.age {
            Some(a) => a,
            None => cur.age,
        };
        let t = self.tick();
        let user = User { id: cur.id, name, email, age, created_at: cur.created_at, updated_at: t };
        let key = user.id.clone();
        let result = user.duplicate();
        let ghost before = self@.store;
        store_insert(&mut self.db, key, user);
        self.bump_stat(StatCategory::Update);
        proof {
            if emails_normalized(old(self)@.store) {
                assert forall|k: Seq<char>| self@.store.contains_key(k) implies lower_of(
                    (#[trigger] self@.store[k]).email,
                ) == self@.store[k].email by {
                    if self@.store[k] != result@ {
                        assert(before.contains_key(k) && before[k] == self@.store[k]);
                    } else {
                        assert(lower_of(result@.email) == result@.email);
                    }
                }
            }
        }
        Ok(result)
    }

    /// A delete: removes and returns the record, or fails `NotFound` with
    /// nothing changed.
    pub fn delete_user(&mut self, id: &str) -> (r: Result<User, DatabaseError>)
        requires
            old(self).wf(),
        ensures
            final(self).wf(),
            r is Ok <==> old(self)@.store.contains_key(id@),
            r matches Ok(u) ==> u@ == old(self)@.store[id@] && final(self)@ == (ServiceView {
                store: old(self)@.store.remove(id@),
                stats: bump(old(self)@.stats, StatCategory::Delete),
                ..old(self)@
            }),
            r matches Err(e) ==> e@ == ErrorView::NotFound && final(self)@ == old(self)@,
            emails_normalized(old(self)@.store) ==> emails_normalized(final(self)@.store),
    {
        match store_remove(&mut self.db, id) {
            Some(u) => {
                self.bump_stat(StatCategory::Delete);
                Ok(u)
            },
            None => {
                proof {
                    assert(old(self)@.store.remove(id@) =~= old(self)@.store);
                }
                Err(DatabaseError::UserNotFound)
            },
        }
    }

    /// A snapshot of all live records, in no particular order; counted as
    /// one read.
    pub fn list_users(&mut self) -> (r: Result<Vec<User>, DatabaseError>)
        requires
            old(self).wf(),
        ensures
            final(self).wf(),
            r is Ok,
            r matches Ok(v) ==> is_snapshot(old(self)@.store, views_of(v@)) && final(self)@
                == (ServiceView { stats: bump(old(self)@.stats, StatCategory::Read), ..old(self)@ }),
    {
        let users = store_values(&self.db);
        proof {
            let m = old(self)@.store;
            let s = views_of(users@);
            assert forall|i: int| 0 <= i < s.len() implies m.contains_key((#[trigger] s[i]).id)
                && m[s[i].id] == s[i] by {
                assert(s[i] == users@[i]@);
                let k = choose|k: Seq<char>| m.contains_key(k) && m[k] == users@[i]@;
                assert(m[k].id == k);
            }
            assert forall|k: Seq<char>| m.contains_key(k) implies exists|i: int|
                0 <= i < s.len() && #[trigger] s[i] == m[k] by {
                let i = choose|i: int| 0 <= i < users@.len() && (#[trigger] users@[i])@ == m[k];
                assert(s[i] == m[k]);
            }
        }
        self.bump_stat(StatCategory::Read);
        Ok(users)
    }

    /// Case-insensitive substring search over names and emails, evaluated
    /// on a snapshot; returns the matching records in any order, counted as
    /// one read.
    #[verifier::rlimit(60)]
    pub fn search_users_parallel(&mut self, query: &str) -> (r: Result<Vec<User>, DatabaseError>)
        requires
            old(self).wf(),
        ensures
            final(self).wf(),
            r is Ok,
            final(self)@ == (ServiceView {
                stats: bump(old(self)@.stats, StatCategory::Read),
                ..old(self)@
            }),
            r matches Ok(v) ==> (forall|j: int|
                0 <= j < v@.len() ==> matches_lowered((#[trigger] v@[j])@, lower_of(query@))
                    && old(self)@.store.contains_key(v@[j]@.id) && old(self)@.store[v@[j]@.id]
                    == v@[j]@),
            r matches Ok(v) ==> (forall|k: Seq<char>|
                old(self)@.store.contains_key(k) && matches_lowered(
                    old(self)@.store[k],
                    lower_of(query@),
                ) ==> #[trigger] views_of(v@).contains(old(self)@.store[k])),
    {
        let users = match self.list_users() {
            Ok(u) => u,
            Err(e) => {
                return Err(e);
            },
        };
        let ql = to_lowercase(query);
        let found = par_filter_matches(users, &ql);
        proof {
            let s = views_of(users@);
            assert forall|j: int| 0 <= j < found@.len() implies matches_lowered(
                (#[trigger] found@[j])@,
                lower_of(query@),
            ) && old(self)@.store.contains_key(found@[j]@.id) && old(self)@.store[found@[j]@.id]
                == found@[j]@ by {
                let i = choose|i: int| 0 <= i < users@.len() && users@[i]@ == found@[j]@;
                assert(s[i] == users@[i]@);
            }
            assert forall|k: Seq<char>|
                old(self)@.store.contains_key(k) && matches_lowered(
                    old(self)@.store[k],
                    lower_of(query@),
                ) implies #[trigger] views_of(found@).contains(old(self)@.store[k]) by {
                let i = choose|i: int| 0 <= i < s.len() && #[trigger] s[i] == old(self)@.store[k];
                assert(users@[i]@ == old(self)@.store[k]);
                assert(matches_lowered(users@[i]@, ql@));
                let j = choose|j: int| 0 <= j < found@.len() && found@[j]@ == users@[i]@;
                assert(views_of(found@)[j] == old(self)@.store[k]);
            }
        }
        Ok(found)
    }

    /// A consistent copy of the counters.
    pub fn get_stats(&self) -> (r: ServiceStats)
        ensures
            r == self@.stats,
    {
        self.stats
    }
}

} // verus!

//! CSV export and best-effort import: the mapping between records, rows and
//! creation requests is verified; the CSV framing itself is the trusted
//! adapter in `csvio`.

use vstd::prelude::*;
use vstd::string::StringExecFns;
use crate::types::{User, CreateUserRequest, DatabaseError, StatCategory, views_of};
use crate::model::{
    UserView, CreateView, valid_create, count_valid, record_matches_create, is_snapshot,
    emails_normalized,
};
use crate::numfmt::{dec_digits, dec_value, all_digits, u64_to_string, parse_u8};
use crate::csvio::{csv_bytes_of, csv_rows_of, rectangular, bom_safe, csv_encode, csv_decode};
use crate::service::{UserService, ServiceView, bump, bump_many};

verus! {

/// The export header: the six record fields, in order.
pub open spec fn header_row() -> Seq<Seq<char>> {
    seq!["id"@, "name"@, "email"@, "age"@, "created_at"@, "updated_at"@]
}

/// One record as an export row, numbers in decimal.
pub open spec fn row_of_record(u: UserView) -> Seq<Seq<char>> {
    seq![
        u.id,
        u.name,
        u.email,
        dec_digits(u.age as nat),
        dec_digits(u.created_at as nat),
        dec_digits(u.updated_at as nat),
    ]
}

/// The whole export table: the header, then one row per record.
pub open spec fn export_rows(s: Seq<UserView>) -> Seq<Seq<Seq<char>>> {
    seq![header_row()] + s.map_values(|u: UserView| row_of_record(u))
}

/// The first column of `h` named `name`, searching from position `i`.
pub open spec fn find_col_from(h: Seq<Seq<char>>, name: Seq<char>, i: int) -> Option<int>
    decreases h.len() - i,
{
    if i < 0 || i >= h.len() {
        None
    } else if h[i] == name {
        Some(i)
    } else {
        find_col_from(h, name, i + 1)
    }
}

/// The first column of `h` named `name`.
pub open spec fn find_col(h: Seq<Seq<char>>, name: Seq<char>) -> Option<int> {
    find_col_from(h, name, 0)
}

/// One import row as a creation request, given the name, email and age
/// column positions: all three cells must exist and the age must be a
/// decimal number of at most 255.
pub open spec fn parse_row(row: Seq<Seq<char>>, ni: int, ei: int, ai: int) -> Option<CreateView> {
    if 0 <= ni < row.len() && 0 <= ei < row.len() && 0 <= ai < row.len() {
        let a = row[ai];
        if a.len() > 0 && all_digits(a) && dec_value(a) <= 255 {
            Some(CreateView { name: row[ni], email: row[ei], age: dec_value(a) as u8 })
        } else {
            None
        }
    } else {
        None
    }
}

/// The whole import: the first row names the columns (which must include
/// name, email and age), every later row becomes a creation request, and
/// one malformed row fails the whole import.
pub open spec fn parse_requests(rows: Seq<Seq<Seq<char>>>) -> Option<Seq<CreateView>> {
    if rows.len() == 0 {
        Some(Seq::empty())
    } else {
        let ni = find_col(rows[0], "name"@);
        let ei = find_col(rows[0], "email"@);
        let ai = find_col(rows[0], "age"@);
        if ni is Some && ei is Some && ai is Some {
            let body = rows.drop_first();
            if forall|i: int|
                0 <= i < body.len() ==> parse_row(#[trigger] body[i], ni->0, ei->0, ai->0)
                    is Some {
                Some(Seq::new(body.len(), |i: int| parse_row(body[i], ni->0, ei->0, ai->0)->0))
            } else {
                None
            }
        } else {
            None
        }
    }
}

/// The first column of `h` whose text equals `name`, under `find_col`'s
/// specification.
fn find_col_exec(h: &Vec<String>, name: &str) -> (r: Option<usize>)
    ensures
        match r {
            Some(i) => find_col(h.deep_view(), name@) == Some(i as int),
            None => find_col(h.deep_view(), name@) is None,
        },
{
    let mut i: usize = 0;
    while i < h.len()
        invariant
            0 <= i <= h@.len(),
            find_col(h.deep_view(), name@) == find_col_from(h.deep_view(), name@, i as int),
        decreases h@.len() - i,
    {
        proof {
            assert(h.deep_view()[i as int] == h@[i as int]@);
        }
        if h[i].as_str().eq(name) {
            return Some(i);
        }
        i = i + 1;
    }
    None
}

/// One record as an export row of fresh strings.
fn row_of_user(u: &User) -> (r: Vec<String>)
    ensures
        r.deep_view() == row_of_record(u@),
{
    let mut row: Vec<String> = Vec::new();
    row.push(u.id.clone());
    row.push(u.name.clone());
    row.push(u.email.clone());
    row.push(u64_to_string(u.age as u64));
    row.push(u64_to_string(u.created_at));
    row.push(u64_to_string(u.updated_at));
    proof {
        assert(row.deep_view() =~= row_of_record(u@));
    }
    row
}

/// The export header as fresh strings.
fn header_row_exec() -> (r: Vec<String>)
    ensures
        r.deep_view() == header_row(),
{
    let mut row: Vec<String> = Vec::new();
    row.push(String::from_str("id"));
    row.push(String::from_str("name"));
    row.push(String::from_str("email"));
    row.push(String::from_str("age"));
    row.push(String::from_str("created_at"));
    row.push(String::from_str("updated_at"));
    proof {
        assert(row.deep_view() =~= header_row());
    }
    row
}

impl UserService {
    /// Exports the whole record set as CSV bytes: a header row, then one
    /// row per record in snapshot order; the bytes parse back to exactly
    /// that table. Counted as one read.
    pub fn bulk_save_to_csv(&mut self) -> (r: Result<Vec<u8>, DatabaseError>)
        requires
            old(self).wf(),
        ensures
            final(self).wf(),
            r is Ok,
            final(self)@ == (ServiceView {
                stats: bump(old(self)@.stats, StatCategory::Read),
                ..old(self)@
            }),
            r matches Ok(bytes) ==> exists|s: Seq<UserView>|
                #[trigger] is_snapshot(old(self)@.store, s) && bytes@ == csv_bytes_of(
                    export_rows(s),
                ) && csv_rows_of(bytes@) == Some(export_rows(s)),
    {
        let users = match self.list_users() {
            Ok(u) => u,
            Err(e) => {
                return Err(e);
            },
        };
        let mut rows: Vec<Vec<String>> = Vec::new();
        rows.push(header_row_exec());
        let mut i: usize = 0;
        while i < users.len()
            invariant
                0 <= i <= users@.len(),
                rows@.len() == i + 1,
                rows.deep_view()[0] == header_row(),
                forall|j: int|
                    1 <= j <= i ==> #[trigger] rows.deep_view()[j] == row_of_record(
                        users@[j - 1]@,
                    ),
            decreases users@.len() - i,
        {
            let row = row_of_user(&users[i]);
            let ghost rv = row.deep_view();
            let ghost prev = rows@;
            let ghost prevdv = rows.deep_view();
            rows.push(row);
            proof {
                assert(rows.deep_view()[i + 1] == rv);
                assert(rows.deep_view()[0] == prevdv[0]);
                assert forall|j: int| 1 <= j <= i + 1 implies #[trigger] rows.deep_view()[j]
                    == row_of_record(users@[j - 1]@) by {
                    if j <= i {
                        assert(rows@[j] == prev[j]);
                        assert(rows.deep_view()[j] == prevdv[j]);
                    }
                }
            }
            i = i + 1;
        }
        proof {
            let table = export_rows(views_of(users@));
            assert forall|k: int| 0 <= k < rows.deep_view().len() implies rows.deep_view()[k]
                == table[k] by {
                if k > 0 {
                    assert(rows.deep_view()[k] == row_of_record(users@[k - 1]@));
                    assert(views_of(users@)[k - 1] == users@[k - 1]@);
                }
            }
            assert(rows.deep_view() =~= table);
            assert forall|k: int| 0 <= k < rows.deep_view().len() implies (
            #[trigger] rows.deep_view()[k]).len() == 6 by {
                if k > 0 {
                    assert(rows.deep_view()[k] == row_of_record(users@[k - 1]@));
                }
            }
            assert(rectangular(rows.deep_view(), 6));
            reveal_strlit("id");
            assert(rows.deep_view()[0][0] == "id"@);
            assert("id"@[0] == 'i');
            assert(bom_safe(rows.deep_view()));
        }
        let bytes = csv_encode(&rows);
        proof {
            assert(is_snapshot(old(self)@.store, views_of(users@)));
        }
        Ok(bytes)
    }

    /// Best-effort import of CSV bytes: the header row names the columns,
    /// every later row becomes a creation request, and one malformed row
    /// aborts the whole import with nothing created; individual creation
    /// failures are deliberately discarded, and the count of records
    /// actually created is returned.
    pub fn bulk_load_from_csv(&mut self, data: &[u8]) -> (r: Result<usize, DatabaseError>)
        requires
            old(self).wf(),
        ensures
            final(self).wf(),
            old(self)@.last_ts <= final(self)@.last_ts,
            forall|k: Seq<char>|
                #[trigger] old(self)@.store.contains_key(k) ==> final(self)@.store.contains_key(k)
                    && final(self)@.store[k] == old(self)@.store[k],
            r is Ok <==> (csv_rows_of(data@) matches Some(rows) && parse_requests(rows) is Some),
            r matches Err(e) ==> e@ is ImportParse && final(self)@ == old(self)@,
            csv_rows_of(data@) matches Some(rows) ==> parse_requests(rows) matches Some(reqs)
                ==> (r matches Ok(n) && ({
                &&& n as nat <= reqs.len()
                &&& final(self)@.store.dom().len() == old(self)@.store.dom().len() + n
                &&& final(self)@.stats == bump_many(
                    old(self)@.stats,
                    StatCategory::Create,
                    n as nat,
                )
                &&& n as nat <= count_valid(reqs)
                &&& (old(self)@.store.dom().len() == 0 && (exists|j: int|
                    0 <= j < reqs.len() && valid_create(#[trigger] reqs[j])) ==> n >= 1)
                &&& forall|k: Seq<char>|
                    !old(self)@.store.contains_key(k)
                        && #[trigger] final(self)@.store.contains_key(k) ==> exists|j: int|
                        0 <= j < reqs.len() && record_matches_create(
                            final(self)@.store[k],
                            #[trigger] reqs[j],
                        )
            })),
            emails_normalized(old(self)@.store) ==> emails_normalized(final(self)@.store),
    {
        let ghost orig = self@;
        let rows = match csv_decode(data) {
            Ok(rows) => rows,
            Err(m) => {
                return Err(DatabaseError::ImportParseError(m));
            },
        };
        let ghost rowsv = rows.deep_view();
        if rows.len() == 0 {
            return Ok(0);
        }
        let header = &rows[0];
        proof {
            assert(rowsv[0] == rows@[0].deep_view());
        }
        let ni = match find_col_exec(header, "name") {
            Some(i) => i,
            None => {
                return Err(
                    DatabaseError::ImportParseError(String::from_str("missing name column")),
                );
            },
        };
        let ei = match find_col_exec(header, "email") {
            Some(i) => i,
            None => {
                return Err(
                    DatabaseError::ImportParseError(String::from_str("missing email column")),
                );
            },
        };
        let ai = match find_col_exec(header, "age") {
            Some(i) => i,
            None => {
                return Err(
                    DatabaseError::ImportParseError(String::from_str("missing age column")),
                );
            },
        };
        let ghost body = rowsv.drop_first();
        let mut reqs: Vec<CreateUserRequest> = Vec::new();
        let mut i: usize = 1;
        while i < rows.len()
            invariant
                old(self).wf(),
                self@ == old(self)@,
                orig == old(self)@,
                1 <= i <= rows@.len(),
                rows@.len() >= 1,
                rowsv == rows.deep_view(),
                csv_rows_of(data@) == Some(rowsv),
                body == rowsv.drop_first(),
                reqs@.len() == i - 1,
                find_col(rowsv[0], "name"@) == Some(ni as int),
                find_col(rowsv[0], "email"@) == Some(ei as int),
                find_col(rowsv[0], "age"@) == Some(ai as int),
                forall|j: int|
                    0 <= j < i - 1 ==> parse_row(#[trigger] body[j], ni as int, ei as int, ai as int)
                        is Some && reqs@[j]@ == parse_row(
                        body[j],
                        ni as int,
                        ei as int,
                        ai as int,
                    )->0,
            decreases rows@.len() - i,
        {
            proof {
                assert(body[i - 1] == rowsv[i as int]);
                assert(rowsv[i as int] == rows@[i as int].deep_view());
            }
            let row = &rows[i];
            if ni >= row.len() || ei >= row.len() || ai >= row.len() {
                proof {
                    assert(parse_row(body[i - 1], ni as int, ei as int, ai as int) is None);
                }
                return Err(DatabaseError::ImportParseError(String::from_str("short row")));
            }
            let age = match parse_u8(row[ai].as_str()) {
                Some(a) => a,
                None => {
                    proof {
                        assert(body[i - 1][ai as int] == row@[ai as int]@);
                        assert(parse_row(body[i - 1], ni as int, ei as int, ai as int) is None);
                    }
                    return Err(DatabaseError::ImportParseError(String::from_str("bad age cell")));
                },
            };
            let req = CreateUserRequest {
                name: row[ni].clone(),
                email: row[ei].clone(),
                age,
            };
            proof {
                assert(body[i - 1][ni as int] == row@[ni as int]@);
                assert(body[i - 1][ei as int] == row@[ei as int]@);
                assert(body[i - 1][ai as int] == row@[ai as int]@);
                assert(req@ == parse_row(body[i - 1], ni as int, ei as int, ai as int)->0);
            }
            reqs.push(req);
            i = i + 1;
        }
        let ghost reqviews = parse_requests(rowsv)->0;
        proof {
            assert(parse_requests(rowsv) is Some);
            assert forall|j: int| 0 <= j < reqs@.len() implies (#[trigger] reqs@[j])@
                == reqviews[j] by {
            }
        }
        let mut created: usize = 0;
        let mut j: usize = 0;
        while j < reqs.len()
            invariant
                self.wf(),
                0 <= j <= reqs@.len(),
                created <= j,
                orig.last_ts <= self@.last_ts,
                orig.store.dom().finite(),
                forall|t: int| 0 <= t < reqs@.len() ==> (#[trigger] reqs@[t])@ == reqviews[t],
                reqviews.len() == reqs@.len(),
                forall|k: Seq<char>|
                    #[trigger] orig.store.contains_key(k) ==> self@.store.contains_key(k)
                        && self@.store[k] == orig.store[k],
                self@.stats == bump_many(orig.stats, StatCategory::Create, created as nat),
                self@.store.dom().len() == orig.store.dom().len() + created,
                forall|k: Seq<char>|
                    !orig.store.contains_key(k) && #[trigger] self@.store.contains_key(k)
                        ==> exists|t: int|
                        0 <= t < reqviews.len() && record_matches_create(
                            self@.store[k],
                            #[trigger] reqviews[t],
                        ),
                created as nat <= count_valid(reqviews.subrange(0, j as int)),
                orig.store.dom().len() == 0 && (exists|t: int|
                    0 <= t < j && valid_create(#[trigger] reqviews[t])) ==> created >= 1,
                emails_normalized(orig.store) ==> emails_normalized(self@.store),
            decreases reqs@.len() - j,
        {
            let req = reqs[j].duplicate();
            let ghost store_before = self@.store;
            let ghost created_before = created;
            let r = self.create_user(req);
            proof {
                let p1 = reqviews.subrange(0, j + 1);
                assert(p1.drop_last() =~= reqviews.subrange(0, j as int));
                assert(p1.last() == reqviews[j as int]);
                if r is Ok {
                    let u = r->Ok_0;
                    assert(self@.store.dom() =~= store_before.dom().insert(u@.id));
                    assert(record_matches_create(u@, reqviews[j as int]));
                    assert(valid_create(reqviews[j as int]));
                }
                if orig.store.dom().len() == 0 && created_before == 0 && valid_create(
                    reqviews[j as int],
                ) {
                    assert(store_before.dom().len() == 0);
                    assert(r is Ok);
                }
                assert forall|k: Seq<char>| #[trigger] orig.store.contains_key(k) implies
                    self@.store.contains_key(k) && self@.store[k] == orig.store[k] by {
                    assert(store_before.contains_key(k));
                }
                assert forall|k: Seq<char>|
                    !orig.store.contains_key(k) && #[trigger] self@.store.contains_key(k)
                        implies exists|t: int|
                        0 <= t < reqviews.len() && record_matches_create(
                            self@.store[k],
                            #[trigger] reqviews[t],
                        ) by {
                    if store_before.contains_key(k) {
                        assert(self@.store[k] == store_before[k]);
                    } else {
                        assert(r is Ok);
                        let u = r->Ok_0;
                        assert(k == u@.id);
                        assert(record_matches_create(self@.store[k], reqviews[j as int]));
                    }
                }
            }
            if r.is_ok() {
                created = created + 1;
            }
            j = j + 1;
        }
        proof {
            assert(reqviews.subrange(0, reqs@.len() as int) =~= reqviews);
        }
        Ok(created)
    }
}

} // verus!

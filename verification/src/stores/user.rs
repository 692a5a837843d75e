//! The user capability: insertion, lookup by id or identity-provider
//! subject, and the paginated users listing.

use vstd::prelude::*;
use crate::Error;
use crate::database::store::{PgOnDemandStore, PgTransactionalStore, StoreContext};
use crate::database::tables::{
    Database, MAX_ID, all_users, db_eq, others_than_users_same, uid_taken, user_id_of,
    user_id_sel, user_key, user_uid_sel,
};
use crate::models::user::{NewUserRow, UserPageToken, UserRow, USER_TOKEN_TAG};
use crate::page_token::{PageToken, PageTokenable, b64_of, spec_token_bytes};
use crate::paging::{
    admit_fn, clamp_page, clamp_page_exec, find_first, key_lt, key_lt_exec, lemma_cursor_suffix,
    lemma_cut_bounds, lemma_find_skip_step, lemma_insert_at, lemma_insert_row_props,
    lemma_sel_compose, lemma_sel_skip_step, lemma_sel_sorted, past_cursor, past_fn, sel_rows,
    sorted_by_key, spec_insert_row, spec_page, spec_start,
};

verus! {

/// The row an insertion produces: store-assigned id, caller's fields.
pub open spec fn spec_user_row(pre: Database, new_user: NewUserRow) -> UserRow {
    UserRow {
        user_id: pre.next_id,
        create_time: new_user.create_time,
        update_time: new_user.update_time,
        firebase_uid: new_user.firebase_uid,
        firebase_email: new_user.firebase_email,
        stripe_customer_id: new_user.stripe_customer_id,
    }
}

/// What a successful user insertion does to the store.
pub open spec fn spec_add_user(pre: Database, new_user: NewUserRow, row: UserRow, post: Database) -> bool {
    &&& pre.next_id < MAX_ID
    &&& !uid_taken(pre.users@, new_user.firebase_uid@)
    &&& row == spec_user_row(pre, new_user)
    &&& post.users@ == spec_insert_row(pre.users@, row, user_key())
    &&& post.next_id == pre.next_id + 1
    &&& others_than_users_same(pre, post)
}

/// The page and next token a users listing serves for a given cursor.
pub open spec fn users_page_post(dbv: Database, page_size: i64, after: Option<(i64, u64)>, rows: Seq<UserRow>, next: Seq<char>) -> bool {
    let n = clamp_page(page_size);
    let page = spec_page(dbv.users@, all_users(), user_key(), after, n + 1);
    if page.len() <= n {
        rows == page && next.len() == 0
    } else {
        rows == page.take(n) && next == b64_of(
            spec_token_bytes(USER_TOKEN_TAG, page[n].create_time, page[n].user_id),
        )
    }
}

/// A successful users listing: the opaque token either was empty or named
/// a cursor, and the page follows from that cursor.
pub open spec fn users_list_ok(dbv: Database, page_size: i64, token: Seq<char>, rows: Seq<UserRow>, next: Seq<char>) -> bool {
    ||| (token.len() == 0 && users_page_post(dbv, page_size, None, rows, next))
    ||| (exists|t: i64, id: u64|
        token == b64_of(spec_token_bytes(USER_TOKEN_TAG, t, id)) && users_page_post(
            dbv,
            page_size,
            Some((t, id)),
            rows,
            next,
        ))
}

fn uid_exists(v: &Vec<UserRow>, uid: &String) -> (r: bool)
    ensures
        r == uid_taken(v@, uid@),
{
    let mut i: usize = 0;
    while i < v.len()
        invariant
            i <= v.len(),
            forall|k: int| 0 <= k < i ==> v@[k].firebase_uid@ != uid@,
        decreases v.len() - i,
    {
        if v[i].firebase_uid.eq(uid) {
            return true;
        }
        i += 1;
    }
    false
}

fn insert_user_sorted(v: &mut Vec<UserRow>, x: UserRow)
    requires
        sorted_by_key(old(v)@, user_key()),
    ensures
        final(v)@ == spec_insert_row(old(v)@, x, user_key()),
{
    let xt = x.create_time;
    let xi = x.user_id;
    let mut i: usize = 0;
    while i < v.len() && !key_lt_exec(xt, xi, v[i].create_time, v[i].user_id)
        invariant
            i <= v.len(),
            v@ == old(v)@,
            xt == x.create_time && xi == x.user_id,
            forall|j: int| 0 <= j < i ==> !key_lt((xt, xi), user_key()(#[trigger] v@[j])),
        decreases v.len() - i,
    {
        i += 1;
    }
    proof {
        lemma_insert_at(v@, x, user_key(), i as int);
    }
    v.insert(i, x);
    proof {
        assert(v@ =~= old(v)@.subrange(0, i as int) + seq![x] + old(v)@.subrange(
            i as int,
            old(v)@.len() as int,
        ));
    }
}

fn find_user_db(v: &Vec<UserRow>, id: u64) -> (r: Option<UserRow>)
    ensures
        r == find_first(v@, user_id_sel(id)),
{
    let mut i: usize = 0;
    proof {
        assert(v@.skip(0) =~= v@);
    }
    while i < v.len()
        invariant
            i <= v.len(),
            find_first(v@, user_id_sel(id)) == find_first(v@.skip(i as int), user_id_sel(id)),
        decreases v.len() - i,
    {
        proof {
            lemma_find_skip_step(v@, user_id_sel(id), i as int);
            assert(user_id_sel(id)(v@[i as int]) == (v@[i as int].user_id == id));
        }
        if v[i].user_id == id {
            return Some(v[i].clone());
        }
        i += 1;
    }
    proof {
        assert(v@.skip(v@.len() as int) =~= Seq::<UserRow>::empty());
    }
    None
}

fn find_user_by_uid_db(v: &Vec<UserRow>, uid: &String) -> (r: Option<UserRow>)
    ensures
        r == find_first(v@, user_uid_sel(uid@)),
{
    let mut i: usize = 0;
    proof {
        assert(v@.skip(0) =~= v@);
    }
    while i < v.len()
        invariant
            i <= v.len(),
            find_first(v@, user_uid_sel(uid@)) == find_first(
                v@.skip(i as int),
                user_uid_sel(uid@),
            ),
        decreases v.len() - i,
    {
        proof {
            lemma_find_skip_step(v@, user_uid_sel(uid@), i as int);
            assert(user_uid_sel(uid@)(v@[i as int]) == (v@[i as int].firebase_uid@ == uid@));
        }
        if v[i].firebase_uid.eq(uid) {
            return Some(v[i].clone());
        }
        i += 1;
    }
    proof {
        assert(v@.skip(v@.len() as int) =~= Seq::<UserRow>::empty());
    }
    None
}

/// The scan behind the users listing: selected rows at or past the
/// cursor, up to `limit` of them, in sort order.
fn scan_users_page(v: &Vec<UserRow>, after: Option<(i64, u64)>, limit: usize) -> (out: Vec<UserRow>)
    requires
        sorted_by_key(v@, user_key()),
    ensures
        out@ == spec_page(v@, all_users(), user_key(), after, limit as int),
        out@.len() <= limit,
{
    let mut out: Vec<UserRow> = Vec::new();
    let mut i: usize = 0;
    proof {
        assert(v@.skip(0) =~= v@);
        assert(out@ + sel_rows(v@, admit_fn(all_users(), user_key(), after)) =~= sel_rows(
            v@,
            admit_fn(all_users(), user_key(), after),
        ));
    }
    while i < v.len() && out.len() < limit
        invariant
            i <= v.len(),
            out@.len() <= limit,
            sel_rows(v@, admit_fn(all_users(), user_key(), after)) == out@ + sel_rows(
                v@.skip(i as int),
                admit_fn(all_users(), user_key(), after),
            ),
        decreases v.len() - i,
    {
        proof {
            lemma_sel_skip_step(v@, admit_fn(all_users(), user_key(), after), i as int);
            assert(admit_fn(all_users(), user_key(), after)(v@[i as int]) == past_cursor(
                user_key()(v@[i as int]),
                after,
            ));
        }
        let admit_here = match after {
            None => true,
            Some((t, id)) => !key_lt_exec(v[i].create_time, v[i].user_id, t, id),
        };
        proof {
            assert(admit_here == admit_fn(all_users(), user_key(), after)(v@[i as int]));
        }
        if admit_here {
            let ghost old_out = out@;
            out.push(v[i].clone());
            proof {
                assert(out@ =~= old_out + seq![v@[i as int]]);
                assert(out@ + sel_rows(
                    v@.skip(i as int + 1),
                    admit_fn(all_users(), user_key(), after),
                ) =~= sel_rows(v@, admit_fn(all_users(), user_key(), after)));
            }
        } else {
            proof {
                assert(out@ + sel_rows(
                    v@.skip(i as int + 1),
                    admit_fn(all_users(), user_key(), after),
                ) =~= sel_rows(v@, admit_fn(all_users(), user_key(), after)));
            }
        }
        i += 1;
    }
    proof {
        let m = sel_rows(v@, all_users());
        let c = spec_start(m, user_key(), after);
        lemma_sel_compose(v@, all_users(), user_key(), after);
        lemma_sel_sorted(v@, all_users(), user_key());
        if after is Some {
            lemma_cursor_suffix(m, user_key(), after);
            lemma_cut_bounds(m, user_key(), after->0);
        } else {
            crate::paging::lemma_sel_all(m, past_fn(user_key(), after));
            assert(m.skip(0) =~= m);
        }
        assert(sel_rows(v@, admit_fn(all_users(), user_key(), after)) == m.skip(c));
        if i == v.len() && out@.len() < limit {
            assert(v@.skip(v@.len() as int) =~= Seq::<UserRow>::empty());
            assert(out@ =~= sel_rows(v@, admit_fn(all_users(), user_key(), after)));
        }
        let want = m.skip(c).take(if limit as int <= m.len() - c {
            limit as int
        } else {
            m.len() - c
        });
        assert(out@ =~= want) by {
            let total = sel_rows(v@, admit_fn(all_users(), user_key(), after));
            assert(total.len() == m.len() - c);
            if out@.len() == limit {
                assert(forall|k: int| 0 <= k < limit ==> total[k] == #[trigger] out@[k]);
            }
        }
    }
    out
}

/// Builds the served page and next token from the raw page of `n + 1`
/// rows fetched by the scan.
fn assemble_users_page(raw: Vec<UserRow>, n: usize) -> (r: (Vec<UserRow>, String))
    requires
        raw@.len() <= n + 1,
    ensures
        raw@.len() <= n ==> r.0@ == raw@ && r.1@.len() == 0,
        raw@.len() > n ==> r.0@ == raw@.take(n as int) && r.1@ == b64_of(
            spec_token_bytes(USER_TOKEN_TAG, raw@[n as int].create_time, raw@[n as int].user_id),
        ),
{
    if raw.len() <= n {
        (raw, String::new())
    } else {
        let next = match raw[n].page_token().serialize_page_token() {
            Ok(s) => s,
            Err(e) => {
                return (raw, String::new());
            },
        };
        let mut rows = raw;
        rows.truncate(n);
        (rows, next)
    }
}

/// The users capability: every store kind can create and look up users
/// and serve the paginated users listing.
pub trait UserStore: StoreContext {
    /// Inserts a user. Fails with `Conflict` when the identity-provider
    /// subject is already taken, with `PersistenceFailure` when the id
    /// space is exhausted or the transaction is already aborted.
    fn add_user(&mut self, new_user: NewUserRow) -> (r: Result<UserRow, Error>)
        requires
            old(self).inv(),
        ensures
            final(self).inv(),
            final(self).auto() == old(self).auto(),
            final(self).committed() == (if final(self).auto() {
                final(self).db()
            } else {
                old(self).committed()
            }),
            old(self).failed() ==> (r matches Err(e) && e == Error::PersistenceFailure && db_eq(
                final(self).db(),
                old(self).db(),
            ) && final(self).failed()),
            !old(self).failed() ==> match r {
                Ok(row) => !final(self).failed() && spec_add_user(
                    old(self).db(),
                    new_user,
                    row,
                    final(self).db(),
                ),
                Err(e) => {
                    &&& db_eq(final(self).db(), old(self).db())
                    &&& final(self).failed() == !final(self).auto()
                    &&& ((e == Error::Conflict && uid_taken(
                        old(self).db().users@,
                        new_user.firebase_uid@,
                    )) || (e == Error::PersistenceFailure && !uid_taken(
                        old(self).db().users@,
                        new_user.firebase_uid@,
                    ) && old(self).db().next_id == MAX_ID))
                },
            },
    ;

    /// Looks a user up by id; absence is `None`, not an error.
    fn find_user_by_id(&self, user_id: u64) -> (r: Result<Option<UserRow>, Error>)
        requires
            self.inv(),
        ensures
            match r {
                Ok(o) => !self.failed() && o == find_first(self.db().users@, user_id_sel(user_id)),
                Err(e) => self.failed() && e == Error::PersistenceFailure,
            },
    ;

    /// Looks a user up by identity-provider subject.
    fn find_user_by_firebase_uid(&self, firebase_uid: &String) -> (r: Result<Option<UserRow>, Error>)
        requires
            self.inv(),
        ensures
            match r {
                Ok(o) => !self.failed() && o == find_first(
                    self.db().users@,
                    user_uid_sel(firebase_uid@),
                ),
                Err(e) => self.failed() && e == Error::PersistenceFailure,
            },
    ;

    /// Serves one page of the users listing: up to the clamped page size
    /// of rows from the opaque cursor on, plus the next cursor (empty on
    /// the terminal page). A malformed cursor is rejected outright.
    fn list_users(&self, page_size: i64, page_token: &str) -> (r: Result<(Vec<UserRow>, String), Error>)
        requires
            self.inv(),
        ensures
            match r {
                Ok(p) => !self.failed() && users_list_ok(
                    self.db(),
                    page_size,
                    page_token@,
                    p.0@,
                    p.1@,
                ),
                Err(e) => {
                    ||| (self.failed() && e == Error::PersistenceFailure)
                    ||| (!self.failed() && e == Error::PaginationTokenInvalid && page_token@.len()
                        > 0 && (forall|t: i64, id: u64|
                        page_token@ != b64_of(spec_token_bytes(USER_TOKEN_TAG, t, id))))
                },
            },
    ;

    /// The total number of users.
    fn count_users(&self) -> (r: Result<i64, Error>)
        requires
            self.inv(),
        ensures
            match r {
                Ok(c) => !self.failed() && c == self.db().users@.len(),
                Err(e) => self.failed() && e == Error::PersistenceFailure,
            },
    ;

    /// Serves the page together with the total count. The two reads are
    /// not one snapshot: under concurrent writes the count and the page
    /// may disagree; this is the accepted read-only optimization.
    fn list_and_count_users(&self, page_size: i64, page_token: &str) -> (r: Result<
        (Vec<UserRow>, String, i64),
        Error,
    >)
        requires
            self.inv(),
        ensures
            match r {
                Ok(p) => !self.failed() && users_list_ok(
                    self.db(),
                    page_size,
                    page_token@,
                    p.0@,
                    p.1@,
                ) && p.2 == self.db().users@.len(),
                Err(e) => {
                    ||| (self.failed() && e == Error::PersistenceFailure)
                    ||| (!self.failed() && e == Error::PaginationTokenInvalid && page_token@.len()
                        > 0 && (forall|t: i64, id: u64|
                        page_token@ != b64_of(spec_token_bytes(USER_TOKEN_TAG, t, id))))
                },
            },
    {
        let page = match self.list_users(page_size, page_token) {
            Ok(p) => p,
            Err(e) => {
                return Err(e);
            },
        };
        let total = match self.count_users() {
            Ok(c) => c,
            Err(e) => {
                return Err(e);
            },
        };
        Ok((page.0, page.1, total))
    }
}

/// The shared listing body: parse the cursor, fetch one row beyond the
/// page, split off the next token.
fn list_users_db(db: &Database, page_size: i64, page_token: &str) -> (r: Result<(Vec<UserRow>, String), Error>)
    requires
        db.wf(),
    ensures
        match r {
            Ok(p) => users_list_ok(*db, page_size, page_token@, p.0@, p.1@),
            Err(e) => e == Error::PaginationTokenInvalid && page_token@.len() > 0 && (forall|
                t: i64,
                id: u64,
            |
                page_token@ != b64_of(spec_token_bytes(USER_TOKEN_TAG, t, id))),
        },
{
    let tok = match UserPageToken::deserialize_page_token(page_token) {
        Ok(o) => o,
        Err(e) => {
            proof {
                assert forall|t: i64, id: u64|
                    page_token@ != b64_of(spec_token_bytes(USER_TOKEN_TAG, t, id)) by {
                    let q = UserPageToken { create_time: t, user_id: id };
                    assert(q.spec_token_string() == b64_of(spec_token_bytes(USER_TOKEN_TAG, t, id)));
                }
            }
            return Err(e);
        },
    };
    let after: Option<(i64, u64)> = match &tok {
        None => None,
        Some(p) => Some((p.create_time, p.user_id)),
    };
    let n = clamp_page_exec(page_size);
    let raw = scan_users_page(&db.users, after, n + 1);
    let out = assemble_users_page(raw, n);
    proof {
        if tok is Some {
            let p = tok->0;
            assert(page_token@ == b64_of(
                spec_token_bytes(USER_TOKEN_TAG, p.create_time, p.user_id),
            ));
        }
    }
    Ok(out)
}

impl UserStore for PgOnDemandStore {
    fn add_user(&mut self, new_user: NewUserRow) -> (r: Result<UserRow, Error>) {
        add_user_db(&mut self.db, new_user)
    }

    fn find_user_by_id(&self, user_id: u64) -> (r: Result<Option<UserRow>, Error>) {
        Ok(find_user_db(&self.db.users, user_id))
    }

    fn find_user_by_firebase_uid(&self, firebase_uid: &String) -> (r: Result<Option<UserRow>, Error>) {
        Ok(find_user_by_uid_db(&self.db.users, firebase_uid))
    }

    fn list_users(&self, page_size: i64, page_token: &str) -> (r: Result<(Vec<UserRow>, String), Error>) {
        list_users_db(&self.db, page_size, page_token)
    }

    fn count_users(&self) -> (r: Result<i64, Error>) {
        Ok(self.db.users.len() as i64)
    }
}

impl UserStore for PgTransactionalStore {
    fn add_user(&mut self, new_user: NewUserRow) -> (r: Result<UserRow, Error>) {
        if self.aborted {
            return Err(Error::PersistenceFailure);
        }
        match add_user_db(&mut self.work, new_user) {
            Ok(row) => Ok(row),
            Err(e) => {
                self.aborted = true;
                Err(e)
            },
        }
    }

    fn find_user_by_id(&self, user_id: u64) -> (r: Result<Option<UserRow>, Error>) {
        if self.aborted {
            return Err(Error::PersistenceFailure);
        }
        Ok(find_user_db(&self.work.users, user_id))
    }

    fn find_user_by_firebase_uid(&self, firebase_uid: &String) -> (r: Result<Option<UserRow>, Error>) {
        if self.aborted {
            return Err(Error::PersistenceFailure);
        }
        Ok(find_user_by_uid_db(&self.work.users, firebase_uid))
    }

    fn list_users(&self, page_size: i64, page_token: &str) -> (r: Result<(Vec<UserRow>, String), Error>) {
        if self.aborted {
            return Err(Error::PersistenceFailure);
        }
        list_users_db(&self.work, page_size, page_token)
    }

    fn count_users(&self) -> (r: Result<i64, Error>) {
        if self.aborted {
            return Err(Error::PersistenceFailure);
        }
        Ok(self.work.users.len() as i64)
    }
}

/// Inserts a user row into the database state.
fn add_user_db(db: &mut Database, new_user: NewUserRow) -> (r: Result<UserRow, Error>)
    requires
        old(db).wf(),
    ensures
        final(db).wf(),
        match r {
            Ok(row) => spec_add_user(*old(db), new_user, row, *final(db)),
            Err(e) => db_eq(*final(db), *old(db)) && ((e == Error::Conflict && uid_taken(
                old(db).users@,
                new_user.firebase_uid@,
            )) || (e == Error::PersistenceFailure && !uid_taken(
                old(db).users@,
                new_user.firebase_uid@,
            ) && old(db).next_id == MAX_ID)),
        },
{
    if uid_exists(&db.users, &new_user.firebase_uid) {
        return Err(Error::Conflict);
    }
    if db.next_id >= MAX_ID {
        return Err(Error::PersistenceFailure);
    }
    let id = db.next_id;
    let row = UserRow {
        user_id: id,
        create_time: new_user.create_time,
        update_time: new_user.update_time,
        firebase_uid: new_user.firebase_uid,
        firebase_email: new_user.firebase_email,
        stripe_customer_id: new_user.stripe_customer_id,
    };
    let out = row.clone();
    let ghost grow = row;
    let ghost gpre = *db;
    proof {
        assert(forall|i: int|
            0 <= i < gpre.users@.len() ==> user_id_of()(#[trigger] gpre.users@[i]) != user_id_of()(
                grow,
            ));
        assert(forall|i: int|
            0 <= i < gpre.users@.len() ==> user_key()(#[trigger] gpre.users@[i]) != user_key()(
                grow,
            ));
        lemma_insert_row_props(gpre.users@, grow, user_key(), user_id_of());
    }
    insert_user_sorted(&mut db.users, row);
    db.next_id = id + 1;
    proof {
        let post = db.users@;
        let iw = choose|i: int|
            0 <= i <= gpre.users@.len() && post == gpre.users@.subrange(0, i) + seq![grow]
                + gpre.users@.subrange(i, gpre.users@.len() as int);
        assert forall|a: int, b: int| 0 <= a < b < post.len() implies post[a].firebase_uid@
            != post[b].firebase_uid@ by {
            let s = gpre.users@;
            assert(post[a] == (if a < iw {
                s[a]
            } else if a == iw {
                grow
            } else {
                s[a - 1]
            }));
            assert(post[b] == (if b < iw {
                s[b]
            } else if b == iw {
                grow
            } else {
                s[b - 1]
            }));
        }
        assert forall|i: int| 0 <= i < post.len() implies user_id_of()(#[trigger] post[i])
            < db.next_id by {
            if post[i] == grow {
            } else {
                assert(gpre.users@.contains(post[i]));
                let w = choose|w: int| 0 <= w < gpre.users@.len() && gpre.users@[w] == post[i];
            }
        }
    }
    Ok(out)
}

} // verus!

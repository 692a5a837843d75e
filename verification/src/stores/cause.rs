//! The cause capability: insertion and the paginated, per-user causes
//! listing, where each served row carries the cause's recipient rows.

use vstd::prelude::*;
use crate::Error;
use crate::database::store::{PgOnDemandStore, PgTransactionalStore, StoreContext};
use crate::database::tables::{
    Database, MAX_ID, cause_id_of, cause_key, cause_user_sel, db_eq, others_than_causes_same,
    recipient_cause_sel,
};
use crate::models::cause::{
    CauseRow, CauseRecipientRow, CausePageToken, CauseRecipientRowVec, FullCauseRow, NewCauseRow,
    CAUSE_TOKEN_TAG,
};
use crate::page_token::{PageToken, PageTokenable, b64_of, spec_token_bytes};
use crate::paging::{
    admit_fn, clamp_page, clamp_page_exec, key_lt, key_lt_exec, lemma_cursor_suffix,
    lemma_cut_bounds, lemma_insert_at, lemma_insert_row_props, lemma_sel_all, lemma_sel_compose,
    lemma_sel_skip_step, lemma_sel_sorted, past_cursor, past_fn, sel_rows, sorted_by_key,
    spec_insert_row, spec_page, spec_start,
};

verus! {

/// The row an insertion produces: store-assigned id, caller's fields.
pub open spec fn spec_cause_row(pre: Database, new_row: NewCauseRow) -> CauseRow {
    CauseRow {
        cause_id: pre.next_id,
        create_time: new_row.create_time,
        update_time: new_row.update_time,
        user_id: new_row.user_id,
        name: new_row.name,
    }
}

/// What a successful cause insertion does to the store.
pub open spec fn spec_add_cause(pre: Database, new_row: NewCauseRow, row: CauseRow, post: Database) -> bool {
    &&& pre.next_id < MAX_ID
    &&& row == spec_cause_row(pre, new_row)
    &&& post.causes@ == spec_insert_row(pre.causes@, row, cause_key())
    &&& post.next_id == pre.next_id + 1
    &&& others_than_causes_same(pre, post)
}

/// The recipient rows a cause is served with.
pub open spec fn spec_recipients_of(dbv: Database, cause_id: u64) -> Seq<CauseRecipientRow> {
    sel_rows(dbv.cause_recipients@, recipient_cause_sel(cause_id))
}

/// A served full row: the cause plus exactly its recipient rows.
pub open spec fn spec_full_cause(dbv: Database, c: CauseRow, f: FullCauseRow) -> bool {
    &&& f.cause == c
    &&& f.cause_recipients.0@ == spec_recipients_of(dbv, c.cause_id)
}

/// The page and next token a causes listing serves for a given cursor.
pub open spec fn causes_page_post(dbv: Database, page_size: i64, user_id: u64, after: Option<(i64, u64)>, rows: Seq<FullCauseRow>, next: Seq<char>) -> bool {
    let n = clamp_page(page_size);
    let page = spec_page(dbv.causes@, cause_user_sel(user_id), cause_key(), after, n + 1);
    let served = if page.len() <= n {
        page
    } else {
        page.take(n)
    };
    &&& rows.len() == served.len()
    &&& forall|i: int| 0 <= i < served.len() ==> spec_full_cause(dbv, served[i], #[trigger] rows[i])
    &&& if page.len() <= n {
        next.len() == 0
    } else {
        next == b64_of(spec_token_bytes(CAUSE_TOKEN_TAG, page[n].create_time, page[n].cause_id))
    }
}

/// A successful causes listing: the opaque token either was empty or named
/// a cursor, and the page follows from that cursor.
pub open spec fn causes_list_ok(dbv: Database, page_size: i64, user_id: u64, token: Seq<char>, rows: Seq<FullCauseRow>, next: Seq<char>) -> bool {
    ||| (token.len() == 0 && causes_page_post(dbv, page_size, user_id, None, rows, next))
    ||| (exists|t: i64, id: u64|
        token == b64_of(spec_token_bytes(CAUSE_TOKEN_TAG, t, id)) && causes_page_post(
            dbv,
            page_size,
            user_id,
            Some((t, id)),
            rows,
            next,
        ))
}

fn insert_cause_sorted(v: &mut Vec<CauseRow>, x: CauseRow)
    requires
        sorted_by_key(old(v)@, cause_key()),
    ensures
        final(v)@ == spec_insert_row(old(v)@, x, cause_key()),
{
    let xt = x.create_time;
    let xi = x.cause_id;
    let mut i: usize = 0;
    while i < v.len() && !key_lt_exec(xt, xi, v[i].create_time, v[i].cause_id)
        invariant
            i <= v.len(),
            v@ == old(v)@,
            xt == x.create_time && xi == x.cause_id,
            forall|j: int| 0 <= j < i ==> !key_lt((xt, xi), cause_key()(#[trigger] v@[j])),
        decreases v.len() - i,
    {
        i += 1;
    }
    proof {
        lemma_insert_at(v@, x, cause_key(), i as int);
    }
    v.insert(i, x);
    proof {
        assert(v@ =~= old(v)@.subrange(0, i as int) + seq![x] + old(v)@.subrange(
            i as int,
            old(v)@.len() as int,
        ));
    }
}

/// Inserts a cause row into the database state.
pub(crate) fn add_cause_db(db: &mut Database, new_row: NewCauseRow) -> (r: Result<CauseRow, Error>)
    requires
        old(db).wf(),
    ensures
        final(db).wf(),
        match r {
            Ok(row) => spec_add_cause(*old(db), new_row, row, *final(db)),
            Err(e) => db_eq(*final(db), *old(db)) && e == Error::PersistenceFailure && old(
                db,
            ).next_id == MAX_ID,
        },
{
    if db.next_id >= MAX_ID {
        return Err(Error::PersistenceFailure);
    }
    let id = db.next_id;
    let row = CauseRow {
        cause_id: id,
        create_time: new_row.create_time,
        update_time: new_row.update_time,
        user_id: new_row.user_id,
        name: new_row.name,
    };
    let out = row.clone();
    let ghost grow = row;
    let ghost gpre = *db;
    proof {
        assert(forall|i: int|
            0 <= i < gpre.causes@.len() ==> cause_id_of()(#[trigger] gpre.causes@[i])
                != cause_id_of()(grow));
        assert(forall|i: int|
            0 <= i < gpre.causes@.len() ==> cause_key()(#[trigger] gpre.causes@[i]) != cause_key()(
                grow,
            ));
        lemma_insert_row_props(gpre.causes@, grow, cause_key(), cause_id_of());
    }
    insert_cause_sorted(&mut db.causes, row);
    db.next_id = id + 1;
    proof {
        let post = db.causes@;
        let iw = choose|i: int|
            0 <= i <= gpre.causes@.len() && post == gpre.causes@.subrange(0, i) + seq![grow]
                + gpre.causes@.subrange(i, gpre.causes@.len() as int);
        assert forall|i: int| 0 <= i < post.len() implies cause_id_of()(#[trigger] post[i])
            < db.next_id by {
            if post[i] == grow {
            } else {
                assert(gpre.causes@.contains(post[i]));
                let w = choose|w: int| 0 <= w < gpre.causes@.len() && gpre.causes@[w] == post[i];
            }
        }
        // every recipient still references an existing cause
        assert forall|i: int|
            0 <= i < db.cause_recipients@.len() implies crate::database::tables::cause_exists(
            post,
            #[trigger] db.cause_recipients@[i].cause_id,
        ) by {
            let w = choose|w: int|
                0 <= w < gpre.causes@.len() && gpre.causes@[w].cause_id
                    == db.cause_recipients@[i].cause_id;
            if w < iw {
                assert(post[w] == gpre.causes@[w]);
            } else {
                assert(post[w + 1] == gpre.causes@[w]);
            }
        }
    }
    Ok(out)
}

/// The scan behind the causes listing.
fn scan_causes_page(v: &Vec<CauseRow>, user_id: u64, after: Option<(i64, u64)>, limit: usize) -> (out: Vec<CauseRow>)
    requires
        sorted_by_key(v@, cause_key()),
    ensures
        out@ == spec_page(v@, cause_user_sel(user_id), cause_key(), after, limit as int),
        out@.len() <= limit,
{
    let mut out: Vec<CauseRow> = Vec::new();
    let mut i: usize = 0;
    proof {
        assert(v@.skip(0) =~= v@);
        assert(out@ + sel_rows(v@, admit_fn(cause_user_sel(user_id), cause_key(), after))
            =~= sel_rows(v@, admit_fn(cause_user_sel(user_id), cause_key(), after)));
    }
    while i < v.len() && out.len() < limit
        invariant
            i <= v.len(),
            out@.len() <= limit,
            sel_rows(v@, admit_fn(cause_user_sel(user_id), cause_key(), after)) == out@
                + sel_rows(v@.skip(i as int), admit_fn(cause_user_sel(user_id), cause_key(), after)),
        decreases v.len() - i,
    {
        proof {
            lemma_sel_skip_step(v@, admit_fn(cause_user_sel(user_id), cause_key(), after), i as int);
            assert(admit_fn(cause_user_sel(user_id), cause_key(), after)(v@[i as int]) == (
            v@[i as int].user_id == user_id && past_cursor(cause_key()(v@[i as int]), after)));
        }
        let admit_here = v[i].user_id == user_id && (match after {
            None => true,
            Some((t, id)) => !key_lt_exec(v[i].create_time, v[i].cause_id, t, id),
        });
        proof {
            assert(admit_here == admit_fn(cause_user_sel(user_id), cause_key(), after)(
                v@[i as int],
            ));
        }
        if admit_here {
            let ghost old_out = out@;
            out.push(v[i].clone());
            proof {
                assert(out@ =~= old_out + seq![v@[i as int]]);
                assert(out@ + sel_rows(
                    v@.skip(i as int + 1),
                    admit_fn(cause_user_sel(user_id), cause_key(), after),
                ) =~= sel_rows(v@, admit_fn(cause_user_sel(user_id), cause_key(), after)));
            }
        } else {
            proof {
                assert(out@ + sel_rows(
                    v@.skip(i as int + 1),
                    admit_fn(cause_user_sel(user_id), cause_key(), after),
                ) =~= sel_rows(v@, admit_fn(cause_user_sel(user_id), cause_key(), after)));
            }
        }
        i += 1;
    }
    proof {
        let m = sel_rows(v@, cause_user_sel(user_id));
        let c = spec_start(m, cause_key(), after);
        lemma_sel_compose(v@, cause_user_sel(user_id), cause_key(), after);
        lemma_sel_sorted(v@, cause_user_sel(user_id), cause_key());
        if after is Some {
            lemma_cursor_suffix(m, cause_key(), after);
            lemma_cut_bounds(m, cause_key(), after->0);
        } else {
            lemma_sel_all(m, past_fn(cause_key(), after));
            assert(m.skip(0) =~= m);
        }
        assert(sel_rows(v@, admit_fn(cause_user_sel(user_id), cause_key(), after)) == m.skip(c));
        if i == v.len() && out@.len() < limit {
            assert(v@.skip(v@.len() as int) =~= Seq::<CauseRow>::empty());
            assert(out@ =~= sel_rows(v@, admit_fn(cause_user_sel(user_id), cause_key(), after)));
        }
        let want = m.skip(c).take(if limit as int <= m.len() - c {
            limit as int
        } else {
            m.len() - c
        });
        assert(out@ =~= want) by {
            let total = sel_rows(v@, admit_fn(cause_user_sel(user_id), cause_key(), after));
            assert(total.len() == m.len() - c);
            if out@.len() == limit {
                assert(forall|k: int| 0 <= k < limit ==> total[k] == #[trigger] out@[k]);
            }
        }
    }
    out
}

/// All recipient rows of one cause, in insertion order.
pub(crate) fn recipients_for_cause_db(v: &Vec<CauseRecipientRow>, cause_id: u64) -> (out: Vec<CauseRecipientRow>)
    ensures
        out@ == sel_rows(v@, recipient_cause_sel(cause_id)),
{
    let mut out: Vec<CauseRecipientRow> = Vec::new();
    let mut i: usize = 0;
    proof {
        assert(v@.skip(0) =~= v@);
        assert(out@ + sel_rows(v@, recipient_cause_sel(cause_id)) =~= sel_rows(
            v@,
            recipient_cause_sel(cause_id),
        ));
    }
    while i < v.len()
        invariant
            i <= v.len(),
            sel_rows(v@, recipient_cause_sel(cause_id)) == out@ + sel_rows(
                v@.skip(i as int),
                recipient_cause_sel(cause_id),
            ),
        decreases v.len() - i,
    {
        proof {
            lemma_sel_skip_step(v@, recipient_cause_sel(cause_id), i as int);
            assert(recipient_cause_sel(cause_id)(v@[i as int]) == (v@[i as int].cause_id
                == cause_id));
        }
        if v[i].cause_id == cause_id {
            let ghost old_out = out@;
            out.push(v[i]);
            proof {
                assert(out@ =~= old_out + seq![v@[i as int]]);
                assert(out@ + sel_rows(v@.skip(i as int + 1), recipient_cause_sel(cause_id))
                    =~= sel_rows(v@, recipient_cause_sel(cause_id)));
            }
        } else {
            proof {
                assert(out@ + sel_rows(v@.skip(i as int + 1), recipient_cause_sel(cause_id))
                    =~= sel_rows(v@, recipient_cause_sel(cause_id)));
            }
        }
        i += 1;
    }
    proof {
        assert(v@.skip(v@.len() as int) =~= Seq::<CauseRecipientRow>::empty());
        assert(out@ =~= sel_rows(v@, recipient_cause_sel(cause_id)));
    }
    out
}

/// Counts the causes of one user.
fn count_causes_db(v: &Vec<CauseRow>, user_id: u64) -> (r: usize)
    ensures
        r == sel_rows(v@, cause_user_sel(user_id)).len(),
{
    let mut count: usize = 0;
    let mut i: usize = 0;
    proof {
        assert(v@.skip(0) =~= v@);
    }
    while i < v.len()
        invariant
            i <= v.len(),
            count <= i,
            sel_rows(v@, cause_user_sel(user_id)).len() == count + sel_rows(
                v@.skip(i as int),
                cause_user_sel(user_id),
            ).len(),
        decreases v.len() - i,
    {
        proof {
            lemma_sel_skip_step(v@, cause_user_sel(user_id), i as int);
            assert(cause_user_sel(user_id)(v@[i as int]) == (v@[i as int].user_id == user_id));
        }
        if v[i].user_id == user_id {
            count += 1;
        }
        i += 1;
    }
    proof {
        assert(v@.skip(v@.len() as int) =~= Seq::<CauseRow>::empty());
    }
    count
}

/// The shared listing body: parse the cursor, fetch one row beyond the
/// page, join each served cause with its recipients, split off the token.
fn list_causes_db(db: &Database, page_size: i64, page_token: &str, user_id: u64) -> (r: Result<
    (Vec<FullCauseRow>, String),
    Error,
>)
    requires
        db.wf(),
    ensures
        match r {
            Ok(p) => causes_list_ok(*db, page_size, user_id, page_token@, p.0@, p.1@),
            Err(e) => e == Error::PaginationTokenInvalid && page_token@.len() > 0 && (forall|
                t: i64,
                id: u64,
            |
                page_token@ != b64_of(spec_token_bytes(CAUSE_TOKEN_TAG, t, id))),
        },
{
    let tok = match CausePageToken::deserialize_page_token(page_token) {
        Ok(o) => o,
        Err(e) => {
            proof {
                assert forall|t: i64, id: u64|
                    page_token@ != b64_of(spec_token_bytes(CAUSE_TOKEN_TAG, t, id)) by {
                    let q = CausePageToken { create_time: t, cause_id: id };
                    assert(q.spec_token_string() == b64_of(
                        spec_token_bytes(CAUSE_TOKEN_TAG, t, id),
                    ));
                }
            }
            return Err(e);
        },
    };
    let after: Option<(i64, u64)> = match &tok {
        None => None,
        Some(p) => Some((p.create_time, p.cause_id)),
    };
    let n = clamp_page_exec(page_size);
    let raw = scan_causes_page(&db.causes, user_id, after, n + 1);
    let (served, next) = if raw.len() <= n {
        (raw, String::new())
    } else {
        let next = match raw[n].page_token().serialize_page_token() {
            Ok(s) => s,
            Err(e) => {
                return Err(e);
            },
        };
        let mut rows = raw;
        rows.truncate(n);
        (rows, next)
    };
    let mut fulls: Vec<FullCauseRow> = Vec::new();
    let mut i: usize = 0;
    while i < served.len()
        invariant
            i <= served@.len(),
            fulls@.len() == i,
            db.wf(),
            forall|k: int|
                0 <= k < i ==> spec_full_cause(*db, served@[k], #[trigger] fulls@[k]),
        decreases served.len() - i,
    {
        let recs = recipients_for_cause_db(&db.cause_recipients, served[i].cause_id);
        fulls.push(FullCauseRow {
            cause: served[i].clone(),
            cause_recipients: CauseRecipientRowVec(recs),
        });
        i += 1;
    }
    proof {
        if tok is Some {
            let p = tok->0;
            assert(page_token@ == b64_of(
                spec_token_bytes(CAUSE_TOKEN_TAG, p.create_time, p.cause_id),
            ));
        }
    }
    Ok((fulls, next))
}

/// The cause capability: creating causes and serving the per-user causes
/// listing with each cause's recipients attached.
pub trait CauseStore: StoreContext {
    /// Inserts a cause. Fails only when the id space is exhausted or the
    /// transaction is already aborted.
    fn add_cause(&mut self, new_row: NewCauseRow) -> (r: Result<CauseRow, Error>)
        requires
            old(self).inv(),
        ensures
            final(self).inv(),
            final(self).auto() == old(self).auto(),
            final(self).committed() == (if final(self).auto() {
                final(self).db()
            } else {
                old(self).committed()
            }),
            old(self).failed() ==> (r matches Err(e) && e == Error::PersistenceFailure && db_eq(
                final(self).db(),
                old(self).db(),
            ) && final(self).failed()),
            !old(self).failed() ==> match r {
                Ok(row) => !final(self).failed() && spec_add_cause(
                    old(self).db(),
                    new_row,
                    row,
                    final(self).db(),
                ),
                Err(e) => {
                    &&& db_eq(final(self).db(), old(self).db())
                    &&& final(self).failed() == !final(self).auto()
                    &&& e == Error::PersistenceFailure
                    &&& old(self).db().next_id == MAX_ID
                },
            },
    ;

    /// Serves one page of the user's causes, each with its recipient rows,
    /// plus the next opaque cursor (empty on the terminal page).
    fn list_causes_for_user(&self, page_size: i64, page_token: &str, user_id: u64) -> (r: Result<
        (Vec<FullCauseRow>, String),
        Error,
    >)
        requires
            self.inv(),
        ensures
            match r {
                Ok(p) => !self.failed() && causes_list_ok(
                    self.db(),
                    page_size,
                    user_id,
                    page_token@,
                    p.0@,
                    p.1@,
                ),
                Err(e) => {
                    ||| (self.failed() && e == Error::PersistenceFailure)
                    ||| (!self.failed() && e == Error::PaginationTokenInvalid && page_token@.len()
                        > 0 && (forall|t: i64, id: u64|
                        page_token@ != b64_of(spec_token_bytes(CAUSE_TOKEN_TAG, t, id))))
                },
            },
    ;

    /// The number of causes the user owns.
    fn count_causes_for_user(&self, user_id: u64) -> (r: Result<i64, Error>)
        requires
            self.inv(),
        ensures
            match r {
                Ok(c) => !self.failed() && c == sel_rows(
                    self.db().causes@,
                    cause_user_sel(user_id),
                ).len(),
                Err(e) => self.failed() && e == Error::PersistenceFailure,
            },
    ;

    /// Serves the page together with the total count. The two reads are
    /// not one snapshot: under concurrent writes the count and the page
    /// may disagree; this is the accepted read-only optimization.
    fn list_and_count_causes_for_user(&self, page_size: i64, page_token: &str, user_id: u64) -> (r:
        Result<(Vec<FullCauseRow>, String, i64), Error>)
        requires
            self.inv(),
        ensures
            match r {
                Ok(p) => !self.failed() && causes_list_ok(
                    self.db(),
                    page_size,
                    user_id,
                    page_token@,
                    p.0@,
                    p.1@,
                ) && p.2 == sel_rows(self.db().causes@, cause_user_sel(user_id)).len(),
                Err(e) => {
                    ||| (self.failed() && e == Error::PersistenceFailure)
                    ||| (!self.failed() && e == Error::PaginationTokenInvalid && page_token@.len()
                        > 0 && (forall|t: i64, id: u64|
                        page_token@ != b64_of(spec_token_bytes(CAUSE_TOKEN_TAG, t, id))))
                },
            },
    {
        let page = match self.list_causes_for_user(page_size, page_token, user_id) {
            Ok(p) => p,
            Err(e) => {
                return Err(e);
            },
        };
        let total = match self.count_causes_for_user(user_id) {
            Ok(c) => c,
            Err(e) => {
                return Err(e);
            },
        };
        Ok((page.0, page.1, total))
    }
}

impl CauseStore for PgOnDemandStore {
    fn add_cause(&mut self, new_row: NewCauseRow) -> (r: Result<CauseRow, Error>) {
        add_cause_db(&mut self.db, new_row)
    }

    fn list_causes_for_user(&self, page_size: i64, page_token: &str, user_id: u64) -> (r: Result<
        (Vec<FullCauseRow>, String),
        Error,
    >) {
        list_causes_db(&self.db, page_size, page_token, user_id)
    }

    fn count_causes_for_user(&self, user_id: u64) -> (r: Result<i64, Error>) {
        let c = count_causes_db(&self.db.causes, user_id);
        proof {
            crate::paging::lemma_sel_subset(self.db.causes@, cause_user_sel(user_id));
        }
        Ok(c as i64)
    }
}

impl CauseStore for PgTransactionalStore {
    fn add_cause(&mut self, new_row: NewCauseRow) -> (r: Result<CauseRow, Error>) {
        if self.aborted {
            return Err(Error::PersistenceFailure);
        }
        match add_cause_db(&mut self.work, new_row) {
            Ok(row) => Ok(row),
            Err(e) => {
                self.aborted = true;
                Err(e)
            },
        }
    }

    fn list_causes_for_user(&self, page_size: i64, page_token: &str, user_id: u64) -> (r: Result<
        (Vec<FullCauseRow>, String),
        Error,
    >) {
        if self.aborted {
            return Err(Error::PersistenceFailure);
        }
        list_causes_db(&self.work, page_size, page_token, user_id)
    }

    fn count_causes_for_user(&self, user_id: u64) -> (r: Result<i64, Error>) {
        if self.aborted {
            return Err(Error::PersistenceFailure);
        }
        let c = count_causes_db(&self.work.causes, user_id);
        proof {
            crate::paging::lemma_sel_subset(self.work.causes@, cause_user_sel(user_id));
        }
        Ok(c as i64)
    }
}

} // verus!

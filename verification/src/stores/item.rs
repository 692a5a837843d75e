//! The item capability: insertion, lookup, deletion, and the paginated,
//! per-user items listing.

use vstd::prelude::*;
use crate::Error;
use crate::database::store::{PgOnDemandStore, PgTransactionalStore, StoreContext};
use crate::database::tables::{
    Database, MAX_ID, db_eq, item_id_of, item_id_sel, item_keep_sel, item_key, item_user_sel,
    others_than_items_same,
};
use crate::models::item::{ItemRow, ItemPageToken, NewItemRow, ITEM_TOKEN_TAG};
use crate::page_token::{PageToken, PageTokenable, b64_of, spec_token_bytes};
use crate::paging::{
    admit_fn, clamp_page, clamp_page_exec, find_first, key_lt, key_lt_exec, lemma_cursor_suffix,
    lemma_cut_bounds, lemma_find_skip_step, lemma_insert_at, lemma_insert_row_props,
    lemma_sel_all, lemma_sel_compose, lemma_sel_skip_step, lemma_sel_sorted, lemma_sel_subset,
    lemma_sel_unique, past_cursor, past_fn, sel_rows, sorted_by_key, spec_insert_row, spec_page,
    spec_start,
};

verus! {

/// The row an insertion produces: store-assigned id, caller's fields.
pub open spec fn spec_item_row(pre: Database, new_row: NewItemRow) -> ItemRow {
    ItemRow {
        item_id: pre.next_id,
        create_time: new_row.create_time,
        update_time: new_row.update_time,
        user_id: new_row.user_id,
        plaid_item_id: new_row.plaid_item_id,
        plaid_access_token: new_row.plaid_access_token,
    }
}

/// What a successful item insertion does to the store.
pub open spec fn spec_add_item(pre: Database, new_row: NewItemRow, row: ItemRow, post: Database) -> bool {
    &&& pre.next_id < MAX_ID
    &&& row == spec_item_row(pre, new_row)
    &&& post.items@ == spec_insert_row(pre.items@, row, item_key())
    &&& post.next_id == pre.next_id + 1
    &&& others_than_items_same(pre, post)
}

/// What an item deletion does to the store: every row with the id is gone,
/// everything else stays. Deleting an absent id changes nothing and is not
/// an error at this layer.
pub open spec fn spec_delete_item(pre: Database, item_id: u64, post: Database) -> bool {
    &&& post.items@ == sel_rows(pre.items@, item_keep_sel(item_id))
    &&& post.next_id == pre.next_id
    &&& others_than_items_same(pre, post)
}

/// The page and next token an items listing serves for a given cursor.
pub open spec fn items_page_post(dbv: Database, page_size: i64, user_id: u64, after: Option<(i64, u64)>, rows: Seq<ItemRow>, next: Seq<char>) -> bool {
    let n = clamp_page(page_size);
    let page = spec_page(dbv.items@, item_user_sel(user_id), item_key(), after, n + 1);
    if page.len() <= n {
        rows == page && next.len() == 0
    } else {
        rows == page.take(n) && next == b64_of(
            spec_token_bytes(ITEM_TOKEN_TAG, page[n].create_time, page[n].item_id),
        )
    }
}

/// A successful items listing: the opaque token either was empty or named
/// a cursor, and the page follows from that cursor.
pub open spec fn items_list_ok(dbv: Database, page_size: i64, user_id: u64, token: Seq<char>, rows: Seq<ItemRow>, next: Seq<char>) -> bool {
    ||| (token.len() == 0 && items_page_post(dbv, page_size, user_id, None, rows, next))
    ||| (exists|t: i64, id: u64|
        token == b64_of(spec_token_bytes(ITEM_TOKEN_TAG, t, id)) && items_page_post(
            dbv,
            page_size,
            user_id,
            Some((t, id)),
            rows,
            next,
        ))
}

fn insert_item_sorted(v: &mut Vec<ItemRow>, x: ItemRow)
    requires
        sorted_by_key(old(v)@, item_key()),
    ensures
        final(v)@ == spec_insert_row(old(v)@, x, item_key()),
{
    let xt = x.create_time;
    let xi = x.item_id;
    let mut i: usize = 0;
    while i < v.len() && !key_lt_exec(xt, xi, v[i].create_time, v[i].item_id)
        invariant
            i <= v.len(),
            v@ == old(v)@,
            xt == x.create_time && xi == x.item_id,
            forall|j: int| 0 <= j < i ==> !key_lt((xt, xi), item_key()(#[trigger] v@[j])),
        decreases v.len() - i,
    {
        i += 1;
    }
    proof {
        lemma_insert_at(v@, x, item_key(), i as int);
    }
    v.insert(i, x);
    proof {
        assert(v@ =~= old(v)@.subrange(0, i as int) + seq![x] + old(v)@.subrange(
            i as int,
            old(v)@.len() as int,
        ));
    }
}

/// Inserts an item row into the database state.
pub(crate) fn add_item_db(db: &mut Database, new_row: NewItemRow) -> (r: Result<ItemRow, Error>)
    requires
        old(db).wf(),
    ensures
        final(db).wf(),
        match r {
            Ok(row) => spec_add_item(*old(db), new_row, row, *final(db)),
            Err(e) => db_eq(*final(db), *old(db)) && e == Error::PersistenceFailure && old(
                db,
            ).next_id == MAX_ID,
        },
{
    if db.next_id >= MAX_ID {
        return Err(Error::PersistenceFailure);
    }
    let id = db.next_id;
    let row = ItemRow {
        item_id: id,
        create_time: new_row.create_time,
        update_time: new_row.update_time,
        user_id: new_row.user_id,
        plaid_item_id: new_row.plaid_item_id,
        plaid_access_token: new_row.plaid_access_token,
    };
    let out = row.clone();
    let ghost grow = row;
    let ghost gpre = *db;
    proof {
        assert(forall|i: int|
            0 <= i < gpre.items@.len() ==> item_id_of()(#[trigger] gpre.items@[i]) != item_id_of()(
                grow,
            ));
        assert(forall|i: int|
            0 <= i < gpre.items@.len() ==> item_key()(#[trigger] gpre.items@[i]) != item_key()(
                grow,
            ));
        lemma_insert_row_props(gpre.items@, grow, item_key(), item_id_of());
    }
    insert_item_sorted(&mut db.items, row);
    db.next_id = id + 1;
    proof {
        let post = db.items@;
        assert forall|i: int| 0 <= i < post.len() implies item_id_of()(#[trigger] post[i])
            < db.next_id by {
            if post[i] == grow {
            } else {
                assert(gpre.items@.contains(post[i]));
                let w = choose|w: int| 0 <= w < gpre.items@.len() && gpre.items@[w] == post[i];
            }
        }
    }
    Ok(out)
}

/// Removes the item row with the given id, if present.
pub(crate) fn delete_item_db(db: &mut Database, item_id: u64)
    requires
        old(db).wf(),
    ensures
        final(db).wf(),
        spec_delete_item(*old(db), item_id, *final(db)),
{
    let mut kept: Vec<ItemRow> = Vec::new();
    let mut i: usize = 0;
    proof {
        assert(db.items@.skip(0) =~= db.items@);
        assert(kept@ + sel_rows(db.items@, item_keep_sel(item_id)) =~= sel_rows(
            db.items@,
            item_keep_sel(item_id),
        ));
    }
    while i < db.items.len()
        invariant
            i <= db.items@.len(),
            sel_rows(db.items@, item_keep_sel(item_id)) == kept@ + sel_rows(
                db.items@.skip(i as int),
                item_keep_sel(item_id),
            ),
        decreases db.items@.len() - i,
    {
        proof {
            lemma_sel_skip_step(db.items@, item_keep_sel(item_id), i as int);
            assert(item_keep_sel(item_id)(db.items@[i as int]) == (db.items@[i as int].item_id
                != item_id));
        }
        if db.items[i].item_id != item_id {
            let ghost old_kept = kept@;
            kept.push(db.items[i].clone());
            proof {
                assert(kept@ =~= old_kept + seq![db.items@[i as int]]);
                assert(kept@ + sel_rows(db.items@.skip(i as int + 1), item_keep_sel(item_id))
                    =~= sel_rows(db.items@, item_keep_sel(item_id)));
            }
        } else {
            proof {
                assert(kept@ + sel_rows(db.items@.skip(i as int + 1), item_keep_sel(item_id))
                    =~= sel_rows(db.items@, item_keep_sel(item_id)));
            }
        }
        i += 1;
    }
    proof {
        assert(db.items@.skip(db.items@.len() as int) =~= Seq::<ItemRow>::empty());
        assert(kept@ =~= sel_rows(db.items@, item_keep_sel(item_id)));
        lemma_sel_sorted(db.items@, item_keep_sel(item_id), item_key());
        lemma_sel_unique(db.items@, item_keep_sel(item_id), item_id_of());
        lemma_sel_subset(db.items@, item_keep_sel(item_id));
    }
    db.items = kept;
}

fn find_item_db(v: &Vec<ItemRow>, id: u64) -> (r: Option<ItemRow>)
    ensures
        r == find_first(v@, item_id_sel(id)),
{
    let mut i: usize = 0;
    proof {
        assert(v@.skip(0) =~= v@);
    }
    while i < v.len()
        invariant
            i <= v.len(),
            find_first(v@, item_id_sel(id)) == find_first(v@.skip(i as int), item_id_sel(id)),
        decreases v.len() - i,
    {
        proof {
            lemma_find_skip_step(v@, item_id_sel(id), i as int);
            assert(item_id_sel(id)(v@[i as int]) == (v@[i as int].item_id == id));
        }
        if v[i].item_id == id {
            return Some(v[i].clone());
        }
        i += 1;
    }
    proof {
        assert(v@.skip(v@.len() as int) =~= Seq::<ItemRow>::empty());
    }
    None
}

/// The scan behind the items listing.
fn scan_items_page(v: &Vec<ItemRow>, user_id: u64, after: Option<(i64, u64)>, limit: usize) -> (out: Vec<ItemRow>)
    requires
        sorted_by_key(v@, item_key()),
    ensures
        out@ == spec_page(v@, item_user_sel(user_id), item_key(), after, limit as int),
        out@.len() <= limit,
{
    let mut out: Vec<ItemRow> = Vec::new();
    let mut i: usize = 0;
    proof {
        assert(v@.skip(0) =~= v@);
        assert(out@ + sel_rows(v@, admit_fn(item_user_sel(user_id), item_key(), after))
            =~= sel_rows(v@, admit_fn(item_user_sel(user_id), item_key(), after)));
    }
    while i < v.len() && out.len() < limit
        invariant
            i <= v.len(),
            out@.len() <= limit,
            sel_rows(v@, admit_fn(item_user_sel(user_id), item_key(), after)) == out@ + sel_rows(
                v@.skip(i as int),
                admit_fn(item_user_sel(user_id), item_key(), after),
            ),
        decreases v.len() - i,
    {
        proof {
            lemma_sel_skip_step(v@, admit_fn(item_user_sel(user_id), item_key(), after), i as int);
            assert(admit_fn(item_user_sel(user_id), item_key(), after)(v@[i as int]) == (
            v@[i as int].user_id == user_id && past_cursor(item_key()(v@[i as int]), after)));
        }
        let admit_here = v[i].user_id == user_id && (match after {
            None => true,
            Some((t, id)) => !key_lt_exec(v[i].create_time, v[i].item_id, t, id),
        });
        proof {
            assert(admit_here == admit_fn(item_user_sel(user_id), item_key(), after)(
                v@[i as int],
            ));
        }
        if admit_here {
            let ghost old_out = out@;
            out.push(v[i].clone());
            proof {
                assert(out@ =~= old_out + seq![v@[i as int]]);
                assert(out@ + sel_rows(
                    v@.skip(i as int + 1),
                    admit_fn(item_user_sel(user_id), item_key(), after),
                ) =~= sel_rows(v@, admit_fn(item_user_sel(user_id), item_key(), after)));
            }
        } else {
            proof {
                assert(out@ + sel_rows(
                    v@.skip(i as int + 1),
                    admit_fn(item_user_sel(user_id), item_key(), after),
                ) =~= sel_rows(v@, admit_fn(item_user_sel(user_id), item_key(), after)));
            }
        }
        i += 1;
    }
    proof {
        let m = sel_rows(v@, item_user_sel(user_id));
        let c = spec_start(m, item_key(), after);
        lemma_sel_compose(v@, item_user_sel(user_id), item_key(), after);
        lemma_sel_sorted(v@, item_user_sel(user_id), item_key());
        if after is Some {
            lemma_cursor_suffix(m, item_key(), after);
            lemma_cut_bounds(m, item_key(), after->0);
        } else {
            lemma_sel_all(m, past_fn(item_key(), after));
            assert(m.skip(0) =~= m);
        }
        assert(sel_rows(v@, admit_fn(item_user_sel(user_id), item_key(), after)) == m.skip(c));
        if i == v.len() && out@.len() < limit {
            assert(v@.skip(v@.len() as int) =~= Seq::<ItemRow>::empty());
            assert(out@ =~= sel_rows(v@, admit_fn(item_user_sel(user_id), item_key(), after)));
        }
        let want = m.skip(c).take(if limit as int <= m.len() - c {
            limit as int
        } else {
            m.len() - c
        });
        assert(out@ =~= want) by {
            let total = sel_rows(v@, admit_fn(item_user_sel(user_id), item_key(), after));
            assert(total.len() == m.len() - c);
            if out@.len() == limit {
                assert(forall|k: int| 0 <= k < limit ==> total[k] == #[trigger] out@[k]);
            }
        }
    }
    out
}

/// Counts the items of one user.
fn count_items_db(v: &Vec<ItemRow>, user_id: u64) -> (r: usize)
    ensures
        r == sel_rows(v@, item_user_sel(user_id)).len(),
{
    let mut count: usize = 0;
    let mut i: usize = 0;
    proof {
        assert(v@.skip(0) =~= v@);
    }
    while i < v.len()
        invariant
            i <= v.len(),
            count <= i,
            sel_rows(v@, item_user_sel(user_id)).len() == count + sel_rows(
                v@.skip(i as int),
                item_user_sel(user_id),
            ).len(),
        decreases v.len() - i,
    {
        proof {
            lemma_sel_skip_step(v@, item_user_sel(user_id), i as int);
            assert(item_user_sel(user_id)(v@[i as int]) == (v@[i as int].user_id == user_id));
        }
        if v[i].user_id == user_id {
            count += 1;
        }
        i += 1;
    }
    proof {
        assert(v@.skip(v@.len() as int) =~= Seq::<ItemRow>::empty());
    }
    count
}

/// The shared listing body.
fn list_items_db(db: &Database, page_size: i64, page_token: &str, user_id: u64) -> (r: Result<
    (Vec<ItemRow>, String),
    Error,
>)
    requires
        db.wf(),
    ensures
        match r {
            Ok(p) => items_list_ok(*db, page_size, user_id, page_token@, p.0@, p.1@),
            Err(e) => e == Error::PaginationTokenInvalid && page_token@.len() > 0 && (forall|
                t: i64,
                id: u64,
            |
                page_token@ != b64_of(spec_token_bytes(ITEM_TOKEN_TAG, t, id))),
        },
{
    let tok = match ItemPageToken::deserialize_page_token(page_token) {
        Ok(o) => o,
        Err(e) => {
            proof {
                assert forall|t: i64, id: u64|
                    page_token@ != b64_of(spec_token_bytes(ITEM_TOKEN_TAG, t, id)) by {
                    let q = ItemPageToken { create_time: t, item_id: id };
                    assert(q.spec_token_string() == b64_of(spec_token_bytes(ITEM_TOKEN_TAG, t, id)));
                }
            }
            return Err(e);
        },
    };
    let after: Option<(i64, u64)> = match &tok {
        None => None,
        Some(p) => Some((p.create_time, p.item_id)),
    };
    let n = clamp_page_exec(page_size);
    let raw = scan_items_page(&db.items, user_id, after, n + 1);
    let out = if raw.len() <= n {
        (raw, String::new())
    } else {
        let next = match raw[n].page_token().serialize_page_token() {
            Ok(s) => s,
            Err(e) => {
                return Err(e);
            },
        };
        let mut rows = raw;
        rows.truncate(n);
        (rows, next)
    };
    proof {
        if tok is Some {
            let p = tok->0;
            assert(page_token@ == b64_of(
                spec_token_bytes(ITEM_TOKEN_TAG, p.create_time, p.item_id),
            ));
        }
    }
    Ok(out)
}

/// The item capability.
pub trait ItemStore: StoreContext {
    /// Inserts an item. Fails only when the id space is exhausted or the
    /// transaction is already aborted.
    fn add_item(&mut self, new_row: NewItemRow) -> (r: Result<ItemRow, Error>)
        requires
            old(self).inv(),
        ensures
            final(self).inv(),
            final(self).auto() == old(self).auto(),
            final(self).committed() == (if final(self).auto() {
                final(self).db()
            } else {
                old(self).committed()
            }),
            old(self).failed() ==> (r matches Err(e) && e == Error::PersistenceFailure && db_eq(
                final(self).db(),
                old(self).db(),
            ) && final(self).failed()),
            !old(self).failed() ==> match r {
                Ok(row) => !final(self).failed() && spec_add_item(
                    old(self).db(),
                    new_row,
                    row,
                    final(self).db(),
                ),
                Err(e) => {
                    &&& db_eq(final(self).db(), old(self).db())
                    &&& final(self).failed() == !final(self).auto()
                    &&& e == Error::PersistenceFailure
                    &&& old(self).db().next_id == MAX_ID
                },
            },
    ;

    /// Looks an item up by id; absence is `None`, not an error.
    fn find_item_by_id(&self, item_id: u64) -> (r: Result<Option<ItemRow>, Error>)
        requires
            self.inv(),
        ensures
            match r {
                Ok(o) => !self.failed() && o == find_first(self.db().items@, item_id_sel(item_id)),
                Err(e) => self.failed() && e == Error::PersistenceFailure,
            },
    ;

    /// Serves one page of the user's items plus the next opaque cursor
    /// (empty on the terminal page). A malformed cursor is rejected.
    fn list_items_for_user(&self, page_size: i64, page_token: &str, user_id: u64) -> (r: Result<
        (Vec<ItemRow>, String),
        Error,
    >)
        requires
            self.inv(),
        ensures
            match r {
                Ok(p) => !self.failed() && items_list_ok(
                    self.db(),
                    page_size,
                    user_id,
                    page_token@,
                    p.0@,
                    p.1@,
                ),
                Err(e) => {
                    ||| (self.failed() && e == Error::PersistenceFailure)
                    ||| (!self.failed() && e == Error::PaginationTokenInvalid && page_token@.len()
                        > 0 && (forall|t: i64, id: u64|
                        page_token@ != b64_of(spec_token_bytes(ITEM_TOKEN_TAG, t, id))))
                },
            },
    ;

    /// The number of items the user owns.
    fn count_items_for_user(&self, user_id: u64) -> (r: Result<i64, Error>)
        requires
            self.inv(),
        ensures
            match r {
                Ok(c) => !self.failed() && c == sel_rows(
                    self.db().items@,
                    item_user_sel(user_id),
                ).len(),
                Err(e) => self.failed() && e == Error::PersistenceFailure,
            },
    ;

    /// Serves the page together with the total count. The two reads are
    /// not one snapshot: under concurrent writes the count and the page
    /// may disagree; this is the accepted read-only optimization.
    fn list_and_count_items_for_user(&self, page_size: i64, page_token: &str, user_id: u64) -> (r:
        Result<(Vec<ItemRow>, String, i64), Error>)
        requires
            self.inv(),
        ensures
            match r {
                Ok(p) => !self.failed() && items_list_ok(
                    self.db(),
                    page_size,
                    user_id,
                    page_token@,
                    p.0@,
                    p.1@,
                ) && p.2 == sel_rows(self.db().items@, item_user_sel(user_id)).len(),
                Err(e) => {
                    ||| (self.failed() && e == Error::PersistenceFailure)
                    ||| (!self.failed() && e == Error::PaginationTokenInvalid && page_token@.len()
                        > 0 && (forall|t: i64, id: u64|
                        page_token@ != b64_of(spec_token_bytes(ITEM_TOKEN_TAG, t, id))))
                },
            },
    {
        let page = match self.list_items_for_user(page_size, page_token, user_id) {
            Ok(p) => p,
            Err(e) => {
                return Err(e);
            },
        };
        let total = match self.count_items_for_user(user_id) {
            Ok(c) => c,
            Err(e) => {
                return Err(e);
            },
        };
        Ok((page.0, page.1, total))
    }

    /// Deletes the item with the given id. Deleting an absent id is not an
    /// error at this layer: callers that care check existence first.
    fn delete_item(&mut self, item_id: u64) -> (r: Result<(), Error>)
        requires
            old(self).inv(),
        ensures
            final(self).inv(),
            final(self).auto() == old(self).auto(),
            final(self).committed() == (if final(self).auto() {
                final(self).db()
            } else {
                old(self).committed()
            }),
            old(self).failed() ==> (r matches Err(e) && e == Error::PersistenceFailure && db_eq(
                final(self).db(),
                old(self).db(),
            ) && final(self).failed()),
            !old(self).failed() ==> (r is Ok && !final(self).failed() && spec_delete_item(
                old(self).db(),
                item_id,
                final(self).db(),
            )),
    ;
}

impl ItemStore for PgOnDemandStore {
    fn add_item(&mut self, new_row: NewItemRow) -> (r: Result<ItemRow, Error>) {
        add_item_db(&mut self.db, new_row)
    }

    fn find_item_by_id(&self, item_id: u64) -> (r: Result<Option<ItemRow>, Error>) {
        Ok(find_item_db(&self.db.items, item_id))
    }

    fn list_items_for_user(&self, page_size: i64, page_token: &str, user_id: u64) -> (r: Result<
        (Vec<ItemRow>, String),
        Error,
    >) {
        list_items_db(&self.db, page_size, page_token, user_id)
    }

    fn count_items_for_user(&self, user_id: u64) -> (r: Result<i64, Error>) {
        let c = count_items_db(&self.db.items, user_id);
        proof {
            lemma_sel_subset(self.db.items@, item_user_sel(user_id));
        }
        Ok(c as i64)
    }

    fn delete_item(&mut self, item_id: u64) -> (r: Result<(), Error>) {
        delete_item_db(&mut self.db, item_id);
        Ok(())
    }
}

impl ItemStore for PgTransactionalStore {
    fn add_item(&mut self, new_row: NewItemRow) -> (r: Result<ItemRow, Error>) {
        if self.aborted {
            return Err(Error::PersistenceFailure);
        }
        match add_item_db(&mut self.work, new_row) {
            Ok(row) => Ok(row),
            Err(e) => {
                self.aborted = true;
                Err(e)
            },
        }
    }

    fn find_item_by_id(&self, item_id: u64) -> (r: Result<Option<ItemRow>, Error>) {
        if self.aborted {
            return Err(Error::PersistenceFailure);
        }
        Ok(find_item_db(&self.work.items, item_id))
    }

    fn list_items_for_user(&self, page_size: i64, page_token: &str, user_id: u64) -> (r: Result<
        (Vec<ItemRow>, String),
        Error,
    >) {
        if self.aborted {
            return Err(Error::PersistenceFailure);
        }
        list_items_db(&self.work, page_size, page_token, user_id)
    }

    fn count_items_for_user(&self, user_id: u64) -> (r: Result<i64, Error>) {
        if self.aborted {
            return Err(Error::PersistenceFailure);
        }
        let c = count_items_db(&self.work.items, user_id);
        proof {
            lemma_sel_subset(self.work.items@, item_user_sel(user_id));
        }
        Ok(c as i64)
    }

    fn delete_item(&mut self, item_id: u64) -> (r: Result<(), Error>) {
        if self.aborted {
            return Err(Error::PersistenceFailure);
        }
        delete_item_db(&mut self.work, item_id);
        Ok(())
    }
}

} // verus!

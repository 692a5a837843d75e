//! The nonprofit capability: insertion, lookup and listings. Served rows
//! carry the linked affiliate when the linkage resolves. The search
//! listing of this store matches a nonprofit when its name equals the
//! query exactly.

use vstd::prelude::*;
use crate::Error;
use crate::database::store::{PgOnDemandStore, PgTransactionalStore, StoreContext};
use crate::database::tables::{
    Database, MAX_ID, affiliate_id_sel, all_nonprofits, db_eq, nonprofit_id_of, nonprofit_id_sel,
    nonprofit_key, nonprofit_search_sel, others_than_nonprofits_same,
};
use crate::models::affiliate::AffiliateRow;
use crate::models::nonprofit::{
    FullNonprofitRow, NewNonprofitRow, NonprofitPageToken, NonprofitRow, NONPROFIT_TOKEN_TAG,
};
use crate::page_token::{PageToken, PageTokenable, b64_of, spec_token_bytes};
use crate::paging::{
    admit_fn, clamp_page, clamp_page_exec, find_first, key_lt, key_lt_exec, lemma_cursor_suffix,
    lemma_cut_bounds, lemma_find_skip_step, lemma_insert_at, lemma_insert_row_props,
    lemma_sel_all, lemma_sel_compose, lemma_sel_skip_step, lemma_sel_sorted, lemma_sel_subset,
    past_cursor, past_fn, sel_rows, sorted_by_key, spec_insert_row, spec_page, spec_start,
};

verus! {

/// The row an insertion produces: store-assigned id, caller's fields.
pub open spec fn spec_nonprofit_row(pre: Database, new_row: NewNonprofitRow) -> NonprofitRow {
    NonprofitRow {
        nonprofit_id: pre.next_id,
        create_time: new_row.create_time,
        update_time: new_row.update_time,
        change_nonprofit_id: new_row.change_nonprofit_id,
        icon_url: new_row.icon_url,
        name: new_row.name,
        ein: new_row.ein,
        mission: new_row.mission,
        category: new_row.category,
        affiliate_id: new_row.affiliate_id,
    }
}

/// What a successful nonprofit insertion does to the store.
pub open spec fn spec_add_nonprofit(pre: Database, new_row: NewNonprofitRow, row: NonprofitRow, post: Database) -> bool {
    &&& pre.next_id < MAX_ID
    &&& row == spec_nonprofit_row(pre, new_row)
    &&& post.nonprofits@ == spec_insert_row(pre.nonprofits@, row, nonprofit_key())
    &&& post.next_id == pre.next_id + 1
    &&& others_than_nonprofits_same(pre, post)
}

/// The affiliate a nonprofit is served with, if its linkage resolves.
pub open spec fn spec_linked_affiliate(dbv: Database, n: NonprofitRow) -> Option<AffiliateRow> {
    match n.affiliate_id {
        None => None,
        Some(aid) => find_first(dbv.affiliates@, affiliate_id_sel(aid)),
    }
}

/// A served full row: the nonprofit plus its resolved affiliate linkage.
pub open spec fn spec_full_nonprofit(dbv: Database, n: NonprofitRow, f: FullNonprofitRow) -> bool {
    &&& f.nonprofit == n
    &&& f.affiliate == spec_linked_affiliate(dbv, n)
}

/// The page and next token a nonprofit listing serves for a given cursor
/// and selection.
pub open spec fn nonprofits_page_post(dbv: Database, page_size: i64, sel: spec_fn(NonprofitRow) -> bool, after: Option<(i64, u64)>, rows: Seq<FullNonprofitRow>, next: Seq<char>) -> bool {
    let n = clamp_page(page_size);
    let page = spec_page(dbv.nonprofits@, sel, nonprofit_key(), after, n + 1);
    let served = if page.len() <= n {
        page
    } else {
        page.take(n)
    };
    &&& rows.len() == served.len()
    &&& forall|i: int|
        0 <= i < served.len() ==> spec_full_nonprofit(dbv, served[i], #[trigger] rows[i])
    &&& if page.len() <= n {
        next.len() == 0
    } else {
        next == b64_of(
            spec_token_bytes(NONPROFIT_TOKEN_TAG, page[n].create_time, page[n].nonprofit_id),
        )
    }
}

/// A successful nonprofit listing for a given selection.
pub open spec fn nonprofits_list_ok(dbv: Database, page_size: i64, sel: spec_fn(NonprofitRow) -> bool, token: Seq<char>, rows: Seq<FullNonprofitRow>, next: Seq<char>) -> bool {
    ||| (token.len() == 0 && nonprofits_page_post(dbv, page_size, sel, None, rows, next))
    ||| (exists|t: i64, id: u64|
        token == b64_of(spec_token_bytes(NONPROFIT_TOKEN_TAG, t, id)) && nonprofits_page_post(
            dbv,
            page_size,
            sel,
            Some((t, id)),
            rows,
            next,
        ))
}

fn insert_nonprofit_sorted(v: &mut Vec<NonprofitRow>, x: NonprofitRow)
    requires
        sorted_by_key(old(v)@, nonprofit_key()),
    ensures
        final(v)@ == spec_insert_row(old(v)@, x, nonprofit_key()),
{
    let xt = x.create_time;
    let xi = x.nonprofit_id;
    let mut i: usize = 0;
    while i < v.len() && !key_lt_exec(xt, xi, v[i].create_time, v[i].nonprofit_id)
        invariant
            i <= v.len(),
            v@ == old(v)@,
            xt == x.create_time && xi == x.nonprofit_id,
            forall|j: int| 0 <= j < i ==> !key_lt((xt, xi), nonprofit_key()(#[trigger] v@[j])),
        decreases v.len() - i,
    {
        i += 1;
    }
    proof {
        lemma_insert_at(v@, x, nonprofit_key(), i as int);
    }
    v.insert(i, x);
    proof {
        assert(v@ =~= old(v)@.subrange(0, i as int) + seq![x] + old(v)@.subrange(
            i as int,
            old(v)@.len() as int,
        ));
    }
}

/// Inserts a nonprofit row into the database state.
pub(crate) fn add_nonprofit_db(db: &mut Database, new_row: NewNonprofitRow) -> (r: Result<NonprofitRow, Error>)
    requires
        old(db).wf(),
    ensures
        final(db).wf(),
        match r {
            Ok(row) => spec_add_nonprofit(*old(db), new_row, row, *final(db)),
            Err(e) => db_eq(*final(db), *old(db)) && e == Error::PersistenceFailure && old(
                db,
            ).next_id == MAX_ID,
        },
{
    if db.next_id >= MAX_ID {
        return Err(Error::PersistenceFailure);
    }
    let id = db.next_id;
    let row = NonprofitRow {
        nonprofit_id: id,
        create_time: new_row.create_time,
        update_time: new_row.update_time,
        change_nonprofit_id: new_row.change_nonprofit_id,
        icon_url: new_row.icon_url,
        name: new_row.name,
        ein: new_row.ein,
        mission: new_row.mission,
        category: new_row.category,
        affiliate_id: new_row.affiliate_id,
    };
    let out = row.clone();
    let ghost grow = row;
    let ghost gpre = *db;
    proof {
        assert(forall|i: int|
            0 <= i < gpre.nonprofits@.len() ==> nonprofit_id_of()(#[trigger] gpre.nonprofits@[i])
                != nonprofit_id_of()(grow));
        assert(forall|i: int|
            0 <= i < gpre.nonprofits@.len() ==> nonprofit_key()(#[trigger] gpre.nonprofits@[i])
                != nonprofit_key()(grow));
        lemma_insert_row_props(gpre.nonprofits@, grow, nonprofit_key(), nonprofit_id_of());
    }
    insert_nonprofit_sorted(&mut db.nonprofits, row);
    db.next_id = id + 1;
    proof {
        let post = db.nonprofits@;
        assert forall|i: int| 0 <= i < post.len() implies nonprofit_id_of()(#[trigger] post[i])
            < db.next_id by {
            if post[i] == grow {
            } else {
                assert(gpre.nonprofits@.contains(post[i]));
                let w = choose|w: int|
                    0 <= w < gpre.nonprofits@.len() && gpre.nonprofits@[w] == post[i];
            }
        }
    }
    Ok(out)
}

fn find_affiliate_row(v: &Vec<AffiliateRow>, id: u64) -> (r: Option<AffiliateRow>)
    ensures
        r == find_first(v@, affiliate_id_sel(id)),
{
    let mut i: usize = 0;
    proof {
        assert(v@.skip(0) =~= v@);
    }
    while i < v.len()
        invariant
            i <= v.len(),
            find_first(v@, affiliate_id_sel(id)) == find_first(
                v@.skip(i as int),
                affiliate_id_sel(id),
            ),
        decreases v.len() - i,
    {
        proof {
            lemma_find_skip_step(v@, affiliate_id_sel(id), i as int);
            assert(affiliate_id_sel(id)(v@[i as int]) == (v@[i as int].affiliate_id == id));
        }
        if v[i].affiliate_id == id {
            return Some(v[i].clone());
        }
        i += 1;
    }
    proof {
        assert(v@.skip(v@.len() as int) =~= Seq::<AffiliateRow>::empty());
    }
    None
}

fn find_nonprofit_row(v: &Vec<NonprofitRow>, id: u64) -> (r: Option<NonprofitRow>)
    ensures
        r == find_first(v@, nonprofit_id_sel(id)),
{
    let mut i: usize = 0;
    proof {
        assert(v@.skip(0) =~= v@);
    }
    while i < v.len()
        invariant
            i <= v.len(),
            find_first(v@, nonprofit_id_sel(id)) == find_first(
                v@.skip(i as int),
                nonprofit_id_sel(id),
            ),
        decreases v.len() - i,
    {
        proof {
            lemma_find_skip_step(v@, nonprofit_id_sel(id), i as int);
            assert(nonprofit_id_sel(id)(v@[i as int]) == (v@[i as int].nonprofit_id == id));
        }
        if v[i].nonprofit_id == id {
            return Some(v[i].clone());
        }
        i += 1;
    }
    proof {
        assert(v@.skip(v@.len() as int) =~= Seq::<NonprofitRow>::empty());
    }
    None
}

/// Joins one nonprofit row with its affiliate linkage.
fn join_nonprofit(db: &Database, row: NonprofitRow) -> (f: FullNonprofitRow)
    ensures
        spec_full_nonprofit(*db, row, f),
{
    let affiliate = match &row.affiliate_id {
        None => None,
        Some(aid) => find_affiliate_row(&db.affiliates, *aid),
    };
    FullNonprofitRow { nonprofit: row, affiliate }
}

/// The scan behind the nonprofit listings. The search listing passes the
/// query; the plain listing passes `None`.
fn scan_nonprofits_page(v: &Vec<NonprofitRow>, query: Option<&String>, after: Option<(i64, u64)>, limit: usize) -> (out: Vec<NonprofitRow>)
    requires
        sorted_by_key(v@, nonprofit_key()),
    ensures
        match query {
            None => out@ == spec_page(v@, all_nonprofits(), nonprofit_key(), after, limit as int),
            Some(q) => out@ == spec_page(
                v@,
                nonprofit_search_sel(q@),
                nonprofit_key(),
                after,
                limit as int,
            ),
        },
        out@.len() <= limit,
{
    let ghost gsel = match query {
        None => all_nonprofits(),
        Some(q) => nonprofit_search_sel(q@),
    };
    let mut out: Vec<NonprofitRow> = Vec::new();
    let mut i: usize = 0;
    proof {
        assert(v@.skip(0) =~= v@);
        assert(out@ + sel_rows(v@, admit_fn(gsel, nonprofit_key(), after)) =~= sel_rows(
            v@,
            admit_fn(gsel, nonprofit_key(), after),
        ));
    }
    while i < v.len() && out.len() < limit
        invariant
            i <= v.len(),
            out@.len() <= limit,
            gsel == (match query {
                None => all_nonprofits(),
                Some(q) => nonprofit_search_sel(q@),
            }),
            sel_rows(v@, admit_fn(gsel, nonprofit_key(), after)) == out@ + sel_rows(
                v@.skip(i as int),
                admit_fn(gsel, nonprofit_key(), after),
            ),
        decreases v.len() - i,
    {
        proof {
            lemma_sel_skip_step(v@, admit_fn(gsel, nonprofit_key(), after), i as int);
            match query {
                None => {
                    assert(all_nonprofits()(v@[i as int]));
                },
                Some(q) => {
                    assert(nonprofit_search_sel(q@)(v@[i as int]) == (v@[i as int].name@ == q@));
                },
            }
            assert(admit_fn(gsel, nonprofit_key(), after)(v@[i as int]) == (gsel(v@[i as int])
                && past_cursor(nonprofit_key()(v@[i as int]), after)));
        }
        let selected = match query {
            None => true,
            Some(q) => v[i].name.eq(q),
        };
        let admit_here = selected && (match after {
            None => true,
            Some((t, id)) => !key_lt_exec(v[i].create_time, v[i].nonprofit_id, t, id),
        });
        proof {
            assert(selected == gsel(v@[i as int]));
            assert(admit_here == admit_fn(gsel, nonprofit_key(), after)(v@[i as int]));
        }
        if admit_here {
            let ghost old_out = out@;
            out.push(v[i].clone());
            proof {
                assert(out@ =~= old_out + seq![v@[i as int]]);
                assert(out@ + sel_rows(
                    v@.skip(i as int + 1),
                    admit_fn(gsel, nonprofit_key(), after),
                ) =~= sel_rows(v@, admit_fn(gsel, nonprofit_key(), after)));
            }
        } else {
            proof {
                assert(out@ + sel_rows(
                    v@.skip(i as int + 1),
                    admit_fn(gsel, nonprofit_key(), after),
                ) =~= sel_rows(v@, admit_fn(gsel, nonprofit_key(), after)));
            }
        }
        i += 1;
    }
    proof {
        let m = sel_rows(v@, gsel);
        let c = spec_start(m, nonprofit_key(), after);
        lemma_sel_compose(v@, gsel, nonprofit_key(), after);
        lemma_sel_sorted(v@, gsel, nonprofit_key());
        if after is Some {
            lemma_cursor_suffix(m, nonprofit_key(), after);
            lemma_cut_bounds(m, nonprofit_key(), after->0);
        } else {
            lemma_sel_all(m, past_fn(nonprofit_key(), after));
            assert(m.skip(0) =~= m);
        }
        assert(sel_rows(v@, admit_fn(gsel, nonprofit_key(), after)) == m.skip(c));
        if i == v.len() && out@.len() < limit {
            assert(v@.skip(v@.len() as int) =~= Seq::<NonprofitRow>::empty());
            assert(out@ =~= sel_rows(v@, admit_fn(gsel, nonprofit_key(), after)));
        }
        let want = m.skip(c).take(if limit as int <= m.len() - c {
            limit as int
        } else {
            m.len() - c
        });
        assert(out@ =~= want) by {
            let total = sel_rows(v@, admit_fn(gsel, nonprofit_key(), after));
            assert(total.len() == m.len() - c);
            if out@.len() == limit {
                assert(forall|k: int| 0 <= k < limit ==> total[k] == #[trigger] out@[k]);
            }
        }
    }
    out
}

/// Counts the nonprofits matching the search query.
fn count_search_db(v: &Vec<NonprofitRow>, query: &String) -> (r: usize)
    ensures
        r == sel_rows(v@, nonprofit_search_sel(query@)).len(),
{
    let mut count: usize = 0;
    let mut i: usize = 0;
    proof {
        assert(v@.skip(0) =~= v@);
    }
    while i < v.len()
        invariant
            i <= v.len(),
            count <= i,
            sel_rows(v@, nonprofit_search_sel(query@)).len() == count + sel_rows(
                v@.skip(i as int),
                nonprofit_search_sel(query@),
            ).len(),
        decreases v.len() - i,
    {
        proof {
            lemma_sel_skip_step(v@, nonprofit_search_sel(query@), i as int);
            assert(nonprofit_search_sel(query@)(v@[i as int]) == (v@[i as int].name@ == query@));
        }
        if v[i].name.eq(query) {
            count += 1;
        }
        i += 1;
    }
    proof {
        assert(v@.skip(v@.len() as int) =~= Seq::<NonprofitRow>::empty());
    }
    count
}

/// The shared listing body for both the plain and the search listing.
fn list_nonprofits_db(db: &Database, page_size: i64, page_token: &str, query: Option<&String>) -> (r: Result<(Vec<FullNonprofitRow>, String), Error>)
    requires
        db.wf(),
    ensures
        match r {
            Ok(p) => match query {
                None => nonprofits_list_ok(*db, page_size, all_nonprofits(), page_token@, p.0@, p.1@),
                Some(q) => nonprofits_list_ok(
                    *db,
                    page_size,
                    nonprofit_search_sel(q@),
                    page_token@,
                    p.0@,
                    p.1@,
                ),
            },
            Err(e) => e == Error::PaginationTokenInvalid && page_token@.len() > 0 && (forall|
                t: i64,
                id: u64,
            |
                page_token@ != b64_of(spec_token_bytes(NONPROFIT_TOKEN_TAG, t, id))),
        },
{
    let tok = match NonprofitPageToken::deserialize_page_token(page_token) {
        Ok(o) => o,
        Err(e) => {
            proof {
                assert forall|t: i64, id: u64|
                    page_token@ != b64_of(spec_token_bytes(NONPROFIT_TOKEN_TAG, t, id)) by {
                    let q = NonprofitPageToken { create_time: t, nonprofit_id: id };
                    assert(q.spec_token_string() == b64_of(
                        spec_token_bytes(NONPROFIT_TOKEN_TAG, t, id),
                    ));
                }
            }
            return Err(e);
        },
    };
    let after: Option<(i64, u64)> = match &tok {
        None => None,
        Some(p) => Some((p.create_time, p.nonprofit_id)),
    };
    let n = clamp_page_exec(page_size);
    let raw = scan_nonprofits_page(&db.nonprofits, query, after, n + 1);
    let (served, next) = if raw.len() <= n {
        (raw, String::new())
    } else {
        let next = match raw[n].page_token().serialize_page_token() {
            Ok(s) => s,
            Err(e) => {
                return Err(e);
            },
        };
        let mut rows = raw;
        rows.truncate(n);
        (rows, next)
    };
    let mut fulls: Vec<FullNonprofitRow> = Vec::new();
    let mut i: usize = 0;
    while i < served.len()
        invariant
            i <= served@.len(),
            fulls@.len() == i,
            db.wf(),
            forall|k: int|
                0 <= k < i ==> spec_full_nonprofit(*db, served@[k], #[trigger] fulls@[k]),
        decreases served.len() - i,
    {
        let f = join_nonprofit(db, served[i].clone());
        fulls.push(f);
        i += 1;
    }
    proof {
        if tok is Some {
            let p = tok->0;
            assert(page_token@ == b64_of(
                spec_token_bytes(NONPROFIT_TOKEN_TAG, p.create_time, p.nonprofit_id),
            ));
        }
    }
    Ok((fulls, next))
}

/// The nonprofit capability.
pub trait NonprofitStore: StoreContext {
    /// Inserts a nonprofit. Fails only when the id space is exhausted or
    /// the transaction is already aborted.
    fn add_nonprofit(&mut self, new_nonprofit: NewNonprofitRow) -> (r: Result<NonprofitRow, Error>)
        requires
            old(self).inv(),
        ensures
            final(self).inv(),
            final(self).auto() == old(self).auto(),
            final(self).committed() == (if final(self).auto() {
                final(self).db()
            } else {
                old(self).committed()
            }),
            old(self).failed() ==> (r matches Err(e) && e == Error::PersistenceFailure && db_eq(
                final(self).db(),
                old(self).db(),
            ) && final(self).failed()),
            !old(self).failed() ==> match r {
                Ok(row) => !final(self).failed() && spec_add_nonprofit(
                    old(self).db(),
                    new_nonprofit,
                    row,
                    final(self).db(),
                ),
                Err(e) => {
                    &&& db_eq(final(self).db(), old(self).db())
                    &&& final(self).failed() == !final(self).auto()
                    &&& e == Error::PersistenceFailure
                    &&& old(self).db().next_id == MAX_ID
                },
            },
    ;

    /// Looks a nonprofit up by id, with its affiliate linkage resolved.
    fn find_nonprofit_by_id(&self, nonprofit_id: u64) -> (r: Result<Option<FullNonprofitRow>, Error>)
        requires
            self.inv(),
        ensures
            match r {
                Ok(o) => !self.failed() && (match o {
                    None => find_first(self.db().nonprofits@, nonprofit_id_sel(nonprofit_id))
                        is None,
                    Some(f) => {
                        &&& find_first(self.db().nonprofits@, nonprofit_id_sel(nonprofit_id))
                            == Some(f.nonprofit)
                        &&& spec_full_nonprofit(self.db(), f.nonprofit, f)
                    },
                }),
                Err(e) => self.failed() && e == Error::PersistenceFailure,
            },
    ;

    /// Serves one page of all nonprofits plus the next opaque cursor.
    fn list_nonprofits(&self, page_size: i64, page_token: &str) -> (r: Result<
        (Vec<FullNonprofitRow>, String),
        Error,
    >)
        requires
            self.inv(),
        ensures
            match r {
                Ok(p) => !self.failed() && nonprofits_list_ok(
                    self.db(),
                    page_size,
                    all_nonprofits(),
                    page_token@,
                    p.0@,
                    p.1@,
                ),
                Err(e) => {
                    ||| (self.failed() && e == Error::PersistenceFailure)
                    ||| (!self.failed() && e == Error::PaginationTokenInvalid && page_token@.len()
                        > 0 && (forall|t: i64, id: u64|
                        page_token@ != b64_of(spec_token_bytes(NONPROFIT_TOKEN_TAG, t, id))))
                },
            },
    ;

    /// The total number of nonprofits.
    fn count_nonprofits(&self) -> (r: Result<i64, Error>)
        requires
            self.inv(),
        ensures
            match r {
                Ok(c) => !self.failed() && c == self.db().nonprofits@.len(),
                Err(e) => self.failed() && e == Error::PersistenceFailure,
            },
    ;

    /// Serves the page of all nonprofits together with the total count;
    /// the two reads are not one snapshot (the accepted read-only
    /// optimization).
    fn list_and_count_nonprofits(&self, page_size: i64, page_token: &str) -> (r: Result<
        (Vec<FullNonprofitRow>, String, i64),
        Error,
    >)
        requires
            self.inv(),
        ensures
            match r {
                Ok(p) => !self.failed() && nonprofits_list_ok(
                    self.db(),
                    page_size,
                    all_nonprofits(),
                    page_token@,
                    p.0@,
                    p.1@,
                ) && p.2 == self.db().nonprofits@.len(),
                Err(e) => {
                    ||| (self.failed() && e == Error::PersistenceFailure)
                    ||| (!self.failed() && e == Error::PaginationTokenInvalid && page_token@.len()
                        > 0 && (forall|t: i64, id: u64|
                        page_token@ != b64_of(spec_token_bytes(NONPROFIT_TOKEN_TAG, t, id))))
                },
            },
    {
        let page = match self.list_nonprofits(page_size, page_token) {
            Ok(p) => p,
            Err(e) => {
                return Err(e);
            },
        };
        let total = match self.count_nonprofits() {
            Ok(c) => c,
            Err(e) => {
                return Err(e);
            },
        };
        Ok((page.0, page.1, total))
    }

    /// Serves one page of the nonprofits whose name equals the query.
    fn list_nonprofits_by_search(&self, page_size: i64, page_token: &str, query: &String) -> (r:
        Result<(Vec<FullNonprofitRow>, String), Error>)
        requires
            self.inv(),
        ensures
            match r {
                Ok(p) => !self.failed() && nonprofits_list_ok(
                    self.db(),
                    page_size,
                    nonprofit_search_sel(query@),
                    page_token@,
                    p.0@,
                    p.1@,
                ),
                Err(e) => {
                    ||| (self.failed() && e == Error::PersistenceFailure)
                    ||| (!self.failed() && e == Error::PaginationTokenInvalid && page_token@.len()
                        > 0 && (forall|t: i64, id: u64|
                        page_token@ != b64_of(spec_token_bytes(NONPROFIT_TOKEN_TAG, t, id))))
                },
            },
    ;

    /// The number of nonprofits whose name equals the query.
    fn count_nonprofits_by_search(&self, query: &String) -> (r: Result<i64, Error>)
        requires
            self.inv(),
        ensures
            match r {
                Ok(c) => !self.failed() && c == sel_rows(
                    self.db().nonprofits@,
                    nonprofit_search_sel(query@),
                ).len(),
                Err(e) => self.failed() && e == Error::PersistenceFailure,
            },
    ;

    /// Serves the search page together with its total count; the two reads
    /// are not one snapshot (the accepted read-only optimization).
    fn list_and_count_nonprofits_by_search(&self, page_size: i64, page_token: &str, query: &String) -> (r: Result<(Vec<FullNonprofitRow>, String, i64), Error>)
        requires
            self.inv(),
        ensures
            match r {
                Ok(p) => !self.failed() && nonprofits_list_ok(
                    self.db(),
                    page_size,
                    nonprofit_search_sel(query@),
                    page_token@,
                    p.0@,
                    p.1@,
                ) && p.2 == sel_rows(self.db().nonprofits@, nonprofit_search_sel(query@)).len(),
                Err(e) => {
                    ||| (self.failed() && e == Error::PersistenceFailure)
                    ||| (!self.failed() && e == Error::PaginationTokenInvalid && page_token@.len()
                        > 0 && (forall|t: i64, id: u64|
                        page_token@ != b64_of(spec_token_bytes(NONPROFIT_TOKEN_TAG, t, id))))
                },
            },
    {
        let page = match self.list_nonprofits_by_search(page_size, page_token, query) {
            Ok(p) => p,
            Err(e) => {
                return Err(e);
            },
        };
        let total = match self.count_nonprofits_by_search(query) {
            Ok(c) => c,
            Err(e) => {
                return Err(e);
            },
        };
        Ok((page.0, page.1, total))
    }
}

impl NonprofitStore for PgOnDemandStore {
    fn add_nonprofit(&mut self, new_nonprofit: NewNonprofitRow) -> (r: Result<NonprofitRow, Error>) {
        add_nonprofit_db(&mut self.db, new_nonprofit)
    }

    fn find_nonprofit_by_id(&self, nonprofit_id: u64) -> (r: Result<Option<FullNonprofitRow>, Error>) {
        match find_nonprofit_row(&self.db.nonprofits, nonprofit_id) {
            None => Ok(None),
            Some(row) => Ok(Some(join_nonprofit(&self.db, row))),
        }
    }

    fn list_nonprofits(&self, page_size: i64, page_token: &str) -> (r: Result<
        (Vec<FullNonprofitRow>, String),
        Error,
    >) {
        list_nonprofits_db(&self.db, page_size, page_token, None)
    }

    fn count_nonprofits(&self) -> (r: Result<i64, Error>) {
        Ok(self.db.nonprofits.len() as i64)
    }

    fn list_nonprofits_by_search(&self, page_size: i64, page_token: &str, query: &String) -> (r:
        Result<(Vec<FullNonprofitRow>, String), Error>) {
        list_nonprofits_db(&self.db, page_size, page_token, Some(query))
    }

    fn count_nonprofits_by_search(&self, query: &String) -> (r: Result<i64, Error>) {
        let c = count_search_db(&self.db.nonprofits, query);
        proof {
            lemma_sel_subset(self.db.nonprofits@, nonprofit_search_sel(query@));
        }
        Ok(c as i64)
    }
}

impl NonprofitStore for PgTransactionalStore {
    fn add_nonprofit(&mut self, new_nonprofit: NewNonprofitRow) -> (r: Result<NonprofitRow, Error>) {
        if self.aborted {
            return Err(Error::PersistenceFailure);
        }
        match add_nonprofit_db(&mut self.work, new_nonprofit) {
            Ok(row) => Ok(row),
            Err(e) => {
                self.aborted = true;
                Err(e)
            },
        }
    }

    fn find_nonprofit_by_id(&self, nonprofit_id: u64) -> (r: Result<Option<FullNonprofitRow>, Error>) {
        if self.aborted {
            return Err(Error::PersistenceFailure);
        }
        match find_nonprofit_row(&self.work.nonprofits, nonprofit_id) {
            None => Ok(None),
            Some(row) => Ok(Some(join_nonprofit(&self.work, row))),
        }
    }

    fn list_nonprofits(&self, page_size: i64, page_token: &str) -> (r: Result<
        (Vec<FullNonprofitRow>, String),
        Error,
    >) {
        if self.aborted {
            return Err(Error::PersistenceFailure);
        }
        list_nonprofits_db(&self.work, page_size, page_token, None)
    }

    fn count_nonprofits(&self) -> (r: Result<i64, Error>) {
        if self.aborted {
            return Err(Error::PersistenceFailure);
        }
        Ok(self.work.nonprofits.len() as i64)
    }

    fn list_nonprofits_by_search(&self, page_size: i64, page_token: &str, query: &String) -> (r:
        Result<(Vec<FullNonprofitRow>, String), Error>) {
        if self.aborted {
            return Err(Error::PersistenceFailure);
        }
        list_nonprofits_db(&self.work, page_size, page_token, Some(query))
    }

    fn count_nonprofits_by_search(&self, query: &String) -> (r: Result<i64, Error>) {
        if self.aborted {
            return Err(Error::PersistenceFailure);
        }
        let c = count_search_db(&self.work.nonprofits, query);
        proof {
            lemma_sel_subset(self.work.nonprofits@, nonprofit_search_sel(query@));
        }
        Ok(c as i64)
    }
}

} // verus!

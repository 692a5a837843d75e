//! The affiliate capability: insertion, lookup with the asserted nonprofit
//! and manager rows attached, and the manager join operations. The
//! asserted nonprofit reference need not resolve to a stored row.

use vstd::prelude::*;
use crate::Error;
use crate::database::store::{PgOnDemandStore, PgTransactionalStore, StoreContext};
use crate::database::tables::{
    Database, MAX_ID, affiliate_exists, affiliate_id_sel, db_eq, has_affiliate_manager,
    manager_affiliate_sel, manager_user_sel, nonprofit_id_sel, others_than_affiliates_same,
    others_than_managers_same,
};
use crate::models::affiliate::{
    AffiliateRow, AffiliateManagerRow, FullAffiliateRow, NewAffiliateRow, NewAffiliateManagerRow,
    AffiliateManagerRowVec,
};
use crate::models::nonprofit::NonprofitRow;
use crate::paging::{find_first, lemma_find_skip_step, lemma_sel_skip_step, sel_rows};

verus! {

/// The row an insertion produces: store-assigned id, caller's fields.
pub open spec fn spec_affiliate_row(pre: Database, new_row: NewAffiliateRow) -> AffiliateRow {
    AffiliateRow {
        affiliate_id: pre.next_id,
        create_time: new_row.create_time,
        update_time: new_row.update_time,
        stripe_account_id: new_row.stripe_account_id,
        company_name: new_row.company_name,
        contact_email: new_row.contact_email,
        business_type: new_row.business_type,
        asserted_nonprofit_id: new_row.asserted_nonprofit_id,
    }
}

/// What a successful affiliate insertion does to the store.
pub open spec fn spec_add_affiliate(pre: Database, new_row: NewAffiliateRow, row: AffiliateRow, post: Database) -> bool {
    &&& pre.next_id < MAX_ID
    &&& row == spec_affiliate_row(pre, new_row)
    &&& post.affiliates@ == pre.affiliates@.push(row)
    &&& post.next_id == pre.next_id + 1
    &&& others_than_affiliates_same(pre, post)
}

/// The manager join row an insertion produces.
pub open spec fn spec_manager_row(new_row: NewAffiliateManagerRow) -> AffiliateManagerRow {
    AffiliateManagerRow {
        affiliate_id: new_row.affiliate_id,
        user_id: new_row.user_id,
        create_time: new_row.create_time,
        update_time: new_row.update_time,
    }
}

/// What a successful manager insertion does to the store.
pub open spec fn spec_add_manager(pre: Database, new_row: NewAffiliateManagerRow, row: AffiliateManagerRow, post: Database) -> bool {
    &&& affiliate_exists(pre.affiliates@, new_row.affiliate_id)
    &&& !has_affiliate_manager(pre.affiliate_managers@, new_row.affiliate_id, new_row.user_id)
    &&& row == spec_manager_row(new_row)
    &&& post.affiliate_managers@ == pre.affiliate_managers@.push(row)
    &&& post.next_id == pre.next_id
    &&& others_than_managers_same(pre, post)
}

/// A served full row: the affiliate, its asserted nonprofit when the
/// reference resolves, and all its manager rows.
pub open spec fn spec_full_affiliate(dbv: Database, a: AffiliateRow, f: FullAffiliateRow) -> bool {
    &&& f.affiliate == a
    &&& f.asserted_nonprofit == find_first(
        dbv.nonprofits@,
        nonprofit_id_sel(a.asserted_nonprofit_id),
    )
    &&& f.affiliate_managers.0@ == sel_rows(
        dbv.affiliate_managers@,
        manager_affiliate_sel(a.affiliate_id),
    )
}

/// Appends an affiliate row to the database state.
pub(crate) fn add_affiliate_db(db: &mut Database, new_row: NewAffiliateRow) -> (r: Result<AffiliateRow, Error>)
    requires
        old(db).wf(),
    ensures
        final(db).wf(),
        match r {
            Ok(row) => spec_add_affiliate(*old(db), new_row, row, *final(db)),
            Err(e) => db_eq(*final(db), *old(db)) && e == Error::PersistenceFailure && old(
                db,
            ).next_id == MAX_ID,
        },
{
    if db.next_id >= MAX_ID {
        return Err(Error::PersistenceFailure);
    }
    let id = db.next_id;
    let row = AffiliateRow {
        affiliate_id: id,
        create_time: new_row.create_time,
        update_time: new_row.update_time,
        stripe_account_id: new_row.stripe_account_id,
        company_name: new_row.company_name,
        contact_email: new_row.contact_email,
        business_type: new_row.business_type,
        asserted_nonprofit_id: new_row.asserted_nonprofit_id,
    };
    let out = row.clone();
    db.affiliates.push(row);
    db.next_id = id + 1;
    proof {
        // the manager join table still references only existing affiliates
        assert forall|i: int|
            0 <= i < db.affiliate_managers@.len() implies affiliate_exists(
            db.affiliates@,
            #[trigger] db.affiliate_managers@[i].affiliate_id,
        ) by {
            let w = choose|w: int|
                0 <= w < old(db).affiliates@.len() && old(db).affiliates@[w].affiliate_id == db
                    .affiliate_managers@[i].affiliate_id;
            assert(db.affiliates@[w] == old(db).affiliates@[w]);
        }
    }
    Ok(out)
}

fn affiliate_exists_exec(v: &Vec<AffiliateRow>, id: u64) -> (r: bool)
    ensures
        r == affiliate_exists(v@, id),
{
    let mut i: usize = 0;
    while i < v.len()
        invariant
            i <= v.len(),
            forall|k: int| 0 <= k < i ==> v@[k].affiliate_id != id,
        decreases v.len() - i,
    {
        if v[i].affiliate_id == id {
            return true;
        }
        i += 1;
    }
    false
}

fn manager_pair_exists(v: &Vec<AffiliateManagerRow>, affiliate_id: u64, user_id: u64) -> (r: bool)
    ensures
        r == has_affiliate_manager(v@, affiliate_id, user_id),
{
    let mut i: usize = 0;
    while i < v.len()
        invariant
            i <= v.len(),
            forall|k: int|
                0 <= k < i ==> !(v@[k].affiliate_id == affiliate_id && v@[k].user_id == user_id),
        decreases v.len() - i,
    {
        if v[i].affiliate_id == affiliate_id && v[i].user_id == user_id {
            return true;
        }
        i += 1;
    }
    false
}

/// Appends a manager join row to the database state.
pub(crate) fn add_manager_db(db: &mut Database, new_row: NewAffiliateManagerRow) -> (r: Result<AffiliateManagerRow, Error>)
    requires
        old(db).wf(),
    ensures
        final(db).wf(),
        match r {
            Ok(row) => spec_add_manager(*old(db), new_row, row, *final(db)),
            Err(e) => db_eq(*final(db), *old(db)) && e == Error::Conflict && (!affiliate_exists(
                old(db).affiliates@,
                new_row.affiliate_id,
            ) || has_affiliate_manager(
                old(db).affiliate_managers@,
                new_row.affiliate_id,
                new_row.user_id,
            )),
        },
{
    if !affiliate_exists_exec(&db.affiliates, new_row.affiliate_id) {
        return Err(Error::Conflict);
    }
    if manager_pair_exists(&db.affiliate_managers, new_row.affiliate_id, new_row.user_id) {
        return Err(Error::Conflict);
    }
    let row = AffiliateManagerRow {
        affiliate_id: new_row.affiliate_id,
        user_id: new_row.user_id,
        create_time: new_row.create_time,
        update_time: new_row.update_time,
    };
    db.affiliate_managers.push(row);
    Ok(row)
}

fn find_affiliate_db(v: &Vec<AffiliateRow>, id: u64) -> (r: Option<AffiliateRow>)
    ensures
        r == find_first(v@, affiliate_id_sel(id)),
{
    let mut i: usize = 0;
    proof {
        assert(v@.skip(0) =~= v@);
    }
    while i < v.len()
        invariant
            i <= v.len(),
            find_first(v@, affiliate_id_sel(id)) == find_first(
                v@.skip(i as int),
                affiliate_id_sel(id),
            ),
        decreases v.len() - i,
    {
        proof {
            lemma_find_skip_step(v@, affiliate_id_sel(id), i as int);
            assert(affiliate_id_sel(id)(v@[i as int]) == (v@[i as int].affiliate_id == id));
        }
        if v[i].affiliate_id == id {
            return Some(v[i].clone());
        }
        i += 1;
    }
    proof {
        assert(v@.skip(v@.len() as int) =~= Seq::<AffiliateRow>::empty());
    }
    None
}

fn find_nonprofit_db(v: &Vec<NonprofitRow>, id: u64) -> (r: Option<NonprofitRow>)
    ensures
        r == find_first(v@, nonprofit_id_sel(id)),
{
    let mut i: usize = 0;
    proof {
        assert(v@.skip(0) =~= v@);
    }
    while i < v.len()
        invariant
            i <= v.len(),
            find_first(v@, nonprofit_id_sel(id)) == find_first(
                v@.skip(i as int),
                nonprofit_id_sel(id),
            ),
        decreases v.len() - i,
    {
        proof {
            lemma_find_skip_step(v@, nonprofit_id_sel(id), i as int);
            assert(nonprofit_id_sel(id)(v@[i as int]) == (v@[i as int].nonprofit_id == id));
        }
        if v[i].nonprofit_id == id {
            return Some(v[i].clone());
        }
        i += 1;
    }
    proof {
        assert(v@.skip(v@.len() as int) =~= Seq::<NonprofitRow>::empty());
    }
    None
}

/// All manager rows of one affiliate, in insertion order.
fn managers_for_affiliate_db(v: &Vec<AffiliateManagerRow>, affiliate_id: u64) -> (out: Vec<AffiliateManagerRow>)
    ensures
        out@ == sel_rows(v@, manager_affiliate_sel(affiliate_id)),
{
    let mut out: Vec<AffiliateManagerRow> = Vec::new();
    let mut i: usize = 0;
    proof {
        assert(v@.skip(0) =~= v@);
        assert(out@ + sel_rows(v@, manager_affiliate_sel(affiliate_id)) =~= sel_rows(
            v@,
            manager_affiliate_sel(affiliate_id),
        ));
    }
    while i < v.len()
        invariant
            i <= v.len(),
            sel_rows(v@, manager_affiliate_sel(affiliate_id)) == out@ + sel_rows(
                v@.skip(i as int),
                manager_affiliate_sel(affiliate_id),
            ),
        decreases v.len() - i,
    {
        proof {
            lemma_sel_skip_step(v@, manager_affiliate_sel(affiliate_id), i as int);
            assert(manager_affiliate_sel(affiliate_id)(v@[i as int]) == (v@[i as int].affiliate_id
                == affiliate_id));
        }
        if v[i].affiliate_id == affiliate_id {
            let ghost old_out = out@;
            out.push(v[i]);
            proof {
                assert(out@ =~= old_out + seq![v@[i as int]]);
                assert(out@ + sel_rows(
                    v@.skip(i as int + 1),
                    manager_affiliate_sel(affiliate_id),
                ) =~= sel_rows(v@, manager_affiliate_sel(affiliate_id)));
            }
        } else {
            proof {
                assert(out@ + sel_rows(
                    v@.skip(i as int + 1),
                    manager_affiliate_sel(affiliate_id),
                ) =~= sel_rows(v@, manager_affiliate_sel(affiliate_id)));
            }
        }
        i += 1;
    }
    proof {
        assert(v@.skip(v@.len() as int) =~= Seq::<AffiliateManagerRow>::empty());
        assert(out@ =~= sel_rows(v@, manager_affiliate_sel(affiliate_id)));
    }
    out
}

/// All manager rows of one user, in insertion order.
fn managers_for_user_db(v: &Vec<AffiliateManagerRow>, user_id: u64) -> (out: Vec<AffiliateManagerRow>)
    ensures
        out@ == sel_rows(v@, manager_user_sel(user_id)),
{
    let mut out: Vec<AffiliateManagerRow> = Vec::new();
    let mut i: usize = 0;
    proof {
        assert(v@.skip(0) =~= v@);
        assert(out@ + sel_rows(v@, manager_user_sel(user_id)) =~= sel_rows(
            v@,
            manager_user_sel(user_id),
        ));
    }
    while i < v.len()
        invariant
            i <= v.len(),
            sel_rows(v@, manager_user_sel(user_id)) == out@ + sel_rows(
                v@.skip(i as int),
                manager_user_sel(user_id),
            ),
        decreases v.len() - i,
    {
        proof {
            lemma_sel_skip_step(v@, manager_user_sel(user_id), i as int);
            assert(manager_user_sel(user_id)(v@[i as int]) == (v@[i as int].user_id == user_id));
        }
        if v[i].user_id == user_id {
            let ghost old_out = out@;
            out.push(v[i]);
            proof {
                assert(out@ =~= old_out + seq![v@[i as int]]);
                assert(out@ + sel_rows(v@.skip(i as int + 1), manager_user_sel(user_id))
                    =~= sel_rows(v@, manager_user_sel(user_id)));
            }
        } else {
            proof {
                assert(out@ + sel_rows(v@.skip(i as int + 1), manager_user_sel(user_id))
                    =~= sel_rows(v@, manager_user_sel(user_id)));
            }
        }
        i += 1;
    }
    proof {
        assert(v@.skip(v@.len() as int) =~= Seq::<AffiliateManagerRow>::empty());
        assert(out@ =~= sel_rows(v@, manager_user_sel(user_id)));
    }
    out
}

/// Joins one affiliate row with its asserted nonprofit and managers.
pub(crate) fn join_affiliate(db: &Database, row: AffiliateRow) -> (f: FullAffiliateRow)
    ensures
        spec_full_affiliate(*db, row, f),
{
    let asserted_nonprofit = find_nonprofit_db(&db.nonprofits, row.asserted_nonprofit_id);
    let managers = managers_for_affiliate_db(&db.affiliate_managers, row.affiliate_id);
    FullAffiliateRow {
        affiliate: row,
        asserted_nonprofit,
        affiliate_managers: AffiliateManagerRowVec(managers),
    }
}

/// The affiliate capability.
pub trait AffiliateStore: StoreContext {
    /// Inserts an affiliate. Fails only when the id space is exhausted or
    /// the transaction is already aborted.
    fn add_affiliate(&mut self, new_row: NewAffiliateRow) -> (r: Result<AffiliateRow, Error>)
        requires
            old(self).inv(),
        ensures
            final(self).inv(),
            final(self).auto() == old(self).auto(),
            final(self).committed() == (if final(self).auto() {
                final(self).db()
            } else {
                old(self).committed()
            }),
            old(self).failed() ==> (r matches Err(e) && e == Error::PersistenceFailure && db_eq(
                final(self).db(),
                old(self).db(),
            ) && final(self).failed()),
            !old(self).failed() ==> match r {
                Ok(row) => !final(self).failed() && spec_add_affiliate(
                    old(self).db(),
                    new_row,
                    row,
                    final(self).db(),
                ),
                Err(e) => {
                    &&& db_eq(final(self).db(), old(self).db())
                    &&& final(self).failed() == !final(self).auto()
                    &&& e == Error::PersistenceFailure
                    &&& old(self).db().next_id == MAX_ID
                },
            },
    ;

    /// Looks an affiliate up by id, with the asserted nonprofit and the
    /// manager rows attached.
    fn find_affiliate_by_id(&self, affiliate_id: u64) -> (r: Result<Option<FullAffiliateRow>, Error>)
        requires
            self.inv(),
        ensures
            match r {
                Ok(o) => !self.failed() && (match o {
                    None => find_first(self.db().affiliates@, affiliate_id_sel(affiliate_id))
                        is None,
                    Some(f) => {
                        &&& find_first(self.db().affiliates@, affiliate_id_sel(affiliate_id))
                            == Some(f.affiliate)
                        &&& spec_full_affiliate(self.db(), f.affiliate, f)
                    },
                }),
                Err(e) => self.failed() && e == Error::PersistenceFailure,
            },
    ;

    /// Adds a manager to an affiliate. Fails with `Conflict` when the
    /// affiliate does not exist or already has this manager.
    fn add_affiliate_manager(&mut self, new_row: NewAffiliateManagerRow) -> (r: Result<
        AffiliateManagerRow,
        Error,
    >)
        requires
            old(self).inv(),
        ensures
            final(self).inv(),
            final(self).auto() == old(self).auto(),
            final(self).committed() == (if final(self).auto() {
                final(self).db()
            } else {
                old(self).committed()
            }),
            old(self).failed() ==> (r matches Err(e) && e == Error::PersistenceFailure && db_eq(
                final(self).db(),
                old(self).db(),
            ) && final(self).failed()),
            !old(self).failed() ==> match r {
                Ok(row) => !final(self).failed() && spec_add_manager(
                    old(self).db(),
                    new_row,
                    row,
                    final(self).db(),
                ),
                Err(e) => {
                    &&& db_eq(final(self).db(), old(self).db())
                    &&& final(self).failed() == !final(self).auto()
                    &&& e == Error::Conflict
                    &&& (!affiliate_exists(old(self).db().affiliates@, new_row.affiliate_id)
                        || has_affiliate_manager(
                        old(self).db().affiliate_managers@,
                        new_row.affiliate_id,
                        new_row.user_id,
                    ))
                },
            },
    ;

    /// All manager rows of the affiliate, in insertion order.
    fn list_affiliate_managers_for_affilate(&self, affiliate_id: u64) -> (r: Result<
        Vec<AffiliateManagerRow>,
        Error,
    >)
        requires
            self.inv(),
        ensures
            match r {
                Ok(rows) => !self.failed() && rows@ == sel_rows(
                    self.db().affiliate_managers@,
                    manager_affiliate_sel(affiliate_id),
                ),
                Err(e) => self.failed() && e == Error::PersistenceFailure,
            },
    ;

    /// All manager rows of the user, in insertion order.
    fn list_affiliate_managers_for_user(&self, user_id: u64) -> (r: Result<
        Vec<AffiliateManagerRow>,
        Error,
    >)
        requires
            self.inv(),
        ensures
            match r {
                Ok(rows) => !self.failed() && rows@ == sel_rows(
                    self.db().affiliate_managers@,
                    manager_user_sel(user_id),
                ),
                Err(e) => self.failed() && e == Error::PersistenceFailure,
            },
    ;
}

impl AffiliateStore for PgOnDemandStore {
    fn add_affiliate(&mut self, new_row: NewAffiliateRow) -> (r: Result<AffiliateRow, Error>) {
        add_affiliate_db(&mut self.db, new_row)
    }

    fn find_affiliate_by_id(&self, affiliate_id: u64) -> (r: Result<Option<FullAffiliateRow>, Error>) {
        match find_affiliate_db(&self.db.affiliates, affiliate_id) {
            None => Ok(None),
            Some(row) => Ok(Some(join_affiliate(&self.db, row))),
        }
    }

    fn add_affiliate_manager(&mut self, new_row: NewAffiliateManagerRow) -> (r: Result<
        AffiliateManagerRow,
        Error,
    >) {
        add_manager_db(&mut self.db, new_row)
    }

    fn list_affiliate_managers_for_affilate(&self, affiliate_id: u64) -> (r: Result<
        Vec<AffiliateManagerRow>,
        Error,
    >) {
        Ok(managers_for_affiliate_db(&self.db.affiliate_managers, affiliate_id))
    }

    fn list_affiliate_managers_for_user(&self, user_id: u64) -> (r: Result<
        Vec<AffiliateManagerRow>,
        Error,
    >) {
        Ok(managers_for_user_db(&self.db.affiliate_managers, user_id))
    }
}

impl AffiliateStore for PgTransactionalStore {
    fn add_affiliate(&mut self, new_row: NewAffiliateRow) -> (r: Result<AffiliateRow, Error>) {
        if self.aborted {
            return Err(Error::PersistenceFailure);
        }
        match add_affiliate_db(&mut self.work, new_row) {
            Ok(row) => Ok(row),
            Err(e) => {
                self.aborted = true;
                Err(e)
            },
        }
    }

    fn find_affiliate_by_id(&self, affiliate_id: u64) -> (r: Result<Option<FullAffiliateRow>, Error>) {
        if self.aborted {
            return Err(Error::PersistenceFailure);
        }
        match find_affiliate_db(&self.work.affiliates, affiliate_id) {
            None => Ok(None),
            Some(row) => Ok(Some(join_affiliate(&self.work, row))),
        }
    }

    fn add_affiliate_manager(&mut self, new_row: NewAffiliateManagerRow) -> (r: Result<
        AffiliateManagerRow,
        Error,
    >) {
        if self.aborted {
            return Err(Error::PersistenceFailure);
        }
        match add_manager_db(&mut self.work, new_row) {
            Ok(row) => Ok(row),
            Err(e) => {
                self.aborted = true;
                Err(e)
            },
        }
    }

    fn list_affiliate_managers_for_affilate(&self, affiliate_id: u64) -> (r: Result<
        Vec<AffiliateManagerRow>,
        Error,
    >) {
        if self.aborted {
            return Err(Error::PersistenceFailure);
        }
        Ok(managers_for_affiliate_db(&self.work.affiliate_managers, affiliate_id))
    }

    fn list_affiliate_managers_for_user(&self, user_id: u64) -> (r: Result<
        Vec<AffiliateManagerRow>,
        Error,
    >) {
        if self.aborted {
            return Err(Error::PersistenceFailure);
        }
        Ok(managers_for_user_db(&self.work.affiliate_managers, user_id))
    }
}

} // verus!

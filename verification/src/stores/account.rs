//! The account capability: insertion, per-item listing, and deletion.
//! Accounts are owned by their item: they are created on the item's append
//! path and deleted on its deletion path.

use vstd::prelude::*;
use crate::Error;
use crate::database::store::{PgOnDemandStore, PgTransactionalStore, StoreContext};
use crate::database::tables::{
    Database, MAX_ID, account_id_of, account_item_sel, account_keep_sel, db_eq,
    others_than_accounts_same,
};
use crate::models::account::{AccountRow, NewAccountRow};
use crate::paging::{lemma_sel_skip_step, lemma_sel_subset, lemma_sel_unique, sel_rows};

verus! {

/// The row an insertion produces: store-assigned id, caller's fields.
pub open spec fn spec_account_row(pre: Database, new_row: NewAccountRow) -> AccountRow {
    AccountRow {
        account_id: pre.next_id,
        create_time: new_row.create_time,
        update_time: new_row.update_time,
        item_id: new_row.item_id,
        plaid_account_id: new_row.plaid_account_id,
        name: new_row.name,
        mask: new_row.mask,
        stripe_bank_account_id: new_row.stripe_bank_account_id,
    }
}

/// What a successful account insertion does to the store.
pub open spec fn spec_add_account(pre: Database, new_row: NewAccountRow, row: AccountRow, post: Database) -> bool {
    &&& pre.next_id < MAX_ID
    &&& row == spec_account_row(pre, new_row)
    &&& post.accounts@ == pre.accounts@.push(row)
    &&& post.next_id == pre.next_id + 1
    &&& others_than_accounts_same(pre, post)
}

/// What an account deletion does to the store.
pub open spec fn spec_delete_account(pre: Database, account_id: u64, post: Database) -> bool {
    &&& post.accounts@ == sel_rows(pre.accounts@, account_keep_sel(account_id))
    &&& post.next_id == pre.next_id
    &&& others_than_accounts_same(pre, post)
}

/// Appends an account row to the database state.
pub(crate) fn add_account_db(db: &mut Database, new_row: NewAccountRow) -> (r: Result<AccountRow, Error>)
    requires
        old(db).wf(),
    ensures
        final(db).wf(),
        match r {
            Ok(row) => spec_add_account(*old(db), new_row, row, *final(db)),
            Err(e) => db_eq(*final(db), *old(db)) && e == Error::PersistenceFailure && old(
                db,
            ).next_id == MAX_ID,
        },
{
    if db.next_id >= MAX_ID {
        return Err(Error::PersistenceFailure);
    }
    let id = db.next_id;
    let row = AccountRow {
        account_id: id,
        create_time: new_row.create_time,
        update_time: new_row.update_time,
        item_id: new_row.item_id,
        plaid_account_id: new_row.plaid_account_id,
        name: new_row.name,
        mask: new_row.mask,
        stripe_bank_account_id: new_row.stripe_bank_account_id,
    };
    let out = row.clone();
    db.accounts.push(row);
    db.next_id = id + 1;
    Ok(out)
}

/// All account rows of one item, in insertion order.
pub(crate) fn accounts_for_item_db(v: &Vec<AccountRow>, item_id: u64) -> (out: Vec<AccountRow>)
    ensures
        out@ == sel_rows(v@, account_item_sel(item_id)),
{
    let mut out: Vec<AccountRow> = Vec::new();
    let mut i: usize = 0;
    proof {
        assert(v@.skip(0) =~= v@);
        assert(out@ + sel_rows(v@, account_item_sel(item_id)) =~= sel_rows(
            v@,
            account_item_sel(item_id),
        ));
    }
    while i < v.len()
        invariant
            i <= v.len(),
            sel_rows(v@, account_item_sel(item_id)) == out@ + sel_rows(
                v@.skip(i as int),
                account_item_sel(item_id),
            ),
        decreases v.len() - i,
    {
        proof {
            lemma_sel_skip_step(v@, account_item_sel(item_id), i as int);
            assert(account_item_sel(item_id)(v@[i as int]) == (v@[i as int].item_id == item_id));
        }
        if v[i].item_id == item_id {
            let ghost old_out = out@;
            out.push(v[i].clone());
            proof {
                assert(out@ =~= old_out + seq![v@[i as int]]);
                assert(out@ + sel_rows(v@.skip(i as int + 1), account_item_sel(item_id))
                    =~= sel_rows(v@, account_item_sel(item_id)));
            }
        } else {
            proof {
                assert(out@ + sel_rows(v@.skip(i as int + 1), account_item_sel(item_id))
                    =~= sel_rows(v@, account_item_sel(item_id)));
            }
        }
        i += 1;
    }
    proof {
        assert(v@.skip(v@.len() as int) =~= Seq::<AccountRow>::empty());
        assert(out@ =~= sel_rows(v@, account_item_sel(item_id)));
    }
    out
}

/// Removes the account row with the given id, if present.
pub(crate) fn delete_account_db(db: &mut Database, account_id: u64)
    requires
        old(db).wf(),
    ensures
        final(db).wf(),
        spec_delete_account(*old(db), account_id, *final(db)),
{
    let mut kept: Vec<AccountRow> = Vec::new();
    let mut i: usize = 0;
    proof {
        assert(db.accounts@.skip(0) =~= db.accounts@);
        assert(kept@ + sel_rows(db.accounts@, account_keep_sel(account_id)) =~= sel_rows(
            db.accounts@,
            account_keep_sel(account_id),
        ));
    }
    while i < db.accounts.len()
        invariant
            i <= db.accounts@.len(),
            sel_rows(db.accounts@, account_keep_sel(account_id)) == kept@ + sel_rows(
                db.accounts@.skip(i as int),
                account_keep_sel(account_id),
            ),
        decreases db.accounts@.len() - i,
    {
        proof {
            lemma_sel_skip_step(db.accounts@, account_keep_sel(account_id), i as int);
            assert(account_keep_sel(account_id)(db.accounts@[i as int]) == (db.accounts@[i as int]
                .account_id != account_id));
        }
        if db.accounts[i].account_id != account_id {
            let ghost old_kept = kept@;
            kept.push(db.accounts[i].clone());
            proof {
                assert(kept@ =~= old_kept + seq![db.accounts@[i as int]]);
                assert(kept@ + sel_rows(
                    db.accounts@.skip(i as int + 1),
                    account_keep_sel(account_id),
                ) =~= sel_rows(db.accounts@, account_keep_sel(account_id)));
            }
        } else {
            proof {
                assert(kept@ + sel_rows(
                    db.accounts@.skip(i as int + 1),
                    account_keep_sel(account_id),
                ) =~= sel_rows(db.accounts@, account_keep_sel(account_id)));
            }
        }
        i += 1;
    }
    proof {
        assert(db.accounts@.skip(db.accounts@.len() as int) =~= Seq::<AccountRow>::empty());
        assert(kept@ =~= sel_rows(db.accounts@, account_keep_sel(account_id)));
        lemma_sel_unique(db.accounts@, account_keep_sel(account_id), account_id_of());
        lemma_sel_subset(db.accounts@, account_keep_sel(account_id));
    }
    db.accounts = kept;
}

/// The account capability.
pub trait AccountStore: StoreContext {
    /// Adds an account. Fails only when the id space is exhausted or the
    /// transaction is already aborted.
    fn add_account(&mut self, new_row: NewAccountRow) -> (r: Result<AccountRow, Error>)
        requires
            old(self).inv(),
        ensures
            final(self).inv(),
            final(self).auto() == old(self).auto(),
            final(self).committed() == (if final(self).auto() {
                final(self).db()
            } else {
                old(self).committed()
            }),
            old(self).failed() ==> (r matches Err(e) && e == Error::PersistenceFailure && db_eq(
                final(self).db(),
                old(self).db(),
            ) && final(self).failed()),
            !old(self).failed() ==> match r {
                Ok(row) => !final(self).failed() && spec_add_account(
                    old(self).db(),
                    new_row,
                    row,
                    final(self).db(),
                ),
                Err(e) => {
                    &&& db_eq(final(self).db(), old(self).db())
                    &&& final(self).failed() == !final(self).auto()
                    &&& e == Error::PersistenceFailure
                    &&& old(self).db().next_id == MAX_ID
                },
            },
    ;

    /// Lists all accounts of the item, in insertion order.
    fn list_accounts_for_item(&self, item_id: u64) -> (r: Result<Vec<AccountRow>, Error>)
        requires
            self.inv(),
        ensures
            match r {
                Ok(rows) => !self.failed() && rows@ == sel_rows(
                    self.db().accounts@,
                    account_item_sel(item_id),
                ),
                Err(e) => self.failed() && e == Error::PersistenceFailure,
            },
    ;

    /// Deletes the account with the given id. Deleting an absent id is not
    /// an error at this layer.
    fn delete_account(&mut self, account_id: u64) -> (r: Result<(), Error>)
        requires
            old(self).inv(),
        ensures
            final(self).inv(),
            final(self).auto() == old(self).auto(),
            final(self).committed() == (if final(self).auto() {
                final(self).db()
            } else {
                old(self).committed()
            }),
            old(self).failed() ==> (r matches Err(e) && e == Error::PersistenceFailure && db_eq(
                final(self).db(),
                old(self).db(),
            ) && final(self).failed()),
            !old(self).failed() ==> (r is Ok && !final(self).failed() && spec_delete_account(
                old(self).db(),
                account_id,
                final(self).db(),
            )),
    ;
}

impl AccountStore for PgOnDemandStore {
    fn add_account(&mut self, new_row: NewAccountRow) -> (r: Result<AccountRow, Error>) {
        add_account_db(&mut self.db, new_row)
    }

    fn list_accounts_for_item(&self, item_id: u64) -> (r: Result<Vec<AccountRow>, Error>) {
        Ok(accounts_for_item_db(&self.db.accounts, item_id))
    }

    fn delete_account(&mut self, account_id: u64) -> (r: Result<(), Error>) {
        delete_account_db(&mut self.db, account_id);
        Ok(())
    }
}

impl AccountStore for PgTransactionalStore {
    fn add_account(&mut self, new_row: NewAccountRow) -> (r: Result<AccountRow, Error>) {
        if self.aborted {
            return Err(Error::PersistenceFailure);
        }
        match add_account_db(&mut self.work, new_row) {
            Ok(row) => Ok(row),
            Err(e) => {
                self.aborted = true;
                Err(e)
            },
        }
    }

    fn list_accounts_for_item(&self, item_id: u64) -> (r: Result<Vec<AccountRow>, Error>) {
        if self.aborted {
            return Err(Error::PersistenceFailure);
        }
        Ok(accounts_for_item_db(&self.work.accounts, item_id))
    }

    fn delete_account(&mut self, account_id: u64) -> (r: Result<(), Error>) {
        if self.aborted {
            return Err(Error::PersistenceFailure);
        }
        delete_account_db(&mut self.work, account_id);
        Ok(())
    }
}

} // verus!

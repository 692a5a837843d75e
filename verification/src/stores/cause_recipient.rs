//! The cause-recipient capability: appending recipient join rows (unique
//! per cause and nonprofit, and only for causes that exist) and listing a
//! cause's recipients.

use vstd::prelude::*;
use crate::Error;
use crate::database::store::{PgOnDemandStore, PgTransactionalStore, StoreContext};
use crate::database::tables::{
    Database, cause_exists, db_eq, has_cause_recipient, others_than_recipients_same,
    recipient_cause_sel,
};
use crate::models::cause::{CauseRecipientRow, NewCauseRecipientRow};
use crate::paging::sel_rows;
use crate::stores::cause::recipients_for_cause_db;

verus! {

/// The row an insertion produces: the join row exactly as given.
pub open spec fn spec_recipient_row(new_row: NewCauseRecipientRow) -> CauseRecipientRow {
    CauseRecipientRow {
        cause_id: new_row.cause_id,
        nonprofit_id: new_row.nonprofit_id,
        create_time: new_row.create_time,
        update_time: new_row.update_time,
    }
}

/// What a successful recipient insertion does to the store.
pub open spec fn spec_add_recipient(pre: Database, new_row: NewCauseRecipientRow, row: CauseRecipientRow, post: Database) -> bool {
    &&& cause_exists(pre.causes@, new_row.cause_id)
    &&& !has_cause_recipient(pre.cause_recipients@, new_row.cause_id, new_row.nonprofit_id)
    &&& row == spec_recipient_row(new_row)
    &&& post.cause_recipients@ == pre.cause_recipients@.push(row)
    &&& post.next_id == pre.next_id
    &&& others_than_recipients_same(pre, post)
}

fn cause_exists_exec(v: &Vec<crate::models::cause::CauseRow>, cause_id: u64) -> (r: bool)
    ensures
        r == cause_exists(v@, cause_id),
{
    let mut i: usize = 0;
    while i < v.len()
        invariant
            i <= v.len(),
            forall|k: int| 0 <= k < i ==> v@[k].cause_id != cause_id,
        decreases v.len() - i,
    {
        if v[i].cause_id == cause_id {
            return true;
        }
        i += 1;
    }
    false
}

fn recipient_pair_exists(v: &Vec<CauseRecipientRow>, cause_id: u64, nonprofit_id: u64) -> (r: bool)
    ensures
        r == has_cause_recipient(v@, cause_id, nonprofit_id),
{
    let mut i: usize = 0;
    while i < v.len()
        invariant
            i <= v.len(),
            forall|k: int|
                0 <= k < i ==> !(v@[k].cause_id == cause_id && v@[k].nonprofit_id == nonprofit_id),
        decreases v.len() - i,
    {
        if v[i].cause_id == cause_id && v[i].nonprofit_id == nonprofit_id {
            return true;
        }
        i += 1;
    }
    false
}

/// Appends a recipient join row to the database state.
pub(crate) fn add_cause_recipient_db(db: &mut Database, new_row: NewCauseRecipientRow) -> (r:
    Result<CauseRecipientRow, Error>)
    requires
        old(db).wf(),
    ensures
        final(db).wf(),
        match r {
            Ok(row) => spec_add_recipient(*old(db), new_row, row, *final(db)),
            Err(e) => db_eq(*final(db), *old(db)) && e == Error::Conflict && (!cause_exists(
                old(db).causes@,
                new_row.cause_id,
            ) || has_cause_recipient(
                old(db).cause_recipients@,
                new_row.cause_id,
                new_row.nonprofit_id,
            )),
        },
{
    if !cause_exists_exec(&db.causes, new_row.cause_id) {
        return Err(Error::Conflict);
    }
    if recipient_pair_exists(&db.cause_recipients, new_row.cause_id, new_row.nonprofit_id) {
        return Err(Error::Conflict);
    }
    let row = CauseRecipientRow {
        cause_id: new_row.cause_id,
        nonprofit_id: new_row.nonprofit_id,
        create_time: new_row.create_time,
        update_time: new_row.update_time,
    };
    db.cause_recipients.push(row);
    Ok(row)
}

/// The cause-recipient capability.
pub trait CauseRecipientStore: StoreContext {
    /// Appends one recipient to a cause. Fails with `Conflict` when the
    /// cause does not exist or already carries this nonprofit.
    fn add_cause_recipient(&mut self, new_row: NewCauseRecipientRow) -> (r: Result<
        CauseRecipientRow,
        Error,
    >)
        requires
            old(self).inv(),
        ensures
            final(self).inv(),
            final(self).auto() == old(self).auto(),
            final(self).committed() == (if final(self).auto() {
                final(self).db()
            } else {
                old(self).committed()
            }),
            old(self).failed() ==> (r matches Err(e) && e == Error::PersistenceFailure && db_eq(
                final(self).db(),
                old(self).db(),
            ) && final(self).failed()),
            !old(self).failed() ==> match r {
                Ok(row) => !final(self).failed() && spec_add_recipient(
                    old(self).db(),
                    new_row,
                    row,
                    final(self).db(),
                ),
                Err(e) => {
                    &&& db_eq(final(self).db(), old(self).db())
                    &&& final(self).failed() == !final(self).auto()
                    &&& e == Error::Conflict
                    &&& (!cause_exists(old(self).db().causes@, new_row.cause_id)
                        || has_cause_recipient(
                        old(self).db().cause_recipients@,
                        new_row.cause_id,
                        new_row.nonprofit_id,
                    ))
                },
            },
    ;

    /// All recipient rows of the cause, in insertion order.
    fn list_cause_recipients_for_cause(&self, cause_id: u64) -> (r: Result<
        Vec<CauseRecipientRow>,
        Error,
    >)
        requires
            self.inv(),
        ensures
            match r {
                Ok(rows) => !self.failed() && rows@ == sel_rows(
                    self.db().cause_recipients@,
                    recipient_cause_sel(cause_id),
                ),
                Err(e) => self.failed() && e == Error::PersistenceFailure,
            },
    ;
}

impl CauseRecipientStore for PgOnDemandStore {
    fn add_cause_recipient(&mut self, new_row: NewCauseRecipientRow) -> (r: Result<
        CauseRecipientRow,
        Error,
    >) {
        add_cause_recipient_db(&mut self.db, new_row)
    }

    fn list_cause_recipients_for_cause(&self, cause_id: u64) -> (r: Result<
        Vec<CauseRecipientRow>,
        Error,
    >) {
        Ok(recipients_for_cause_db(&self.db.cause_recipients, cause_id))
    }
}

impl CauseRecipientStore for PgTransactionalStore {
    fn add_cause_recipient(&mut self, new_row: NewCauseRecipientRow) -> (r: Result<
        CauseRecipientRow,
        Error,
    >) {
        if self.aborted {
            return Err(Error::PersistenceFailure);
        }
        match add_cause_recipient_db(&mut self.work, new_row) {
            Ok(row) => Ok(row),
            Err(e) => {
                self.aborted = true;
                Err(e)
            },
        }
    }

    fn list_cause_recipients_for_cause(&self, cause_id: u64) -> (r: Result<
        Vec<CauseRecipientRow>,
        Error,
    >) {
        if self.aborted {
            return Err(Error::PersistenceFailure);
        }
        Ok(recipients_for_cause_db(&self.work.cause_recipients, cause_id))
    }
}

} // verus!

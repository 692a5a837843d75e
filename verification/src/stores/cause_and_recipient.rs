//! The composite create: a cause and all its recipient rows inside one
//! transaction. The operation exists only for contexts that are cause and
//! recipient stores *and* transactional, so it can never run against the
//! auto-committing store; that gate is the type checker's, not a runtime
//! test. A failed step aborts the transaction, and an aborted transaction
//! publishes nothing on commit — so either every row of the composite
//! reaches storage or none does.

use vstd::prelude::*;
use crate::Error;
use crate::clock::now_nanos;
use crate::database::store::{StoreContext, TransactionalStore};
use crate::database::tables::{
    Database, MAX_ID, cause_exists, cause_id_of, cause_key, has_cause_recipient,
};
use crate::models::cause::{CauseRow, CauseRecipientRow, NewCauseRow, NewCauseRecipientRow};
use crate::paging::{lemma_insert_row_props, spec_insert_row};
use crate::stores::cause::CauseStore;
use crate::stores::cause_recipient::CauseRecipientStore;
use vstd::string::StringExecFns;

verus! {

/// What a successful composite create does to the store, given the
/// instant `now` the rows were stamped with.
pub open spec fn spec_add_cause_and_recipients(
    pre: Database,
    user_id: u64,
    ids: Seq<u64>,
    now: i64,
    c: CauseRow,
    rs: Seq<CauseRecipientRow>,
    post: Database,
) -> bool {
    &&& pre.next_id < MAX_ID
    &&& forall|i: int, j: int| 0 <= i < j < ids.len() ==> ids[i] != ids[j]
    &&& c.cause_id == pre.next_id
    &&& c.create_time == now
    &&& c.update_time == now
    &&& c.user_id == user_id
    &&& c.name@ == "some name"@
    &&& rs.len() == ids.len()
    &&& forall|i: int|
        0 <= i < ids.len() ==> #[trigger] rs[i] == CauseRecipientRow {
            cause_id: c.cause_id,
            nonprofit_id: ids[i],
            create_time: now,
            update_time: now,
        }
    &&& post.causes@ == spec_insert_row(pre.causes@, c, cause_key())
    &&& post.cause_recipients@ == pre.cause_recipients@ + rs
    &&& post.next_id == pre.next_id + 1
    &&& post.users@ == pre.users@
    &&& post.nonprofits@ == pre.nonprofits@
    &&& post.affiliates@ == pre.affiliates@
    &&& post.affiliate_managers@ == pre.affiliate_managers@
    &&& post.items@ == pre.items@
    &&& post.accounts@ == pre.accounts@
}

/// The composite create-cause-with-recipients operation; only contexts
/// that are transactional obtain it.
pub trait CauseAndRecipientStore: CauseStore + CauseRecipientStore + TransactionalStore {
    /// Creates the cause row and one recipient row per nonprofit, all in
    /// this transaction, stamping every row with the instant `now`. On any
    /// failure — duplicate recipients, exhausted id space — the
    /// transaction is aborted: committing it afterwards publishes nothing,
    /// so storage never holds the cause without its recipients.
    fn add_cause_and_recipients_at(&mut self, now: i64, user_id: u64, recipient_nonprofit_ids: Vec<u64>) -> (r: Result<(CauseRow, Vec<CauseRecipientRow>), Error>)
        requires
            old(self).inv(),
        ensures
            final(self).inv(),
            final(self).committed() == old(self).committed(),
            old(self).failed() ==> (r is Err && final(self).failed()),
            !old(self).failed() ==> match r {
                Ok(p) => !final(self).failed() && spec_add_cause_and_recipients(
                    old(self).db(),
                    user_id,
                    recipient_nonprofit_ids@,
                    now,
                    p.0,
                    p.1@,
                    final(self).db(),
                ),
                Err(e) => {
                    &&& final(self).failed()
                    &&& ((e == Error::PersistenceFailure && old(self).db().next_id == MAX_ID) || (
                    e == Error::Conflict && (exists|i: int, j: int|
                        0 <= i < j < recipient_nonprofit_ids@.len()
                            && recipient_nonprofit_ids@[i] == recipient_nonprofit_ids@[j])))
                },
            },
    ;

    /// As `add_cause_and_recipients_at`, stamping the rows with the
    /// current wall-clock instant.
    fn add_cause_and_recipients(&mut self, user_id: u64, recipient_nonprofit_ids: Vec<u64>) -> (r:
        Result<(CauseRow, Vec<CauseRecipientRow>), Error>)
        requires
            old(self).inv(),
        ensures
            final(self).inv(),
            final(self).committed() == old(self).committed(),
            old(self).failed() ==> (r is Err && final(self).failed()),
            !old(self).failed() ==> match r {
                Ok(p) => !final(self).failed() && (exists|now: i64|
                    spec_add_cause_and_recipients(
                        old(self).db(),
                        user_id,
                        recipient_nonprofit_ids@,
                        now,
                        p.0,
                        p.1@,
                        final(self).db(),
                    )),
                Err(e) => {
                    &&& final(self).failed()
                    &&& ((e == Error::PersistenceFailure && old(self).db().next_id == MAX_ID) || (
                    e == Error::Conflict && (exists|i: int, j: int|
                        0 <= i < j < recipient_nonprofit_ids@.len()
                            && recipient_nonprofit_ids@[i] == recipient_nonprofit_ids@[j])))
                },
            },
    {
        let now = now_nanos();
        self.add_cause_and_recipients_at(now, user_id, recipient_nonprofit_ids)
    }
}

impl<S: CauseStore + CauseRecipientStore + TransactionalStore> CauseAndRecipientStore for S {
    fn add_cause_and_recipients_at(&mut self, now: i64, user_id: u64, recipient_nonprofit_ids: Vec<u64>) -> (r: Result<(CauseRow, Vec<CauseRecipientRow>), Error>) {
        let ghost pre = *old(self);
        let name = String::from_str("some name");
        let cause_row = match self.add_cause(
            NewCauseRow { create_time: now, update_time: now, user_id, name },
        ) {
            Ok(c) => c,
            Err(e) => {
                proof {
                    self.transaction_pending();
                }
                return Err(e);
            },
        };
        proof {
            self.transaction_pending();
            pre.invariant_holds();
            // the new cause is present in the working state
            assert(forall|i: int|
                0 <= i < pre.db().causes@.len() ==> cause_id_of()(#[trigger] pre.db().causes@[i])
                    != cause_id_of()(cause_row));
            assert(forall|i: int|
                0 <= i < pre.db().causes@.len() ==> cause_key()(#[trigger] pre.db().causes@[i])
                    != cause_key()(cause_row));
            lemma_insert_row_props(pre.db().causes@, cause_row, cause_key(), cause_id_of());
            let iw = choose|i: int|
                0 <= i <= pre.db().causes@.len() && spec_insert_row(
                    pre.db().causes@,
                    cause_row,
                    cause_key(),
                ) == pre.db().causes@.subrange(0, i) + seq![cause_row] + pre.db().causes@.subrange(
                    i,
                    pre.db().causes@.len() as int,
                );
            assert(spec_insert_row(pre.db().causes@, cause_row, cause_key())[iw] == cause_row);
            assert(cause_exists(self.db().causes@, cause_row.cause_id));
            // no pre-existing recipient row can reference the fresh cause id
            assert forall|i: int|
                0 <= i < pre.db().cause_recipients@.len() implies #[trigger] pre.db()
                .cause_recipients@[i].cause_id != cause_row.cause_id by {
                let w = choose|w: int|
                    0 <= w < pre.db().causes@.len() && pre.db().causes@[w].cause_id == pre.db()
                        .cause_recipients@[i].cause_id;
            }
        }
        let mut recipient_rows: Vec<CauseRecipientRow> = Vec::new();
        let mut k: usize = 0;
        proof {
            assert(self.db().cause_recipients@ =~= pre.db().cause_recipients@ + recipient_rows@);
        }
        while k < recipient_nonprofit_ids.len()
            invariant
                pre == *old(self),
                k <= recipient_nonprofit_ids@.len(),
                self.inv(),
                !self.failed(),
                self.committed() == pre.committed(),
                pre.db().next_id < MAX_ID,
                cause_row.cause_id == pre.db().next_id,
                cause_exists(self.db().causes@, cause_row.cause_id),
                self.db().causes@ == spec_insert_row(pre.db().causes@, cause_row, cause_key()),
                self.db().next_id == pre.db().next_id + 1,
                self.db().cause_recipients@ == pre.db().cause_recipients@ + recipient_rows@,
                self.db().users@ == pre.db().users@,
                self.db().nonprofits@ == pre.db().nonprofits@,
                self.db().affiliates@ == pre.db().affiliates@,
                self.db().affiliate_managers@ == pre.db().affiliate_managers@,
                self.db().items@ == pre.db().items@,
                self.db().accounts@ == pre.db().accounts@,
                recipient_rows@.len() == k,
                forall|i: int|
                    0 <= i < k ==> #[trigger] recipient_rows@[i] == (CauseRecipientRow {
                        cause_id: cause_row.cause_id,
                        nonprofit_id: recipient_nonprofit_ids@[i],
                        create_time: now,
                        update_time: now,
                    }),
                forall|i: int, j: int|
                    0 <= i < j < k ==> recipient_nonprofit_ids@[i] != recipient_nonprofit_ids@[j],
                forall|i: int|
                    0 <= i < pre.db().cause_recipients@.len() ==> #[trigger] pre.db()
                        .cause_recipients@[i].cause_id != cause_row.cause_id,
            decreases recipient_nonprofit_ids@.len() - k,
        {
            let ghost before = *self;
            let outcome = self.add_cause_recipient(
                NewCauseRecipientRow {
                    cause_id: cause_row.cause_id,
                    nonprofit_id: recipient_nonprofit_ids[k],
                    create_time: now,
                    update_time: now,
                },
            );
            proof {
                self.transaction_pending();
            }
            match outcome {
                Ok(row) => {
                    proof {
                        // a fresh pair: the nonprofit differs from every
                        // earlier recipient of this cause
                        assert forall|i: int| 0 <= i < k implies recipient_nonprofit_ids@[i]
                            != recipient_nonprofit_ids@[k as int] by {
                            if recipient_nonprofit_ids@[i] == recipient_nonprofit_ids@[k as int] {
                                let w = pre.db().cause_recipients@.len() + i;
                                assert(before.db().cause_recipients@[w] == recipient_rows@[i]);
                                assert(has_cause_recipient(
                                    before.db().cause_recipients@,
                                    cause_row.cause_id,
                                    recipient_nonprofit_ids@[k as int],
                                ));
                            }
                        }
                    }
                    recipient_rows.push(row);
                    proof {
                        assert(self.db().cause_recipients@ =~= pre.db().cause_recipients@
                            + recipient_rows@);
                    }
                },
                Err(e) => {
                    proof {
                        self.transaction_pending();
                        assert(!self.auto());
                        assert(self.committed() == before.committed());
                        assert(self.committed() == pre.committed());
                        // the cause exists, so the conflict is a duplicate pair,
                        // and the pair can only come from an earlier recipient
                        assert(has_cause_recipient(
                            before.db().cause_recipients@,
                            cause_row.cause_id,
                            recipient_nonprofit_ids@[k as int],
                        ));
                        let w = choose|w: int|
                            0 <= w < before.db().cause_recipients@.len() && before.db()
                                .cause_recipients@[w].cause_id == cause_row.cause_id && before.db()
                                .cause_recipients@[w].nonprofit_id
                                == recipient_nonprofit_ids@[k as int];
                        assert(w >= pre.db().cause_recipients@.len());
                        let j = w - pre.db().cause_recipients@.len();
                        assert(before.db().cause_recipients@[w] == recipient_rows@[j]);
                        assert(recipient_nonprofit_ids@[j] == recipient_nonprofit_ids@[k as int]);
                    }
                    return Err(e);
                },
            }
            k += 1;
        }
        proof {
            assert(spec_add_cause_and_recipients(
                pre.db(),
                user_id,
                recipient_nonprofit_ids@,
                now,
                cause_row,
                recipient_rows@,
                self.db(),
            ));
        }
        Ok((cause_row, recipient_rows))
    }
}

} // verus!

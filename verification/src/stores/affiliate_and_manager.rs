//! The composite create: an affiliate together with its founding manager,
//! inside one transaction, re-read before returning — so a caller never
//! observes an affiliate without at least that manager. Available only on
//! transactional contexts, by trait bound.

use vstd::prelude::*;
use crate::Error;
use crate::database::store::{StoreContext, TransactionalStore};
use crate::database::tables::{
    Database, MAX_ID, affiliate_id_sel, manager_affiliate_sel, nonprofit_id_sel,
};
use crate::models::affiliate::{
    AffiliateRow, AffiliateManagerRow, FullAffiliateRow, NewAffiliateRow, NewAffiliateManagerRow,
};
use crate::paging::{find_first, lemma_find_push_fresh, lemma_sel_none, lemma_sel_push, sel_rows};
use crate::stores::affiliate::{AffiliateStore, spec_affiliate_row, spec_full_affiliate};

verus! {

/// What a successful composite create does to the store: the affiliate
/// row and exactly one manager join row for the founding user, stamped
/// with the affiliate's times.
pub open spec fn spec_create_affiliate_with_manager(
    pre: Database,
    new_row: NewAffiliateRow,
    user_id: u64,
    a: AffiliateRow,
    m: AffiliateManagerRow,
    post: Database,
) -> bool {
    &&& pre.next_id < MAX_ID
    &&& a == spec_affiliate_row(pre, new_row)
    &&& m == (AffiliateManagerRow {
        affiliate_id: a.affiliate_id,
        user_id,
        create_time: new_row.create_time,
        update_time: new_row.update_time,
    })
    &&& post.affiliates@ == pre.affiliates@.push(a)
    &&& post.affiliate_managers@ == pre.affiliate_managers@.push(m)
    &&& post.next_id == pre.next_id + 1
    &&& post.users@ == pre.users@
    &&& post.nonprofits@ == pre.nonprofits@
    &&& post.causes@ == pre.causes@
    &&& post.cause_recipients@ == pre.cause_recipients@
    &&& post.items@ == pre.items@
    &&& post.accounts@ == pre.accounts@
}

/// The composite create-affiliate-with-manager operation; only contexts
/// that are transactional obtain it.
pub trait AffiliateAndManagerStore: AffiliateStore + TransactionalStore {
    /// Creates the affiliate and its founding manager in this transaction
    /// and returns the re-read full row: the affiliate, its asserted
    /// nonprofit if the reference resolves, and the one manager row.
    fn create_affiliate_with_manager(&mut self, new_row: NewAffiliateRow, user_id: u64) -> (r:
        Result<FullAffiliateRow, Error>)
        requires
            old(self).inv(),
        ensures
            final(self).inv(),
            final(self).committed() == old(self).committed(),
            old(self).failed() ==> (r is Err && final(self).failed()),
            !old(self).failed() ==> match r {
                Ok(f) => {
                    &&& !final(self).failed()
                    &&& spec_create_affiliate_with_manager(
                        old(self).db(),
                        new_row,
                        user_id,
                        f.affiliate,
                        f.affiliate_managers.0@[0],
                        final(self).db(),
                    )
                    &&& f.affiliate_managers.0@.len() == 1
                    &&& spec_full_affiliate(final(self).db(), f.affiliate, f)
                },
                Err(e) => {
                    &&& final(self).failed()
                    &&& e == Error::PersistenceFailure
                    &&& old(self).db().next_id == MAX_ID
                },
            },
    ;
}

impl<S: AffiliateStore + TransactionalStore> AffiliateAndManagerStore for S {
    fn create_affiliate_with_manager(&mut self, new_row: NewAffiliateRow, user_id: u64) -> (r:
        Result<FullAffiliateRow, Error>) {
        let ghost pre = *old(self);
        let create_time = new_row.create_time;
        let update_time = new_row.update_time;
        let affiliate = match self.add_affiliate(new_row) {
            Ok(a) => a,
            Err(e) => {
                proof {
                    self.transaction_pending();
                }
                return Err(e);
            },
        };
        proof {
            self.transaction_pending();
            pre.invariant_holds();
            // the fresh id is referenced by no manager row yet, and the
            // affiliate row itself is now present
            assert forall|i: int|
                0 <= i < pre.db().affiliate_managers@.len() implies #[trigger] pre.db()
                .affiliate_managers@[i].affiliate_id != affiliate.affiliate_id by {
                let w = choose|w: int|
                    0 <= w < pre.db().affiliates@.len() && pre.db().affiliates@[w].affiliate_id
                        == pre.db().affiliate_managers@[i].affiliate_id;
            }
            assert(self.db().affiliates@[pre.db().affiliates@.len() as int] == affiliate);
        }
        let manager = match self.add_affiliate_manager(
            NewAffiliateManagerRow {
                affiliate_id: affiliate.affiliate_id,
                user_id,
                create_time,
                update_time,
            },
        ) {
            Ok(m) => m,
            Err(e) => {
                proof {
                    self.transaction_pending();
                    assert(false);
                }
                return Err(e);
            },
        };
        proof {
            self.transaction_pending();
        }
        let full = match self.find_affiliate_by_id(affiliate.affiliate_id) {
            Ok(Some(f)) => f,
            Ok(None) => {
                proof {
                    lemma_find_push_fresh(
                        pre.db().affiliates@,
                        affiliate,
                        affiliate_id_sel(affiliate.affiliate_id),
                    );
                    assert(forall|i: int|
                        0 <= i < pre.db().affiliates@.len() ==> !affiliate_id_sel(
                            affiliate.affiliate_id,
                        )(#[trigger] pre.db().affiliates@[i]));
                    assert(false);
                }
                return Err(Error::PersistenceFailure);
            },
            Err(e) => {
                proof {
                    assert(false);
                }
                return Err(e);
            },
        };
        proof {
            // the re-read row is the affiliate just written, with exactly
            // the founding manager attached
            assert(forall|i: int|
                0 <= i < pre.db().affiliates@.len() ==> !affiliate_id_sel(affiliate.affiliate_id)(
                    #[trigger] pre.db().affiliates@[i],
                ));
            lemma_find_push_fresh(
                pre.db().affiliates@,
                affiliate,
                affiliate_id_sel(affiliate.affiliate_id),
            );
            assert(full.affiliate == affiliate);
            assert(forall|i: int|
                0 <= i < pre.db().affiliate_managers@.len() ==> !manager_affiliate_sel(
                    affiliate.affiliate_id,
                )(#[trigger] pre.db().affiliate_managers@[i]));
            lemma_sel_none(
                pre.db().affiliate_managers@,
                manager_affiliate_sel(affiliate.affiliate_id),
            );
            lemma_sel_push(
                pre.db().affiliate_managers@,
                manager,
                manager_affiliate_sel(affiliate.affiliate_id),
            );
            assert(full.affiliate_managers.0@ =~= seq![manager]);
        }
        Ok(full)
    }
}

} // verus!

//! The composite delete: an item and its accounts removed inside one
//! transaction, so no reader ever observes the item gone while its
//! accounts linger, or the reverse. Available only on transactional
//! contexts, by trait bound.

use vstd::prelude::*;
use crate::Error;
use crate::database::store::{StoreContext, TransactionalStore};
use crate::database::tables::{
    Database, account_survives_sel, account_keep_sel, item_keep_sel,
};
use crate::paging::{
    both_sel, lemma_sel_all, lemma_sel_both, lemma_sel_ext, lemma_sel_subset, sel_rows,
};
use crate::stores::account::AccountStore;
use crate::stores::item::ItemStore;

verus! {

/// What the composite delete does to the store: the named accounts and
/// the item row are gone, everything else stays.
pub open spec fn spec_delete_item_and_accounts(pre: Database, item_id: u64, ids: Seq<u64>, post: Database) -> bool {
    &&& post.accounts@ == sel_rows(pre.accounts@, account_survives_sel(ids, ids.len() as int))
    &&& post.items@ == sel_rows(pre.items@, item_keep_sel(item_id))
    &&& post.next_id == pre.next_id
    &&& post.users@ == pre.users@
    &&& post.nonprofits@ == pre.nonprofits@
    &&& post.affiliates@ == pre.affiliates@
    &&& post.affiliate_managers@ == pre.affiliate_managers@
    &&& post.causes@ == pre.causes@
    &&& post.cause_recipients@ == pre.cause_recipients@
}

/// The referential guarantee of the composite delete: when the caller
/// names every account of the item, the store afterwards holds neither
/// the item nor any account owned by it.
pub proof fn lemma_item_leaves_no_accounts(pre: Database, item_id: u64, ids: Seq<u64>, post: Database)
    requires
        spec_delete_item_and_accounts(pre, item_id, ids, post),
        forall|i: int|
            0 <= i < pre.accounts@.len() && pre.accounts@[i].item_id == item_id
                ==> ids.contains(#[trigger] pre.accounts@[i].account_id),
    ensures
        forall|i: int| 0 <= i < post.accounts@.len() ==> #[trigger] post.accounts@[i].item_id != item_id,
        forall|i: int| 0 <= i < post.items@.len() ==> #[trigger] post.items@[i].item_id != item_id,
{
    lemma_sel_subset(pre.accounts@, account_survives_sel(ids, ids.len() as int));
    assert forall|i: int| 0 <= i < post.accounts@.len() implies #[trigger] post.accounts@[i]
        .item_id != item_id by {
        let a = post.accounts@[i];
        assert(account_survives_sel(ids, ids.len() as int)(a));
        assert(pre.accounts@.contains(a));
        let w = choose|w: int| 0 <= w < pre.accounts@.len() && pre.accounts@[w] == a;
        if a.item_id == item_id {
            assert(ids.contains(a.account_id));
            let j = choose|j: int| 0 <= j < ids.len() && ids[j] == a.account_id;
            assert(a.account_id != ids[j]);
        }
    }
    lemma_sel_subset(pre.items@, item_keep_sel(item_id));
    assert forall|i: int| 0 <= i < post.items@.len() implies #[trigger] post.items@[i].item_id
        != item_id by {
        assert(item_keep_sel(item_id)(post.items@[i]));
    }
}

/// The composite delete-item-with-accounts operation; only contexts that
/// are transactional obtain it.
pub trait ItemAndAccountStore: ItemStore + AccountStore + TransactionalStore {
    /// Deletes the named accounts and then the item, all in this
    /// transaction; nothing becomes visible until the transaction commits.
    fn delete_item_and_accounts(&mut self, item_id: u64, account_ids: Vec<u64>) -> (r: Result<(), Error>)
        requires
            old(self).inv(),
        ensures
            final(self).inv(),
            final(self).committed() == old(self).committed(),
            old(self).failed() ==> (r is Err && final(self).failed()),
            !old(self).failed() ==> (r is Ok && !final(self).failed()
                && spec_delete_item_and_accounts(
                old(self).db(),
                item_id,
                account_ids@,
                final(self).db(),
            )),
    ;
}

impl<S: ItemStore + AccountStore + TransactionalStore> ItemAndAccountStore for S {
    fn delete_item_and_accounts(&mut self, item_id: u64, account_ids: Vec<u64>) -> (r: Result<(), Error>) {
        let ghost pre = *old(self);
        let mut k: usize = 0;
        proof {
            self.transaction_pending();
            assert(forall|i: int|
                0 <= i < pre.db().accounts@.len() ==> account_survives_sel(account_ids@, 0)(
                    #[trigger] pre.db().accounts@[i],
                ));
            lemma_sel_all(pre.db().accounts@, account_survives_sel(account_ids@, 0));
        }
        while k < account_ids.len()
            invariant
                pre == *old(self),
                k <= account_ids@.len(),
                self.inv(),
                self.failed() == pre.failed(),
                self.committed() == pre.committed(),
                !pre.failed() ==> {
                    &&& self.db().accounts@ == sel_rows(
                        pre.db().accounts@,
                        account_survives_sel(account_ids@, k as int),
                    )
                    &&& self.db().items@ == pre.db().items@
                    &&& self.db().next_id == pre.db().next_id
                    &&& self.db().users@ == pre.db().users@
                    &&& self.db().nonprofits@ == pre.db().nonprofits@
                    &&& self.db().affiliates@ == pre.db().affiliates@
                    &&& self.db().affiliate_managers@ == pre.db().affiliate_managers@
                    &&& self.db().causes@ == pre.db().causes@
                    &&& self.db().cause_recipients@ == pre.db().cause_recipients@
                },
            decreases account_ids@.len() - k,
        {
            let ghost before = *self;
            match self.delete_account(account_ids[k]) {
                Ok(_) => {
                    proof {
                        self.transaction_pending();
                        if !pre.failed() {
                            lemma_sel_both(
                                pre.db().accounts@,
                                account_survives_sel(account_ids@, k as int),
                                account_keep_sel(account_ids@[k as int]),
                            );
                            assert(forall|i: int|
                                0 <= i < pre.db().accounts@.len() ==> both_sel(
                                    account_survives_sel(account_ids@, k as int),
                                    account_keep_sel(account_ids@[k as int]),
                                )(#[trigger] pre.db().accounts@[i]) == account_survives_sel(
                                    account_ids@,
                                    k as int + 1,
                                )(pre.db().accounts@[i]));
                            lemma_sel_ext(
                                pre.db().accounts@,
                                both_sel(
                                    account_survives_sel(account_ids@, k as int),
                                    account_keep_sel(account_ids@[k as int]),
                                ),
                                account_survives_sel(account_ids@, k as int + 1),
                            );
                        }
                    }
                },
                Err(e) => {
                    proof {
                        self.transaction_pending();
                    }
                    return Err(e);
                },
            }
            k += 1;
        }
        match self.delete_item(item_id) {
            Ok(_) => {
                proof {
                    self.transaction_pending();
                }
                Ok(())
            },
            Err(e) => {
                proof {
                    self.transaction_pending();
                }
                Err(e)
            },
        }
    }
}

} // verus!

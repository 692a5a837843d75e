//! The relational state behind the stores: one table per entity, an id
//! allocator, and the well-formedness invariant every store operation
//! preserves. Tables that serve paginated listings are kept sorted by
//! `(create_time, id)`; join tables enforce their pair uniqueness; ids are
//! store-assigned, unique, and below the allocator's next id.

use vstd::prelude::*;
use vstd::pervasive::cloned;
use crate::models::account::AccountRow;
use crate::models::affiliate::{AffiliateRow, AffiliateManagerRow};
use crate::models::cause::{CauseRow, CauseRecipientRow};
use crate::models::item::ItemRow;
use crate::models::nonprofit::NonprofitRow;
use crate::models::user::UserRow;
use crate::paging::{sorted_by_key, unique_by, ids_below};

verus! {

/// The largest id the store will assign; counts stay representable as i64.
pub const MAX_ID: u64 = 0x7fff_ffff_ffff_ffff;

/// The tables of the store.
pub struct Database {
    pub next_id: u64,
    pub users: Vec<UserRow>,
    pub nonprofits: Vec<NonprofitRow>,
    pub affiliates: Vec<AffiliateRow>,
    pub affiliate_managers: Vec<AffiliateManagerRow>,
    pub causes: Vec<CauseRow>,
    pub cause_recipients: Vec<CauseRecipientRow>,
    pub items: Vec<ItemRow>,
    pub accounts: Vec<AccountRow>,
}

/// Two database values hold the same rows and allocator state.
pub open spec fn db_eq(a: Database, b: Database) -> bool {
    &&& a.next_id == b.next_id
    &&& a.users@ == b.users@
    &&& a.nonprofits@ == b.nonprofits@
    &&& a.affiliates@ == b.affiliates@
    &&& a.affiliate_managers@ == b.affiliate_managers@
    &&& a.causes@ == b.causes@
    &&& a.cause_recipients@ == b.cause_recipients@
    &&& a.items@ == b.items@
    &&& a.accounts@ == b.accounts@
}

/// All tables except the users table are unchanged.
pub open spec fn others_than_users_same(a: Database, b: Database) -> bool {
    &&& a.nonprofits@ == b.nonprofits@
    &&& a.affiliates@ == b.affiliates@
    &&& a.affiliate_managers@ == b.affiliate_managers@
    &&& a.causes@ == b.causes@
    &&& a.cause_recipients@ == b.cause_recipients@
    &&& a.items@ == b.items@
    &&& a.accounts@ == b.accounts@
}

/// All tables except the nonprofits table are unchanged.
pub open spec fn others_than_nonprofits_same(a: Database, b: Database) -> bool {
    &&& a.users@ == b.users@
    &&& a.affiliates@ == b.affiliates@
    &&& a.affiliate_managers@ == b.affiliate_managers@
    &&& a.causes@ == b.causes@
    &&& a.cause_recipients@ == b.cause_recipients@
    &&& a.items@ == b.items@
    &&& a.accounts@ == b.accounts@
}

/// All tables except the affiliates table are unchanged.
pub open spec fn others_than_affiliates_same(a: Database, b: Database) -> bool {
    &&& a.users@ == b.users@
    &&& a.nonprofits@ == b.nonprofits@
    &&& a.affiliate_managers@ == b.affiliate_managers@
    &&& a.causes@ == b.causes@
    &&& a.cause_recipients@ == b.cause_recipients@
    &&& a.items@ == b.items@
    &&& a.accounts@ == b.accounts@
}

/// All tables except the manager join table are unchanged.
pub open spec fn others_than_managers_same(a: Database, b: Database) -> bool {
    &&& a.users@ == b.users@
    &&& a.nonprofits@ == b.nonprofits@
    &&& a.affiliates@ == b.affiliates@
    &&& a.causes@ == b.causes@
    &&& a.cause_recipients@ == b.cause_recipients@
    &&& a.items@ == b.items@
    &&& a.accounts@ == b.accounts@
}

/// All tables except the causes table are unchanged.
pub open spec fn others_than_causes_same(a: Database, b: Database) -> bool {
    &&& a.users@ == b.users@
    &&& a.nonprofits@ == b.nonprofits@
    &&& a.affiliates@ == b.affiliates@
    &&& a.affiliate_managers@ == b.affiliate_managers@
    &&& a.cause_recipients@ == b.cause_recipients@
    &&& a.items@ == b.items@
    &&& a.accounts@ == b.accounts@
}

/// All tables except the recipient join table are unchanged.
pub open spec fn others_than_recipients_same(a: Database, b: Database) -> bool {
    &&& a.users@ == b.users@
    &&& a.nonprofits@ == b.nonprofits@
    &&& a.affiliates@ == b.affiliates@
    &&& a.affiliate_managers@ == b.affiliate_managers@
    &&& a.causes@ == b.causes@
    &&& a.items@ == b.items@
    &&& a.accounts@ == b.accounts@
}

/// All tables except the items table are unchanged.
pub open spec fn others_than_items_same(a: Database, b: Database) -> bool {
    &&& a.users@ == b.users@
    &&& a.nonprofits@ == b.nonprofits@
    &&& a.affiliates@ == b.affiliates@
    &&& a.affiliate_managers@ == b.affiliate_managers@
    &&& a.causes@ == b.causes@
    &&& a.cause_recipients@ == b.cause_recipients@
    &&& a.accounts@ == b.accounts@
}

/// All tables except the accounts table are unchanged.
pub open spec fn others_than_accounts_same(a: Database, b: Database) -> bool {
    &&& a.users@ == b.users@
    &&& a.nonprofits@ == b.nonprofits@
    &&& a.affiliates@ == b.affiliates@
    &&& a.affiliate_managers@ == b.affiliate_managers@
    &&& a.causes@ == b.causes@
    &&& a.cause_recipients@ == b.cause_recipients@
    &&& a.items@ == b.items@
}

// Sort keys and selectors, one definition each so that every contract and
// proof names the same function value.

pub open spec fn user_key() -> spec_fn(UserRow) -> (i64, u64) {
    |u: UserRow| (u.create_time, u.user_id)
}

pub open spec fn user_id_of() -> spec_fn(UserRow) -> u64 {
    |u: UserRow| u.user_id
}

pub open spec fn all_users() -> spec_fn(UserRow) -> bool {
    |u: UserRow| true
}

pub open spec fn user_id_sel(id: u64) -> spec_fn(UserRow) -> bool {
    |u: UserRow| u.user_id == id
}

pub open spec fn user_uid_sel(uid: Seq<char>) -> spec_fn(UserRow) -> bool {
    |u: UserRow| u.firebase_uid@ == uid
}

pub open spec fn nonprofit_key() -> spec_fn(NonprofitRow) -> (i64, u64) {
    |n: NonprofitRow| (n.create_time, n.nonprofit_id)
}

pub open spec fn nonprofit_id_of() -> spec_fn(NonprofitRow) -> u64 {
    |n: NonprofitRow| n.nonprofit_id
}

pub open spec fn all_nonprofits() -> spec_fn(NonprofitRow) -> bool {
    |n: NonprofitRow| true
}

pub open spec fn nonprofit_id_sel(id: u64) -> spec_fn(NonprofitRow) -> bool {
    |n: NonprofitRow| n.nonprofit_id == id
}

/// The search predicate of the in-memory store: a nonprofit matches a
/// query when its name equals the query exactly.
pub open spec fn nonprofit_search_sel(query: Seq<char>) -> spec_fn(NonprofitRow) -> bool {
    |n: NonprofitRow| n.name@ == query
}

pub open spec fn affiliate_id_of() -> spec_fn(AffiliateRow) -> u64 {
    |a: AffiliateRow| a.affiliate_id
}

pub open spec fn affiliate_id_sel(id: u64) -> spec_fn(AffiliateRow) -> bool {
    |a: AffiliateRow| a.affiliate_id == id
}

pub open spec fn manager_affiliate_sel(id: u64) -> spec_fn(AffiliateManagerRow) -> bool {
    |m: AffiliateManagerRow| m.affiliate_id == id
}

pub open spec fn manager_user_sel(id: u64) -> spec_fn(AffiliateManagerRow) -> bool {
    |m: AffiliateManagerRow| m.user_id == id
}

pub open spec fn cause_key() -> spec_fn(CauseRow) -> (i64, u64) {
    |c: CauseRow| (c.create_time, c.cause_id)
}

pub open spec fn cause_id_of() -> spec_fn(CauseRow) -> u64 {
    |c: CauseRow| c.cause_id
}

pub open spec fn cause_user_sel(user_id: u64) -> spec_fn(CauseRow) -> bool {
    |c: CauseRow| c.user_id == user_id
}

pub open spec fn cause_id_sel(id: u64) -> spec_fn(CauseRow) -> bool {
    |c: CauseRow| c.cause_id == id
}

pub open spec fn recipient_cause_sel(cause_id: u64) -> spec_fn(CauseRecipientRow) -> bool {
    |r: CauseRecipientRow| r.cause_id == cause_id
}

pub open spec fn item_key() -> spec_fn(ItemRow) -> (i64, u64) {
    |i: ItemRow| (i.create_time, i.item_id)
}

pub open spec fn item_id_of() -> spec_fn(ItemRow) -> u64 {
    |i: ItemRow| i.item_id
}

pub open spec fn item_user_sel(user_id: u64) -> spec_fn(ItemRow) -> bool {
    |i: ItemRow| i.user_id == user_id
}

pub open spec fn item_id_sel(id: u64) -> spec_fn(ItemRow) -> bool {
    |i: ItemRow| i.item_id == id
}

pub open spec fn item_keep_sel(id: u64) -> spec_fn(ItemRow) -> bool {
    |i: ItemRow| i.item_id != id
}

pub open spec fn account_id_of() -> spec_fn(AccountRow) -> u64 {
    |a: AccountRow| a.account_id
}

pub open spec fn account_item_sel(item_id: u64) -> spec_fn(AccountRow) -> bool {
    |a: AccountRow| a.item_id == item_id
}

pub open spec fn account_keep_sel(id: u64) -> spec_fn(AccountRow) -> bool {
    |a: AccountRow| a.account_id != id
}

/// An account row untouched by deleting the first `k` of the given ids.
pub open spec fn account_survives_sel(ids: Seq<u64>, k: int) -> spec_fn(AccountRow) -> bool {
    |a: AccountRow| forall|j: int| 0 <= j < k ==> a.account_id != ids[j]
}

/// Some user already carries this identity-provider subject.
pub open spec fn uid_taken(s: Seq<UserRow>, uid: Seq<char>) -> bool {
    exists|i: int| 0 <= i < s.len() && s[i].firebase_uid@ == uid
}

/// Some recipient row links this cause and nonprofit.
pub open spec fn has_cause_recipient(s: Seq<CauseRecipientRow>, cause_id: u64, nonprofit_id: u64) -> bool {
    exists|i: int| 0 <= i < s.len() && s[i].cause_id == cause_id && s[i].nonprofit_id == nonprofit_id
}

/// Some manager row links this affiliate and user.
pub open spec fn has_affiliate_manager(s: Seq<AffiliateManagerRow>, affiliate_id: u64, user_id: u64) -> bool {
    exists|i: int| 0 <= i < s.len() && s[i].affiliate_id == affiliate_id && s[i].user_id == user_id
}

/// Some cause row carries this id.
pub open spec fn cause_exists(s: Seq<CauseRow>, cause_id: u64) -> bool {
    exists|i: int| 0 <= i < s.len() && s[i].cause_id == cause_id
}

/// Some affiliate row carries this id.
pub open spec fn affiliate_exists(s: Seq<AffiliateRow>, affiliate_id: u64) -> bool {
    exists|i: int| 0 <= i < s.len() && s[i].affiliate_id == affiliate_id
}

impl Database {
    /// The invariant of the store. Paginated tables are sorted; ids are
    /// unique and below the allocator; users are unique per identity
    /// subject; join rows are unique per pair and reference only causes
    /// and affiliates that exist.
    pub open spec fn wf(&self) -> bool {
        &&& 1 <= self.next_id <= MAX_ID
        // users
        &&& sorted_by_key(self.users@, user_key())
        &&& unique_by(self.users@, user_id_of())
        &&& ids_below(self.users@, user_id_of(), self.next_id)
        &&& self.users@.len() < self.next_id
        &&& forall|i: int, j: int|
            0 <= i < j < self.users@.len() ==> self.users@[i].firebase_uid@
                != self.users@[j].firebase_uid@
        // nonprofits
        &&& sorted_by_key(self.nonprofits@, nonprofit_key())
        &&& unique_by(self.nonprofits@, nonprofit_id_of())
        &&& ids_below(self.nonprofits@, nonprofit_id_of(), self.next_id)
        &&& self.nonprofits@.len() < self.next_id
        // affiliates
        &&& unique_by(self.affiliates@, affiliate_id_of())
        &&& ids_below(self.affiliates@, affiliate_id_of(), self.next_id)
        &&& self.affiliates@.len() < self.next_id
        // affiliate managers
        &&& forall|i: int, j: int|
            0 <= i < j < self.affiliate_managers@.len() ==> !(self.affiliate_managers@[i].affiliate_id
                == self.affiliate_managers@[j].affiliate_id
                && self.affiliate_managers@[i].user_id == self.affiliate_managers@[j].user_id)
        &&& forall|i: int|
            0 <= i < self.affiliate_managers@.len() ==> affiliate_exists(
                self.affiliates@,
                #[trigger] self.affiliate_managers@[i].affiliate_id,
            )
        // causes
        &&& sorted_by_key(self.causes@, cause_key())
        &&& unique_by(self.causes@, cause_id_of())
        &&& ids_below(self.causes@, cause_id_of(), self.next_id)
        &&& self.causes@.len() < self.next_id
        // cause recipients
        &&& forall|i: int, j: int|
            0 <= i < j < self.cause_recipients@.len() ==> !(self.cause_recipients@[i].cause_id
                == self.cause_recipients@[j].cause_id && self.cause_recipients@[i].nonprofit_id
                == self.cause_recipients@[j].nonprofit_id)
        &&& forall|i: int|
            0 <= i < self.cause_recipients@.len() ==> cause_exists(
                self.causes@,
                #[trigger] self.cause_recipients@[i].cause_id,
            )
        // items
        &&& sorted_by_key(self.items@, item_key())
        &&& unique_by(self.items@, item_id_of())
        &&& ids_below(self.items@, item_id_of(), self.next_id)
        &&& self.items@.len() < self.next_id
        // accounts
        &&& unique_by(self.accounts@, account_id_of())
        &&& ids_below(self.accounts@, account_id_of(), self.next_id)
        &&& self.accounts@.len() < self.next_id
    }

    /// A deep copy holding the same rows; the transactional store builds
    /// its working state with this.
    pub fn duplicate(&self) -> (r: Database)
        ensures
            db_eq(r, *self),
    {
        let r = Database {
            next_id: self.next_id,
            users: self.users.clone(),
            nonprofits: self.nonprofits.clone(),
            affiliates: self.affiliates.clone(),
            affiliate_managers: self.affiliate_managers.clone(),
            causes: self.causes.clone(),
            cause_recipients: self.cause_recipients.clone(),
            items: self.items.clone(),
            accounts: self.accounts.clone(),
        };
        proof {
            assert forall|i: int| 0 <= i < r.users@.len() implies r.users@[i]
                == self.users@[i] by {
                assert(cloned::<UserRow>(self.users@[i], r.users@[i]));
            }
            assert(r.users@ =~= self.users@);
            assert forall|i: int| 0 <= i < r.nonprofits@.len() implies r.nonprofits@[i]
                == self.nonprofits@[i] by {
                assert(cloned::<NonprofitRow>(self.nonprofits@[i], r.nonprofits@[i]));
            }
            assert(r.nonprofits@ =~= self.nonprofits@);
            assert forall|i: int| 0 <= i < r.affiliates@.len() implies r.affiliates@[i]
                == self.affiliates@[i] by {
                assert(cloned::<AffiliateRow>(self.affiliates@[i], r.affiliates@[i]));
            }
            assert(r.affiliates@ =~= self.affiliates@);
            assert forall|i: int| 0 <= i < r.affiliate_managers@.len() implies r.affiliate_managers@[i]
                == self.affiliate_managers@[i] by {
                assert(cloned::<AffiliateManagerRow>(
                    self.affiliate_managers@[i],
                    r.affiliate_managers@[i],
                ));
            }
            assert(r.affiliate_managers@ =~= self.affiliate_managers@);
            assert forall|i: int| 0 <= i < r.causes@.len() implies r.causes@[i]
                == self.causes@[i] by {
                assert(cloned::<CauseRow>(self.causes@[i], r.causes@[i]));
            }
            assert(r.causes@ =~= self.causes@);
            assert forall|i: int| 0 <= i < r.cause_recipients@.len() implies r.cause_recipients@[i]
                == self.cause_recipients@[i] by {
                assert(cloned::<CauseRecipientRow>(
                    self.cause_recipients@[i],
                    r.cause_recipients@[i],
                ));
            }
            assert(r.cause_recipients@ =~= self.cause_recipients@);
            assert forall|i: int| 0 <= i < r.items@.len() implies r.items@[i] == self.items@[i] by {
                assert(cloned::<ItemRow>(self.items@[i], r.items@[i]));
            }
            assert(r.items@ =~= self.items@);
            assert forall|i: int| 0 <= i < r.accounts@.len() implies r.accounts@[i]
                == self.accounts@[i] by {
                assert(cloned::<AccountRow>(self.accounts@[i], r.accounts@[i]));
            }
            assert(r.accounts@ =~= self.accounts@);
        }
        r
    }

    /// An empty store.
    pub fn new() -> (r: Database)
        ensures
            r.wf(),
            r.next_id == 1,
            r.users@.len() == 0,
            r.nonprofits@.len() == 0,
            r.affiliates@.len() == 0,
            r.affiliate_managers@.len() == 0,
            r.causes@.len() == 0,
            r.cause_recipients@.len() == 0,
            r.items@.len() == 0,
            r.accounts@.len() == 0,
    {
        Database {
            next_id: 1,
            users: Vec::new(),
            nonprofits: Vec::new(),
            affiliates: Vec::new(),
            affiliate_managers: Vec::new(),
            causes: Vec::new(),
            cause_recipients: Vec::new(),
            items: Vec::new(),
            accounts: Vec::new(),
        }
    }
}

} // verus!

//! Row model of an account: an item-owned bank account with its external
//! payment-source reference.

use vstd::prelude::*;

verus! {

/// A stored account row.
#[derive(Debug, PartialEq, Eq)]
pub struct AccountRow {
    pub account_id: u64,
    pub create_time: i64,
    pub update_time: i64,
    pub item_id: u64,
    pub plaid_account_id: String,
    pub name: String,
    pub mask: Option<String>,
    pub stripe_bank_account_id: String,
}

impl Clone for AccountRow {
    fn clone(&self) -> (r: Self)
        ensures
            r == *self,
    {
        AccountRow {
            account_id: self.account_id,
            create_time: self.create_time,
            update_time: self.update_time,
            item_id: self.item_id,
            plaid_account_id: self.plaid_account_id.clone(),
            name: self.name.clone(),
            mask: match &self.mask {
                Some(s) => Some(s.clone()),
                None => None,
            },
            stripe_bank_account_id: self.stripe_bank_account_id.clone(),
        }
    }
}

/// The fields of an account row to insert; id is assigned by the store.
pub struct NewAccountRow {
    pub create_time: i64,
    pub update_time: i64,
    pub item_id: u64,
    pub plaid_account_id: String,
    pub name: String,
    pub mask: Option<String>,
    pub stripe_bank_account_id: String,
}

} // verus!

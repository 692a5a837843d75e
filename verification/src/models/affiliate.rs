//! Row model of an affiliate: an external payment-account reference with
//! legal metadata, an asserted (but unverified) nonprofit reference, and a
//! set of manager users kept in a join relation.

use vstd::prelude::*;
use crate::models::nonprofit::NonprofitRow;

verus! {

/// The legal form an affiliate registers as.
#[derive(Clone, Copy, Debug, PartialEq, Eq, Structural)]
pub enum BusinessType {
    Individual,
    Company,
    Nonprofit,
    GovernmentEntity,
}

/// A stored affiliate row.
#[derive(Debug, PartialEq, Eq)]
pub struct AffiliateRow {
    pub affiliate_id: u64,
    pub create_time: i64,
    pub update_time: i64,
    pub stripe_account_id: String,
    pub company_name: String,
    pub contact_email: String,
    pub business_type: BusinessType,
    pub asserted_nonprofit_id: u64,
}

impl Clone for AffiliateRow {
    fn clone(&self) -> (r: Self)
        ensures
            r == *self,
    {
        AffiliateRow {
            affiliate_id: self.affiliate_id,
            create_time: self.create_time,
            update_time: self.update_time,
            stripe_account_id: self.stripe_account_id.clone(),
            company_name: self.company_name.clone(),
            contact_email: self.contact_email.clone(),
            business_type: self.business_type,
            asserted_nonprofit_id: self.asserted_nonprofit_id,
        }
    }
}

/// The fields of an affiliate row to insert; id is assigned by the store.
pub struct NewAffiliateRow {
    pub create_time: i64,
    pub update_time: i64,
    pub stripe_account_id: String,
    pub company_name: String,
    pub contact_email: String,
    pub business_type: BusinessType,
    pub asserted_nonprofit_id: u64,
}

/// A manager join row linking an affiliate and a user.
#[derive(Clone, Copy, Debug, PartialEq, Eq, Structural)]
pub struct AffiliateManagerRow {
    pub affiliate_id: u64,
    pub user_id: u64,
    pub create_time: i64,
    pub update_time: i64,
}

/// The fields of a manager join row to insert.
#[derive(Clone, Copy, Debug, PartialEq, Eq, Structural)]
pub struct NewAffiliateManagerRow {
    pub affiliate_id: u64,
    pub user_id: u64,
    pub create_time: i64,
    pub update_time: i64,
}

/// The manager rows of one affiliate.
#[derive(Debug, PartialEq, Eq)]
pub struct AffiliateManagerRowVec(pub Vec<AffiliateManagerRow>);

impl AffiliateManagerRowVec {
    /// Hands out the plain vector of manager rows.
    pub fn inner(self) -> (r: Vec<AffiliateManagerRow>)
        ensures
            r@ == self.0@,
    {
        self.0
    }
}

/// An affiliate row with its asserted nonprofit (when the reference
/// resolves) and all its manager rows.
#[derive(Debug, PartialEq, Eq)]
pub struct FullAffiliateRow {
    pub affiliate: AffiliateRow,
    pub asserted_nonprofit: Option<NonprofitRow>,
    pub affiliate_managers: AffiliateManagerRowVec,
}

} // verus!

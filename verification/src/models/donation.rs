//! Row model of a donation: a user's gift to a nonprofit, with the amount
//! split into whole units and nano-units of its currency.

use vstd::prelude::*;

verus! {

/// The currency a donation amount is denominated in.
#[derive(Clone, Copy, Debug, PartialEq, Eq, Structural)]
pub enum CurrencyCode {
    USD,
}

/// A stored donation row.
#[derive(Clone, Copy, Debug, PartialEq, Eq, Structural)]
pub struct DonationRow {
    pub donation_id: u64,
    pub create_time: i64,
    pub update_time: i64,
    pub nonprofit_id: u64,
    pub user_id: u64,
    pub affiliate_id: Option<u64>,
    pub currency_code: CurrencyCode,
    pub amount_units: i64,
    pub amount_nanos: i32,
}

} // verus!

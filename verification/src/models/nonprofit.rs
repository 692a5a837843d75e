//! Row model of a nonprofit: display metadata seeded from the external
//! search provider, immutable apart from the optional affiliate linkage.

use vstd::prelude::*;
use crate::Error;
use crate::models::affiliate::AffiliateRow;
use crate::page_token::{PageToken, PageTokenable, b64_of, spec_token_bytes, serialize_token_parts, deserialize_token_parts};

verus! {

/// Tag scoping pagination cursors to the nonprofits listing.
pub const NONPROFIT_TOKEN_TAG: u64 = 2;

/// A stored nonprofit row.
#[derive(Debug, PartialEq, Eq)]
pub struct NonprofitRow {
    pub nonprofit_id: u64,
    pub create_time: i64,
    pub update_time: i64,
    pub change_nonprofit_id: Option<String>,
    pub icon_url: String,
    pub name: String,
    pub ein: String,
    pub mission: String,
    pub category: String,
    pub affiliate_id: Option<u64>,
}

impl Clone for NonprofitRow {
    fn clone(&self) -> (r: Self)
        ensures
            r == *self,
    {
        NonprofitRow {
            nonprofit_id: self.nonprofit_id,
            create_time: self.create_time,
            update_time: self.update_time,
            change_nonprofit_id: match &self.change_nonprofit_id {
                Some(s) => Some(s.clone()),
                None => None,
            },
            icon_url: self.icon_url.clone(),
            name: self.name.clone(),
            ein: self.ein.clone(),
            mission: self.mission.clone(),
            category: self.category.clone(),
            affiliate_id: self.affiliate_id,
        }
    }
}

/// A nonprofit row together with its linked affiliate, if any.
#[derive(Debug, PartialEq, Eq)]
pub struct FullNonprofitRow {
    pub nonprofit: NonprofitRow,
    pub affiliate: Option<AffiliateRow>,
}

impl Clone for FullNonprofitRow {
    fn clone(&self) -> (r: Self)
        ensures
            r == *self,
    {
        FullNonprofitRow {
            nonprofit: self.nonprofit.clone(),
            affiliate: match &self.affiliate {
                Some(a) => Some(a.clone()),
                None => None,
            },
        }
    }
}

/// The fields of a nonprofit row to insert; id is assigned by the store.
pub struct NewNonprofitRow {
    pub create_time: i64,
    pub update_time: i64,
    pub change_nonprofit_id: Option<String>,
    pub icon_url: String,
    pub name: String,
    pub ein: String,
    pub mission: String,
    pub category: String,
    pub affiliate_id: Option<u64>,
}

/// Pagination cursor of the nonprofits listing.
#[derive(Clone, Copy, Debug, PartialEq, Eq, Structural)]
pub struct NonprofitPageToken {
    pub create_time: i64,
    pub nonprofit_id: u64,
}

impl PageToken for NonprofitPageToken {
    open spec fn spec_tag(&self) -> u64 {
        NONPROFIT_TOKEN_TAG
    }

    open spec fn spec_sort_key(&self) -> (i64, u64) {
        (self.create_time, self.nonprofit_id)
    }

    fn serialize_page_token(&self) -> (r: Result<String, Error>) {
        Ok(serialize_token_parts(NONPROFIT_TOKEN_TAG, self.create_time, self.nonprofit_id))
    }

    fn deserialize_page_token(input: &str) -> (r: Result<Option<Self>, Error>) {
        match deserialize_token_parts(NONPROFIT_TOKEN_TAG, input) {
            Ok(None) => Ok(None),
            Ok(Some((t, id))) => {
                let p = NonprofitPageToken { create_time: t, nonprofit_id: id };
                proof {
                    assert(p.spec_token_string() == b64_of(spec_token_bytes(NONPROFIT_TOKEN_TAG, t, id)));
                    assert forall|q: NonprofitPageToken| input@ == #[trigger] q.spec_token_string() implies q
                        == p by {
                        assert(q.spec_token_string() == b64_of(
                            spec_token_bytes(NONPROFIT_TOKEN_TAG, q.create_time, q.nonprofit_id),
                        ));
                    }
                }
                Ok(Some(p))
            },
            Err(e) => {
                proof {
                    assert forall|q: NonprofitPageToken| input@ != #[trigger] q.spec_token_string() by {
                        assert(q.spec_token_string() == b64_of(
                            spec_token_bytes(NONPROFIT_TOKEN_TAG, q.create_time, q.nonprofit_id),
                        ));
                    }
                }
                Err(e)
            },
        }
    }
}

impl PageTokenable<NonprofitPageToken> for NonprofitRow {
    open spec fn spec_page_token(&self) -> NonprofitPageToken {
        NonprofitPageToken { create_time: self.create_time, nonprofit_id: self.nonprofit_id }
    }

    fn page_token(&self) -> (r: NonprofitPageToken) {
        let r = NonprofitPageToken { create_time: self.create_time, nonprofit_id: self.nonprofit_id };
        proof {
            assert(r == self.spec_page_token());
        }
        r
    }
}

impl PageTokenable<NonprofitPageToken> for FullNonprofitRow {
    open spec fn spec_page_token(&self) -> NonprofitPageToken {
        NonprofitPageToken {
            create_time: self.nonprofit.create_time,
            nonprofit_id: self.nonprofit.nonprofit_id,
        }
    }

    fn page_token(&self) -> (r: NonprofitPageToken) {
        let r = NonprofitPageToken {
            create_time: self.nonprofit.create_time,
            nonprofit_id: self.nonprofit.nonprofit_id,
        };
        proof {
            assert(r == self.spec_page_token());
        }
        r
    }
}

} // verus!

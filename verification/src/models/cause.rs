//! Row model of a cause: a user-owned named record with an ordered set of
//! recipient nonprofits held in a join relation. A cause and its recipient
//! rows are only ever created together, inside one transaction.

use vstd::prelude::*;
use crate::Error;
use crate::page_token::{PageToken, PageTokenable, b64_of, spec_token_bytes, serialize_token_parts, deserialize_token_parts};

verus! {

/// Tag scoping pagination cursors to the causes listing.
pub const CAUSE_TOKEN_TAG: u64 = 3;

/// A stored cause row.
#[derive(Debug, PartialEq, Eq)]
pub struct CauseRow {
    pub cause_id: u64,
    pub create_time: i64,
    pub update_time: i64,
    pub user_id: u64,
    pub name: String,
}

impl Clone for CauseRow {
    fn clone(&self) -> (r: Self)
        ensures
            r == *self,
    {
        CauseRow {
            cause_id: self.cause_id,
            create_time: self.create_time,
            update_time: self.update_time,
            user_id: self.user_id,
            name: self.name.clone(),
        }
    }
}

/// The fields of a cause row to insert; id is assigned by the store.
pub struct NewCauseRow {
    pub create_time: i64,
    pub update_time: i64,
    pub user_id: u64,
    pub name: String,
}

/// A recipient join row linking a cause to a nonprofit.
#[derive(Clone, Copy, Debug, PartialEq, Eq, Structural)]
pub struct CauseRecipientRow {
    pub cause_id: u64,
    pub nonprofit_id: u64,
    pub create_time: i64,
    pub update_time: i64,
}

/// The fields of a recipient join row to insert.
#[derive(Clone, Copy, Debug, PartialEq, Eq, Structural)]
pub struct NewCauseRecipientRow {
    pub cause_id: u64,
    pub nonprofit_id: u64,
    pub create_time: i64,
    pub update_time: i64,
}

/// The recipient rows of one cause.
#[derive(Debug, PartialEq, Eq)]
pub struct CauseRecipientRowVec(pub Vec<CauseRecipientRow>);

impl CauseRecipientRowVec {
    /// Hands out the plain vector of recipient rows.
    pub fn inner(self) -> (r: Vec<CauseRecipientRow>)
        ensures
            r@ == self.0@,
    {
        self.0
    }
}

/// A cause row together with all its recipient rows.
#[derive(Debug, PartialEq, Eq)]
pub struct FullCauseRow {
    pub cause: CauseRow,
    pub cause_recipients: CauseRecipientRowVec,
}

/// Pagination cursor of the causes listing.
#[derive(Clone, Copy, Debug, PartialEq, Eq, Structural)]
pub struct CausePageToken {
    pub create_time: i64,
    pub cause_id: u64,
}

impl PageToken for CausePageToken {
    open spec fn spec_tag(&self) -> u64 {
        CAUSE_TOKEN_TAG
    }

    open spec fn spec_sort_key(&self) -> (i64, u64) {
        (self.create_time, self.cause_id)
    }

    fn serialize_page_token(&self) -> (r: Result<String, Error>) {
        Ok(serialize_token_parts(CAUSE_TOKEN_TAG, self.create_time, self.cause_id))
    }

    fn deserialize_page_token(input: &str) -> (r: Result<Option<Self>, Error>) {
        match deserialize_token_parts(CAUSE_TOKEN_TAG, input) {
            Ok(None) => Ok(None),
            Ok(Some((t, id))) => {
                let p = CausePageToken { create_time: t, cause_id: id };
                proof {
                    assert(p.spec_token_string() == b64_of(spec_token_bytes(CAUSE_TOKEN_TAG, t, id)));
                    assert forall|q: CausePageToken| input@ == #[trigger] q.spec_token_string() implies q
                        == p by {
                        assert(q.spec_token_string() == b64_of(
                            spec_token_bytes(CAUSE_TOKEN_TAG, q.create_time, q.cause_id),
                        ));
                    }
                }
                Ok(Some(p))
            },
            Err(e) => {
                proof {
                    assert forall|q: CausePageToken| input@ != #[trigger] q.spec_token_string() by {
                        assert(q.spec_token_string() == b64_of(
                            spec_token_bytes(CAUSE_TOKEN_TAG, q.create_time, q.cause_id),
                        ));
                    }
                }
                Err(e)
            },
        }
    }
}

impl PageTokenable<CausePageToken> for CauseRow {
    open spec fn spec_page_token(&self) -> CausePageToken {
        CausePageToken { create_time: self.create_time, cause_id: self.cause_id }
    }

    fn page_token(&self) -> (r: CausePageToken) {
        let r = CausePageToken { create_time: self.create_time, cause_id: self.cause_id };
        proof {
            assert(r == self.spec_page_token());
        }
        r
    }
}

impl PageTokenable<CausePageToken> for FullCauseRow {
    open spec fn spec_page_token(&self) -> CausePageToken {
        CausePageToken { create_time: self.cause.create_time, cause_id: self.cause.cause_id }
    }

    fn page_token(&self) -> (r: CausePageToken) {
        let r = CausePageToken { create_time: self.cause.create_time, cause_id: self.cause.cause_id };
        proof {
            assert(r == self.spec_page_token());
        }
        r
    }
}

} // verus!

//! Row model of an item: a user-owned bank link with its access credential.
//! Deleting an item deletes all its accounts in the same transaction.

use vstd::prelude::*;
use crate::Error;
use crate::page_token::{PageToken, PageTokenable, b64_of, spec_token_bytes, serialize_token_parts, deserialize_token_parts};

verus! {

/// Tag scoping pagination cursors to the items listing.
pub const ITEM_TOKEN_TAG: u64 = 4;

/// A stored item row.
#[derive(Debug, PartialEq, Eq)]
pub struct ItemRow {
    pub item_id: u64,
    pub create_time: i64,
    pub update_time: i64,
    pub user_id: u64,
    pub plaid_item_id: String,
    pub plaid_access_token: String,
}

impl Clone for ItemRow {
    fn clone(&self) -> (r: Self)
        ensures
            r == *self,
    {
        ItemRow {
            item_id: self.item_id,
            create_time: self.create_time,
            update_time: self.update_time,
            user_id: self.user_id,
            plaid_item_id: self.plaid_item_id.clone(),
            plaid_access_token: self.plaid_access_token.clone(),
        }
    }
}

/// The fields of an item row to insert; id is assigned by the store.
pub struct NewItemRow {
    pub create_time: i64,
    pub update_time: i64,
    pub user_id: u64,
    pub plaid_item_id: String,
    pub plaid_access_token: String,
}

/// Pagination cursor of the items listing.
#[derive(Clone, Copy, Debug, PartialEq, Eq, Structural)]
pub struct ItemPageToken {
    pub create_time: i64,
    pub item_id: u64,
}

impl PageToken for ItemPageToken {
    open spec fn spec_tag(&self) -> u64 {
        ITEM_TOKEN_TAG
    }

    open spec fn spec_sort_key(&self) -> (i64, u64) {
        (self.create_time, self.item_id)
    }

    fn serialize_page_token(&self) -> (r: Result<String, Error>) {
        Ok(serialize_token_parts(ITEM_TOKEN_TAG, self.create_time, self.item_id))
    }

    fn deserialize_page_token(input: &str) -> (r: Result<Option<Self>, Error>) {
        match deserialize_token_parts(ITEM_TOKEN_TAG, input) {
            Ok(None) => Ok(None),
            Ok(Some((t, id))) => {
                let p = ItemPageToken { create_time: t, item_id: id };
                proof {
                    assert(p.spec_token_string() == b64_of(spec_token_bytes(ITEM_TOKEN_TAG, t, id)));
                    assert forall|q: ItemPageToken| input@ == #[trigger] q.spec_token_string() implies q
                        == p by {
                        assert(q.spec_token_string() == b64_of(
                            spec_token_bytes(ITEM_TOKEN_TAG, q.create_time, q.item_id),
                        ));
                    }
                }
                Ok(Some(p))
            },
            Err(e) => {
                proof {
                    assert forall|q: ItemPageToken| input@ != #[trigger] q.spec_token_string() by {
                        assert(q.spec_token_string() == b64_of(
                            spec_token_bytes(ITEM_TOKEN_TAG, q.create_time, q.item_id),
                        ));
                    }
                }
                Err(e)
            },
        }
    }
}

impl PageTokenable<ItemPageToken> for ItemRow {
    open spec fn spec_page_token(&self) -> ItemPageToken {
        ItemPageToken { create_time: self.create_time, item_id: self.item_id }
    }

    fn page_token(&self) -> (r: ItemPageToken) {
        let r = ItemPageToken { create_time: self.create_time, item_id: self.item_id };
        proof {
            assert(r == self.spec_page_token());
        }
        r
    }
}

} // verus!

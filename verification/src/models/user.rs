//! Row model of a user: an identity created on first successful
//! verification against the identity provider, plus the external
//! payment-profile reference.

use vstd::prelude::*;
use crate::Error;
use crate::page_token::{PageToken, PageTokenable, b64_of, spec_token_bytes, serialize_token_parts, deserialize_token_parts};

verus! {

/// Tag scoping pagination cursors to the users listing.
pub const USER_TOKEN_TAG: u64 = 1;

/// A stored user row. Ids are store-assigned; times are nanoseconds.
#[derive(Debug, PartialEq, Eq)]
pub struct UserRow {
    pub user_id: u64,
    pub create_time: i64,
    pub update_time: i64,
    pub firebase_uid: String,
    pub firebase_email: String,
    pub stripe_customer_id: String,
}

impl Clone for UserRow {
    fn clone(&self) -> (r: Self)
        ensures
            r == *self,
    {
        UserRow {
            user_id: self.user_id,
            create_time: self.create_time,
            update_time: self.update_time,
            firebase_uid: self.firebase_uid.clone(),
            firebase_email: self.firebase_email.clone(),
            stripe_customer_id: self.stripe_customer_id.clone(),
        }
    }
}

/// The fields of a user row to insert; id is assigned by the store.
pub struct NewUserRow {
    pub create_time: i64,
    pub update_time: i64,
    pub firebase_uid: String,
    pub firebase_email: String,
    pub stripe_customer_id: String,
}

/// Pagination cursor of the users listing.
#[derive(Clone, Copy, Debug, PartialEq, Eq, Structural)]
pub struct UserPageToken {
    pub create_time: i64,
    pub user_id: u64,
}

impl PageToken for UserPageToken {
    open spec fn spec_tag(&self) -> u64 {
        USER_TOKEN_TAG
    }

    open spec fn spec_sort_key(&self) -> (i64, u64) {
        (self.create_time, self.user_id)
    }

    fn serialize_page_token(&self) -> (r: Result<String, Error>) {
        Ok(serialize_token_parts(USER_TOKEN_TAG, self.create_time, self.user_id))
    }

    fn deserialize_page_token(input: &str) -> (r: Result<Option<Self>, Error>) {
        match deserialize_token_parts(USER_TOKEN_TAG, input) {
            Ok(None) => Ok(None),
            Ok(Some((t, id))) => {
                let p = UserPageToken { create_time: t, user_id: id };
                proof {
                    assert(p.spec_token_string() == b64_of(spec_token_bytes(USER_TOKEN_TAG, t, id)));
                    assert forall|q: UserPageToken| input@ == #[trigger] q.spec_token_string() implies q
                        == p by {
                        assert(q.spec_token_string() == b64_of(
                            spec_token_bytes(USER_TOKEN_TAG, q.create_time, q.user_id),
                        ));
                    }
                }
                Ok(Some(p))
            },
            Err(e) => {
                proof {
                    assert forall|q: UserPageToken| input@ != #[trigger] q.spec_token_string() by {
                        assert(q.spec_token_string() == b64_of(
                            spec_token_bytes(USER_TOKEN_TAG, q.create_time, q.user_id),
                        ));
                    }
                }
                Err(e)
            },
        }
    }
}

impl PageTokenable<UserPageToken> for UserRow {
    open spec fn spec_page_token(&self) -> UserPageToken {
        UserPageToken { create_time: self.create_time, user_id: self.user_id }
    }

    fn page_token(&self) -> (r: UserPageToken) {
        let r = UserPageToken { create_time: self.create_time, user_id: self.user_id };
        proof {
            assert(r == self.spec_page_token());
        }
        r
    }
}

} // verus!

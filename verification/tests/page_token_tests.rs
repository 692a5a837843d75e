//! The opaque cursor tokens: exact serialized forms, round trips, and the
//! fail-closed treatment of anything that is not a token.

use affect_storage::Error;
use affect_storage::models::cause::CausePageToken;
use affect_storage::models::item::ItemPageToken;
use affect_storage::models::user::UserPageToken;
use affect_storage::page_token::PageToken;

#[test]
fn serialize_is_the_exact_base64_form() {
    let tok = CausePageToken { create_time: 0, cause_id: 5 };
    let s = tok.serialize_page_token().unwrap();
    assert_eq!(s, "AwAAAAAAAAAAAAAAAAAAgAUAAAAAAAAA");

    let tok = ItemPageToken { create_time: 500_000_000_000, item_id: 1 };
    let s = tok.serialize_page_token().unwrap();
    assert_eq!(s, "BAAAAAAAAAAAiFJqdAAAgAEAAAAAAAAA");
}

#[test]
fn round_trip_reproduces_the_cursor() {
    let tok = UserPageToken { create_time: -7, user_id: 9 };
    let s = tok.serialize_page_token().unwrap();
    assert_eq!(s, "AQAAAAAAAAD5////////fwkAAAAAAAAA");
    let back = UserPageToken::deserialize_page_token(&s).unwrap().unwrap();
    assert_eq!(back, tok);
}

#[test]
fn empty_token_means_first_page() {
    assert_eq!(CausePageToken::deserialize_page_token("").unwrap(), None);
}

#[test]
fn garbage_is_rejected_not_defaulted() {
    for bad in ["not-a-token", "!!!", "AAAA", "abcd==", "AwAAAAAAAAAAAAAAAAAAgAUAAAAAAAA"] {
        match CausePageToken::deserialize_page_token(bad) {
            Err(Error::PaginationTokenInvalid) => {}
            other => panic!("expected rejection, got {:?}", other),
        }
    }
}

#[test]
fn token_of_another_entity_is_rejected() {
    let s = ItemPageToken { create_time: 3, item_id: 4 }.serialize_page_token().unwrap();
    match CausePageToken::deserialize_page_token(&s) {
        Err(Error::PaginationTokenInvalid) => {}
        other => panic!("expected rejection, got {:?}", other),
    }
    // while its own entity accepts it
    let back = ItemPageToken::deserialize_page_token(&s).unwrap().unwrap();
    assert_eq!(back.create_time, 3);
    assert_eq!(back.item_id, 4);
}

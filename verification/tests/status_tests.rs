//! Status codes, messages and the well-known field helpers.

use affect_storage::status::{Code, Status, UnwrapField, entity_not_found, field_must_be_specified, invalid_field};

#[test]
pub fn macros_use_correct_code() {
    assert_eq!(Status::invalid_argument(format!("message")).code(), Code::InvalidArgument);
    assert_eq!(
        Status::invalid_argument(format!("bad input: {0}", "some issue")).message(),
        "bad input: some issue"
    );
}

#[test]
fn well_known_messages() {
    let s = field_must_be_specified("user_id");
    assert_eq!(s.code(), Code::InvalidArgument);
    assert_eq!(s.message(), "'user_id' must be specified");

    let s = invalid_field("page_token", "unparseable");
    assert_eq!(s.code(), Code::InvalidArgument);
    assert_eq!(s.message(), "'page_token' is invalid: unparseable");

    let s = entity_not_found("item");
    assert_eq!(s.code(), Code::NotFound);
    assert_eq!(s.message(), "item not found");
}

#[test]
fn unwrap_field_on_option_and_string() {
    let present: Option<u32> = Some(7);
    assert_eq!(present.unwrap_field("n").unwrap(), 7);
    let absent: Option<u32> = None;
    let err = absent.unwrap_field("n").unwrap_err();
    assert_eq!(err.message(), "'n' must be specified");

    let full = String::from("abc");
    assert_eq!(full.unwrap_field("s").unwrap(), "abc");
    let empty = String::new();
    let err = empty.unwrap_field("s").unwrap_err();
    assert_eq!(err.code(), Code::InvalidArgument);
}

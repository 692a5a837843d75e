//! Service-facing status values: a code plus a human-readable message, with
//! the well-known constructors that request handlers use when they reject
//! malformed fields or report missing entities.

use vstd::prelude::*;
use vstd::string::StringExecFns;

verus! {

/// The API-facing classification of a status.
#[derive(Clone, Copy, Debug, PartialEq, Eq, Structural)]
pub enum Code {
    InvalidArgument,
    NotFound,
    Internal,
}

/// A status code together with its message.
#[derive(Debug)]
pub struct Status {
    code: Code,
    message: String,
}

impl Status {
    pub closed spec fn spec_code(&self) -> Code {
        self.code
    }

    pub closed spec fn spec_message(&self) -> Seq<char> {
        self.message@
    }

    pub fn invalid_argument(message: String) -> (r: Status)
        ensures
            r.spec_code() == Code::InvalidArgument,
            r.spec_message() == message@,
    {
        Status { code: Code::InvalidArgument, message }
    }

    pub fn not_found(message: String) -> (r: Status)
        ensures
            r.spec_code() == Code::NotFound,
            r.spec_message() == message@,
    {
        Status { code: Code::NotFound, message }
    }

    pub fn internal(message: String) -> (r: Status)
        ensures
            r.spec_code() == Code::Internal,
            r.spec_message() == message@,
    {
        Status { code: Code::Internal, message }
    }

    pub fn code(&self) -> (r: Code)
        ensures
            r == self.spec_code(),
    {
        self.code
    }

    pub fn message(&self) -> (r: &str)
        ensures
            r@ == self.spec_message(),
    {
        self.message.as_str()
    }
}

/// Message of the status rejecting an absent required field.
pub open spec fn spec_must_be_specified_message(field_name: Seq<char>) -> Seq<char> {
    "'"@ + field_name + "' must be specified"@
}

/// Status for a request field that must be present but was not.
pub fn field_must_be_specified(field_name: &str) -> (r: Status)
    ensures
        r.spec_code() == Code::InvalidArgument,
        r.spec_message() == spec_must_be_specified_message(field_name@),
{
    let mut message = String::from_str("'");
    message.append(field_name);
    message.append("' must be specified");
    Status::invalid_argument(message)
}

/// Message of the status rejecting a malformed field.
pub open spec fn spec_invalid_field_message(field_name: Seq<char>, detail: Seq<char>) -> Seq<char> {
    "'"@ + field_name + "' is invalid: "@ + detail
}

/// Status for a request field that was present but malformed.
pub fn invalid_field(field_name: &str, detail: &str) -> (r: Status)
    ensures
        r.spec_code() == Code::InvalidArgument,
        r.spec_message() == spec_invalid_field_message(field_name@, detail@),
{
    let mut message = String::from_str("'");
    message.append(field_name);
    message.append("' is invalid: ");
    message.append(detail);
    Status::invalid_argument(message)
}

/// Message of the status reporting a missing entity.
pub open spec fn spec_not_found_message(entity_name: Seq<char>) -> Seq<char> {
    entity_name + " not found"@
}

/// Status for an entity that a request named but that does not exist.
pub fn entity_not_found(entity_name: &str) -> (r: Status)
    ensures
        r.spec_code() == Code::NotFound,
        r.spec_message() == spec_not_found_message(entity_name@),
{
    let mut message = String::from_str(entity_name);
    message.append(" not found");
    Status::not_found(message)
}

/// Unwrapping of optional or possibly-empty request fields into a status
/// that names the offending field.
pub trait UnwrapField<T>: Sized {
    /// Whether the field value counts as present.
    spec fn spec_field_present(&self) -> bool;

    /// The value handed onward when the field is present.
    spec fn spec_field_value(&self) -> T;

    /// The field name the rejection should carry, for error reporting.
    fn unwrap_field(self, field_name: &str) -> (r: Result<T, Status>)
        ensures
            match r {
                Ok(v) => self.spec_field_present() && v == self.spec_field_value(),
                Err(s) => !self.spec_field_present() && s.spec_code() == Code::InvalidArgument
                    && s.spec_message() == spec_must_be_specified_message(field_name@),
            },
    ;
}

impl<T> UnwrapField<T> for Option<T> {
    open spec fn spec_field_present(&self) -> bool {
        self is Some
    }

    open spec fn spec_field_value(&self) -> T {
        self->0
    }

    fn unwrap_field(self, field_name: &str) -> (r: Result<T, Status>) {
        match self {
            Some(v) => Ok(v),
            None => Err(field_must_be_specified(field_name)),
        }
    }
}

impl UnwrapField<String> for String {
    open spec fn spec_field_present(&self) -> bool {
        self@.len() > 0
    }

    open spec fn spec_field_value(&self) -> String {
        *self
    }

    fn unwrap_field(self, field_name: &str) -> (r: Result<String, Status>) {
        if self.as_str().unicode_len() == 0 {
            Err(field_must_be_specified(field_name))
        } else {
            Ok(self)
        }
    }
}

} // verus!

//! Per-entity row models: the plain records the stores persist and return.

pub mod account;
pub mod affiliate;
pub mod cause;
pub mod donation;
pub mod item;
pub mod nonprofit;
pub mod user;

//! Capability traits: one per entity, exposing that entity's CRUD, listing
//! and counting operations, implemented by both execution contexts; plus
//! the composite multi-entity operations that only transactional contexts
//! obtain.

pub mod account;
pub mod affiliate;
pub mod affiliate_and_manager;
pub mod cause;
pub mod item;
pub mod nonprofit;
pub mod item_and_account;
pub mod cause_and_recipient;
pub mod cause_recipient;
pub mod user;

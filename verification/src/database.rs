//! The database layer: the relational state, the two execution contexts
//! (on-demand and transactional) and the client facade that constructs
//! them.

pub mod client;
pub mod pool;
pub mod store;
pub mod tables;

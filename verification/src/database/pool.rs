//! The pool handle: owner of the live database state for callers that
//! only need the on-demand store.

use vstd::prelude::*;
use crate::Error;
use crate::database::store::PgOnDemandStore;
use crate::database::tables::Database;

verus! {

/// Pool handle over the relational store.
pub struct PgPool {
    pub db: Database,
}

impl PgPool {
    /// A pool over a fresh, empty store.
    pub fn new() -> (r: PgPool)
        ensures
            r.db.wf(),
            r.db.next_id == 1,
            r.db.users@.len() == 0,
            r.db.nonprofits@.len() == 0,
            r.db.affiliates@.len() == 0,
            r.db.affiliate_managers@.len() == 0,
            r.db.causes@.len() == 0,
            r.db.cause_recipients@.len() == 0,
            r.db.items@.len() == 0,
            r.db.accounts@.len() == 0,
    {
        PgPool { db: Database::new() }
    }

    /// Provides access to the underlying database state.
    pub fn inner(&self) -> (r: &Database)
        ensures
            r == &self.db,
    {
        &self.db
    }

    /// Applies pending schema migrations. The in-process store's schema is
    /// built into its tables, so there is never anything to apply; the
    /// call site exists for process startup and always succeeds without
    /// touching the state.
    pub fn run_migrations(&mut self) -> (r: Result<(), Error>)
        ensures
            r is Ok,
            *final(self) == *old(self),
    {
        Ok(())
    }

    /// Turns the pool into the on-demand store over its state. This is
    /// the preferred execution context for reads and for writes whose
    /// blast radius is a single row.
    pub fn store(self) -> (r: PgOnDemandStore)
        ensures
            r.db == self.db,
    {
        PgOnDemandStore::new(self.db)
    }
}

} // verus!

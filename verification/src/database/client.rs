//! The client facade: the single construction point for stores. It owns
//! the live database state; `on_demand` turns it into the auto-committing
//! store and `begin` opens a transaction over the current state.

use vstd::prelude::*;
use crate::Error;
use crate::database::store::{PgOnDemandStore, PgTransactionalStore, StoreContext};
use crate::database::tables::{Database, db_eq};

verus! {

/// Client of the relational store.
pub struct PgDatabaseClient {
    pub db: Database,
}

impl PgDatabaseClient {
    /// A client over a fresh, empty store.
    pub fn new() -> (r: PgDatabaseClient)
        ensures
            r.db.wf(),
            r.db.next_id == 1,
            r.db.users@.len() == 0,
            r.db.nonprofits@.len() == 0,
            r.db.affiliates@.len() == 0,
            r.db.affiliate_managers@.len() == 0,
            r.db.causes@.len() == 0,
            r.db.cause_recipients@.len() == 0,
            r.db.items@.len() == 0,
            r.db.accounts@.len() == 0,
    {
        PgDatabaseClient { db: Database::new() }
    }

    /// Provides access to the underlying database state.
    pub fn inner(&self) -> (r: &Database)
        ensures
            r == &self.db,
    {
        &self.db
    }

    /// Applies pending schema migrations. The in-process store's schema is
    /// built into its tables, so there is never anything to apply; the
    /// call site exists for process startup and always succeeds without
    /// touching the state.
    pub fn run_migrations(&mut self) -> (r: Result<(), Error>)
        ensures
            r is Ok,
            *final(self) == *old(self),
    {
        Ok(())
    }

    /// Turns the client into the on-demand store over its state. The
    /// store is the exclusive owner of the live state from here on.
    pub fn on_demand(self) -> (r: PgOnDemandStore)
        ensures
            r.db == self.db,
    {
        PgOnDemandStore::new(self.db)
    }

    /// Opens a transaction over the current state; the transaction must
    /// be committed into the on-demand store this client becomes. The
    /// in-process pool cannot be exhausted, so opening always succeeds;
    /// the `Result` is the shape consumers handle.
    pub fn begin(&self) -> (r: Result<PgTransactionalStore, Error>)
        requires
            self.db.wf(),
        ensures
            match r {
                Ok(t) => {
                    &&& t.inv()
                    &&& !t.failed()
                    &&& db_eq(t.db(), self.db)
                    &&& t.committed() == self.db
                },
                Err(_) => false,
            },
    {
        let work = self.db.duplicate();
        Ok(PgTransactionalStore { base: Ghost(self.db), work, aborted: false })
    }
}

} // verus!

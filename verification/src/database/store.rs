//! The two execution contexts of the storage layer.
//!
//! `PgOnDemandStore` owns the live database state; every call against it is
//! its own statement-level unit of work. `PgTransactionalStore` is created
//! by `begin`: it works on a private copy of the state and publishes it
//! only through `commit`, so a store that is dropped — or rolled back, or
//! aborted by a failed statement — leaves the live state untouched.
//!
//! Calls within one transaction are serialized by exclusive ownership: a
//! transactional store is held and mutated through one exclusive
//! reference, and `commit` demands that the live store still holds the
//! state the transaction was begun from. Concurrent use of one
//! transaction from several call-sites, which the storage layer would
//! have to queue, is thereby ruled out at the type level.

use vstd::prelude::*;
use crate::Error;
use crate::database::tables::{Database, db_eq};

verus! {

/// An execution context of the storage layer, described by the state it
/// reads and writes, the state on-demand readers observe, and whether a
/// failed statement has aborted it.
pub trait StoreContext: Sized {
    /// The database state this context reads and writes.
    spec fn db(&self) -> Database;

    /// The state already committed: what on-demand readers observe.
    spec fn committed(&self) -> Database;

    /// Whether a failed statement has aborted this context.
    spec fn failed(&self) -> bool;

    /// Whether writes through this context commit immediately.
    spec fn auto(&self) -> bool;

    /// Well-formedness carried through every operation.
    spec fn inv(&self) -> bool;

    /// What the context's invariant guarantees about the states it holds.
    proof fn invariant_holds(&self)
        requires
            self.inv(),
        ensures
            self.db().wf(),
            self.committed().wf(),
    ;
}

/// Marker of the execution context that acquires a connection per call and
/// never holds a transaction open.
pub trait OnDemandStore: StoreContext {
    /// An on-demand context has no pending transaction: its writes are
    /// immediately committed and it can never be aborted.
    proof fn auto_commits(&self)
        ensures
            self.auto(),
            self.committed() == self.db(),
            !self.failed(),
    ;
}

/// The execution context bound to one open transaction. Its pending writes
/// become visible only through `commit`; `rollback` or abandonment leave
/// the committed state as it was.
pub trait TransactionalStore: StoreContext {
    /// A transactional context never auto-commits.
    proof fn transaction_pending(&self)
        ensures
            !self.auto(),
    ;

    /// Publishes the pending writes into the live store the transaction
    /// was begun from, unless a failed statement aborted the transaction,
    /// in which case the live store is left exactly as it was.
    fn commit(self, target: &mut PgOnDemandStore) -> (r: Result<(), Error>)
        requires
            self.inv(),
            db_eq(old(target).db, self.committed()),
        ensures
            r is Ok,
            final(target).inv(),
            !self.failed() ==> db_eq(final(target).db, self.db()),
            self.failed() ==> db_eq(final(target).db, old(target).db),
    ;

    /// Discards the pending writes. Consuming the store without calling
    /// this has the same effect: nothing reaches the committed state.
    fn rollback(self) -> (r: Result<(), Error>)
        ensures
            r is Ok,
    ;
}

/// Store that serves each call on a connection drawn from the pool; it
/// owns the live database state.
pub struct PgOnDemandStore {
    pub db: Database,
}

impl StoreContext for PgOnDemandStore {
    open spec fn db(&self) -> Database {
        self.db
    }

    open spec fn committed(&self) -> Database {
        self.db
    }

    open spec fn failed(&self) -> bool {
        false
    }

    open spec fn auto(&self) -> bool {
        true
    }

    open spec fn inv(&self) -> bool {
        self.db.wf()
    }

    proof fn invariant_holds(&self) {
    }
}

impl OnDemandStore for PgOnDemandStore {
    proof fn auto_commits(&self) {
    }
}

impl PgOnDemandStore {
    pub(crate) fn new(db: Database) -> (r: PgOnDemandStore)
        ensures
            r.db == db,
    {
        PgOnDemandStore { db }
    }

    /// Opens a transaction over the current state. The transaction holds a
    /// private working copy; this store remains usable for on-demand reads
    /// of the committed state while the transaction is pending, and the
    /// transaction publishes its writes back through `commit`. The
    /// in-process pool cannot be exhausted, so opening always succeeds;
    /// the `Result` is the shape consumers handle.
    pub fn begin(&self) -> (r: Result<PgTransactionalStore, Error>)
        requires
            self.inv(),
        ensures
            match r {
                Ok(t) => {
                    &&& t.inv()
                    &&& !t.failed()
                    &&& db_eq(t.db(), self.db)
                    &&& t.committed() == self.db
                },
                Err(_) => false,
            },
    {
        let work = self.db.duplicate();
        Ok(PgTransactionalStore { base: Ghost(self.db), work, aborted: false })
    }
}

/// Store bound to one open transaction: all writes go to a private working
/// state and reach the live store only on commit.
pub struct PgTransactionalStore {
    /// The committed state this transaction was begun from.
    pub base: Ghost<Database>,
    /// The transaction's working state: committed state plus pending writes.
    pub work: Database,
    /// Set once any statement in the transaction fails.
    pub aborted: bool,
}

impl StoreContext for PgTransactionalStore {
    open spec fn db(&self) -> Database {
        self.work
    }

    open spec fn committed(&self) -> Database {
        self.base@
    }

    open spec fn failed(&self) -> bool {
        self.aborted
    }

    open spec fn auto(&self) -> bool {
        false
    }

    open spec fn inv(&self) -> bool {
        self.work.wf() && self.base@.wf()
    }

    proof fn invariant_holds(&self) {
    }
}

impl TransactionalStore for PgTransactionalStore {
    proof fn transaction_pending(&self) {
    }

    fn commit(self, target: &mut PgOnDemandStore) -> (r: Result<(), Error>) {
        if self.aborted {
            return Ok(());
        }
        target.db = self.work;
        Ok(())
    }

    fn rollback(self) -> (r: Result<(), Error>) {
        Ok(())
    }
}

} // verus!

//! The pool handle: it hands out a working store.

use affect_storage::database::pool::PgPool;
use affect_storage::stores::user::UserStore;

#[test]
fn pg_pool_provides_connection() {
    let mut pool = PgPool::new();
    assert_eq!(pool.inner().users.len(), 0);
    pool.run_migrations().unwrap();
    let store = pool.store();
    // a trivial query runs against the store
    assert_eq!(store.count_users().unwrap(), 0);
}

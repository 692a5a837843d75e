//! The cursor pagination protocol end to end: page sizes are clamped,
//! following tokens walks every row exactly once, and the count agrees
//! with the union of the pages.

use affect_storage::Error;
use affect_storage::database::client::PgDatabaseClient;
use affect_storage::database::store::PgOnDemandStore;
use affect_storage::models::item::{ItemRow, NewItemRow};
use affect_storage::stores::item::ItemStore;

fn store_with_items(user_id: u64, count: u64) -> PgOnDemandStore {
    let mut store = PgDatabaseClient::new().on_demand();
    let mut k: u64 = 0;
    while k < count {
        store
            .add_item(NewItemRow {
                create_time: 1_000 + (k as i64),
                update_time: 1_000 + (k as i64),
                user_id,
                plaid_item_id: format!("plaid-item-{}", k),
                plaid_access_token: format!("token-{}", k),
            })
            .unwrap();
        k += 1;
    }
    store
}

#[test]
fn list_items_for_user_pages_without_gaps() {
    // Five items for one user; page size two: 2 + 2 + 1 rows, the last
    // page carrying an empty next token.
    let store = store_with_items(77, 5);

    let (page1, tok1) = store.list_items_for_user(2, "", 77).unwrap();
    assert_eq!(page1.len(), 2);
    assert!(!tok1.is_empty());

    let (page2, tok2) = store.list_items_for_user(2, &tok1, 77).unwrap();
    assert_eq!(page2.len(), 2);
    assert!(!tok2.is_empty());

    let (page3, tok3) = store.list_items_for_user(2, &tok2, 77).unwrap();
    assert_eq!(page3.len(), 1);
    assert!(tok3.is_empty());

    let mut all: Vec<ItemRow> = Vec::new();
    all.extend(page1);
    all.extend(page2);
    all.extend(page3);
    assert_eq!(all.len(), 5);
    // in sort order, no duplicates, no omissions
    for w in 0..all.len() {
        assert_eq!(all[w].create_time, 1_000 + (w as i64));
        assert_eq!(all[w].user_id, 77);
    }

    // the same token reproduces the same page on the unchanged store
    let (again, tok_again) = store.list_items_for_user(2, &tok1, 77).unwrap();
    assert_eq!(again.len(), 2);
    assert_eq!(again[0].item_id, all[2].item_id);
    assert_eq!(tok_again, tok2);
}

#[test]
fn count_and_pages_agree() {
    let store = store_with_items(5, 7);
    let (rows, next, total) = store.list_and_count_items_for_user(3, "", 5).unwrap();
    assert_eq!(total, 7);
    assert_eq!(rows.len(), 3);
    let (rows2, next2, total2) = store.list_and_count_items_for_user(3, &next, 5).unwrap();
    assert_eq!(total2, 7);
    assert_eq!(rows2.len(), 3);
    let (rows3, next3, _) = store.list_and_count_items_for_user(3, &next2, 5).unwrap();
    assert_eq!(rows3.len(), 1);
    assert!(next3.is_empty());
    assert_eq!((rows.len() + rows2.len() + rows3.len()) as i64, total);
}

#[test]
fn page_size_is_clamped() {
    let store = store_with_items(1, 3);
    // a page size below the minimum serves one row
    let (rows, _tok) = store.list_items_for_user(0, "", 1).unwrap();
    assert_eq!(rows.len(), 1);
    let (rows, _tok) = store.list_items_for_user(-5, "", 1).unwrap();
    assert_eq!(rows.len(), 1);
    // a page size above the maximum serves at most one hundred
    let (rows, tok) = store.list_items_for_user(1_000, "", 1).unwrap();
    assert_eq!(rows.len(), 3);
    assert!(tok.is_empty());
}

#[test]
fn malformed_token_is_rejected_before_any_query() {
    let store = store_with_items(9, 2);
    match store.list_items_for_user(2, "?? definitely not a cursor ??", 9) {
        Err(Error::PaginationTokenInvalid) => {}
        other => panic!("expected rejection, got {:?}", other),
    }
}

#[test]
fn other_users_items_stay_out_of_the_page() {
    let mut store = store_with_items(1, 2);
    store
        .add_item(NewItemRow {
            create_time: 500,
            update_time: 500,
            user_id: 2,
            plaid_item_id: "other".to_string(),
            plaid_access_token: "other".to_string(),
        })
        .unwrap();
    let (rows, tok) = store.list_items_for_user(10, "", 1).unwrap();
    assert_eq!(rows.len(), 2);
    assert!(tok.is_empty());
    for r in &rows {
        assert_eq!(r.user_id, 1);
    }
}

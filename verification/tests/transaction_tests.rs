//! Transactions and the composite operations: atomicity of the composite
//! create, rollback-on-drop, and the delete of an item with its accounts.

use affect_storage::Error;
use affect_storage::database::client::PgDatabaseClient;
use affect_storage::database::store::TransactionalStore;
use affect_storage::models::account::NewAccountRow;
use affect_storage::models::cause::NewCauseRow;
use affect_storage::models::item::NewItemRow;
use affect_storage::stores::account::AccountStore;
use affect_storage::stores::cause::CauseStore;
use affect_storage::stores::cause_and_recipient::CauseAndRecipientStore;
use affect_storage::stores::cause_recipient::CauseRecipientStore;
use affect_storage::stores::item::ItemStore;
use affect_storage::stores::item_and_account::ItemAndAccountStore;

#[test]
fn create_cause_with_recipients_commits_atomically() {
    // insert Cause for one user with two distinct recipients
    let mut store = PgDatabaseClient::new().on_demand();
    let user_id: u64 = 11;
    let n1: u64 = 101;
    let n2: u64 = 102;

    let mut txn = store.begin().unwrap();
    let (cause, recipients) = txn.add_cause_and_recipients(user_id, vec![n1, n2]).unwrap();
    txn.commit(&mut store).unwrap();

    assert_eq!(cause.user_id, user_id);
    assert_eq!(cause.name, "some name");
    assert_eq!(recipients.len(), 2);
    assert_eq!(recipients[0].cause_id, cause.cause_id);
    assert_eq!(recipients[0].nonprofit_id, n1);
    assert_eq!(recipients[1].cause_id, cause.cause_id);
    assert_eq!(recipients[1].nonprofit_id, n2);

    // exactly one cause row with the two recipient rows is visible
    let (fulls, tok) = store.list_causes_for_user(10, "", user_id).unwrap();
    assert!(tok.is_empty());
    assert_eq!(fulls.len(), 1);
    assert_eq!(fulls[0].cause.cause_id, cause.cause_id);
    assert_eq!(fulls[0].cause_recipients.0.len(), 2);
}

#[test]
fn failed_recipient_insert_leaves_no_rows() {
    // the second recipient duplicates the first: the whole composite must
    // leave storage untouched, including the cause row
    let mut store = PgDatabaseClient::new().on_demand();

    let mut txn = store.begin().unwrap();
    match txn.add_cause_and_recipients(1, vec![7, 7]) {
        Err(Error::Conflict) => {}
        other => panic!("expected a conflict, got {:?}", other),
    }
    // committing the aborted transaction publishes nothing
    txn.commit(&mut store).unwrap();

    let (fulls, _tok) = store.list_causes_for_user(10, "", 1).unwrap();
    assert_eq!(fulls.len(), 0);
    assert_eq!(store.count_causes_for_user(1).unwrap(), 0);
    assert_eq!(store.list_cause_recipients_for_cause(1).unwrap().len(), 0);
}

#[test]
fn statements_after_an_abort_fail() {
    let mut store = PgDatabaseClient::new().on_demand();
    let mut txn = store.begin().unwrap();
    assert!(txn.add_cause_and_recipients(1, vec![3, 3]).is_err());
    // the transaction is aborted: further statements are refused
    match txn.add_cause(NewCauseRow {
        create_time: 1,
        update_time: 1,
        user_id: 1,
        name: "later".to_string(),
    }) {
        Err(Error::PersistenceFailure) => {}
        other => panic!("expected a failure, got {:?}", other),
    }
}

#[test]
fn dropped_transaction_leaves_no_partial_writes() {
    let mut store = PgDatabaseClient::new().on_demand();
    store
        .add_item(NewItemRow {
            create_time: 1,
            update_time: 1,
            user_id: 4,
            plaid_item_id: "keep".to_string(),
            plaid_access_token: "keep".to_string(),
        })
        .unwrap();

    let mut txn = store.begin().unwrap();
    txn.add_item(NewItemRow {
        create_time: 2,
        update_time: 2,
        user_id: 4,
        plaid_item_id: "pending".to_string(),
        plaid_access_token: "pending".to_string(),
    })
    .unwrap();
    // neither commit nor rollback: the store must not change
    drop(txn);

    let (rows, _tok) = store.list_items_for_user(10, "", 4).unwrap();
    assert_eq!(rows.len(), 1);
    assert_eq!(rows[0].plaid_item_id, "keep");
}

#[test]
fn rollback_discards_pending_writes() {
    let mut store = PgDatabaseClient::new().on_demand();
    let mut txn = store.begin().unwrap();
    txn.add_cause(NewCauseRow {
        create_time: 9,
        update_time: 9,
        user_id: 2,
        name: "pending".to_string(),
    })
    .unwrap();
    txn.rollback().unwrap();
    assert_eq!(store.count_causes_for_user(2).unwrap(), 0);
}

#[test]
fn second_composite_creates_an_independent_cause() {
    // an overlapping recipient set must create a second, independent
    // cause, never merge into the first
    let mut store = PgDatabaseClient::new().on_demand();

    let mut txn = store.begin().unwrap();
    let (first, _) = txn.add_cause_and_recipients(1, vec![101, 102]).unwrap();
    txn.commit(&mut store).unwrap();

    let mut txn = store.begin().unwrap();
    let (second, seconds) = txn.add_cause_and_recipients(1, vec![102, 103]).unwrap();
    txn.commit(&mut store).unwrap();

    assert_ne!(first.cause_id, second.cause_id);
    assert_eq!(seconds.len(), 2);
    let (fulls, _tok) = store.list_causes_for_user(10, "", 1).unwrap();
    assert_eq!(fulls.len(), 2);
    assert_eq!(store.list_cause_recipients_for_cause(first.cause_id).unwrap().len(), 2);
    assert_eq!(store.list_cause_recipients_for_cause(second.cause_id).unwrap().len(), 2);
}

#[test]
fn delete_item_and_accounts_is_atomic() {
    let mut store = PgDatabaseClient::new().on_demand();
    let item = store
        .add_item(NewItemRow {
            create_time: 1,
            update_time: 1,
            user_id: 6,
            plaid_item_id: "bank".to_string(),
            plaid_access_token: "secret".to_string(),
        })
        .unwrap();
    let mut account_ids = Vec::new();
    for k in 0..3 {
        let account = store
            .add_account(NewAccountRow {
                create_time: 2 + k,
                update_time: 2 + k,
                item_id: item.item_id,
                plaid_account_id: format!("acct-{}", k),
                name: format!("account {}", k),
                mask: Some("1234".to_string()),
                stripe_bank_account_id: format!("ba-{}", k),
            })
            .unwrap();
        account_ids.push(account.account_id);
    }

    let mut txn = store.begin().unwrap();
    txn.delete_item_and_accounts(item.item_id, account_ids).unwrap();
    txn.commit(&mut store).unwrap();

    assert_eq!(store.find_item_by_id(item.item_id).unwrap(), None);
    assert_eq!(store.list_accounts_for_item(item.item_id).unwrap().len(), 0);
}

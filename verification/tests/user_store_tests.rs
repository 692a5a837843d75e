//! The user store: uniqueness of the identity-provider subject and the
//! lookups, plus the affiliate composite.

use affect_storage::Error;
use affect_storage::database::client::PgDatabaseClient;
use affect_storage::database::store::TransactionalStore;
use affect_storage::models::affiliate::{BusinessType, NewAffiliateRow};
use affect_storage::models::user::NewUserRow;
use affect_storage::stores::affiliate::AffiliateStore;
use affect_storage::stores::affiliate_and_manager::AffiliateAndManagerStore;
use affect_storage::stores::user::UserStore;

fn new_user(uid: &str) -> NewUserRow {
    NewUserRow {
        create_time: 10,
        update_time: 10,
        firebase_uid: uid.to_string(),
        firebase_email: format!("{}@example.com", uid),
        stripe_customer_id: format!("cus_{}", uid),
    }
}

#[test]
fn duplicate_firebase_uid_conflicts() {
    let mut store = PgDatabaseClient::new().on_demand();
    let first = store.add_user(new_user("abc")).unwrap();
    match store.add_user(new_user("abc")) {
        Err(Error::Conflict) => {}
        other => panic!("expected a conflict, got {:?}", other),
    }
    // the first user is still there, alone
    assert_eq!(store.count_users().unwrap(), 1);
    let found = store.find_user_by_firebase_uid(&"abc".to_string()).unwrap().unwrap();
    assert_eq!(found.user_id, first.user_id);
    assert_eq!(store.find_user_by_id(first.user_id).unwrap().unwrap(), found);
}

#[test]
fn find_absent_user_is_none() {
    let store = PgDatabaseClient::new().on_demand();
    assert_eq!(store.find_user_by_id(5).unwrap(), None);
    assert_eq!(store.find_user_by_firebase_uid(&"nobody".to_string()).unwrap(), None);
}

#[test]
fn create_affiliate_with_founding_manager() {
    let mut store = PgDatabaseClient::new().on_demand();
    let user = store.add_user(new_user("manager")).unwrap();

    let mut txn = store.begin().unwrap();
    let full = txn
        .create_affiliate_with_manager(
            NewAffiliateRow {
                create_time: 20,
                update_time: 20,
                stripe_account_id: "acct_1".to_string(),
                company_name: "Goodworks".to_string(),
                contact_email: "hello@goodworks.example".to_string(),
                business_type: BusinessType::Company,
                asserted_nonprofit_id: 999,
            },
            user.user_id,
        )
        .unwrap();
    txn.commit(&mut store).unwrap();

    // the caller never observes the affiliate without its founding manager
    assert_eq!(full.affiliate_managers.0.len(), 1);
    assert_eq!(full.affiliate_managers.0[0].user_id, user.user_id);
    assert_eq!(full.affiliate_managers.0[0].affiliate_id, full.affiliate.affiliate_id);
    // the asserted nonprofit reference did not resolve, and that is fine
    assert!(full.asserted_nonprofit.is_none());

    let reread = store.find_affiliate_by_id(full.affiliate.affiliate_id).unwrap().unwrap();
    assert_eq!(reread.affiliate, full.affiliate);
    assert_eq!(reread.affiliate_managers.0.len(), 1);
    assert_eq!(
        store.list_affiliate_managers_for_user(user.user_id).unwrap().len(),
        1
    );
    assert_eq!(
        store
            .list_affiliate_managers_for_affilate(full.affiliate.affiliate_id)
            .unwrap()
            .len(),
        1
    );
}

#[test]
fn manager_for_absent_affiliate_conflicts() {
    let mut store = PgDatabaseClient::new().on_demand();
    match store.add_affiliate_manager(affect_storage::models::affiliate::NewAffiliateManagerRow {
        affiliate_id: 42,
        user_id: 1,
        create_time: 5,
        update_time: 5,
    }) {
        Err(Error::Conflict) => {}
        other => panic!("expected a conflict, got {:?}", other),
    }
}

#[test]
fn users_listing_walks_every_user() {
    let mut store = PgDatabaseClient::new().on_demand();
    for k in 0..4 {
        store.add_user(new_user(&format!("uid-{}", k))).unwrap();
    }
    let (page1, tok1, total) = store.list_and_count_users(3, "").unwrap();
    assert_eq!(total, 4);
    assert_eq!(page1.len(), 3);
    let (page2, tok2) = store.list_users(3, &tok1).unwrap();
    assert_eq!(page2.len(), 1);
    assert!(tok2.is_empty());
    let mut uids: Vec<String> = Vec::new();
    for u in page1.iter().chain(page2.iter()) {
        uids.push(u.firebase_uid.clone());
    }
    uids.sort();
    assert_eq!(uids, vec!["uid-0", "uid-1", "uid-2", "uid-3"]);
}

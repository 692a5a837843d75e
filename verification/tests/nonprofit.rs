//! The nonprofit store: insertion and lookup through the on-demand store.

use affect_storage::database::client::PgDatabaseClient;
use affect_storage::models::nonprofit::{FullNonprofitRow, NewNonprofitRow, NonprofitRow};
use affect_storage::stores::nonprofit::NonprofitStore;

#[test]
fn create_nonprofit() {
    let mut store = PgDatabaseClient::new().on_demand();

    let mut expected_nonprofit = NonprofitRow {
        nonprofit_id: 0,
        create_time: 500_000_000_000,
        update_time: 1_000_000_000_000,
        change_nonprofit_id: Some("test_nonprofit_id".to_string()),
        icon_url: "test_icon_url".to_string(),
        name: "name".to_string(),
        ein: "ein".to_string(),
        mission: "mission".to_string(),
        category: "category".to_string(),
        affiliate_id: None,
    };

    // Insert nonprofit.
    let nonprofit = store
        .add_nonprofit(NewNonprofitRow {
            create_time: expected_nonprofit.create_time,
            update_time: expected_nonprofit.update_time,
            change_nonprofit_id: expected_nonprofit.change_nonprofit_id.clone(),
            icon_url: expected_nonprofit.icon_url.clone(),
            name: expected_nonprofit.name.clone(),
            ein: expected_nonprofit.ein.clone(),
            mission: expected_nonprofit.mission.clone(),
            category: expected_nonprofit.category.clone(),
            affiliate_id: None,
        })
        .unwrap();

    // Id is generated on insert, don't test that.
    expected_nonprofit.nonprofit_id = nonprofit.nonprofit_id;

    assert_eq!(nonprofit, expected_nonprofit);
}

#[test]
fn find_nonprofit_by_id_exists() {
    let mut store = PgDatabaseClient::new().on_demand();

    // Seed the store with a nonprofit.
    let mut expected_nonprofit = NonprofitRow {
        nonprofit_id: 0,
        create_time: 500_000_000_000,
        update_time: 1_000_000_000_000,
        change_nonprofit_id: Some("test_nonprofit_id".to_string()),
        icon_url: "test_icon_url".to_string(),
        name: "name".to_string(),
        ein: "ein".to_string(),
        mission: "mission".to_string(),
        category: "category".to_string(),
        affiliate_id: None,
    };
    let inserted_nonprofit = store
        .add_nonprofit(NewNonprofitRow {
            create_time: expected_nonprofit.create_time,
            update_time: expected_nonprofit.update_time,
            change_nonprofit_id: expected_nonprofit.change_nonprofit_id.clone(),
            icon_url: expected_nonprofit.icon_url.clone(),
            name: expected_nonprofit.name.clone(),
            ein: expected_nonprofit.ein.clone(),
            mission: expected_nonprofit.mission.clone(),
            category: expected_nonprofit.category.clone(),
            affiliate_id: None,
        })
        .unwrap();
    expected_nonprofit.nonprofit_id = inserted_nonprofit.nonprofit_id;

    let full_nonprofit = store.find_nonprofit_by_id(inserted_nonprofit.nonprofit_id).unwrap();

    assert_eq!(
        full_nonprofit,
        Some(FullNonprofitRow { nonprofit: expected_nonprofit, affiliate: None })
    );
}

#[test]
fn find_nonprofit_by_id_none() {
    let store = PgDatabaseClient::new().on_demand();

    assert_eq!(store.find_nonprofit_by_id(424242).unwrap(), None);
}

#[test]
fn search_matches_exact_names_only() {
    let mut store = PgDatabaseClient::new().on_demand();
    for (k, name) in ["alpha", "beta", "alpha"].iter().enumerate() {
        store
            .add_nonprofit(NewNonprofitRow {
                create_time: 100 + (k as i64),
                update_time: 100 + (k as i64),
                change_nonprofit_id: None,
                icon_url: "icon".to_string(),
                name: name.to_string(),
                ein: format!("ein-{}", k),
                mission: "m".to_string(),
                category: "c".to_string(),
                affiliate_id: None,
            })
            .unwrap();
    }

    let (all, tok) = store.list_nonprofits(10, "").unwrap();
    assert_eq!(all.len(), 3);
    assert!(tok.is_empty());
    assert_eq!(store.count_nonprofits().unwrap(), 3);

    let query = "alpha".to_string();
    let (hits, _tok, total) = store.list_and_count_nonprofits_by_search(10, "", &query).unwrap();
    assert_eq!(total, 2);
    assert_eq!(hits.len(), 2);
    for h in &hits {
        assert_eq!(h.nonprofit.name, "alpha");
    }

    let none = "alp".to_string();
    assert_eq!(store.count_nonprofits_by_search(&none).unwrap(), 0);
}

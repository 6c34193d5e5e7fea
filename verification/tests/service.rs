use wazito_backend::{Asset, AssetPayload, AssetStore, ServiceError};

fn payload(title: &str, description: &str, asset_url: &str, price: u64) -> AssetPayload {
    AssetPayload {
        title: String::from(title),
        description: String::from(description),
        asset_url: String::from(asset_url),
        price,
    }
}

#[test]
fn add_assigns_id_one_and_stamps_creation() {
    let mut store = AssetStore::open();
    let added = store.add_asset(payload("Map", "d", "u", 100), 7, 111).expect("add succeeds");
    assert_eq!(added.id, 1);
    assert_eq!(added.title, "Map");
    assert_eq!(added.description, "d");
    assert_eq!(added.asset_url, "u");
    assert_eq!(added.price, 100);
    assert_eq!(added.creator_id, 7);
    assert_eq!(added.created_at, 111);
    assert_eq!(added.updated_at, None);
}

#[test]
fn get_returns_the_added_record() {
    let mut store = AssetStore::open();
    let added = store.add_asset(payload("Map", "d", "u", 100), 7, 111).expect("add succeeds");
    let got = store.get_asset(1).expect("the id exists");
    assert_eq!(got, added);
    // A lookup mutates nothing: it keeps answering the same until a mutation.
    let again = store.get_asset(1).expect("the id still exists");
    assert_eq!(again, added);
}

#[test]
fn update_overwrites_mutable_fields_and_keeps_immutable_ones() {
    let mut store = AssetStore::open();
    let added = store.add_asset(payload("Map", "d", "u", 100), 7, 111).expect("add succeeds");
    let updated = store
        .update_asset(1, payload("Map v2", "d2", "u2", 150), 222)
        .expect("the id exists");
    assert_eq!(updated.id, 1);
    assert_eq!(updated.title, "Map v2");
    assert_eq!(updated.description, "d2");
    assert_eq!(updated.asset_url, "u2");
    assert_eq!(updated.price, 150);
    assert_eq!(updated.creator_id, added.creator_id);
    assert_eq!(updated.created_at, added.created_at);
    assert_eq!(updated.updated_at, Some(222));
    assert!(222 >= updated.created_at);
    let got = store.get_asset(1).expect("the id exists");
    assert_eq!(got, updated);
}

#[test]
fn repeated_updates_keep_immutables_and_advance_the_stamp() {
    let mut store = AssetStore::open();
    store.add_asset(payload("a", "b", "c", 1), 9, 10).expect("add succeeds");
    let first = store.update_asset(1, payload("a2", "b2", "c2", 2), 20).expect("id exists");
    let second = store.update_asset(1, payload("a3", "b3", "c3", 3), 30).expect("id exists");
    assert_eq!(first.creator_id, 9);
    assert_eq!(second.creator_id, 9);
    assert_eq!(first.created_at, 10);
    assert_eq!(second.created_at, 10);
    assert_eq!(first.updated_at, Some(20));
    assert_eq!(second.updated_at, Some(30));
    assert!(second.updated_at.unwrap() >= first.updated_at.unwrap());
}

#[test]
fn delete_returns_the_last_record_and_is_terminal() {
    let mut store = AssetStore::open();
    store.add_asset(payload("Map", "d", "u", 100), 7, 111).expect("add succeeds");
    let updated = store
        .update_asset(1, payload("Map v2", "d2", "u2", 150), 222)
        .expect("the id exists");
    let removed = store.delete_asset(1).expect("the id exists");
    assert_eq!(removed, updated);
    assert!(matches!(store.get_asset(1), Err(ServiceError::NotFound { id: 1 })));
    assert!(matches!(store.delete_asset(1), Err(ServiceError::NotFound { id: 1 })));
}

#[test]
fn get_on_an_empty_store_reports_not_found() {
    let store = AssetStore::open();
    assert!(matches!(store.get_asset(999), Err(ServiceError::NotFound { id: 999 })));
}

#[test]
fn update_of_a_missing_id_reports_not_found_and_changes_nothing() {
    let mut store = AssetStore::open();
    let added = store.add_asset(payload("Map", "d", "u", 100), 7, 111).expect("add succeeds");
    let r = store.update_asset(999, payload("x", "y", "z", 1), 222);
    assert!(matches!(r, Err(ServiceError::NotFound { id: 999 })));
    assert!(matches!(store.get_asset(999), Err(ServiceError::NotFound { id: 999 })));
    let got = store.get_asset(1).expect("the id exists");
    assert_eq!(got, added);
}

#[test]
fn ids_are_distinct_increasing_and_never_reused() {
    let mut store = AssetStore::open();
    let a = store.add_asset(payload("a", "", "", 1), 1, 1).expect("add succeeds");
    let b = store.add_asset(payload("b", "", "", 2), 1, 2).expect("add succeeds");
    let c = store.add_asset(payload("c", "", "", 3), 1, 3).expect("add succeeds");
    assert_eq!((a.id, b.id, c.id), (1, 2, 3));
    assert!(a.id < b.id && b.id < c.id);
    store.delete_asset(2).expect("the id exists");
    let d = store.add_asset(payload("d", "", "", 4), 1, 4).expect("add succeeds");
    assert_eq!(d.id, 4);
    assert!(matches!(store.get_asset(2), Err(ServiceError::NotFound { id: 2 })));
}

#[test]
fn records_survive_many_operations_and_stay_separate() {
    let mut store = AssetStore::open();
    for i in 0..20u64 {
        let title = format!("asset {}", i);
        store.add_asset(payload(&title, "d", "u", i), i, 100 + i).expect("add succeeds");
    }
    for i in 1..=20u64 {
        let got = store.get_asset(i).expect("the id exists");
        assert_eq!(got.id, i);
        assert_eq!(got.title, format!("asset {}", i - 1));
        assert_eq!(got.price, i - 1);
        assert_eq!(got.creator_id, i - 1);
        assert_eq!(got.created_at, 100 + i - 1);
    }
    store.delete_asset(5).expect("the id exists");
    assert!(store.get_asset(5).is_err());
    let got = store.get_asset(6).expect("a neighbour is untouched");
    assert_eq!(got.title, "asset 5");
}

#[test]
fn payloads_with_empty_strings_and_zero_price_are_accepted() {
    let mut store = AssetStore::open();
    let added = store.add_asset(payload("", "", "", 0), 0, 0).expect("add succeeds");
    assert_eq!(added.id, 1);
    assert_eq!(added.title, "");
    assert_eq!(added.price, 0);
    let got = store.get_asset(1).expect("the id exists");
    assert_eq!(got, added);
}

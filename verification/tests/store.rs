use chrono::NaiveDate;
use chrono::NaiveDateTime;
use stock_service::Stock;
use stock_service::StockStore;
use stock_service::StoreError;

fn at(minute: u32) -> NaiveDateTime {
    NaiveDate::from_ymd_opt(2020, 11, 2).unwrap().and_hms_opt(8, minute, 0).unwrap()
}

fn record(id: u32, name: &str) -> Stock {
    Stock::stamped(id, name.to_string(), format!("{} description", name), at(id % 60), 1)
}

fn ids(store: &StockStore) -> Vec<u32> {
    store.as_vec().iter().map(|r| r.id).collect()
}

#[test]
fn new_store_is_empty() {
    let store = StockStore::new();
    assert!(store.as_vec().is_empty());
    assert!(store.last().is_none());
}

#[test]
fn insert_appends_in_the_order_of_the_calls() {
    let mut store = StockStore::new();
    assert_eq!(store.insert(record(5, "five")), Ok(()));
    assert_eq!(store.insert(record(2, "two")), Ok(()));
    assert_eq!(store.insert(record(9, "nine")), Ok(()));
    assert_eq!(ids(&store), vec![5, 2, 9]);
    assert_eq!(store.as_vec()[1].name, "two");
}

#[test]
fn insert_refuses_an_id_that_is_taken() {
    let mut store = StockStore::new();
    store.insert(record(1, "first")).unwrap();
    store.insert(record(2, "second")).unwrap();
    assert_eq!(store.insert(record(1, "again")), Err(StoreError::IdTaken));
    assert_eq!(ids(&store), vec![1, 2]);
    assert_eq!(store.as_vec()[0].name, "first");
}

#[test]
fn insert_takes_the_id_zero_and_the_largest_id() {
    let mut store = StockStore::new();
    assert_eq!(store.insert(record(0, "zero")), Ok(()));
    assert_eq!(store.insert(record(u32::MAX, "max")), Ok(()));
    assert_eq!(store.insert(record(0, "zero again")), Err(StoreError::IdTaken));
    assert_eq!(ids(&store), vec![0, u32::MAX]);
}

#[test]
fn find_id_returns_the_record_with_that_id() {
    let mut store = StockStore::new();
    store.insert(record(5, "five")).unwrap();
    store.insert(record(2, "two")).unwrap();
    let found = store.find_id(2).unwrap();
    assert_eq!(found.id, 2);
    assert_eq!(found.name, "two");
    assert_eq!(found.created_at, at(2));
}

#[test]
fn find_id_reports_a_missing_id() {
    let mut store = StockStore::new();
    assert_eq!(store.find_id(1).err(), Some(StoreError::ObjectNotFound));
    store.insert(record(1, "one")).unwrap();
    assert_eq!(store.find_id(2).err(), Some(StoreError::ObjectNotFound));
}

#[test]
fn store_update_changes_the_one_record() {
    let mut store = StockStore::new();
    store.insert(record(1, "one")).unwrap();
    store.insert(record(2, "two")).unwrap();
    store.insert(record(3, "three")).unwrap();
    let revised = store.update(2, "deux".to_string(), "seconde".to_string()).unwrap();
    assert_eq!(revised.id, 2);
    assert_eq!(revised.name, "deux");
    assert_eq!(revised.description, "seconde");
    assert_eq!(revised.created_at, at(2));
    assert_eq!(revised.created_by, 1);
    assert_eq!(ids(&store), vec![1, 2, 3]);
    assert_eq!(store.as_vec()[0].name, "one");
    assert_eq!(store.as_vec()[1].name, "deux");
    assert_eq!(store.as_vec()[1].description, "seconde");
    assert_eq!(store.as_vec()[2].name, "three");
    assert_eq!(store.as_vec()[2].description, "three description");
}

#[test]
fn store_update_reports_a_missing_id() {
    let mut store = StockStore::new();
    store.insert(record(1, "one")).unwrap();
    let r = store.update(4, "x".to_string(), "y".to_string());
    assert_eq!(r.err(), Some(StoreError::ObjectNotFound));
    assert_eq!(store.as_vec()[0].name, "one");
    assert_eq!(store.as_vec().len(), 1);
}

#[test]
fn last_is_the_record_inserted_last() {
    let mut store = StockStore::new();
    store.insert(record(9, "nine")).unwrap();
    assert_eq!(store.last().unwrap().id, 9);
    store.insert(record(2, "two")).unwrap();
    assert_eq!(store.last().unwrap().id, 2);
    store.update(9, "neuf".to_string(), String::new()).unwrap();
    assert_eq!(store.last().unwrap().id, 2);
}

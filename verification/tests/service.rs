use chrono::NaiveDate;
use chrono::NaiveDateTime;
use chrono::Utc;
use stock_service::ServiceError;
use stock_service::Stock;
use stock_service::StockService;
use stock_service::StockStore;

fn at(second: u32) -> NaiveDateTime {
    NaiveDate::from_ymd_opt(2022, 1, 15).unwrap().and_hms_opt(9, 30, second).unwrap()
}

fn empty_service() -> StockService {
    StockService::new(StockStore::new())
}

fn service_with_ids(ids: &[u32]) -> StockService {
    let mut store = StockStore::new();
    for id in ids {
        let record =
            Stock::stamped(*id, format!("stock {}", id), format!("about {}", id), at(0), 1);
        store.insert(record).unwrap();
    }
    StockService::new(store)
}

fn listed_ids(service: &StockService) -> Vec<u32> {
    service.get_all().iter().map(|r| r.id).collect()
}

#[test]
fn warehouse_scenario() {
    let mut service = empty_service();
    let created =
        service.create_new("Warehouse A".to_string(), "Main depot".to_string(), 7).unwrap();
    assert_eq!(created.id, 1);
    assert_eq!(created.name, "Warehouse A");
    assert_eq!(created.description, "Main depot");
    assert_eq!(created.created_by, 7);

    let updated = service
        .update_by_id(1, "Warehouse A1".to_string(), "Main depot, renamed".to_string())
        .unwrap();
    assert_eq!(updated.id, 1);
    assert_eq!(updated.name, "Warehouse A1");
    assert_eq!(updated.description, "Main depot, renamed");
    assert_eq!(updated.created_by, 7);
    assert_eq!(updated.created_at, created.created_at);

    let found = service.get_by_id(1).unwrap();
    assert_eq!(found.id, 1);
    assert_eq!(found.name, "Warehouse A1");
    assert_eq!(found.description, "Main depot, renamed");
    assert_eq!(found.created_by, 7);
    assert_eq!(found.created_at, created.created_at);

    assert!(matches!(service.get_by_id(99), Err(ServiceError::NotFound(_))));
}

#[test]
fn first_id_is_one() {
    let service = empty_service();
    assert_eq!(service.next_id(), Some(1));
}

#[test]
fn next_id_is_one_above_the_largest() {
    assert_eq!(service_with_ids(&[5, 2, 9]).next_id(), Some(10));
    assert_eq!(service_with_ids(&[9, 5, 2]).next_id(), Some(10));
    assert_eq!(service_with_ids(&[0]).next_id(), Some(1));
    assert_eq!(service_with_ids(&[u32::MAX - 1]).next_id(), Some(u32::MAX));
}

#[test]
fn next_id_ends_at_the_largest_id() {
    assert_eq!(service_with_ids(&[3, u32::MAX, 4]).next_id(), None);
}

#[test]
fn next_id_does_not_change_the_collection() {
    let service = service_with_ids(&[5, 2, 9]);
    assert_eq!(service.next_id(), Some(10));
    assert_eq!(service.next_id(), Some(10));
    assert_eq!(listed_ids(&service), vec![5, 2, 9]);
}

#[test]
fn create_new_at_builds_the_record_from_its_arguments() {
    let mut service = service_with_ids(&[5, 2, 9]);
    let created =
        service.create_new_at("Annex".to_string(), "Overflow".to_string(), 12, at(42)).unwrap();
    assert_eq!(created.id, 10);
    assert_eq!(created.name, "Annex");
    assert_eq!(created.description, "Overflow");
    assert_eq!(created.created_by, 12);
    assert_eq!(created.created_at, at(42));
    let all = service.get_all();
    assert_eq!(all.len(), 4);
    assert_eq!(all[3].id, 10);
    assert_eq!(all[3].name, "Annex");
    assert_eq!(all[3].created_at, at(42));
}

#[test]
fn create_new_stamps_the_current_instant() {
    let mut service = empty_service();
    let before = Utc::now().naive_utc();
    let created = service.create_new("A".to_string(), "B".to_string(), 1).unwrap();
    let after = Utc::now().naive_utc();
    assert!(before <= created.created_at);
    assert!(created.created_at <= after);
    assert_eq!(service.get_by_id(1).unwrap().created_at, created.created_at);
}

#[test]
fn create_new_accepts_any_text() {
    let mut service = empty_service();
    let created = service.create_new(String::new(), "árvíztűrő\n\ttükörfúrógép".to_string(), 0);
    let created = created.unwrap();
    assert_eq!(created.name, "");
    assert_eq!(created.description, "árvíztűrő\n\ttükörfúrógép");
    assert_eq!(created.created_by, 0);
}

#[test]
fn create_new_fails_when_no_id_is_left() {
    let mut service = service_with_ids(&[1, u32::MAX]);
    let r = service.create_new("late".to_string(), "too late".to_string(), 1);
    match r {
        Err(ServiceError::InternalError(text)) => {
            assert_eq!(text, "Nincs több szabad stock azonosító!")
        }
        other => panic!("expected an internal error, got {:?}", other),
    }
    assert_eq!(listed_ids(&service), vec![1, u32::MAX]);
}

#[test]
fn created_ids_are_all_different() {
    let mut service = service_with_ids(&[40, 3]);
    let mut seen: Vec<u32> = vec![40, 3];
    for n in 0..60u32 {
        let created = service.create_new(format!("n{}", n), String::new(), n).unwrap();
        assert!(!seen.contains(&created.id));
        seen.push(created.id);
    }
    assert_eq!(listed_ids(&service), seen);
}

#[test]
fn sequential_creations_count_from_one() {
    let mut service = empty_service();
    for n in 1..=25u32 {
        let created = service.create_new(format!("stock {}", n), String::new(), 1).unwrap();
        assert_eq!(created.id, n);
    }
    assert_eq!(listed_ids(&service), (1..=25u32).collect::<Vec<u32>>());
}

#[test]
fn updates_leave_id_instant_and_creator_alone() {
    let mut service = empty_service();
    service.create_new_at("first".to_string(), "one".to_string(), 4, at(1)).unwrap();
    let created = service.create_new_at("second".to_string(), "two".to_string(), 6, at(2)).unwrap();
    for round in 0..10u32 {
        let updated = service
            .update_by_id(created.id, format!("name {}", round), format!("text {}", round))
            .unwrap();
        assert_eq!(updated.id, 2);
        assert_eq!(updated.created_at, at(2));
        assert_eq!(updated.created_by, 6);
    }
    let found = service.get_by_id(2).unwrap();
    assert_eq!(found.id, 2);
    assert_eq!(found.created_at, at(2));
    assert_eq!(found.created_by, 6);
    assert_eq!(found.name, "name 9");
    assert_eq!(found.description, "text 9");
}

#[test]
fn update_replaces_both_texts_every_time() {
    let mut service = empty_service();
    service.create_new("name".to_string(), "description".to_string(), 1).unwrap();
    let first = service.update_by_id(1, "changed".to_string(), "description".to_string()).unwrap();
    assert_eq!(first.name, "changed");
    assert_eq!(first.description, "description");
    let second = service.update_by_id(1, "name".to_string(), String::new()).unwrap();
    assert_eq!(second.name, "name");
    assert_eq!(second.description, "");
    let found = service.get_by_id(1).unwrap();
    assert_eq!(found.name, "name");
    assert_eq!(found.description, "");
}

#[test]
fn update_touches_no_other_record() {
    let mut service = service_with_ids(&[5, 2, 9]);
    service.update_by_id(2, "two".to_string(), "second".to_string()).unwrap();
    let all = service.get_all();
    assert_eq!(all[0].name, "stock 5");
    assert_eq!(all[0].description, "about 5");
    assert_eq!(all[1].name, "two");
    assert_eq!(all[1].description, "second");
    assert_eq!(all[2].name, "stock 9");
    assert_eq!(all[2].description, "about 9");
    assert_eq!(listed_ids(&service), vec![5, 2, 9]);
}

#[test]
fn get_by_id_of_an_unknown_id_is_not_found() {
    let mut service = empty_service();
    service.create_new("a".to_string(), "b".to_string(), 1).unwrap();
    service.create_new("c".to_string(), "d".to_string(), 1).unwrap();
    for id in [0u32, 3, 4, 99, u32::MAX] {
        match service.get_by_id(id) {
            Err(ServiceError::NotFound(text)) => {
                assert_eq!(text, "A megadott raktár nem található")
            }
            other => panic!("expected not found, got {:?}", other),
        }
    }
}

#[test]
fn update_by_id_of_an_unknown_id_is_not_found() {
    let mut service = empty_service();
    service.create_new("a".to_string(), "b".to_string(), 1).unwrap();
    for id in [0u32, 2, 99] {
        match service.update_by_id(id, "x".to_string(), "y".to_string()) {
            Err(ServiceError::NotFound(text)) => {
                assert_eq!(text, "A megadott stock nem található!")
            }
            other => panic!("expected not found, got {:?}", other),
        }
    }
    let all = service.get_all();
    assert_eq!(all.len(), 1);
    assert_eq!(all[0].name, "a");
    assert_eq!(all[0].description, "b");
}

#[test]
fn list_holds_the_three_records_in_their_last_state() {
    let mut service = empty_service();
    let a = service.create_new_at("a".to_string(), "first".to_string(), 1, at(1)).unwrap();
    let b = service.create_new_at("b".to_string(), "second".to_string(), 2, at(2)).unwrap();
    let c = service.create_new_at("c".to_string(), "third".to_string(), 3, at(3)).unwrap();
    assert_eq!((a.id, b.id, c.id), (1, 2, 3));
    service.update_by_id(2, "b2".to_string(), "second, revised".to_string()).unwrap();
    let all = service.get_all();
    assert_eq!(all.len(), 3);
    assert_eq!((all[0].id, all[1].id, all[2].id), (1, 2, 3));
    assert_eq!(all[0].name, "a");
    assert_eq!(all[0].description, "first");
    assert_eq!(all[0].created_at, at(1));
    assert_eq!(all[0].created_by, 1);
    assert_eq!(all[1].name, "b2");
    assert_eq!(all[1].description, "second, revised");
    assert_eq!(all[1].created_at, at(2));
    assert_eq!(all[1].created_by, 2);
    assert_eq!(all[2].name, "c");
    assert_eq!(all[2].description, "third");
    assert_eq!(all[2].created_at, at(3));
    assert_eq!(all[2].created_by, 3);
}

#[test]
fn list_keeps_insertion_order() {
    let service = service_with_ids(&[5, 2, 9]);
    assert_eq!(listed_ids(&service), vec![5, 2, 9]);
}

#[test]
fn list_of_the_empty_collection_is_empty() {
    assert!(empty_service().get_all().is_empty());
}

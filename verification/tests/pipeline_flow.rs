use bookcast::ApiError;
use bookcast::CreateBook;
use bookcast::Pipeline;
use bookcast::Registry;
use bookcast::SessionLifecycle;
use bookcast::UpdateBook;

fn create(title: &str, author: &str) -> CreateBook {
    CreateBook {
        title: title.to_string(),
        author: author.to_string(),
        price: None,
        publish_date: None,
    }
}

fn patch_title(title: &str, expected_updated_at: i64) -> UpdateBook {
    UpdateBook {
        title: Some(title.to_string()),
        author: None,
        price: None,
        publish_date: None,
        updated_at: expected_updated_at,
    }
}

#[test]
fn scenario_create_update_conflict_delete_broadcast() {
    let mut pipeline = Pipeline::new();
    let mut registry = Registry::new();
    let mut manager = SessionLifecycle::accept();
    manager.open(&mut registry);

    let t0: i64 = 1_000;
    let created = pipeline.create_book_at(create("A", "Ann"), t0).unwrap();
    assert_eq!(created.id, 1);
    assert_eq!(created.created_at, t0);
    assert_eq!(created.updated_at, t0);
    assert_eq!(created.title, "A");

    let t1: i64 = 2_000;
    let updated = pipeline.patch_book_at(1, patch_title("B", t0), t1).unwrap();
    assert_eq!(updated.title, "B");
    assert_eq!(updated.updated_at, t1);
    assert!(updated.updated_at > t0);
    assert_eq!(updated.created_at, t0);

    let stale = pipeline.patch_book_at(1, patch_title("C", t0), 3_000);
    assert!(matches!(stale, Err(ApiError::OutdatedData)));

    pipeline.delete_book(1).unwrap();
    let again = pipeline.delete_book(1);
    assert!(matches!(again, Err(ApiError::NotFound(_))));

    pipeline.drain_broadcast(&mut registry);
    let sessions = registry.snapshot();
    assert_eq!(sessions.len(), 1);
    let frames: Vec<String> = sessions[0]
        .delivered
        .iter()
        .map(|f| String::from_utf8(f.clone()).unwrap())
        .collect();
    assert_eq!(frames.len(), 3);
    assert!(frames[0].starts_with("{\"Created\":{\"id\":1,"));
    assert!(frames[1].starts_with("{\"Updated\":{\"id\":1,"));
    assert!(frames[1].contains("\"title\":\"B\""));
    assert_eq!(frames[2], "{\"Deleted\":1}");
}

#[test]
fn update_with_matching_stamp_succeeds_and_changes_stamp() {
    let mut pipeline = Pipeline::new();
    let book = pipeline.create_book_at(create("A", "Ann"), 500).unwrap();
    let updated = pipeline
        .patch_book_at(book.id, patch_title("A2", book.updated_at), 500)
        .unwrap();
    // the clock did not move, yet the stamp still changes
    assert_ne!(updated.updated_at, book.updated_at);
    assert_eq!(updated.updated_at, 501);
}

#[test]
fn update_with_stale_stamp_conflicts_and_changes_nothing() {
    let mut pipeline = Pipeline::new();
    let book = pipeline.create_book_at(create("A", "Ann"), 500).unwrap();
    let result = pipeline.patch_book_at(book.id, patch_title("Z", 499), 600);
    assert!(matches!(result, Err(ApiError::OutdatedData)));
    let stored = pipeline.get_book(book.id).unwrap();
    assert_eq!(stored.title, "A");
    assert_eq!(stored.updated_at, 500);
}

#[test]
fn partial_patch_keeps_absent_fields() {
    let mut pipeline = Pipeline::new();
    let payload = CreateBook {
        title: "T".to_string(),
        author: "Au".to_string(),
        price: Some("9.99".to_string()),
        publish_date: Some(1_000_000),
    };
    let book = pipeline.create_book_at(payload, 100).unwrap();
    let updated = pipeline
        .patch_book_at(book.id, patch_title("T2", book.updated_at), 200)
        .unwrap();
    assert_eq!(updated.title, "T2");
    assert_eq!(updated.author, "Au");
    assert_eq!(updated.price.as_deref(), Some("9.99"));
    assert_eq!(updated.publish_date, Some(1_000_000));
    assert_eq!(updated.created_at, 100);
}

#[test]
fn update_missing_id_is_not_found() {
    let mut pipeline = Pipeline::new();
    let result = pipeline.patch_book_at(42, patch_title("X", 0), 100);
    assert!(matches!(result, Err(ApiError::NotFound(_))));
}

#[test]
fn delete_missing_id_is_not_found_and_emits_nothing() {
    let mut pipeline = Pipeline::new();
    let mut registry = Registry::new();
    let mut manager = SessionLifecycle::accept();
    manager.open(&mut registry);
    let result = pipeline.delete_book(7);
    assert!(matches!(result, Err(ApiError::NotFound(_))));
    pipeline.drain_broadcast(&mut registry);
    assert_eq!(registry.snapshot()[0].delivered.len(), 0);
}

#[test]
fn ids_are_assigned_in_order() {
    let mut pipeline = Pipeline::new();
    let first = pipeline.create_book_at(create("A", "a"), 1).unwrap();
    let second = pipeline.create_book_at(create("B", "b"), 2).unwrap();
    assert_eq!(first.id, 1);
    assert_eq!(second.id, 2);
}

#[test]
fn get_books_lists_all_in_id_order() {
    let mut pipeline = Pipeline::new();
    pipeline.create_book_at(create("A", "a"), 1).unwrap();
    pipeline.create_book_at(create("B", "b"), 2).unwrap();
    pipeline.create_book_at(create("C", "c"), 3).unwrap();
    pipeline.delete_book(2).unwrap();
    let all = pipeline.get_books();
    let ids: Vec<i32> = all.iter().map(|b| b.id).collect();
    assert_eq!(ids, vec![1, 3]);
    assert_eq!(all[1].title, "C");
}

#[test]
fn get_book_finds_only_existing() {
    let mut pipeline = Pipeline::new();
    pipeline.create_book_at(create("A", "a"), 1).unwrap();
    assert!(pipeline.get_book(1).is_some());
    assert!(pipeline.get_book(2).is_none());
}

#[test]
fn create_with_live_clock_stamps_current_time() {
    let mut pipeline = Pipeline::new();
    let book = pipeline.create_book(create("A", "Ann")).unwrap();
    assert_eq!(book.created_at, book.updated_at);
    // a sane machine clock stands well past 2020
    assert!(book.created_at > 1_600_000_000_000);
}

#[test]
fn clock_stamps_are_clamped() {
    let mut pipeline = Pipeline::new();
    let book = pipeline.create_book_at(create("A", "a"), -77).unwrap();
    assert_eq!(book.created_at, 0);
    assert_eq!(book.updated_at, 0);
}

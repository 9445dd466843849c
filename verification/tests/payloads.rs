use bookcast::ActiveValue;
use bookcast::ApiError;
use bookcast::CreateBook;
use bookcast::CreatePost;
use bookcast::PatchPost;
use bookcast::ToActiveModel;
use bookcast::UpdateBook;
use bookcast::clamp_timestamp;
use bookcast::next_timestamp;
use bookcast::option_into_active_value;

#[test]
fn option_into_active_value_keeps_present_values() {
    match option_into_active_value(Some(5)) {
        ActiveValue::Assigned(v) => assert_eq!(v, 5),
        ActiveValue::NotSet => panic!("a present value must be assigned"),
    }
    assert!(matches!(
        option_into_active_value::<i32>(None),
        ActiveValue::NotSet
    ));
}

#[test]
fn create_post_assigns_both_fields() {
    let row = CreatePost {
        title: "t".to_string(),
        text: "x".to_string(),
    }
    .to_active_model();
    assert!(matches!(row.id, ActiveValue::NotSet));
    assert!(matches!(row.title, ActiveValue::Assigned(ref t) if t == "t"));
    assert!(matches!(row.text, ActiveValue::Assigned(ref t) if t == "x"));
}

#[test]
fn patch_post_assigns_only_present_fields() {
    let row = PatchPost {
        title: Some("t".to_string()),
        text: None,
    }
    .to_active_model();
    assert!(matches!(row.title, ActiveValue::Assigned(ref t) if t == "t"));
    assert!(matches!(row.text, ActiveValue::NotSet));
}

#[test]
fn create_book_row_stamps_both_timestamps() {
    let payload = CreateBook {
        title: "t".to_string(),
        author: "a".to_string(),
        price: None,
        publish_date: Some(9),
    };
    let row = payload.active_model_at(1234);
    assert!(matches!(row.id, ActiveValue::NotSet));
    assert!(matches!(row.title, ActiveValue::Assigned(ref t) if t == "t"));
    assert!(matches!(row.price, ActiveValue::NotSet));
    assert!(matches!(row.publish_date, ActiveValue::Assigned(Some(9))));
    assert!(matches!(row.created_at, ActiveValue::Assigned(1234)));
    assert!(matches!(row.updated_at, ActiveValue::Assigned(1234)));
}

#[test]
fn update_book_row_never_touches_created_at() {
    let payload = UpdateBook {
        title: None,
        author: Some("a2".to_string()),
        price: Some("1.50".to_string()),
        publish_date: None,
        updated_at: 77,
    };
    let row = payload.active_model_at(4321);
    assert!(matches!(row.id, ActiveValue::NotSet));
    assert!(matches!(row.title, ActiveValue::NotSet));
    assert!(matches!(row.author, ActiveValue::Assigned(ref a) if a == "a2"));
    assert!(matches!(row.price, ActiveValue::Assigned(Some(ref p)) if p == "1.50"));
    assert!(matches!(row.created_at, ActiveValue::NotSet));
    assert!(matches!(row.updated_at, ActiveValue::Assigned(4321)));
}

#[test]
fn trait_rows_stamp_with_the_clock() {
    let payload = CreateBook {
        title: "t".to_string(),
        author: "a".to_string(),
        price: None,
        publish_date: None,
    };
    let row = payload.to_active_model();
    let (created, updated) = match (row.created_at, row.updated_at) {
        (ActiveValue::Assigned(c), ActiveValue::Assigned(u)) => (c, u),
        _ => panic!("creation must stamp both timestamps"),
    };
    assert_eq!(created, updated);
    assert!(created > 1_600_000_000_000);
}

#[test]
fn status_codes_match_the_error_kind() {
    assert_eq!(ApiError::NotFound("x").status_code(), 404);
    assert_eq!(ApiError::OutdatedData.status_code(), 400);
    assert_eq!(ApiError::Database.status_code(), 500);
    assert_eq!(ApiError::Serialization.status_code(), 500);
    assert_eq!(ApiError::IoError.status_code(), 500);
    assert_eq!(ApiError::Broadcast.status_code(), 500);
    assert_eq!(ApiError::Actix.status_code(), 500);
}

#[test]
fn error_bodies_match_the_error_kind() {
    assert_eq!(
        ApiError::NotFound("No such book with given id").error_response(),
        "Not found: No such book with given id"
    );
    assert_eq!(
        ApiError::OutdatedData.error_response(),
        "Book from the request body has outdated updatedAt timestamp, send an actual one!"
    );
    assert_eq!(ApiError::Database.error_response(), "Internal Server Error!");
}

#[test]
fn timestamps_clamp_and_advance() {
    assert_eq!(clamp_timestamp(-5), 0);
    assert_eq!(clamp_timestamp(0), 0);
    assert_eq!(clamp_timestamp(i64::MAX), i64::MAX - 1);
    assert_eq!(clamp_timestamp(42), 42);

    // the clock moved forward: take it
    assert_eq!(next_timestamp(10, 50), 50);
    // the clock stood still or went backwards: still advance
    assert_eq!(next_timestamp(10, 10), 11);
    assert_eq!(next_timestamp(10, 5), 11);
    assert_eq!(next_timestamp(10, -1), 11);
    // the one stamp with no room left stays put
    assert_eq!(next_timestamp(i64::MAX - 1, 0), i64::MAX - 1);
}

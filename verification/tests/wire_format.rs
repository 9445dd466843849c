use bookcast::Book;
use bookcast::DbAction;
use bookcast::serialize_action;

fn sample_book() -> Book {
    Book {
        id: 1,
        title: "A".to_string(),
        author: "Ann".to_string(),
        price: None,
        publish_date: None,
        created_at: 0,
        updated_at: 0,
    }
}

fn as_text(frame: Vec<u8>) -> String {
    String::from_utf8(frame).unwrap()
}

#[test]
fn created_frame_is_exact() {
    let frame = serialize_action(&DbAction::Created(sample_book()));
    assert_eq!(
        as_text(frame),
        "{\"Created\":{\"id\":1,\"title\":\"A\",\"author\":\"Ann\",\"price\":null,\
         \"publishDate\":null,\"createdAt\":0,\"updatedAt\":0}}"
    );
}

#[test]
fn updated_frame_carries_all_fields() {
    let book = Book {
        id: 12,
        title: "Dune".to_string(),
        author: "Frank Herbert".to_string(),
        price: Some("9.99".to_string()),
        publish_date: Some(-86_400_000),
        created_at: 1_664_531_930_000,
        updated_at: 1_664_531_931_500,
    };
    let frame = serialize_action(&DbAction::Updated(book));
    assert_eq!(
        as_text(frame),
        "{\"Updated\":{\"id\":12,\"title\":\"Dune\",\"author\":\"Frank Herbert\",\
         \"price\":\"9.99\",\"publishDate\":-86400000,\"createdAt\":1664531930000,\
         \"updatedAt\":1664531931500}}"
    );
}

#[test]
fn deleted_frame_is_exact() {
    let frame = serialize_action(&DbAction::Deleted(7));
    assert_eq!(as_text(frame), "{\"Deleted\":7}");
}

#[test]
fn strings_are_escaped() {
    let mut book = sample_book();
    book.title = "He said \"hi\\bye\"\n\tok\r".to_string();
    book.author = "ctrl\u{1}".to_string();
    let frame = serialize_action(&DbAction::Created(book));
    let text = as_text(frame);
    assert!(text.contains("\"title\":\"He said \\\"hi\\\\bye\\\"\\n\\tok\\r\""));
    assert!(text.contains("\"author\":\"ctrl\\u0001\""));
}

#[test]
fn frames_parse_back_as_json() {
    let mut book = sample_book();
    book.title = "quote \" backslash \\ newline \n done".to_string();
    book.price = Some("12.00".to_string());
    book.publish_date = Some(123_456);
    let frame = serialize_action(&DbAction::Created(book));
    let value: serde_json::Value = serde_json::from_slice(&frame).unwrap();
    let inner = &value["Created"];
    assert_eq!(inner["id"], 1);
    assert_eq!(inner["title"], "quote \" backslash \\ newline \n done");
    assert_eq!(inner["author"], "Ann");
    assert_eq!(inner["price"], "12.00");
    assert_eq!(inner["publishDate"], 123_456);
    assert_eq!(inner["createdAt"], 0);
    assert_eq!(inner["updatedAt"], 0);
}

#[test]
fn unicode_titles_survive_the_trip() {
    let mut book = sample_book();
    book.title = "héllo wörld — 本".to_string();
    let frame = serialize_action(&DbAction::Created(book));
    let value: serde_json::Value = serde_json::from_slice(&frame).unwrap();
    assert_eq!(value["Created"]["title"], "héllo wörld — 本");
}

#[test]
fn negative_ids_format_with_sign() {
    let frame = serialize_action(&DbAction::Deleted(-3));
    assert_eq!(as_text(frame), "{\"Deleted\":-3}");
}

#[test]
fn extreme_timestamps_format_exactly() {
    let mut book = sample_book();
    book.publish_date = Some(i64::MIN);
    book.created_at = 0;
    book.updated_at = i64::MAX - 1;
    let frame = serialize_action(&DbAction::Created(book));
    let text = as_text(frame);
    assert!(text.contains("\"publishDate\":-9223372036854775808"));
    assert!(text.contains("\"updatedAt\":9223372036854775806"));
}

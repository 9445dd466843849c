use bookcast::CreateBook;
use bookcast::FrameAction;
use bookcast::Inbound;
use bookcast::Pipeline;
use bookcast::Registry;
use bookcast::SessionLifecycle;
use bookcast::SessionState;

fn create(title: &str) -> CreateBook {
    CreateBook {
        title: title.to_string(),
        author: "a".to_string(),
        price: None,
        publish_date: None,
    }
}

#[test]
fn every_connected_session_gets_every_event_in_order() {
    let mut pipeline = Pipeline::new();
    let mut registry = Registry::new();
    let mut first = SessionLifecycle::accept();
    let mut second = SessionLifecycle::accept();
    first.open(&mut registry);
    second.open(&mut registry);

    pipeline.create_book_at(create("A"), 1).unwrap();
    pipeline.create_book_at(create("B"), 2).unwrap();
    pipeline.delete_book(1).unwrap();
    pipeline.drain_broadcast(&mut registry);

    let sessions = registry.snapshot();
    assert_eq!(sessions.len(), 2);
    assert_eq!(sessions[0].delivered.len(), 3);
    assert_eq!(sessions[0].delivered, sessions[1].delivered);
    let first_frame = String::from_utf8(sessions[0].delivered[0].clone()).unwrap();
    let last_frame = String::from_utf8(sessions[0].delivered[2].clone()).unwrap();
    assert!(first_frame.starts_with("{\"Created\":{\"id\":1,"));
    assert_eq!(last_frame, "{\"Deleted\":1}");
}

#[test]
fn disconnect_mid_broadcast_does_not_starve_others() {
    let mut pipeline = Pipeline::new();
    let mut registry = Registry::new();
    let mut leaver = SessionLifecycle::accept();
    let mut stayer = SessionLifecycle::accept();
    leaver.open(&mut registry);
    stayer.open(&mut registry);

    pipeline.create_book_at(create("A"), 1).unwrap();
    pipeline.drain_broadcast(&mut registry);

    // the first session drops between two broadcasts
    let action = leaver.on_frame(Inbound::Close);
    assert!(matches!(action, FrameAction::BeginClose));
    leaver.finish(&mut registry);
    assert_eq!(registry.snapshot().len(), 1);

    pipeline.create_book_at(create("B"), 2).unwrap();
    pipeline.drain_broadcast(&mut registry);

    let sessions = registry.snapshot();
    assert_eq!(sessions.len(), 1);
    assert_eq!(sessions[0].key, stayer.key);
    assert_eq!(sessions[0].delivered.len(), 2);
    let second = String::from_utf8(sessions[0].delivered[1].clone()).unwrap();
    assert!(second.starts_with("{\"Created\":{\"id\":2,"));
}

#[test]
fn session_connected_late_misses_earlier_events() {
    let mut pipeline = Pipeline::new();
    let mut registry = Registry::new();
    pipeline.create_book_at(create("A"), 1).unwrap();
    pipeline.drain_broadcast(&mut registry);

    let mut late = SessionLifecycle::accept();
    late.open(&mut registry);
    pipeline.create_book_at(create("B"), 2).unwrap();
    pipeline.drain_broadcast(&mut registry);

    let sessions = registry.snapshot();
    assert_eq!(sessions.len(), 1);
    assert_eq!(sessions[0].delivered.len(), 1);
}

#[test]
fn ping_in_open_is_answered_with_same_payload() {
    let mut registry = Registry::new();
    let mut manager = SessionLifecycle::accept();
    assert!(matches!(manager.state, SessionState::Connecting));
    manager.open(&mut registry);
    assert!(matches!(manager.state, SessionState::Open));

    let action = manager.on_frame(Inbound::Ping(vec![1, 2, 3]));
    match action {
        FrameAction::Pong(payload) => assert_eq!(payload, vec![1, 2, 3]),
        _ => panic!("a ping must be answered with a pong"),
    }
    assert!(matches!(manager.state, SessionState::Open));
}

#[test]
fn other_frames_are_ignored_without_state_change() {
    let mut registry = Registry::new();
    let mut manager = SessionLifecycle::accept();
    manager.open(&mut registry);
    let action = manager.on_frame(Inbound::Other);
    assert!(matches!(action, FrameAction::Ignore));
    assert!(matches!(manager.state, SessionState::Open));
}

#[test]
fn lost_transport_closes_and_deregisters() {
    let mut registry = Registry::new();
    let mut manager = SessionLifecycle::accept();
    manager.open(&mut registry);
    assert_eq!(registry.snapshot().len(), 1);
    let action = manager.on_frame(Inbound::Lost);
    assert!(matches!(action, FrameAction::BeginClose));
    assert!(matches!(manager.state, SessionState::Closing));
    manager.finish(&mut registry);
    assert!(matches!(manager.state, SessionState::Closed));
    assert_eq!(registry.snapshot().len(), 0);
}

#[test]
fn broadcast_to_empty_registry_is_harmless() {
    let mut pipeline = Pipeline::new();
    let mut registry = Registry::new();
    pipeline.create_book_at(create("A"), 1).unwrap();
    pipeline.drain_broadcast(&mut registry);
    assert_eq!(registry.snapshot().len(), 0);
}

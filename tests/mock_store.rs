use tencent_meeting_service::client::MeetingInfo;
use tencent_meeting_service::mock::MockDataStore;

fn info(id: &str) -> MeetingInfo {
    MeetingInfo {
        subject: "Test Meeting".to_string(),
        meeting_id: id.to_string(),
        meeting_code: "123456".to_string(),
        password: None,
        hosts: None,
        participants: None,
        user_non_registered: None,
        start_time: "1680000000".to_string(),
        end_time: "1680003600".to_string(),
        join_url: None,
        settings: None,
        enable_live: None,
        live_config: None,
        host_key: None,
    }
}

#[test]
fn mock_meetings_store_get_cancel() {
    let mut store = MockDataStore::new();
    assert!(store.get_meeting("m1").is_none());
    store.store_meeting("m1".to_string(), info("m1"));
    assert_eq!(store.get_meeting("m1").unwrap().meeting_code, "123456");
    assert!(store.cancel_meeting("m1"));
    assert!(!store.cancel_meeting("m1"));
    assert!(store.get_meeting("m1").is_none());
}

#[test]
fn mock_room_booking() {
    let mut store = MockDataStore::new();
    assert!(store.book_room("m1", &["room1".to_string(), "room2".to_string()]));
    assert!(store.release_room("m1"));
    assert!(!store.release_room("m1"));
}

#[test]
fn mock_room_listing_pages() {
    let store = MockDataStore::new();
    let (page, total) = store.list_rooms(1, 10);
    assert_eq!(total, 2);
    assert_eq!(page.len(), 2);
    assert_eq!(page[0].meeting_room_id, "room1");
    let (second, _) = store.list_rooms(2, 1);
    assert_eq!(second.len(), 1);
    assert_eq!(second[0].meeting_room_name, "Conference Room B");
    let (beyond, total) = store.list_rooms(3, 1);
    assert!(beyond.is_empty());
    assert_eq!(total, 2);
}

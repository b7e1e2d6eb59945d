use tencent_meeting_service::client::{create_meeting_uri, meeting_action_uri, parse_operators, TencentMeetingClient};
use tencent_meeting_service::models::{default_page, default_page_size};
use tencent_meeting_service::runs::{get_location_for_form, get_operator_info, get_room_id_for_form, merged_label};
use tencent_meeting_service::models::{FormEntry, FormSubmission};

fn client(ops: Option<&str>, sdk: Option<&str>) -> TencentMeetingClient {
    TencentMeetingClient::new(
        "app-1".to_string(),
        "sid".to_string(),
        "skey".to_string(),
        None,
        sdk.map(|s| s.to_string()),
        ops.map(|s| s.to_string()),
    )
}

#[test]
fn operators_parse_and_skip_malformed() {
    let ops = parse_operators(Some(" Alice : a1 ,broken, x:y:z ,Bob:b2"));
    let pairs: Vec<(String, String)> = ops.iter().map(|o| (o.name.clone(), o.id.clone())).collect();
    assert_eq!(pairs, vec![("Alice".to_string(), "a1".to_string()), ("Bob".to_string(), "b2".to_string())]);
    let none = parse_operators(None);
    assert_eq!((none[0].name.as_str(), none[0].id.as_str()), ("admin", "admin"));
    let empty = parse_operators(Some(""));
    assert_eq!(empty.len(), 1);
    assert_eq!(empty[0].id, "admin");
}

#[test]
fn operator_lookup_ignores_case_and_falls_back() {
    let c = client(Some("Alice:a1,Bob:b2"), None);
    assert_eq!(c.get_operator_id_by_name("alice"), "a1");
    assert_eq!(c.get_operator_id_by_name("BOB"), "b2");
    assert_eq!(c.get_operator_id_by_name("Carol"), "a1");
    assert_eq!(c.get_operator_id(), "a1");
    assert_eq!(c.get_operators().len(), 2);
    let bare = client(Some("garbage"), None);
    assert_eq!(bare.get_operator_id(), "admin");
    assert!(bare.get_operators().is_empty());
}

#[test]
fn operator_info_from_form_field() {
    let c = client(Some("Alice:a1,Bob:b2"), None);
    let mut form = FormSubmission {
        form: "f".to_string(),
        form_name: "x".to_string(),
        entry: FormEntry {
            token: "t".to_string(),
            field_1: vec![],
            field_8: "s".to_string(),
            extra_fields: vec![("who".to_string(), "bob".to_string())],
            reservation_status_fsf_field: "已预约".to_string(),
        },
    };
    assert_eq!(get_operator_info(&c, &form, "who"), ("bob".to_string(), "b2".to_string()));
    assert_eq!(get_operator_info(&c, &form, "missing"), ("default".to_string(), "a1".to_string()));
    form.entry.extra_fields = vec![("who".to_string(), "Zed".to_string())];
    assert_eq!(get_operator_info(&c, &form, "who"), ("Zed".to_string(), "a1".to_string()));
}

#[test]
fn headers_and_signed_request() {
    let c = client(None, Some("sdk-9"));
    let h = c.request_headers(1700000000, "12345678", "sig");
    let names: Vec<&str> = h.iter().map(|p| p.0.as_str()).collect();
    assert_eq!(names, vec!["Content-Type", "X-TC-Key", "X-TC-Timestamp", "X-TC-Nonce", "X-TC-Signature", "AppId", "X-TC-Registered", "SdkId"]);
    assert_eq!(h[0].1, "application/json");
    assert_eq!(h[2].1, "1700000000");
    assert_eq!(h[5].1, "app-1");
    assert_eq!(h[6].1, "1");
    let plain = client(None, None);
    assert_eq!(plain.request_headers(1, "n", "s").len(), 7);
    let req = plain.signed_request("POST", "/v1/meetings", "{}", 5, "12345678");
    assert_eq!(req.url, "https://api.meeting.qq.com/v1/meetings");
    assert_eq!(req.body, "{}");
    assert_eq!(req.headers[4].1, plain.generate_signature("POST", "/v1/meetings", 5, "12345678", "{}"));
}

#[test]
fn request_paths() {
    let c = client(Some("Alice:a1"), None);
    assert_eq!(c.list_rooms_uri(1, 20), "/v1/meeting-rooms?page=1&page_size=20&operator_id=a1&operator_id_type=1");
    assert_eq!(create_meeting_uri(), "/v1/meetings");
    assert_eq!(meeting_action_uri("m1", "cancel"), "/v1/meetings/m1/cancel");
    assert_eq!(default_page(), 1);
    assert_eq!(default_page_size(), 20);
}

#[test]
fn form_routing() {
    assert_eq!(get_room_id_for_form("西安会议室预约", "xa", "cd"), "xa");
    assert_eq!(get_room_id_for_form("成都会议室预约", "xa", "cd"), "cd");
    assert_eq!(get_room_id_for_form("other", "xa", "cd"), "xa");
    assert_eq!(get_location_for_form("西安会议室预约", "Room A"), "西安-大会议室");
    assert_eq!(get_location_for_form("成都会议室预约", "Room A"), "成都-天府广场");
    assert_eq!(get_location_for_form("other", "Room A"), "Room A (Unknown Location)");
}

#[test]
fn merged_labels() {
    assert_eq!(merged_label("2035-04-01 09:00-10:00", "2035-04-01 10:00-11:00"), "2035-04-01 09:00-11:00");
    assert_eq!(merged_label("2035-04-01 14:00-14:30", "2035-04-01 14:30-15:00"), "2035-04-01 14:00-15:00");
    assert_eq!(merged_label("2035-04-01", "x"), "2035-04-01 -");
}

#[test]
fn operators_whitespace_setting_gives_admin() {
    let ops = parse_operators(Some("   "));
    assert_eq!(ops.len(), 1);
    assert_eq!((ops[0].name.as_str(), ops[0].id.as_str()), ("admin", "admin"));
    assert_eq!(client(Some(" \t "), None).get_operator_id(), "admin");
}

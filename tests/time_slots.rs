use chrono::{TimeZone, Utc};
use tencent_meeting_service::merge::find_mergeable_groups;
use tencent_meeting_service::models::{FormField1Item, TimeSlot};
use tencent_meeting_service::slots::{duration_minutes, parse_time_slot, parse_time_slot_at, SlotError};

fn at(y: i32, mo: u32, d: u32, h: u32, mi: u32) -> i64 {
    Utc.with_ymd_and_hms(y, mo, d, h, mi, 0).unwrap().timestamp()
}

fn slot(room: &str, label: &str, number: i32, start: i64, end: i64, code: &str) -> TimeSlot {
    TimeSlot {
        item_name: room.to_string(),
        scheduled_label: label.to_string(),
        number,
        start_time: start,
        end_time: end,
        api_code: code.to_string(),
    }
}

fn item(room: &str, label: &str, number: i32, scheduled_at: &str, code: &str) -> FormField1Item {
    FormField1Item {
        item_name: room.to_string(),
        scheduled_label: label.to_string(),
        number,
        scheduled_at: scheduled_at.to_string(),
        api_code: code.to_string(),
    }
}

fn single_slot_groups() {
    let s = slot("Room A", "2025-04-01 09:00-10:00", 1, at(2025, 4, 1, 9, 0), at(2025, 4, 1, 10, 0), "CODE1");
    let slots = vec![s];
    let result = find_mergeable_groups(&slots);
    assert_eq!(result.len(), 1);
    assert_eq!(result[0].len(), 1);
    assert_eq!(result[0][0].scheduled_label, "2025-04-01 09:00-10:00");
}

fn consecutive_groups() {
    let s1 = slot("Room A", "2025-04-01 09:00-10:00", 1, at(2025, 4, 1, 9, 0), at(2025, 4, 1, 10, 0), "CODE1");
    let s2 = slot("Room A", "2025-04-01 10:00-11:00", 2, at(2025, 4, 1, 10, 0), at(2025, 4, 1, 11, 0), "CODE2");
    let slots = vec![s1, s2];
    let result = find_mergeable_groups(&slots);
    assert_eq!(result.len(), 1);
    assert_eq!(result[0].len(), 2);
}

fn non_consecutive_groups() {
    let s1 = slot("Room A", "2025-04-01 09:00-10:00", 1, at(2025, 4, 1, 9, 0), at(2025, 4, 1, 10, 0), "CODE1");
    let s2 = slot("Room A", "2025-04-01 11:00-12:00", 2, at(2025, 4, 1, 11, 0), at(2025, 4, 1, 12, 0), "CODE2");
    let slots = vec![s1, s2];
    let result = find_mergeable_groups(&slots);
    assert_eq!(result.len(), 2);
    assert_eq!(result[0].len(), 1);
    assert_eq!(result[1].len(), 1);
}

fn different_room_groups() {
    let s1 = slot("Room A", "2025-04-01 09:00-10:00", 1, at(2025, 4, 1, 9, 0), at(2025, 4, 1, 10, 0), "CODE1");
    let s2 = slot("Room B", "2025-04-01 10:00-11:00", 2, at(2025, 4, 1, 10, 0), at(2025, 4, 1, 11, 0), "CODE2");
    let slots = vec![s1, s2];
    let result = find_mergeable_groups(&slots);
    assert_eq!(result.len(), 2);
    assert_eq!(result[0].len(), 1);
    assert_eq!(result[1].len(), 1);
}

fn complex_groups() {
    let s1 = slot("Room A", "2025-04-01 09:00-10:00", 1, at(2025, 4, 1, 9, 0), at(2025, 4, 1, 10, 0), "CODE1");
    let s2 = slot("Room A", "2025-04-01 10:00-11:00", 2, at(2025, 4, 1, 10, 0), at(2025, 4, 1, 11, 0), "CODE2");
    let s3 = slot("Room B", "2025-04-01 09:00-10:00", 3, at(2025, 4, 1, 9, 0), at(2025, 4, 1, 10, 0), "CODE3");
    let s4 = slot("Room B", "2025-04-01 10:30-11:30", 4, at(2025, 4, 1, 10, 30), at(2025, 4, 1, 11, 30), "CODE4");
    let slots = vec![s1, s2, s3, s4];
    let result = find_mergeable_groups(&slots);
    assert_eq!(result.len(), 3);
    assert_eq!(result[0].len(), 2);
    assert_eq!(result[0][0].item_name, "Room A");
    assert_eq!(result[1].len(), 1);
    assert_eq!(result[1][0].item_name, "Room B");
    assert_eq!(result[2].len(), 1);
    assert_eq!(result[2][0].item_name, "Room B");
}

fn thirty_minute_groups() {
    let s1 = slot("Room A", "2025-04-01 14:00-14:30", 1, at(2025, 4, 1, 14, 0), at(2025, 4, 1, 14, 30), "CODE1");
    let s2 = slot("Room A", "2025-04-01 14:30-15:00", 2, at(2025, 4, 1, 14, 30), at(2025, 4, 1, 15, 0), "CODE2");
    let slots = vec![s1, s2];
    let result = find_mergeable_groups(&slots);
    assert_eq!(result.len(), 1);
    assert_eq!(result[0].len(), 2);
    assert_eq!(result[0][0].scheduled_label, "2025-04-01 14:00-14:30");
    assert_eq!(result[0][1].scheduled_label, "2025-04-01 14:30-15:00");
}

fn past_start_adjusted() {
    let now = Utc::now();
    let past_time = now - chrono::Duration::hours(1);
    let future_time = now + chrono::Duration::hours(1);
    let label = format!("{}-{}", past_time.format("%Y-%m-%d %H:%M"), future_time.format("%H:%M"));
    let it = item("Test Room", &label, 1, &past_time.to_rfc3339(), "CODE1");
    let result = parse_time_slot(&it);
    assert!(result.is_ok());
    let ts = result.unwrap();
    let now_secs = now.timestamp();
    assert!(ts.start_time > now_secs);
    let start_diff = ts.start_time - now_secs;
    assert!(start_diff >= 115 && start_diff <= 125);
    let end_diff = (ts.end_time - future_time.timestamp()).abs();
    assert!(end_diff < 5);
    let minutes = (ts.end_time - ts.start_time) / 60;
    assert!(minutes < 120);
    assert!(minutes > 50);
}

fn past_end_refused() {
    let now = Utc::now();
    let past_start = now - chrono::Duration::minutes(30);
    let past_end = now - chrono::Duration::minutes(15);
    let label = format!("{}-{}", past_start.format("%Y-%m-%d %H:%M"), past_end.format("%H:%M"));
    let it = item("Test Room", &label, 1, &past_start.to_rfc3339(), "CODE1");
    let result = parse_time_slot(&it);
    assert!(result.is_err());
    let error = result.unwrap_err();
    assert!(error.message().contains("Time slot is entirely in the past"));
}

#[test]
fn time_slots_test_test_find_mergeable_groups_empty() {
    let slots: Vec<TimeSlot> = Vec::new();
    let result = find_mergeable_groups(&slots);
    assert!(result.is_empty());
}

#[test]
fn tests_test_find_mergeable_groups_empty() {
    let slots: Vec<TimeSlot> = Vec::new();
    assert!(find_mergeable_groups(&slots).is_empty());
}

#[test]
fn time_slots_test_test_find_mergeable_groups_single() {
    single_slot_groups();
}

#[test]
fn tests_test_find_mergeable_groups_single() {
    single_slot_groups();
}

#[test]
fn time_slots_test_test_find_mergeable_groups_consecutive() {
    consecutive_groups();
}

#[test]
fn tests_test_find_mergeable_groups_consecutive() {
    consecutive_groups();
}

#[test]
fn time_slots_test_test_find_mergeable_groups_non_consecutive() {
    non_consecutive_groups();
}

#[test]
fn tests_test_find_mergeable_groups_non_consecutive() {
    non_consecutive_groups();
}

#[test]
fn time_slots_test_test_find_mergeable_groups_different_rooms() {
    different_room_groups();
}

#[test]
fn tests_test_find_mergeable_groups_different_rooms() {
    different_room_groups();
}

#[test]
fn time_slots_test_test_find_mergeable_groups_complex() {
    complex_groups();
}

#[test]
fn tests_test_find_mergeable_groups_complex() {
    complex_groups();
}

#[test]
fn time_slots_test_test_consecutive_30min_slots_are_mergeable() {
    thirty_minute_groups();
}

#[test]
fn tests_test_consecutive_30min_slots_are_mergeable() {
    thirty_minute_groups();
}

#[test]
fn time_slots_test_test_past_time_adjustment() {
    past_start_adjusted();
}

#[test]
fn tests_test_past_time_adjustment() {
    past_start_adjusted();
}

#[test]
fn time_slots_test_test_past_time_with_past_end_time() {
    past_end_refused();
}

#[test]
fn tests_test_past_time_with_past_end_time() {
    past_end_refused();
}

#[test]
fn slot_round_trip_one_hour() {
    let it = item("Test Room", "2035-04-01 09:00-10:00", 1, "2035-04-01T01:00:00Z", "CODE1");
    let now = at(2030, 1, 1, 0, 0);
    let ts = parse_time_slot_at(&it, now).unwrap();
    assert_eq!(ts.item_name, "Test Room");
    assert_eq!(ts.scheduled_label, "2035-04-01 09:00-10:00");
    assert_eq!(ts.start_time, at(2035, 4, 1, 1, 0));
    assert_eq!(ts.end_time - ts.start_time, 3600);
}

#[test]
fn slot_minute_precision() {
    assert_eq!(duration_minutes("2035-04-01 14:00-14:30"), 30);
    assert_eq!(duration_minutes("2035-04-01 14:30-15:00"), 30);
    let now = at(2030, 1, 1, 0, 0);
    let a = parse_time_slot_at(&item("R", "2035-04-01 14:00-14:30", 1, "2035-04-01T06:00:00.000Z", "C"), now).unwrap();
    assert_eq!(a.end_time - a.start_time, 1800);
    let b = parse_time_slot_at(&item("R", "2035-04-01 14:30-15:00", 2, "2035-04-01T06:30:00.000Z", "C"), now).unwrap();
    assert_eq!(b.end_time - b.start_time, 1800);
}

#[test]
fn slot_overnight() {
    assert_eq!(duration_minutes("2035-04-01 23:00-01:00"), 120);
}

#[test]
fn slot_label_without_range_defaults_to_an_hour() {
    assert_eq!(duration_minutes("2035-04-01"), 60);
    assert_eq!(duration_minutes("2035-04-01 0900"), 60);
    assert_eq!(duration_minutes("2035-04-01 09:00-10:15"), 75);
    assert_eq!(duration_minutes("2035-04-01 xx:00-10:00"), 600);
}

#[test]
fn slot_past_start_moves_to_now_plus_two_minutes() {
    let now = at(2035, 4, 1, 10, 0);
    let it = item("R", "2035-04-01 09:00-11:00", 1, "2035-04-01T09:00:00Z", "C");
    let ts = parse_time_slot_at(&it, now).unwrap();
    assert_eq!(ts.start_time, now + 120);
    assert_eq!(ts.end_time, at(2035, 4, 1, 11, 0));
}

#[test]
fn slot_entirely_past_is_refused() {
    let now = at(2035, 4, 1, 12, 0);
    let it = item("R", "2035-04-01 09:00-10:00", 1, "2035-04-01T09:00:00Z", "C");
    assert_eq!(parse_time_slot_at(&it, now).err(), Some(SlotError::PastSlot));
}

#[test]
fn slot_bad_scheduled_at_is_refused() {
    let now = at(2030, 1, 1, 0, 0);
    let it = item("R", "2035-04-01 09:00-10:00", 1, "not a time", "C");
    assert_eq!(parse_time_slot_at(&it, now).err(), Some(SlotError::InvalidScheduledAt));
}

#[test]
fn slot_far_end_is_out_of_range() {
    let now = at(2030, 1, 1, 0, 0);
    let it = item("R", "2035-04-01 9999999999:00-00:00", 1, "2035-04-01T09:00:00Z", "C");
    assert_eq!(parse_time_slot_at(&it, now).err(), Some(SlotError::OutOfRange));
}

#[test]
fn groups_gap_gives_two_runs() {
    let s1 = slot("A", "2035-04-01 09:00-10:00", 1, at(2035, 4, 1, 9, 0), at(2035, 4, 1, 10, 0), "C1");
    let s2 = slot("A", "2035-04-01 11:00-12:00", 2, at(2035, 4, 1, 11, 0), at(2035, 4, 1, 12, 0), "C2");
    let result = find_mergeable_groups(&vec![s1, s2]);
    assert_eq!(result.len(), 2);
    assert_eq!(result[0][0].number, 1);
    assert_eq!(result[1][0].number, 2);
}

#[test]
fn groups_sorted_by_start_and_merged_out_of_order() {
    let s1 = slot("A", "2035-04-01 10:00-11:00", 1, at(2035, 4, 1, 10, 0), at(2035, 4, 1, 11, 0), "C1");
    let s2 = slot("B", "2035-04-01 09:00-10:00", 2, at(2035, 4, 1, 9, 0), at(2035, 4, 1, 10, 0), "C2");
    let s3 = slot("A", "2035-04-01 09:00-10:00", 3, at(2035, 4, 1, 9, 0), at(2035, 4, 1, 10, 0), "C3");
    let result = find_mergeable_groups(&vec![s1, s2, s3]);
    assert_eq!(result.len(), 2);
    assert_eq!(result[0].len(), 2);
    assert_eq!(result[0][0].number, 3);
    assert_eq!(result[0][1].number, 1);
    assert_eq!(result[0][1].end_time - result[0][0].start_time, 7200);
    assert_eq!(result[1][0].number, 2);
}

#[test]
fn groups_overlap_stays_apart() {
    let s1 = slot("A", "2035-04-01 09:00-10:00", 1, at(2035, 4, 1, 9, 0), at(2035, 4, 1, 10, 0), "C1");
    let s2 = slot("A", "2035-04-01 09:30-10:30", 2, at(2035, 4, 1, 9, 30), at(2035, 4, 1, 10, 30), "C2");
    let result = find_mergeable_groups(&vec![s1, s2]);
    assert_eq!(result.len(), 2);
}

#[test]
fn groups_hold_every_input_once() {
    let mut slots = Vec::new();
    for i in 0..7i64 {
        let room = if i % 2 == 0 { "A" } else { "B" };
        let start = at(2035, 4, 1, 8, 0) + (i / 2) * 3600 + if i == 5 { 600 } else { 0 };
        slots.push(slot(room, "2035-04-01 08:00-09:00", i as i32, start, start + 3600, "C"));
    }
    let result = find_mergeable_groups(&slots);
    let mut seen: Vec<i32> = result.iter().flat_map(|g| g.iter().map(|s| s.number)).collect();
    seen.sort();
    assert_eq!(seen, vec![0, 1, 2, 3, 4, 5, 6]);
}

fn before_2025() -> i64 {
    at(2025, 1, 1, 0, 0)
}

fn parse_standard_and_two_hour() {
    let it = item("Test Room", "2025-04-01 09:00-10:00", 1, "2025-04-01T01:00:00.000Z", "CODE1");
    let result = parse_time_slot_at(&it, before_2025());
    assert!(result.is_ok());
    let ts = result.unwrap();
    assert_eq!(ts.item_name, "Test Room");
    assert_eq!(ts.scheduled_label, "2025-04-01 09:00-10:00");
    assert_eq!((ts.end_time - ts.start_time) / 3600, 1);
    let it = item("Test Room", "2025-04-01 09:00-11:00", 1, "2025-04-01T01:00:00.000Z", "CODE1");
    let result = parse_time_slot_at(&it, before_2025());
    assert!(result.is_ok());
    let ts = result.unwrap();
    assert_eq!((ts.end_time - ts.start_time) / 3600, 2);
}

fn parse_thirty_minutes() {
    let it = item("Test Room", "2025-04-01 14:00-14:30", 1, "2025-04-01T06:00:00.000Z", "CODE1");
    let ts = parse_time_slot_at(&it, before_2025()).unwrap();
    assert_eq!((ts.end_time - ts.start_time) / 60, 30);
    let it = item("Test Room", "2025-04-01 14:30-15:00", 2, "2025-04-01T06:30:00.000Z", "CODE2");
    let ts = parse_time_slot_at(&it, before_2025()).unwrap();
    assert_eq!((ts.end_time - ts.start_time) / 60, 30);
}

#[test]
fn time_slots_test_test_parse_time_slot() {
    parse_standard_and_two_hour();
}

#[test]
fn tests_test_parse_time_slot() {
    parse_standard_and_two_hour();
}

#[test]
fn time_slots_test_test_parse_time_slot_with_minutes() {
    parse_thirty_minutes();
}

#[test]
fn tests_test_parse_time_slot_with_minutes() {
    parse_thirty_minutes();
}

#[test]
fn test_consecutive_time_slots_with_past_times() {
    let now = Utc::now().timestamp();
    let s1 = slot("Room A", "2025-04-01 14:00-15:00", 1, now + 3600, now + 7200, "CODE1");
    let s2 = slot("Room A", "2025-04-01 15:00-16:00", 2, now + 7200, now + 10800, "CODE2");
    let result = find_mergeable_groups(&vec![s1, s2]);
    assert_eq!(result.len(), 1, "Should have 1 group of merged slots");
    assert_eq!(result[0].len(), 2, "Group should contain 2 slots");
}

#[test]
fn test_properly_handles_past_times() {
    let now = Utc::now();
    let past_time = now - chrono::Duration::minutes(30);
    let meeting_time = now + chrono::Duration::minutes(10);
    let date_str = past_time.format("%Y-%m-%d").to_string();
    let past_slot = item(
        "Test Room",
        &format!("{} {}-{}", date_str, past_time.format("%H:%M"), meeting_time.format("%H:%M")),
        1,
        &past_time.to_rfc3339(),
        "CODE1",
    );
    let next_slot = item(
        "Test Room",
        &format!(
            "{} {}-{}",
            date_str,
            meeting_time.format("%H:%M"),
            (meeting_time + chrono::Duration::minutes(20)).format("%H:%M")
        ),
        2,
        &meeting_time.to_rfc3339(),
        "CODE2",
    );
    let slot1 = parse_time_slot(&past_slot).unwrap();
    let slot2 = parse_time_slot(&next_slot).unwrap();
    let groups = find_mergeable_groups(&vec![slot1, slot2]);
    assert!(
        (groups.len() == 1 && groups[0].len() == 2) || (groups.len() == 2 && groups[0].len() == 1),
        "Time slots should either merge (preferred) or remain separate"
    );
}

#[test]
fn time_slots_test_test_consecutive_past_time_slots() {
    let now = Utc::now();
    let span_slot = item(
        "Test Room",
        &format!(
            "{}-{}",
            (now - chrono::Duration::minutes(15)).format("%Y-%m-%d %H:%M"),
            (now + chrono::Duration::minutes(15)).format("%H:%M")
        ),
        1,
        &(now - chrono::Duration::minutes(15)).to_rfc3339(),
        "CODE1",
    );
    let future_slot = item(
        "Test Room",
        &format!("{}-{}", now.format("%Y-%m-%d %H:%M"), (now + chrono::Duration::minutes(30)).format("%H:%M")),
        2,
        &now.to_rfc3339(),
        "CODE2",
    );
    let span_result = parse_time_slot(&span_slot).unwrap();
    let future_result = parse_time_slot(&future_slot).unwrap();
    let result = find_mergeable_groups(&vec![span_result, future_result]);
    // The clamped start of the first slot lies inside the second one, so the
    // two overlap and stay in separate runs.
    assert_eq!(result.len(), 2, "Overlapping slots stay apart");
    assert_eq!(result[0].len(), 1);
    assert_eq!(result[1].len(), 1);
}

#[test]
fn slot_clock_out_of_range_is_refused() {
    let it = item("R", "2035-04-01 09:00-10:00", 1, "2035-04-01T09:00:00Z", "C");
    assert_eq!(parse_time_slot_at(&it, i64::MAX).err(), Some(SlotError::ClockOutOfRange));
}

use chrono::{TimeZone, Utc};
use tencent_meeting_service::client::TencentMeetingClient;
use tencent_meeting_service::database::{DatabaseService, ReservationStatus};
use tencent_meeting_service::models::{FormEntry, FormField1Item, FormSubmission};
use tencent_meeting_service::pipeline::{
    begin_cancellation, book_rooms_request, cancel_meeting_request, cancellation_response, classify_submission,
    create_meeting_request, meeting_result, plan_reservation, process_submission_simulated, release_rooms_request,
    reservation_response, CancellationStart, PipelineConfig, SubmissionError, SubmissionKind,
};
use tencent_meeting_service::pipeline::{cancellation_next, cancellation_summary, reservation_step, CancelAction, CreateAnswer};
use tencent_meeting_service::slots::SlotError;

const AT: &str = "2030-01-01T00:00:00+00:00";

fn now() -> i64 {
    Utc.with_ymd_and_hms(2030, 1, 1, 0, 0, 0).unwrap().timestamp()
}

fn client() -> TencentMeetingClient {
    TencentMeetingClient::new(
        "app".to_string(),
        "sid".to_string(),
        "skey".to_string(),
        None,
        None,
        Some("Alice:u-alice, Bob : u-bob".to_string()),
    )
}

fn config() -> PipelineConfig {
    PipelineConfig {
        user_field_name: "operator".to_string(),
        dept_field_name: "dept".to_string(),
        xa_room_id: "xa-room".to_string(),
        cd_room_id: "cd-room".to_string(),
        skip_meeting_creation: true,
        skip_room_booking: false,
    }
}

fn slot(room: &str, hours: (u32, u32), number: i32) -> FormField1Item {
    let start = Utc.with_ymd_and_hms(2035, 4, 1, hours.0 - 8, 0, 0).unwrap();
    FormField1Item {
        item_name: room.to_string(),
        scheduled_label: format!("2035-04-01 {:02}:00-{:02}:00", hours.0, hours.1),
        number,
        scheduled_at: start.to_rfc3339(),
        api_code: format!("CODE{}", number),
    }
}

fn submission(status: &str, slots: Vec<FormField1Item>) -> FormSubmission {
    FormSubmission {
        form: "form-1".to_string(),
        form_name: "成都会议室预约".to_string(),
        entry: FormEntry {
            token: "tok-1".to_string(),
            field_1: slots,
            field_8: "Weekly sync".to_string(),
            extra_fields: vec![("operator".to_string(), "bob".to_string())],
            reservation_status_fsf_field: status.to_string(),
        },
    }
}

#[test]
fn simulated_single_slot_reservation() {
    let mut db = DatabaseService::new();
    let form = submission("已预约", vec![slot("Room A", (9, 10), 1)]);
    let resp = process_submission_simulated(&form, &config(), &client(), &mut db, now(), AT).unwrap();
    assert!(resp.success);
    assert_eq!(resp.meetings_count, 1);
    assert!(!resp.meetings[0].merged);
    assert_eq!(resp.message, "Created 1 meetings from 1 time slots");
    assert_eq!(db.rows().len(), 1);
    let row = &db.rows()[0];
    assert_eq!(row.status, ReservationStatus::Reserved);
    assert_eq!(row.scheduled_label, "2035-04-01 09:00-10:00");
    assert_eq!(row.room_id, "cd-room");
    assert_eq!(row.operator_name, "bob");
    assert_eq!(row.operator_id, "u-bob");
    assert!(row.meeting_id.starts_with("simulation-"));
}

#[test]
fn simulated_two_contiguous_slots_same_room() {
    let mut db = DatabaseService::new();
    let form = submission("RESERVED", vec![slot("Room A", (9, 10), 1), slot("Room A", (10, 11), 2)]);
    let resp = process_submission_simulated(&form, &config(), &client(), &mut db, now(), AT).unwrap();
    assert!(resp.success);
    assert_eq!(resp.meetings_count, 1);
    assert!(resp.meetings[0].merged);
    assert_eq!(resp.meetings[0].time_slots, vec!["2035-04-01 09:00-10:00".to_string(), "2035-04-01 10:00-11:00".to_string()]);
    assert_eq!(resp.message, "Created 1 meetings (1 merged) from 2 time slots");
    assert_eq!(db.rows().len(), 1);
    assert_eq!(db.rows()[0].scheduled_label, "2035-04-01 09:00-11:00");
}

fn mixed_submission() -> FormSubmission {
    submission("已预约", vec![slot("Room A", (9, 10), 1), slot("Room A", (10, 11), 2), slot("Room B", (9, 10), 3)])
}

#[test]
fn simulated_mixed_mergeable() {
    let mut db = DatabaseService::new();
    let resp = process_submission_simulated(&mixed_submission(), &config(), &client(), &mut db, now(), AT).unwrap();
    assert_eq!(resp.meetings_count, 2);
    assert!(resp.meetings[0].merged);
    assert_eq!(resp.meetings[0].room_name, "Room A");
    assert!(!resp.meetings[1].merged);
    assert_eq!(resp.meetings[1].room_name, "Room B");
    assert_eq!(db.rows().len(), 2);
}

#[test]
fn simulated_cancellation_fan_out() {
    let mut db = DatabaseService::new();
    process_submission_simulated(&mixed_submission(), &config(), &client(), &mut db, now(), AT).unwrap();
    let cancel = submission("已取消", vec![]);
    let resp = process_submission_simulated(&cancel, &config(), &client(), &mut db, now(), AT).unwrap();
    assert!(resp.success);
    assert_eq!(resp.message, "Simulation: 2 meetings cancelled successfully");
    assert!(db.rows().iter().all(|r| r.status == ReservationStatus::Cancelled && !r.cancelled_at.is_empty()));
    let again = process_submission_simulated(&cancel, &config(), &client(), &mut db, now(), AT).unwrap();
    assert!(!again.success);
    assert_eq!(again.message, "No active meetings found with token: tok-1");
}

#[test]
fn simulated_idempotent_reservation() {
    let mut db = DatabaseService::new();
    let form = submission("已预约", vec![slot("Room A", (9, 10), 1)]);
    let first = process_submission_simulated(&form, &config(), &client(), &mut db, now(), AT).unwrap();
    let second = process_submission_simulated(&form, &config(), &client(), &mut db, now(), AT).unwrap();
    assert!(first.success);
    assert!(second.success);
    assert_eq!(db.rows().len(), 1);
}

#[test]
fn simulated_past_slot_rejection() {
    let mut db = DatabaseService::new();
    let form = submission("已预约", vec![slot("Room A", (9, 10), 1)]);
    let later = Utc.with_ymd_and_hms(2036, 1, 1, 0, 0, 0).unwrap().timestamp();
    let r = process_submission_simulated(&form, &config(), &client(), &mut db, later, AT);
    assert_eq!(r.err(), Some(SubmissionError::BadSlot(SlotError::PastSlot)));
    assert!(db.rows().is_empty());
}

#[test]
fn submission_without_slots_or_status_is_refused() {
    let mut db = DatabaseService::new();
    let empty = submission("已预约", vec![]);
    assert_eq!(process_submission_simulated(&empty, &config(), &client(), &mut db, now(), AT).err(), Some(SubmissionError::NoSlots));
    let odd = submission("pending", vec![slot("Room A", (9, 10), 1)]);
    assert_eq!(classify_submission(&odd), Err(SubmissionError::UnknownStatus));
    assert_eq!(process_submission_simulated(&odd, &config(), &client(), &mut db, now(), AT).err(), Some(SubmissionError::UnknownStatus));
    assert_eq!(classify_submission(&submission("CANCELLED", vec![])), Ok(SubmissionKind::Cancellation));
    assert!(db.rows().is_empty());
}

#[test]
fn upstream_requests_of_a_plan() {
    let form = mixed_submission();
    let c = client();
    let plan = plan_reservation(&form, &config(), &c, now()).unwrap();
    assert_eq!(plan.meetings.len(), 2);
    assert_eq!(plan.slot_count, 3);
    assert_eq!(plan.room_id, "cd-room");
    let m = &plan.meetings[0];
    let req = create_meeting_request(&plan, m, &form);
    assert_eq!(req.userid, "u-bob");
    assert_eq!(req.instanceid, 32);
    assert_eq!(req.schedule_kind, 0);
    assert_eq!(req.subject, "Weekly sync");
    assert_eq!(req.start_time, Utc.with_ymd_and_hms(2035, 4, 1, 1, 0, 0).unwrap().timestamp().to_string());
    assert_eq!(req.end_time, Utc.with_ymd_and_hms(2035, 4, 1, 3, 0, 0).unwrap().timestamp().to_string());
    assert_eq!(req.location.as_deref(), Some("成都-天府广场"));
    assert_eq!(req.time_zone.as_deref(), Some("Asia/Shanghai"));
    assert!(req.password.is_none());
    let book = book_rooms_request(&plan);
    assert_eq!(book.operator_id, "u-bob");
    assert_eq!(book.meeting_room_id_list, vec!["cd-room".to_string()]);
    assert_eq!(book.subject_visible, Some(true));
    let release = release_rooms_request(&c, "cd-room");
    assert_eq!(release.operator_id, "u-alice");
    assert_eq!(release.operator_id_type, 1);
    let cancel = cancel_meeting_request(&c);
    assert_eq!(cancel.userid, "u-alice");
    assert_eq!(cancel.reason_code, 1);
    assert_eq!(cancel.reason_detail.as_deref(), Some("Form submission cancelled"));
}

#[test]
fn reservation_response_with_a_failed_run() {
    let form = mixed_submission();
    let plan = plan_reservation(&form, &config(), &client(), now()).unwrap();
    let ok = meeting_result(&plan.meetings[0], Some("m-1".to_string()), true);
    let failed = meeting_result(&plan.meetings[1], None, false);
    let resp = reservation_response(vec![ok, failed], plan.slot_count);
    assert!(!resp.success);
    assert_eq!(resp.meetings_count, 2);
    assert_eq!(resp.message, "Created 1 meetings (1 merged) from 3 time slots");
    let nothing = reservation_response(vec![meeting_result(&plan.meetings[1], None, true)], 1);
    assert!(!nothing.success);
}

#[test]
fn cancellation_goes_upstream_for_real_meetings() {
    let mut db = DatabaseService::new();
    let form = mixed_submission();
    let plan = plan_reservation(&form, &config(), &client(), now()).unwrap();
    tencent_meeting_service::pipeline::record_meeting(&mut db, &form, &plan, &plan.meetings[0], "m-1", AT);
    match begin_cancellation(&mut db, "tok-1", AT, false) {
        CancellationStart::Upstream(pairs) => assert_eq!(pairs, vec![("m-1".to_string(), "cd-room".to_string())]),
        _ => panic!("expected upstream cancellation"),
    }
    let done = cancellation_response(1, 0);
    assert!(done.success);
    assert_eq!(done.message, "Successfully cancelled 1 meetings");
    let partial = cancellation_response(1, 2);
    assert!(!partial.success);
    assert_eq!(partial.message, "Cancelled 1 meetings, but 2 failed");
}

#[test]
fn reservation_step_covers_each_answer() {
    let form = mixed_submission();
    let plan = plan_reservation(&form, &config(), &client(), now()).unwrap();
    let mut db = DatabaseService::new();
    let (r, book) = reservation_step(&mut db, &form, &plan, &plan.meetings[0], CreateAnswer::Created("m-1".to_string()), false, AT);
    assert!(r.success && book);
    assert_eq!(r.meeting_id.as_deref(), Some("m-1"));
    assert_eq!(db.rows().len(), 1);
    assert_eq!(db.rows()[0].scheduled_label, "2035-04-01 09:00-11:00");
    let (r, book) = reservation_step(&mut db, &form, &plan, &plan.meetings[1], CreateAnswer::Created("m-2".to_string()), true, AT);
    assert!(r.success && !book);
    assert_eq!(db.rows().len(), 2);
    let (r, book) = reservation_step(&mut db, &form, &plan, &plan.meetings[1], CreateAnswer::NoMeetingInfo, false, AT);
    assert!(r.success && !book && r.meeting_id.is_none());
    let (r, book) = reservation_step(&mut db, &form, &plan, &plan.meetings[1], CreateAnswer::Failed, false, AT);
    assert!(!r.success && !book);
    assert_eq!(db.rows().len(), 2);
}

#[test]
fn cancellation_steps_release_first() {
    assert_eq!(cancellation_next(None), CancelAction::Release);
    assert_eq!(cancellation_next(Some((CancelAction::Release, true))), CancelAction::Cancel);
    assert_eq!(cancellation_next(Some((CancelAction::Release, false))), CancelAction::Done(false));
    assert_eq!(cancellation_next(Some((CancelAction::Cancel, true))), CancelAction::Done(true));
    assert_eq!(cancellation_next(Some((CancelAction::Cancel, false))), CancelAction::Done(false));
    let all = cancellation_summary(&vec![true, true]);
    assert!(all.success);
    assert_eq!(all.message, "Successfully cancelled 2 meetings");
    let some = cancellation_summary(&vec![true, false, false]);
    assert!(!some.success);
    assert_eq!(some.message, "Cancelled 1 meetings, but 2 failed");
}

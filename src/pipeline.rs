//! The submission pipeline's decisions: which path a submission takes, the
//! meetings it plans, the requests for each upstream step, what the ledger
//! records, and the response. Performing upstream calls is the caller's part;
//! in simulation mode the whole pipeline runs here.
use vstd::prelude::*;
use crate::client::{
    resolve_operator, BookRoomsRequest, CancelMeetingRequest, CreateMeetingRequest, ReleaseRoomsRequest,
    TencentMeetingClient,
};
use crate::database::{
    cancel_relation, cancel_targets, fresh_record, is_earliest, is_latest, status_of_text, store_result, DatabaseService, MeetingRecord,
    ReservationStatus,
};
use crate::instant::rfc3339_text;
use crate::merge::{flatten_runs, run_linked};
use crate::merge::{find_mergeable_groups, is_run_plan, runs_view};
use crate::models::{FormSubmission, MeetingResult, TimeSlot, WebhookResponse};
use crate::runs::{
    get_location_for_form, get_operator_info, get_room_id_for_form, location_for, merged_label,
    merged_label_spec, operator_name_of, room_id_for,
};
use crate::slots::{parse_outcome, parse_time_slot_at, slot_in_range, SlotError};
use crate::text::{dec_digits, i64_text, int_text, u64_text};

verus! {

/// Settings of the pipeline.
#[derive(Debug, Clone)]
pub struct PipelineConfig {
    /// Name of the form field that carries the operator's name.
    pub user_field_name: String,
    /// Name of the form field that carries the department; kept for later use.
    pub dept_field_name: String,
    /// Physical room of the Xi'an form.
    pub xa_room_id: String,
    /// Physical room of the Chengdu form.
    pub cd_room_id: String,
    /// Skip upstream calls and record simulated meetings.
    pub skip_meeting_creation: bool,
    /// Create meetings but book no rooms.
    pub skip_room_booking: bool,
}

/// The path a submission takes.
#[derive(PartialEq, Eq, Structural, Debug, Clone, Copy)]
pub enum SubmissionKind {
    Reservation,
    Cancellation,
}

/// Why a submission is refused.
#[derive(PartialEq, Eq, Structural, Debug, Clone, Copy)]
pub enum SubmissionError {
    /// The status is neither reserved nor cancelled.
    UnknownStatus,
    /// A reservation without slots.
    NoSlots,
    /// A slot that cannot be parsed or lies entirely in the past.
    BadSlot(SlotError),
}

/// The path of a submission with this status text.
pub open spec fn kind_of_status(s: Seq<char>) -> Result<SubmissionKind, SubmissionError> {
    match status_of_text(s) {
        Some(ReservationStatus::Reserved) => Ok(SubmissionKind::Reservation),
        Some(ReservationStatus::Cancelled) => Ok(SubmissionKind::Cancellation),
        None => Err(SubmissionError::UnknownStatus),
    }
}

/// The path of a submission, from its status.
pub fn classify_submission(form: &FormSubmission) -> (r: Result<SubmissionKind, SubmissionError>)
    ensures
        r == kind_of_status(form.entry.reservation_status_fsf_field@),
{
    match ReservationStatus::parse(form.entry.reservation_status_fsf_field.as_str()) {
        Some(ReservationStatus::Reserved) => Ok(SubmissionKind::Reservation),
        Some(ReservationStatus::Cancelled) => Ok(SubmissionKind::Cancellation),
        None => Err(SubmissionError::UnknownStatus),
    }
}

/// Parses every slot of a reservation at time `now`; the first bad slot
/// refuses the whole submission, and a submission without slots is refused.
pub fn parse_submission_slots(form: &FormSubmission, now: i64) -> (r: Result<Vec<TimeSlot>, SubmissionError>)
    ensures
        form.entry.field_1@.len() == 0 ==> r == Err::<Vec<TimeSlot>, SubmissionError>(SubmissionError::NoSlots),
        match r {
            Ok(v) => form.entry.field_1@.len() > 0 && v@.len() == form.entry.field_1@.len() && forall|i: int|
                0 <= i < v@.len() ==> parse_outcome(form.entry.field_1@[i], now as int) == Ok::<TimeSlot, SlotError>(
                    #[trigger] v@[i],
                ) && slot_in_range(v@[i]),
            Err(SubmissionError::BadSlot(e)) => exists|i: int|
                0 <= i < form.entry.field_1@.len() && parse_outcome(#[trigger] form.entry.field_1@[i], now as int)
                    == Err::<TimeSlot, SlotError>(e) && forall|k: int|
                    0 <= k < i ==> parse_outcome(#[trigger] form.entry.field_1@[k], now as int) is Ok,
            Err(e) => e == SubmissionError::NoSlots && form.entry.field_1@.len() == 0,
        },
{
    let items = &form.entry.field_1;
    if items.len() == 0 {
        return Err(SubmissionError::NoSlots);
    }
    let mut out: Vec<TimeSlot> = Vec::new();
    let mut i: usize = 0;
    while i < items.len()
        invariant
            items@ == form.entry.field_1@,
            i <= items@.len(),
            items@.len() > 0,
            out@.len() == i,
            forall|k: int|
                0 <= k < i ==> parse_outcome(items@[k], now as int) == Ok::<TimeSlot, SlotError>(#[trigger] out@[k])
                    && slot_in_range(out@[k]),
        decreases items@.len() - i,
    {
        match parse_time_slot_at(&items[i], now) {
            Ok(s) => out.push(s),
            Err(e) => {
                assert forall|k: int| 0 <= k < i implies parse_outcome(#[trigger] items@[k], now as int) is Ok by {
                    assert(parse_outcome(items@[k], now as int) == Ok::<TimeSlot, SlotError>(out@[k]));
                }
                assert(parse_outcome(items@[i as int], now as int) == Err::<TimeSlot, SlotError>(e));
                return Err(SubmissionError::BadSlot(e));
            },
        }
        i = i + 1;
    }
    Ok(out)
}

/// One meeting to create: a run of slots and what the pipeline derives from it.
#[derive(Debug, Clone)]
pub struct PlannedMeeting {
    pub slots: Vec<TimeSlot>,
    pub merged: bool,
    pub room_name: String,
    pub time_slots: Vec<String>,
    pub scheduled_label: String,
    pub start_time: i64,
    pub end_time: i64,
    pub location: String,
}

/// `m` is the meeting planned for `run` of a submission to form `form_name`.
pub open spec fn planned_for(m: PlannedMeeting, run: Seq<TimeSlot>, form_name: Seq<char>) -> bool {
    &&& run.len() > 0
    &&& m.slots@ == run
    &&& m.merged == (run.len() > 1)
    &&& m.room_name@ == run[0].item_name@
    &&& m.time_slots@.len() == run.len()
    &&& (forall|k: int| 0 <= k < run.len() ==> (#[trigger] m.time_slots@[k])@ == run[k].scheduled_label@)
    &&& m.scheduled_label@ == merged_label_spec(run[0].scheduled_label@, run.last().scheduled_label@)
    &&& m.start_time == run[0].start_time
    &&& m.end_time == run.last().end_time
    &&& m.location@ == location_for(form_name, run[0].item_name@)
    &&& forall|k: int| 0 <= k < run.len() ==> slot_in_range(#[trigger] run[k])
    &&& run_linked(run)
}

/// The plan of a reservation: its meetings, operator and physical room.
#[derive(Debug, Clone)]
pub struct ReservationPlan {
    pub meetings: Vec<PlannedMeeting>,
    pub operator_name: String,
    pub operator_id: String,
    pub room_id: String,
    pub slot_count: usize,
}

/// `p` is the plan of `form` for the parsed slots `slots`.
pub open spec fn plan_for(
    p: ReservationPlan,
    form: FormSubmission,
    slots: Seq<TimeSlot>,
    config: PipelineConfig,
    client: TencentMeetingClient,
) -> bool {
    &&& is_run_plan(slots, p.meetings@.map_values(|m: PlannedMeeting| m.slots@))
    &&& forall|g: int|
        0 <= g < p.meetings@.len() ==> planned_for(#[trigger] p.meetings@[g], p.meetings@[g].slots@, form.form_name@)
    &&& p.operator_name@ == operator_name_of(form, config.user_field_name@)
    &&& p.operator_id@ == resolve_operator(client.operators_view(), p.operator_name@, client.default_id())
    &&& p.room_id@ == room_id_for(form.form_name@, config.xa_room_id@, config.cd_room_id@)
    &&& p.slot_count == slots.len()
}

/// `p` is the plan of `form` at time `now`, where `slots` are its parsed slots.
pub open spec fn plan_of_slots(
    p: ReservationPlan,
    form: FormSubmission,
    slots: Seq<TimeSlot>,
    now: int,
    config: PipelineConfig,
    client: TencentMeetingClient,
) -> bool {
    &&& slots.len() == form.entry.field_1@.len()
    &&& forall|i: int|
        0 <= i < slots.len() ==> parse_outcome(form.entry.field_1@[i], now) == Ok::<TimeSlot, SlotError>(
            #[trigger] slots[i],
        )
    &&& plan_for(p, form, slots, config, client)
}

fn labels_of(run: &Vec<TimeSlot>) -> (r: Vec<String>)
    ensures
        r@.len() == run@.len(),
        forall|k: int| 0 <= k < run@.len() ==> (#[trigger] r@[k])@ == run@[k].scheduled_label@,
{
    let mut out: Vec<String> = Vec::new();
    let mut i: usize = 0;
    while i < run.len()
        invariant
            i <= run@.len(),
            out@.len() == i,
            forall|k: int| 0 <= k < i ==> (#[trigger] out@[k])@ == run@[k].scheduled_label@,
        decreases run@.len() - i,
    {
        out.push(run[i].scheduled_label.clone());
        i = i + 1;
    }
    out
}

/// The meeting planned for a non-empty run of in-range slots.
pub fn plan_meeting(run: Vec<TimeSlot>, form_name: &str) -> (r: PlannedMeeting)
    requires
        run@.len() > 0,
        forall|k: int| 0 <= k < run@.len() ==> slot_in_range(#[trigger] run@[k]),
        run_linked(run@),
    ensures
        planned_for(r, run@, form_name@),
{
    let n = run.len();
    let time_slots = labels_of(&run);
    let scheduled_label = merged_label(run[0].scheduled_label.as_str(), run[n - 1].scheduled_label.as_str());
    let room_name = run[0].item_name.clone();
    let location = get_location_for_form(form_name, room_name.as_str());
    let start_time = run[0].start_time;
    let end_time = run[n - 1].end_time;
    PlannedMeeting {
        slots: run,
        merged: n > 1,
        room_name,
        time_slots,
        scheduled_label,
        start_time,
        end_time,
        location,
    }
}

/// Plans a reservation at time `now`: parse every slot, partition them into
/// runs, resolve the operator and select the physical room.
pub fn plan_reservation(
    form: &FormSubmission,
    config: &PipelineConfig,
    client: &TencentMeetingClient,
    now: i64,
) -> (r: Result<ReservationPlan, SubmissionError>)
    ensures
        form.entry.field_1@.len() == 0 ==> r == Err::<ReservationPlan, SubmissionError>(SubmissionError::NoSlots),
        (form.entry.field_1@.len() > 0 && forall|i: int|
            0 <= i < form.entry.field_1@.len() ==> parse_outcome(#[trigger] form.entry.field_1@[i], now as int) is Ok)
            <==> r is Ok,
        r is Err ==> r->Err_0 == SubmissionError::NoSlots || r->Err_0 is BadSlot,
        match r {
            Ok(p) => exists|sl: Seq<TimeSlot>| #[trigger] plan_of_slots(p, *form, sl, now as int, *config, *client),
            Err(SubmissionError::BadSlot(e)) => exists|i: int|
                0 <= i < form.entry.field_1@.len() && parse_outcome(#[trigger] form.entry.field_1@[i], now as int)
                    == Err::<TimeSlot, SlotError>(e),
            Err(_) => true,
        },
{
    let slots = match parse_submission_slots(form, now) {
        Ok(v) => v,
        Err(e) => {
            proof {
                if form.entry.field_1@.len() > 0 {
                    assert(e is BadSlot);
                    let i = choose|i: int|
                        0 <= i < form.entry.field_1@.len() && parse_outcome(#[trigger] form.entry.field_1@[i], now as int)
                            == Err::<TimeSlot, SlotError>(e->BadSlot_0);
                    assert(!(parse_outcome(form.entry.field_1@[i], now as int) is Ok));
                }
            }
            return Err(e);
        },
    };
    let groups = find_mergeable_groups(&slots);
    let ghost gv = runs_view(groups@);
    let mut meetings: Vec<PlannedMeeting> = Vec::new();
    let mut groups = groups;
    let total: usize = groups.len();
    proof {
        assert(forall|g: int| 0 <= g < gv.len() ==> (#[trigger] gv[g]) == groups@[g]@);
    }
    let mut idx: usize = 0;
    while groups.len() > 0
        invariant
            groups@.len() + meetings@.len() == total,
            total <= usize::MAX,
            total == gv.len(),
            meetings@.len() == idx,
            forall|g: int| 0 <= g < groups@.len() ==> (#[trigger] groups@[g])@ == gv[idx + g],
            forall|g: int|
                0 <= g < meetings@.len() ==> planned_for(#[trigger] meetings@[g], gv[g], form.form_name@),
            forall|g: int| 0 <= g < gv.len() ==> (#[trigger] gv[g]).len() > 0,
            forall|g: int| 0 <= g < gv.len() ==> run_linked(#[trigger] gv[g]),
            forall|g: int, j: int| 0 <= g < gv.len() && 0 <= j < gv[g].len() ==> slot_in_range(#[trigger] gv[g][j]),
        decreases groups@.len(),
    {
        let run = groups.remove(0);
        proof {
            assert(run@ == gv[idx as int]);
            assert forall|k: int| 0 <= k < run@.len() implies slot_in_range(#[trigger] run@[k]) by {
                assert(run@[k] == gv[idx as int][k]);
            }
        }
        let m = plan_meeting(run, form.form_name.as_str());
        meetings.push(m);
        idx = idx + 1;
    }
    let (operator_name, operator_id) = get_operator_info(client, form, config.user_field_name.as_str());
    let room_id = get_room_id_for_form(form.form_name.as_str(), config.xa_room_id.as_str(), config.cd_room_id.as_str());
    let plan = ReservationPlan { meetings, operator_name, operator_id, room_id, slot_count: slots.len() };
    proof {
        assert(plan.meetings@.map_values(|m: PlannedMeeting| m.slots@) =~= gv);
        assert forall|g: int| 0 <= g < plan.meetings@.len() implies planned_for(#[trigger] plan.meetings@[g], plan.meetings@[g].slots@, form.form_name@) by {
            assert(plan.meetings@.map_values(|m: PlannedMeeting| m.slots@)[g] == plan.meetings@[g].slots@);
        }
        assert(plan_for(plan, *form, slots@, *config, *client));
        assert(slots@.len() == form.entry.field_1@.len());
        assert(forall|i: int|
            0 <= i < slots@.len() ==> parse_outcome(form.entry.field_1@[i], now as int) == Ok::<TimeSlot, SlotError>(
                #[trigger] slots@[i],
            ));
        assert forall|i: int| 0 <= i < form.entry.field_1@.len() implies parse_outcome(#[trigger] form.entry.field_1@[i], now as int) is Ok by {
            assert(parse_outcome(form.entry.field_1@[i], now as int) == Ok::<TimeSlot, SlotError>(slots@[i]));
        }
        assert(plan_of_slots(plan, *form, slots@, now as int, *config, *client));
    }
    let r: Result<ReservationPlan, SubmissionError> = Ok(plan);
    assert(r->Ok_0 == plan);
    r
}


/// The body that creates the meeting of a planned run.
pub fn create_meeting_request(plan: &ReservationPlan, m: &PlannedMeeting, form: &FormSubmission) -> (r: CreateMeetingRequest)
    ensures
        r.userid@ == plan.operator_id@,
        r.instanceid == 32,
        r.subject@ == form.entry.field_8@,
        r.schedule_kind == 0,
        r.start_time@ == int_text(m.start_time as int),
        r.end_time@ == int_text(m.end_time as int),
        r.location is Some && r.location->Some_0@ == m.location@,
        r.time_zone is Some && r.time_zone->Some_0@ == "Asia/Shanghai"@,
        r.hosts is None && r.guests is None && r.invitees is None && r.password is None && r.settings is None,
        r.meeting_type is None && r.recurring_rule is None && r.enable_live is None && r.live_config is None,
        r.enable_doc_upload_permission is None && r.media_set_type is None && r.enable_interpreter is None,
        r.enable_enroll is None && r.enable_host_key is None && r.host_key is None && r.sync_to_wework is None,
        r.allow_enterprise_intranet_only is None,
{
    CreateMeetingRequest {
        userid: plan.operator_id.clone(),
        instanceid: 32,
        subject: form.entry.field_8.clone(),
        schedule_kind: 0,
        hosts: None,
        guests: None,
        invitees: None,
        start_time: i64_text(m.start_time),
        end_time: i64_text(m.end_time),
        password: None,
        settings: None,
        meeting_type: None,
        recurring_rule: None,
        enable_live: None,
        live_config: None,
        enable_doc_upload_permission: None,
        media_set_type: None,
        enable_interpreter: None,
        enable_enroll: None,
        enable_host_key: None,
        host_key: None,
        sync_to_wework: None,
        time_zone: Some(String::from_str("Asia/Shanghai")),
        location: Some(m.location.clone()),
        allow_enterprise_intranet_only: None,
    }
}

/// The body that books the submission's physical room for a meeting.
pub fn book_rooms_request(plan: &ReservationPlan) -> (r: BookRoomsRequest)
    ensures
        r.operator_id@ == plan.operator_id@,
        r.operator_id_type == 1,
        r.meeting_room_id_list@.len() == 1 && r.meeting_room_id_list@[0]@ == plan.room_id@,
        r.subject_visible == Some(true),
{
    let mut rooms: Vec<String> = Vec::new();
    rooms.push(plan.room_id.clone());
    BookRoomsRequest {
        operator_id: plan.operator_id.clone(),
        operator_id_type: 1,
        meeting_room_id_list: rooms,
        subject_visible: Some(true),
    }
}

/// The body that releases a room, on behalf of the default operator.
pub fn release_rooms_request(client: &TencentMeetingClient, room_id: &str) -> (r: ReleaseRoomsRequest)
    ensures
        r.operator_id@ == client.default_id(),
        r.operator_id_type == 1,
        r.meeting_room_id_list@.len() == 1 && r.meeting_room_id_list@[0]@ == room_id@,
{
    let mut rooms: Vec<String> = Vec::new();
    rooms.push(String::from_str(room_id));
    ReleaseRoomsRequest {
        operator_id: String::from_str(client.get_operator_id()),
        operator_id_type: 1,
        meeting_room_id_list: rooms,
    }
}

/// The body that cancels a meeting, on behalf of the default operator.
pub fn cancel_meeting_request(client: &TencentMeetingClient) -> (r: CancelMeetingRequest)
    ensures
        r.userid@ == client.default_id(),
        r.instanceid == 32,
        r.reason_code == 1,
        r.meeting_type is None,
        r.sub_meeting_id is None,
        r.reason_detail is Some && r.reason_detail->Some_0@ == "Form submission cancelled"@,
{
    CancelMeetingRequest {
        userid: String::from_str(client.get_operator_id()),
        instanceid: 32,
        reason_code: 1,
        meeting_type: None,
        sub_meeting_id: None,
        reason_detail: Some(String::from_str("Form submission cancelled")),
    }
}

/// The reported outcome of a planned meeting.
pub open spec fn result_for(r: MeetingResult, m: PlannedMeeting, meeting_id: Option<Seq<char>>, success: bool) -> bool {
    &&& r.meeting_id.is_some() == meeting_id.is_some()
    &&& (r.meeting_id is Some ==> r.meeting_id->Some_0@ == meeting_id->Some_0)
    &&& r.merged == m.merged
    &&& r.room_name@ == m.room_name@
    &&& r.time_slots@.len() == m.time_slots@.len()
    &&& forall|k: int| 0 <= k < r.time_slots@.len() ==> (#[trigger] r.time_slots@[k])@ == m.time_slots@[k]@
    &&& r.success == success
}

/// The reported outcome of a planned meeting, with the upstream meeting id
/// if one is known.
pub fn meeting_result(m: &PlannedMeeting, meeting_id: Option<String>, success: bool) -> (r: MeetingResult)
    ensures
        result_for(r, *m, match meeting_id {
            Some(s) => Some(s@),
            None => None,
        }, success),
{
    let mut labels: Vec<String> = Vec::new();
    let mut i: usize = 0;
    while i < m.time_slots.len()
        invariant
            i <= m.time_slots@.len(),
            labels@.len() == i,
            forall|k: int| 0 <= k < i ==> (#[trigger] labels@[k])@ == m.time_slots@[k]@,
        decreases m.time_slots@.len() - i,
    {
        labels.push(m.time_slots[i].clone());
        i = i + 1;
    }
    MeetingResult { meeting_id, merged: m.merged, room_name: m.room_name.clone(), time_slots: labels, success }
}

/// Number of outcomes that carry a meeting id.
pub open spec fn count_with_id(rs: Seq<MeetingResult>) -> nat
    decreases rs.len(),
{
    if rs.len() == 0 {
        0
    } else {
        count_with_id(rs.drop_last()) + if rs.last().meeting_id is Some {
            1nat
        } else {
            0nat
        }
    }
}

/// Number of outcomes of merged runs.
pub open spec fn count_merged(rs: Seq<MeetingResult>) -> nat
    decreases rs.len(),
{
    if rs.len() == 0 {
        0
    } else {
        count_merged(rs.drop_last()) + if rs.last().merged {
            1nat
        } else {
            0nat
        }
    }
}

/// Every outcome succeeded.
pub open spec fn all_succeeded(rs: Seq<MeetingResult>) -> bool {
    forall|i: int| 0 <= i < rs.len() ==> (#[trigger] rs[i]).success
}

/// The summary of a reservation.
pub open spec fn reservation_message(created: nat, merged: nat, slots: nat) -> Seq<char> {
    if merged > 0 {
        "Created "@ + dec_digits(created) + " meetings ("@ + dec_digits(merged) + " merged) from "@ + dec_digits(slots)
            + " time slots"@
    } else {
        "Created "@ + dec_digits(created) + " meetings from "@ + dec_digits(slots) + " time slots"@
    }
}

/// The response to a reservation: successful where every outcome succeeded
/// and at least one carries a meeting id.
pub fn reservation_response(results: Vec<MeetingResult>, slot_count: usize) -> (r: WebhookResponse)
    ensures
        r.success == (all_succeeded(results@) && count_with_id(results@) > 0),
        r.message@ == reservation_message(count_with_id(results@), count_merged(results@), slot_count as nat),
        r.meetings_count == results@.len(),
        r.meetings@ == results@,
{
    let mut created: usize = 0;
    let mut merged: usize = 0;
    let mut all_ok = true;
    let mut i: usize = 0;
    while i < results.len()
        invariant
            i <= results@.len(),
            created == count_with_id(results@.subrange(0, i as int)),
            merged == count_merged(results@.subrange(0, i as int)),
            created <= i,
            merged <= i,
            all_ok == all_succeeded(results@.subrange(0, i as int)),
        decreases results@.len() - i,
    {
        proof {
            let s = results@.subrange(0, i as int + 1);
            assert(s.drop_last() =~= results@.subrange(0, i as int));
            assert(s.last() == results@[i as int]);
            if all_ok && results@[i as int].success {
                assert forall|k: int| 0 <= k < s.len() implies (#[trigger] s[k]).success by {
                    if k < i {
                        assert(s[k] == results@.subrange(0, i as int)[k]);
                    }
                }
            }
            if !results@[i as int].success {
                assert(!s[i as int].success);
            }
            if !all_ok {
                let k = choose|k: int| 0 <= k < i && !(#[trigger] results@.subrange(0, i as int)[k]).success;
                assert(s[k] == results@.subrange(0, i as int)[k]);
            }
        }
        if results[i].meeting_id.is_some() {
            created = created + 1;
        }
        if results[i].merged {
            merged = merged + 1;
        }
        all_ok = all_ok && results[i].success;
        i = i + 1;
    }
    proof {
        assert(results@.subrange(0, results@.len() as int) =~= results@);
    }
    let mut message = String::from_str("Created ");
    let c = u64_text(created as u64);
    message.append(c.as_str());
    if merged > 0 {
        message.append(" meetings (");
        let m = u64_text(merged as u64);
        message.append(m.as_str());
        message.append(" merged) from ");
    } else {
        message.append(" meetings from ");
    }
    let n = u64_text(slot_count as u64);
    message.append(n.as_str());
    message.append(" time slots");
    proof {
        reveal_strlit("Created ");
        reveal_strlit(" meetings (");
        reveal_strlit(" merged) from ");
        reveal_strlit(" meetings from ");
        reveal_strlit(" time slots");
        assert(message@ =~= reservation_message(created as nat, merged as nat, slot_count as nat));
    }
    WebhookResponse { success: all_ok && created > 0, message, meetings_count: results.len(), meetings: results }
}


/// Sentinel id of a simulated meeting: every such id starts `simulation-`.
pub open spec fn sim_meeting_id(merged: bool, i: nat) -> Seq<char> {
    (if merged {
        "simulation-merged-meeting-"@
    } else {
        "simulation-meeting-id-"@
    }) + dec_digits(i)
}

/// Sentinel id of the `i`-th simulated meeting of a submission.
pub fn simulated_meeting_id(merged: bool, i: usize) -> (r: String)
    ensures
        r@ == sim_meeting_id(merged, i as nat),
{
    let n = u64_text(i as u64);
    if merged {
        String::from_str("simulation-merged-meeting-").concat(n.as_str())
    } else {
        String::from_str("simulation-meeting-id-").concat(n.as_str())
    }
}

/// The ledger after storing `recs` one after the other.
pub open spec fn store_all(rows: Seq<MeetingRecord>, recs: Seq<MeetingRecord>) -> Seq<MeetingRecord>
    decreases recs.len(),
{
    if recs.len() == 0 {
        rows
    } else {
        store_result(store_all(rows, recs.drop_last()), recs.last())
    }
}

/// `rec` is the row that records planned meeting `m` of plan `p` under
/// `meeting_id`, created at `at`.
pub open spec fn row_for(rec: MeetingRecord, form: FormSubmission, p: ReservationPlan, m: PlannedMeeting, meeting_id: Seq<char>, at: Seq<char>) -> bool {
    fresh_record(
        rec,
        form,
        meeting_id,
        m.room_name@,
        p.room_id@,
        rfc3339_text(m.start_time as int),
        m.scheduled_label@,
        p.operator_name@,
        p.operator_id@,
        at,
    )
}

/// Records a planned meeting in the ledger under its merged label; says
/// whether a row was appended.
pub fn record_meeting(
    ledger: &mut DatabaseService,
    form: &FormSubmission,
    plan: &ReservationPlan,
    m: &PlannedMeeting,
    meeting_id: &str,
    created_at: &str,
) -> (r: bool)
    requires
        old(ledger).wf(),
        planned_for(*m, m.slots@, form.form_name@),
    ensures
        final(ledger).wf(),
        exists|rec: MeetingRecord|
            #[trigger] row_for(rec, *form, *plan, *m, meeting_id@, created_at@) && final(ledger)@ == store_result(old(ledger)@, rec),
{
    let ghost before = ledger@;
    let r = ledger.store_merged_meeting(
        form,
        meeting_id,
        m.room_name.as_str(),
        plan.room_id.as_str(),
        &m.slots,
        plan.operator_name.as_str(),
        plan.operator_id.as_str(),
        created_at,
    );
    proof {
        let n = m.slots@.len() as int;
        lemma_run_bounds(m.slots@);
        let (f, l) = choose|f: int, l: int|
            #[trigger] is_earliest(m.slots@, f) && #[trigger] is_latest(m.slots@, l) && exists|rec: MeetingRecord|
                #[trigger] fresh_record(
                    rec,
                    *form,
                    meeting_id@,
                    m.room_name@,
                    plan.room_id@,
                    rfc3339_text(m.slots@[f].start_time as int),
                    merged_label_spec(m.slots@[f].scheduled_label@, m.slots@[l].scheduled_label@),
                    plan.operator_name@,
                    plan.operator_id@,
                    created_at@,
                ) && ledger@ == store_result(before, rec) && r == !crate::database::has_duplicate(
                    before,
                    rec.entry_token@,
                    rec.scheduled_label@,
                    rec.status,
                );
        if f != 0 {
            assert(m.slots@[f].start_time < m.slots@[0].start_time);
        }
        if l != n - 1 {
            assert(m.slots@[n - 1].start_time < m.slots@[l].start_time);
        }
        assert(m.slots@.last() == m.slots@[n - 1]);
        let rec = choose|rec: MeetingRecord|
            #[trigger] fresh_record(
                rec,
                *form,
                meeting_id@,
                m.room_name@,
                plan.room_id@,
                rfc3339_text(m.slots@[f].start_time as int),
                merged_label_spec(m.slots@[f].scheduled_label@, m.slots@[l].scheduled_label@),
                plan.operator_name@,
                plan.operator_id@,
                created_at@,
            ) && ledger@ == store_result(before, rec) && r == !crate::database::has_duplicate(
                before,
                rec.entry_token@,
                rec.scheduled_label@,
                rec.status,
            );
        assert(row_for(rec, *form, *plan, *m, meeting_id@, created_at@));
    }
    r
}

/// In a linked run no slot starts before the first or after the last.
proof fn lemma_run_bounds(run: Seq<TimeSlot>)
    requires
        run.len() > 0,
        run_linked(run),
    ensures
        forall|k: int| 0 <= k < run.len() ==> run[0].start_time <= #[trigger] run[k].start_time,
        forall|k: int| 0 <= k < run.len() ==> #[trigger] run[k].start_time <= run[run.len() - 1].start_time,
    decreases run.len(),
{
    if run.len() > 1 {
        let init = run.drop_last();
        assert forall|k: int| 0 < k < init.len() implies (#[trigger] init[k]).item_name@ == init[k - 1].item_name@
            && init[k - 1].end_time == init[k].start_time && init[k - 1].start_time <= init[k].start_time by {
            assert(init[k] == run[k]);
            assert(init[k - 1] == run[k - 1]);
        }
        lemma_run_bounds(init);
        assert forall|k: int| 0 <= k < run.len() implies run[0].start_time <= #[trigger] run[k].start_time by {
            if k < run.len() - 1 {
                assert(init[k] == run[k]);
            } else {
                assert(init[k - 1] == run[k - 1]);
                assert(run[k - 1].start_time <= run[k].start_time);
            }
        }
        assert forall|k: int| 0 <= k < run.len() implies #[trigger] run[k].start_time <= run[run.len() - 1].start_time by {
            if k < run.len() - 1 {
                assert(init[k] == run[k]);
                assert(init[init.len() - 1] == run[run.len() - 2]);
                assert(run[run.len() - 2].start_time <= run[run.len() - 1].start_time);
            }
        }
    }
}

proof fn lemma_runs_nonempty(slots: Seq<TimeSlot>, runs: Seq<Seq<TimeSlot>>)
    requires
        is_run_plan(slots, runs),
        slots.len() > 0,
    ensures
        runs.len() > 0,
{
    let p = choose|p: Seq<int>| crate::merge::is_permutation(p, slots.len() as int) && flatten_runs(runs) == p.map_values(|i: int| slots[i]);
    if runs.len() == 0 {
        assert(flatten_runs(runs).len() == 0);
    }
}

proof fn lemma_count_all_ids(rs: Seq<MeetingResult>)
    requires
        forall|i: int| 0 <= i < rs.len() ==> (#[trigger] rs[i]).meeting_id is Some,
    ensures
        count_with_id(rs) == rs.len(),
    decreases rs.len(),
{
    if rs.len() > 0 {
        let init = rs.drop_last();
        assert forall|i: int| 0 <= i < init.len() implies (#[trigger] init[i]).meeting_id is Some by {
            assert(init[i] == rs[i]);
        }
        lemma_count_all_ids(init);
        assert(rs.last() == rs[rs.len() - 1]);
    }
}

/// `resp` and the ledger change `old` to `new` are what simulation mode makes
/// of plan `p`: every planned meeting succeeds under its sentinel id and is
/// recorded in order.
pub open spec fn simulated_for(
    resp: WebhookResponse,
    p: ReservationPlan,
    old: Seq<MeetingRecord>,
    new: Seq<MeetingRecord>,
    form: FormSubmission,
    at: Seq<char>,
) -> bool {
    &&& resp.success
    &&& resp.meetings_count == p.meetings@.len()
    &&& resp.meetings@.len() == p.meetings@.len()
    &&& resp.message@ == reservation_message(p.meetings@.len() as nat, count_merged(resp.meetings@), p.slot_count as nat)
    &&& forall|i: int|
        0 <= i < p.meetings@.len() ==> result_for(
            #[trigger] resp.meetings@[i],
            p.meetings@[i],
            Some(sim_meeting_id(p.meetings@[i].merged, i as nat)),
            true,
        )
    &&& exists|recs: Seq<MeetingRecord>|
        recs.len() == p.meetings@.len() && (forall|i: int|
            0 <= i < recs.len() ==> row_for(
                #[trigger] recs[i],
                form,
                p,
                p.meetings@[i],
                sim_meeting_id(p.meetings@[i].merged, i as nat),
                at,
            )) && new == store_all(old, recs)
}

/// The reservation path in simulation mode, at time `now`: plan, then record
/// every planned meeting under a sentinel id without upstream calls. A
/// refused submission leaves the ledger unchanged.
pub fn process_reservation_simulated(
    form: &FormSubmission,
    config: &PipelineConfig,
    client: &TencentMeetingClient,
    ledger: &mut DatabaseService,
    now: i64,
    created_at: &str,
) -> (r: Result<WebhookResponse, SubmissionError>)
    requires
        old(ledger).wf(),
    ensures
        final(ledger).wf(),
        form.entry.field_1@.len() == 0 ==> r == Err::<WebhookResponse, SubmissionError>(SubmissionError::NoSlots),
        (form.entry.field_1@.len() > 0 && forall|i: int|
            0 <= i < form.entry.field_1@.len() ==> parse_outcome(#[trigger] form.entry.field_1@[i], now as int) is Ok)
            <==> r is Ok,
        r is Err ==> final(ledger)@ == old(ledger)@ && (r->Err_0 == SubmissionError::NoSlots || r->Err_0 is BadSlot),
        match r {
            Ok(resp) => exists|p: ReservationPlan, sl: Seq<TimeSlot>|
                #[trigger] plan_of_slots(p, *form, sl, now as int, *config, *client) && simulated_for(
                    resp,
                    p,
                    old(ledger)@,
                    final(ledger)@,
                    *form,
                    created_at@,
                ),
            Err(SubmissionError::BadSlot(e)) => exists|i: int|
                0 <= i < form.entry.field_1@.len() && parse_outcome(#[trigger] form.entry.field_1@[i], now as int)
                    == Err::<TimeSlot, SlotError>(e),
            Err(_) => true,
        },
{
    let plan = match plan_reservation(form, config, client, now) {
        Ok(p) => p,
        Err(e) => {
            return Err(e);
        },
    };
    let ghost sl = choose|sl: Seq<TimeSlot>| #[trigger] plan_of_slots(plan, *form, sl, now as int, *config, *client);
    proof {
        lemma_runs_nonempty(sl, plan.meetings@.map_values(|m: PlannedMeeting| m.slots@));
    }
    let ghost start = ledger@;
    let ghost mut recs: Seq<MeetingRecord> = Seq::empty();
    let mut results: Vec<MeetingResult> = Vec::new();
    let mut i: usize = 0;
    while i < plan.meetings.len()
        invariant
            plan_of_slots(plan, *form, sl, now as int, *config, *client),
            i <= plan.meetings@.len(),
            ledger.wf(),
            results@.len() == i,
            recs.len() == i,
            forall|k: int|
                0 <= k < i ==> result_for(
                    #[trigger] results@[k],
                    plan.meetings@[k],
                    Some(sim_meeting_id(plan.meetings@[k].merged, k as nat)),
                    true,
                ),
            forall|k: int|
                0 <= k < i ==> row_for(
                    #[trigger] recs[k],
                    *form,
                    plan,
                    plan.meetings@[k],
                    sim_meeting_id(plan.meetings@[k].merged, k as nat),
                    created_at@,
                ),
            ledger@ == store_all(start, recs),
        decreases plan.meetings@.len() - i,
    {
        let m = &plan.meetings[i];
        let id = simulated_meeting_id(m.merged, i);
        let ghost before = ledger@;
        record_meeting(ledger, form, &plan, m, id.as_str(), created_at);
        proof {
            let rec = choose|rec: MeetingRecord|
                #[trigger] row_for(rec, *form, plan, *m, id@, created_at@) && ledger@ == store_result(before, rec);
            let old_recs = recs;
            recs = recs.push(rec);
            assert(recs.drop_last() =~= old_recs);
            assert forall|k: int| 0 <= k < recs.len() implies row_for(
                #[trigger] recs[k],
                *form,
                plan,
                plan.meetings@[k],
                sim_meeting_id(plan.meetings@[k].merged, k as nat),
                created_at@,
            ) by {
                if k < old_recs.len() {
                    assert(recs[k] == old_recs[k]);
                }
            }
        }
        let res = meeting_result(m, Some(id), true);
        results.push(res);
        i = i + 1;
    }
    proof {
        assert forall|k: int| 0 <= k < results@.len() implies (#[trigger] results@[k]).meeting_id is Some by {
            assert(result_for(results@[k], plan.meetings@[k], Some(sim_meeting_id(plan.meetings@[k].merged, k as nat)), true));
        }
        lemma_count_all_ids(results@);
        assert forall|k: int| 0 <= k < results@.len() implies (#[trigger] results@[k]).success by {
            assert(result_for(results@[k], plan.meetings@[k], Some(sim_meeting_id(plan.meetings@[k].merged, k as nat)), true));
        }
    }
    let resp = reservation_response(results, plan.slot_count);
    proof {
        assert(simulated_for(resp, plan, start, ledger@, *form, created_at@));
    }
    Ok(resp)
}

/// `s` begins with `p`.
pub open spec fn has_prefix(s: Seq<char>, p: Seq<char>) -> bool {
    p.len() <= s.len() && s.subrange(0, p.len() as int) == p
}

/// Whether `s` begins with `p`.
pub fn starts_with(s: &str, p: &str) -> (r: bool)
    ensures
        r == has_prefix(s@, p@),
{
    let n = s.unicode_len();
    let m = p.unicode_len();
    if m > n {
        return false;
    }
    let mut i: usize = 0;
    while i < m
        invariant
            n == s@.len(),
            m == p@.len(),
            m <= n,
            i <= m,
            forall|k: int| 0 <= k < i ==> s@[k] == p@[k],
        decreases m - i,
    {
        if s.get_char(i) != p.get_char(i) {
            assert(s@.subrange(0, m as int)[i as int] != p@[i as int]);
            return false;
        }
        i = i + 1;
    }
    assert(s@.subrange(0, m as int) =~= p@);
    true
}

/// A meeting id that the reservation path wrote in simulation mode.
pub open spec fn is_simulated_id(id: Seq<char>) -> bool {
    has_prefix(id, "simulation-"@)
}

/// Where a cancellation goes after the ledger has been updated.
#[derive(Debug)]
pub enum CancellationStart {
    /// No reserved row had the token; the response says so.
    NothingActive(WebhookResponse),
    /// Simulated meetings only, or simulation mode: done without upstream calls.
    Simulated(WebhookResponse),
    /// Release then cancel each (meeting id, room id) upstream.
    Upstream(Vec<(String, String)>),
}

/// Some pair carries a simulated meeting id.
pub open spec fn any_simulated(pairs: Seq<(Seq<char>, Seq<char>)>) -> bool {
    exists|i: int| 0 <= i < pairs.len() && is_simulated_id((#[trigger] pairs[i]).0)
}

/// The first step of the cancellation path: mark the token's reserved rows
/// cancelled, then decide whether upstream calls are needed.
pub fn begin_cancellation(ledger: &mut DatabaseService, token: &str, cancelled_at: &str, simulate: bool) -> (r: CancellationStart)
    requires
        old(ledger).wf(),
        cancelled_at@.len() > 0,
    ensures
        final(ledger).wf(),
        cancel_relation(old(ledger)@, final(ledger)@, token@, cancelled_at@),
        ({
            let targets = cancel_targets(old(ledger)@, token@);
            match r {
                CancellationStart::NothingActive(resp) => targets.len() == 0 && !resp.success && resp.meetings_count == 0
                    && resp.meetings@.len() == 0 && resp.message@ == "No active meetings found with token: "@ + token@,
                CancellationStart::Simulated(resp) => targets.len() > 0 && (simulate || any_simulated(targets))
                    && resp.success && resp.meetings_count == 0 && resp.meetings@.len() == 0 && resp.message@
                    == "Simulation: "@ + dec_digits(targets.len()) + " meetings cancelled successfully"@,
                CancellationStart::Upstream(pairs) => targets.len() > 0 && !simulate && !any_simulated(targets)
                    && pairs@.map_values(|p: (String, String)| (p.0@, p.1@)) == targets,
            }
        }),
{
    let pairs = ledger.cancel_meeting(token, cancelled_at);
    let ghost pv = pairs@.map_values(|p: (String, String)| (p.0@, p.1@));
    if pairs.len() == 0 {
        proof {
            reveal_strlit("No active meetings found with token: ");
        }
        let message = String::from_str("No active meetings found with token: ").concat(token);
        return CancellationStart::NothingActive(
            WebhookResponse { success: false, message, meetings_count: 0, meetings: Vec::new() },
        );
    }
    let mut any = false;
    let mut i: usize = 0;
    while i < pairs.len()
        invariant
            i <= pairs@.len(),
            pv == pairs@.map_values(|p: (String, String)| (p.0@, p.1@)),
            any == exists|k: int| 0 <= k < i && is_simulated_id((#[trigger] pv[k]).0),
        decreases pairs@.len() - i,
    {
        proof {
            reveal_strlit("simulation-");
        }
        let hit = starts_with(pairs[i].0.as_str(), "simulation-");
        proof {
            assert(pv[i as int].0 == pairs@[i as int].0@);
            if any {
                let k = choose|k: int| 0 <= k < i && is_simulated_id((#[trigger] pv[k]).0);
                assert(0 <= k < i + 1 && is_simulated_id(pv[k].0));
            }
        }
        any = any || hit;
        i = i + 1;
    }
    if simulate || any {
        let n = u64_text(pairs.len() as u64);
        proof {
            reveal_strlit("Simulation: ");
            reveal_strlit(" meetings cancelled successfully");
        }
        let message = String::from_str("Simulation: ").concat(n.as_str()).concat(" meetings cancelled successfully");
        CancellationStart::Simulated(WebhookResponse { success: true, message, meetings_count: 0, meetings: Vec::new() })
    } else {
        CancellationStart::Upstream(pairs)
    }
}

/// The summary of a cancellation's upstream steps.
pub open spec fn cancellation_message(succeeded: nat, failed: nat) -> Seq<char> {
    if failed == 0 {
        "Successfully cancelled "@ + dec_digits(succeeded) + " meetings"@
    } else {
        "Cancelled "@ + dec_digits(succeeded) + " meetings, but "@ + dec_digits(failed) + " failed"@
    }
}

/// The response after the upstream steps of a cancellation: successful
/// where none failed.
pub fn cancellation_response(succeeded: usize, failed: usize) -> (r: WebhookResponse)
    ensures
        r.success == (failed == 0),
        r.meetings_count == 0,
        r.meetings@.len() == 0,
        r.message@ == cancellation_message(succeeded as nat, failed as nat),
{
    let s = u64_text(succeeded as u64);
    if failed == 0 {
        proof {
            reveal_strlit("Successfully cancelled ");
            reveal_strlit(" meetings");
        }
        let message = String::from_str("Successfully cancelled ").concat(s.as_str()).concat(" meetings");
        WebhookResponse { success: true, message, meetings_count: 0, meetings: Vec::new() }
    } else {
        let f = u64_text(failed as u64);
        proof {
            reveal_strlit("Cancelled ");
            reveal_strlit(" meetings, but ");
            reveal_strlit(" failed");
        }
        let message = String::from_str("Cancelled ").concat(s.as_str()).concat(" meetings, but ").concat(f.as_str()).concat(
            " failed",
        );
        WebhookResponse { success: false, message, meetings_count: 0, meetings: Vec::new() }
    }
}


/// A whole submission in simulation mode, at time `now`, with `at` as the
/// time text of new rows and cancellations. An unknown status is refused
/// without touching the ledger.
pub fn process_submission_simulated(
    form: &FormSubmission,
    config: &PipelineConfig,
    client: &TencentMeetingClient,
    ledger: &mut DatabaseService,
    now: i64,
    at: &str,
) -> (r: Result<WebhookResponse, SubmissionError>)
    requires
        old(ledger).wf(),
        at@.len() > 0,
    ensures
        final(ledger).wf(),
        kind_of_status(form.entry.reservation_status_fsf_field@) is Err ==> r == Err::<WebhookResponse, SubmissionError>(
            SubmissionError::UnknownStatus,
        ) && final(ledger)@ == old(ledger)@,
        kind_of_status(form.entry.reservation_status_fsf_field@) == Ok::<SubmissionKind, SubmissionError>(
            SubmissionKind::Reservation,
        ) ==> {
            &&& (form.entry.field_1@.len() > 0 && forall|i: int|
                0 <= i < form.entry.field_1@.len() ==> parse_outcome(#[trigger] form.entry.field_1@[i], now as int) is Ok)
                <==> r is Ok
            &&& r is Err ==> final(ledger)@ == old(ledger)@
            &&& r is Ok ==> exists|p: ReservationPlan, sl: Seq<TimeSlot>|
                #[trigger] plan_of_slots(p, *form, sl, now as int, *config, *client) && simulated_for(
                    r->Ok_0,
                    p,
                    old(ledger)@,
                    final(ledger)@,
                    *form,
                    at@,
                )
        },
        kind_of_status(form.entry.reservation_status_fsf_field@) == Ok::<SubmissionKind, SubmissionError>(
            SubmissionKind::Cancellation,
        ) ==> {
            &&& r is Ok
            &&& cancel_relation(old(ledger)@, final(ledger)@, form.entry.token@, at@)
            &&& r->Ok_0.success == (cancel_targets(old(ledger)@, form.entry.token@).len() > 0)
            &&& r->Ok_0.meetings_count == 0
        },
{
    match classify_submission(form) {
        Err(e) => Err(e),
        Ok(SubmissionKind::Reservation) => process_reservation_simulated(form, config, client, ledger, now, at),
        Ok(SubmissionKind::Cancellation) => {
            match begin_cancellation(ledger, form.entry.token.as_str(), at, true) {
                CancellationStart::NothingActive(resp) => Ok(resp),
                CancellationStart::Simulated(resp) => Ok(resp),
                CancellationStart::Upstream(_) => {
                    assert(false);
                    Ok(cancellation_response(0, 0))
                },
            }
        },
    }
}


/// What the upstream API answered to a meeting creation.
#[derive(Debug, Clone)]
pub enum CreateAnswer {
    /// The meeting was created under this id.
    Created(String),
    /// The call succeeded but named no meeting.
    NoMeetingInfo,
    /// The call failed.
    Failed,
}

/// The step that follows the creation answer for planned meeting `m`: a
/// created meeting is recorded in the ledger and reported as a success, and
/// its room is to be booked unless booking is off; a success without a
/// meeting id is reported with no row written; a failure is reported as
/// failed with no row written. Returns the outcome and whether to book.
pub fn reservation_step(
    ledger: &mut DatabaseService,
    form: &FormSubmission,
    plan: &ReservationPlan,
    m: &PlannedMeeting,
    answer: CreateAnswer,
    skip_room_booking: bool,
    created_at: &str,
) -> (r: (MeetingResult, bool))
    requires
        old(ledger).wf(),
        planned_for(*m, m.slots@, form.form_name@),
    ensures
        final(ledger).wf(),
        match answer {
            CreateAnswer::Created(id) => result_for(r.0, *m, Some(id@), true) && r.1 == !skip_room_booking && exists|
                rec: MeetingRecord,
            | #[trigger] row_for(rec, *form, *plan, *m, id@, created_at@) && final(ledger)@ == store_result(old(ledger)@, rec),
            CreateAnswer::NoMeetingInfo => result_for(r.0, *m, None, true) && !r.1 && final(ledger)@ == old(ledger)@,
            CreateAnswer::Failed => result_for(r.0, *m, None, false) && !r.1 && final(ledger)@ == old(ledger)@,
        },
{
    match answer {
        CreateAnswer::Created(id) => {
            record_meeting(ledger, form, plan, m, id.as_str(), created_at);
            (meeting_result(m, Some(id), true), !skip_room_booking)
        },
        CreateAnswer::NoMeetingInfo => (meeting_result(m, None, true), false),
        CreateAnswer::Failed => (meeting_result(m, None, false), false),
    }
}

/// The next upstream step in cancelling one meeting.
#[derive(PartialEq, Eq, Structural, Debug, Clone, Copy)]
pub enum CancelAction {
    /// Release the meeting's room.
    Release,
    /// Cancel the meeting.
    Cancel,
    /// Nothing more to do; whether the meeting was cancelled.
    Done(bool),
}

/// The step after `last` (the previous step and whether it succeeded): the
/// room is released first; only a released meeting is cancelled; a failed
/// release ends in failure; the cancel's result is the meeting's result.
pub fn cancellation_next(last: Option<(CancelAction, bool)>) -> (r: CancelAction)
    ensures
        match last {
            None => r == CancelAction::Release,
            Some((CancelAction::Release, true)) => r == CancelAction::Cancel,
            Some((CancelAction::Release, false)) => r == CancelAction::Done(false),
            Some((CancelAction::Cancel, ok)) => r == CancelAction::Done(ok),
            Some((CancelAction::Done(ok), _)) => r == CancelAction::Done(ok),
        },
{
    match last {
        None => CancelAction::Release,
        Some((CancelAction::Release, true)) => CancelAction::Cancel,
        Some((CancelAction::Release, false)) => CancelAction::Done(false),
        Some((CancelAction::Cancel, ok)) => CancelAction::Done(ok),
        Some((CancelAction::Done(ok), _)) => CancelAction::Done(ok),
    }
}

/// Number of `true` entries.
pub open spec fn count_true(s: Seq<bool>) -> nat
    decreases s.len(),
{
    if s.len() == 0 {
        0
    } else {
        count_true(s.drop_last()) + if s.last() {
            1nat
        } else {
            0nat
        }
    }
}

proof fn lemma_count_true_bound(s: Seq<bool>)
    ensures
        count_true(s) <= s.len(),
    decreases s.len(),
{
    if s.len() > 0 {
        lemma_count_true_bound(s.drop_last());
    }
}

/// The response to a cancellation whose meetings ended as `outcomes`
/// (cancelled or not): it counts both and answers as
/// `cancellation_response` does for those counts.
pub fn cancellation_summary(outcomes: &Vec<bool>) -> (r: WebhookResponse)
    ensures
        r.success == (count_true(outcomes@) == outcomes@.len()),
        r.meetings_count == 0,
        r.meetings@.len() == 0,
        r.message@ == cancellation_message(count_true(outcomes@), (outcomes@.len() - count_true(outcomes@)) as nat),
{
    let mut succeeded: usize = 0;
    let mut i: usize = 0;
    while i < outcomes.len()
        invariant
            i <= outcomes@.len(),
            succeeded == count_true(outcomes@.subrange(0, i as int)),
            succeeded <= i,
        decreases outcomes@.len() - i,
    {
        proof {
            let t = outcomes@.subrange(0, i as int + 1);
            assert(t.drop_last() =~= outcomes@.subrange(0, i as int));
        }
        if outcomes[i] {
            succeeded = succeeded + 1;
        }
        i = i + 1;
    }
    proof {
        assert(outcomes@.subrange(0, outcomes@.len() as int) =~= outcomes@);
    }
    cancellation_response(succeeded, outcomes.len() - succeeded)
}

} // verus!

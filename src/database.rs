//! The reservation ledger: an append-mostly table of meeting records, keyed
//! for idempotence by (token, scheduled label, status). Keeping the table on
//! disk is the caller's concern; the table's rules are here.
use vstd::prelude::*;
use crate::instant::{format_rfc3339, rfc3339_text};
use crate::models::{FormSubmission, TimeSlot};
use crate::runs::{merged_label, merged_label_spec};
use crate::slots::slot_in_range;

verus! {

/// Status of a ledger row.
#[derive(PartialEq, Eq, Structural, Debug, Clone, Copy)]
pub enum ReservationStatus {
    Reserved,
    Cancelled,
}

/// The texts that denote a status: the canonical upper-case word, its
/// capitalised form, and the form system's own word.
pub open spec fn status_of_text(s: Seq<char>) -> Option<ReservationStatus> {
    if s == "RESERVED"@ || s == "Reserved"@ || s == "已预约"@ {
        Some(ReservationStatus::Reserved)
    } else if s == "CANCELLED"@ || s == "Cancelled"@ || s == "已取消"@ {
        Some(ReservationStatus::Cancelled)
    } else {
        None
    }
}

/// Canonical text of a status.
pub open spec fn status_text(s: ReservationStatus) -> Seq<char> {
    match s {
        ReservationStatus::Reserved => "RESERVED"@,
        ReservationStatus::Cancelled => "CANCELLED"@,
    }
}

impl ReservationStatus {
    /// Reads a status from its text.
    pub fn parse(s: &str) -> (r: Option<ReservationStatus>)
        ensures
            r == status_of_text(s@),
    {
        let t = String::from_str(s);
        if t == String::from_str("RESERVED") || t == String::from_str("Reserved") || t == String::from_str("已预约") {
            Some(ReservationStatus::Reserved)
        } else if t == String::from_str("CANCELLED") || t == String::from_str("Cancelled") || t == String::from_str(
            "已取消",
        ) {
            Some(ReservationStatus::Cancelled)
        } else {
            None
        }
    }

    /// The canonical text of the status.
    pub fn as_text(&self) -> (r: String)
        ensures
            r@ == status_text(*self),
    {
        match self {
            ReservationStatus::Reserved => String::from_str("RESERVED"),
            ReservationStatus::Cancelled => String::from_str("CANCELLED"),
        }
    }
}

/// One row of the ledger.
#[derive(Debug, Clone)]
pub struct MeetingRecord {
    pub entry_token: String,
    pub form_id: String,
    pub form_name: String,
    pub subject: String,
    pub room_name: String,
    pub scheduled_at: String,
    pub scheduled_label: String,
    pub status: ReservationStatus,
    pub meeting_id: String,
    pub room_id: String,
    pub created_at: String,
    pub cancelled_at: String,
    pub operator_name: String,
    pub operator_id: String,
}

impl MeetingRecord {
    /// A copy of this record.
    pub fn duplicate(&self) -> (r: MeetingRecord)
        ensures
            r == *self,
    {
        MeetingRecord {
            entry_token: self.entry_token.clone(),
            form_id: self.form_id.clone(),
            form_name: self.form_name.clone(),
            subject: self.subject.clone(),
            room_name: self.room_name.clone(),
            scheduled_at: self.scheduled_at.clone(),
            scheduled_label: self.scheduled_label.clone(),
            status: self.status,
            meeting_id: self.meeting_id.clone(),
            room_id: self.room_id.clone(),
            created_at: self.created_at.clone(),
            cancelled_at: self.cancelled_at.clone(),
            operator_name: self.operator_name.clone(),
            operator_id: self.operator_id.clone(),
        }
    }
}

/// A row is consistent: its cancellation time is empty exactly while it is
/// reserved.
pub open spec fn record_wf(r: MeetingRecord) -> bool {
    (r.status == ReservationStatus::Reserved) <==> r.cancelled_at@.len() == 0
}

/// Some row already has this token, label and status.
pub open spec fn has_duplicate(rows: Seq<MeetingRecord>, token: Seq<char>, label: Seq<char>, status: ReservationStatus) -> bool {
    exists|i: int|
        0 <= i < rows.len() && (#[trigger] rows[i]).entry_token@ == token && rows[i].scheduled_label@ == label
            && rows[i].status == status
}

/// The ledger after storing `rec`: unchanged where a row with its token,
/// label and status exists, else with `rec` appended.
pub open spec fn store_result(rows: Seq<MeetingRecord>, rec: MeetingRecord) -> Seq<MeetingRecord> {
    if has_duplicate(rows, rec.entry_token@, rec.scheduled_label@, rec.status) {
        rows
    } else {
        rows.push(rec)
    }
}

/// Number of rows with this token, label and status.
pub open spec fn count_matching(rows: Seq<MeetingRecord>, token: Seq<char>, label: Seq<char>, status: ReservationStatus) -> nat
    decreases rows.len(),
{
    if rows.len() == 0 {
        0
    } else {
        let r = rows.last();
        count_matching(rows.drop_last(), token, label, status) + if r.entry_token@ == token && r.scheduled_label@
            == label && r.status == status {
            1nat
        } else {
            0nat
        }
    }
}

/// A reserved row of this token: one that cancellation transitions.
pub open spec fn is_target(r: MeetingRecord, token: Seq<char>) -> bool {
    r.entry_token@ == token && r.status == ReservationStatus::Reserved
}

/// The (meeting id, room id) pairs of the reserved rows of a token, in row
/// order.
pub open spec fn cancel_targets(rows: Seq<MeetingRecord>, token: Seq<char>) -> Seq<(Seq<char>, Seq<char>)>
    decreases rows.len(),
{
    if rows.len() == 0 {
        Seq::empty()
    } else {
        cancel_targets(rows.drop_last(), token) + if is_target(rows.last(), token) {
            seq![(rows.last().meeting_id@, rows.last().room_id@)]
        } else {
            Seq::empty()
        }
    }
}

/// `b` is `a` marked cancelled at time `at`, all else kept.
pub open spec fn cancelled_copy(a: MeetingRecord, b: MeetingRecord, at: Seq<char>) -> bool {
    &&& b.status == ReservationStatus::Cancelled
    &&& b.cancelled_at@ == at
    &&& b.entry_token == a.entry_token
    &&& b.form_id == a.form_id
    &&& b.form_name == a.form_name
    &&& b.subject == a.subject
    &&& b.room_name == a.room_name
    &&& b.scheduled_at == a.scheduled_at
    &&& b.scheduled_label == a.scheduled_label
    &&& b.meeting_id == a.meeting_id
    &&& b.room_id == a.room_id
    &&& b.created_at == a.created_at
    &&& b.operator_name == a.operator_name
    &&& b.operator_id == a.operator_id
}

/// `new` is `old` after cancelling the token at time `at`: the reserved
/// rows of the token are marked cancelled, every other row is kept.
pub open spec fn cancel_relation(old: Seq<MeetingRecord>, new: Seq<MeetingRecord>, token: Seq<char>, at: Seq<char>) -> bool {
    new.len() == old.len() && forall|i: int|
        0 <= i < old.len() ==> if is_target(#[trigger] old[i], token) {
            cancelled_copy(old[i], new[i], at)
        } else {
            new[i] == old[i]
        }
}

/// Some row of the token is not cancelled.
pub open spec fn has_active(rows: Seq<MeetingRecord>, token: Seq<char>) -> bool {
    exists|i: int| 0 <= i < rows.len() && (#[trigger] rows[i]).entry_token@ == token && rows[i].status != ReservationStatus::Cancelled
}

/// The rows of a token, in order.
pub open spec fn rows_of(rows: Seq<MeetingRecord>, token: Seq<char>) -> Seq<MeetingRecord> {
    rows.filter(|r: MeetingRecord| r.entry_token@ == token)
}

/// `rec` is the reserved row that the pipeline writes for a meeting: the
/// submission's identity and subject, the given room, time, meeting and
/// operator, and no cancellation time.
pub open spec fn fresh_record(
    rec: MeetingRecord,
    form: FormSubmission,
    meeting_id: Seq<char>,
    room_name: Seq<char>,
    room_id: Seq<char>,
    scheduled_at: Seq<char>,
    scheduled_label: Seq<char>,
    operator_name: Seq<char>,
    operator_id: Seq<char>,
    created_at: Seq<char>,
) -> bool {
    &&& rec.entry_token@ == form.entry.token@
    &&& rec.form_id@ == form.form@
    &&& rec.form_name@ == form.form_name@
    &&& rec.subject@ == form.entry.field_8@
    &&& rec.room_name@ == room_name
    &&& rec.scheduled_at@ == scheduled_at
    &&& rec.scheduled_label@ == scheduled_label
    &&& rec.status == ReservationStatus::Reserved
    &&& rec.meeting_id@ == meeting_id
    &&& rec.room_id@ == room_id
    &&& rec.created_at@ == created_at
    &&& rec.cancelled_at@.len() == 0
    &&& rec.operator_name@ == operator_name
    &&& rec.operator_id@ == operator_id
}

/// The reserved row for a meeting of a submission.
pub fn reservation_record(
    form: &FormSubmission,
    meeting_id: &str,
    room_name: &str,
    room_id: &str,
    scheduled_at: &str,
    scheduled_label: &str,
    operator_name: &str,
    operator_id: &str,
    created_at: &str,
) -> (r: MeetingRecord)
    ensures
        fresh_record(r, *form, meeting_id@, room_name@, room_id@, scheduled_at@, scheduled_label@, operator_name@, operator_id@, created_at@),
        record_wf(r),
{
    MeetingRecord {
        entry_token: form.entry.token.clone(),
        form_id: form.form.clone(),
        form_name: form.form_name.clone(),
        subject: form.entry.field_8.clone(),
        room_name: String::from_str(room_name),
        scheduled_at: String::from_str(scheduled_at),
        scheduled_label: String::from_str(scheduled_label),
        status: ReservationStatus::Reserved,
        meeting_id: String::from_str(meeting_id),
        room_id: String::from_str(room_id),
        created_at: String::from_str(created_at),
        cancelled_at: String::new(),
        operator_name: String::from_str(operator_name),
        operator_id: String::from_str(operator_id),
    }
}

/// Why a stored row cannot be read back.
#[derive(PartialEq, Eq, Structural, Debug, Clone, Copy)]
pub enum LedgerError {
    /// The row has fewer than the fourteen columns of the layout.
    ShortRecord,
    /// The status column holds no known status.
    UnknownStatus,
}

/// The columns of a row, in the ledger's fixed order.
pub open spec fn record_columns(r: MeetingRecord) -> Seq<Seq<char>> {
    seq![
        r.entry_token@, r.form_id@, r.form_name@, r.subject@, r.room_name@, r.scheduled_at@,
        r.scheduled_label@, status_text(r.status), r.meeting_id@, r.room_id@, r.created_at@,
        r.cancelled_at@, r.operator_name@, r.operator_id@,
    ]
}

/// The columns of a row, in the ledger's fixed order.
pub fn record_fields(r: &MeetingRecord) -> (out: Vec<String>)
    ensures
        out@.map_values(|t: String| t@) == record_columns(*r),
{
    let mut v: Vec<String> = Vec::new();
    v.push(r.entry_token.clone());
    v.push(r.form_id.clone());
    v.push(r.form_name.clone());
    v.push(r.subject.clone());
    v.push(r.room_name.clone());
    v.push(r.scheduled_at.clone());
    v.push(r.scheduled_label.clone());
    v.push(r.status.as_text());
    v.push(r.meeting_id.clone());
    v.push(r.room_id.clone());
    v.push(r.created_at.clone());
    v.push(r.cancelled_at.clone());
    v.push(r.operator_name.clone());
    v.push(r.operator_id.clone());
    assert(v@.map_values(|t: String| t@) =~= record_columns(*r));
    v
}

/// Reads a row from its columns; columns past the fourteenth are ignored.
pub fn record_from_fields(fields: &Vec<String>) -> (r: Result<MeetingRecord, LedgerError>)
    ensures
        fields@.len() < 14 ==> r == Err::<MeetingRecord, LedgerError>(LedgerError::ShortRecord),
        fields@.len() >= 14 && status_of_text(fields@[7]@) is None ==> r == Err::<MeetingRecord, LedgerError>(
            LedgerError::UnknownStatus,
        ),
        r is Ok ==> fields@.len() >= 14 && record_columns(r->Ok_0) == fields@.subrange(0, 14).map_values(
            |t: String| t@,
        ).update(7, status_text(r->Ok_0.status)) && status_of_text(fields@[7]@) == Some(r->Ok_0.status),
{
    if fields.len() < 14 {
        return Err(LedgerError::ShortRecord);
    }
    let status = match ReservationStatus::parse(fields[7].as_str()) {
        Some(s) => s,
        None => {
            return Err(LedgerError::UnknownStatus);
        },
    };
    let r = MeetingRecord {
        entry_token: fields[0].clone(),
        form_id: fields[1].clone(),
        form_name: fields[2].clone(),
        subject: fields[3].clone(),
        room_name: fields[4].clone(),
        scheduled_at: fields[5].clone(),
        scheduled_label: fields[6].clone(),
        status,
        meeting_id: fields[8].clone(),
        room_id: fields[9].clone(),
        created_at: fields[10].clone(),
        cancelled_at: fields[11].clone(),
        operator_name: fields[12].clone(),
        operator_id: fields[13].clone(),
    };
    assert(record_columns(r) =~= fields@.subrange(0, 14).map_values(|t: String| t@).update(7, status_text(r.status)));
    Ok(r)
}

/// `f` is the first slot with the earliest start: where a stable sort by
/// start puts the first slot.
pub open spec fn is_earliest(slots: Seq<TimeSlot>, f: int) -> bool {
    &&& 0 <= f < slots.len()
    &&& forall|k: int| 0 <= k < slots.len() ==> slots[f].start_time <= #[trigger] slots[k].start_time
    &&& forall|k: int| 0 <= k < f ==> slots[f].start_time < #[trigger] slots[k].start_time
}

/// `l` is the last slot with the latest start: where a stable sort by start
/// puts the last slot.
pub open spec fn is_latest(slots: Seq<TimeSlot>, l: int) -> bool {
    &&& 0 <= l < slots.len()
    &&& forall|k: int| 0 <= k < slots.len() ==> #[trigger] slots[k].start_time <= slots[l].start_time
    &&& forall|k: int| l < k < slots.len() ==> #[trigger] slots[k].start_time < slots[l].start_time
}

/// Position of the first slot with the earliest start.
pub fn earliest_index(slots: &Vec<TimeSlot>) -> (r: usize)
    requires
        slots@.len() > 0,
    ensures
        is_earliest(slots@, r as int),
{
    let mut best: usize = 0;
    let mut i: usize = 1;
    while i < slots.len()
        invariant
            1 <= i <= slots@.len(),
            best < i,
            forall|k: int| 0 <= k < i ==> slots@[best as int].start_time <= #[trigger] slots@[k].start_time,
            forall|k: int| 0 <= k < best ==> slots@[best as int].start_time < #[trigger] slots@[k].start_time,
        decreases slots@.len() - i,
    {
        if slots[i].start_time < slots[best].start_time {
            best = i;
        }
        i = i + 1;
    }
    best
}

/// Position of the last slot with the latest start.
pub fn latest_index(slots: &Vec<TimeSlot>) -> (r: usize)
    requires
        slots@.len() > 0,
    ensures
        is_latest(slots@, r as int),
{
    let mut best: usize = 0;
    let mut i: usize = 1;
    while i < slots.len()
        invariant
            1 <= i <= slots@.len(),
            best < i,
            forall|k: int| 0 <= k < i ==> #[trigger] slots@[k].start_time <= slots@[best as int].start_time,
            forall|k: int| best < k < i ==> #[trigger] slots@[k].start_time < slots@[best as int].start_time,
        decreases slots@.len() - i,
    {
        if slots[i].start_time >= slots[best].start_time {
            best = i;
        }
        i = i + 1;
    }
    best
}

/// The ledger.
#[derive(Debug)]
pub struct DatabaseService {
    rows: Vec<MeetingRecord>,
}

impl View for DatabaseService {
    type V = Seq<MeetingRecord>;

    closed spec fn view(&self) -> Seq<MeetingRecord> {
        self.rows@
    }
}

impl DatabaseService {
    /// Every row is consistent.
    pub open spec fn wf(&self) -> bool {
        forall|i: int| 0 <= i < self@.len() ==> record_wf(#[trigger] self@[i])
    }

    /// An empty ledger.
    pub fn new() -> (r: DatabaseService)
        ensures
            r@ == Seq::<MeetingRecord>::empty(),
            r.wf(),
    {
        DatabaseService { rows: Vec::new() }
    }

    /// A ledger holding `rows`, where every row is consistent.
    pub fn from_rows(rows: Vec<MeetingRecord>) -> (r: Option<DatabaseService>)
        ensures
            r is Some <==> forall|i: int| 0 <= i < rows@.len() ==> record_wf(#[trigger] rows@[i]),
            r is Some ==> r->Some_0@ == rows@ && r->Some_0.wf(),
    {
        let mut i: usize = 0;
        while i < rows.len()
            invariant
                i <= rows@.len(),
                forall|k: int| 0 <= k < i ==> record_wf(#[trigger] rows@[k]),
            decreases rows@.len() - i,
        {
            let reserved = rows[i].status == ReservationStatus::Reserved;
            let empty = rows[i].cancelled_at.as_str().unicode_len() == 0;
            if reserved != empty {
                return None;
            }
            i = i + 1;
        }
        Some(DatabaseService { rows })
    }

    /// All rows, in order.
    pub fn rows(&self) -> (r: &Vec<MeetingRecord>)
        ensures
            r@ == self@,
    {
        &self.rows
    }

    /// Appends `record` unless a row with its token, label and status exists;
    /// says whether it appended.
    pub fn store(&mut self, record: MeetingRecord) -> (r: bool)
        requires
            old(self).wf(),
            record_wf(record),
        ensures
            final(self)@ == store_result(old(self)@, record),
            r == !has_duplicate(old(self)@, record.entry_token@, record.scheduled_label@, record.status),
            final(self).wf(),
    {
        let mut i: usize = 0;
        while i < self.rows.len()
            invariant
                i <= self.rows@.len(),
                self@ == old(self)@,
                self.rows@ == self@,
                old(self).wf(),
                forall|k: int|
                    0 <= k < i ==> !((#[trigger] self.rows@[k]).entry_token@ == record.entry_token@
                        && self.rows@[k].scheduled_label@ == record.scheduled_label@ && self.rows@[k].status == record.status),
            decreases self.rows@.len() - i,
        {
            let row = &self.rows[i];
            if row.entry_token == record.entry_token && row.scheduled_label == record.scheduled_label && row.status
                == record.status {
                proof {
                    assert forall|k: int| 0 <= k < self@.len() implies record_wf(#[trigger] self@[k]) by {
                        assert(self@[k] == old(self)@[k]);
                    }
                }
                return false;
            }
            i = i + 1;
        }
        let ghost before = self.rows@;
        self.rows.push(record);
        proof {
            assert(self.rows@ == before.push(record));
            assert forall|k: int| 0 <= k < self@.len() implies record_wf(#[trigger] self@[k]) by {
                if k < before.len() {
                    assert(self@[k] == old(self)@[k]);
                }
            }
        }
        true
    }

    /// Records a meeting for one slot under the slot's own label.
    pub fn store_meeting_with_time_slot(
        &mut self,
        form: &FormSubmission,
        meeting_id: &str,
        room_name: &str,
        room_id: &str,
        time_slot: &TimeSlot,
        operator_name: &str,
        operator_id: &str,
        created_at: &str,
    ) -> (r: bool)
        requires
            old(self).wf(),
            slot_in_range(*time_slot),
        ensures
            final(self).wf(),
            exists|rec: MeetingRecord|
                fresh_record(rec, *form, meeting_id@, room_name@, room_id@, rfc3339_text(time_slot.start_time as int),
                    time_slot.scheduled_label@, operator_name@, operator_id@, created_at@)
                && final(self)@ == store_result(old(self)@, rec)
                && r == !has_duplicate(old(self)@, rec.entry_token@, rec.scheduled_label@, rec.status),
    {
        let scheduled_at = format_rfc3339(time_slot.start_time);
        let rec = reservation_record(
            form,
            meeting_id,
            room_name,
            room_id,
            scheduled_at.as_str(),
            time_slot.scheduled_label.as_str(),
            operator_name,
            operator_id,
            created_at,
        );
        self.store(rec)
    }

    /// Records a meeting for a group of slots under its merged label. The
    /// slots are taken in order of start, as a stable sort would leave them:
    /// the label runs from the start of the first slot with the earliest
    /// start to the end of the last slot with the latest start, and the row
    /// is scheduled at that earliest start.
    pub fn store_merged_meeting(
        &mut self,
        form: &FormSubmission,
        meeting_id: &str,
        room_name: &str,
        room_id: &str,
        time_slots: &Vec<TimeSlot>,
        operator_name: &str,
        operator_id: &str,
        created_at: &str,
    ) -> (r: bool)
        requires
            old(self).wf(),
            time_slots@.len() > 0,
            forall|k: int| 0 <= k < time_slots@.len() ==> slot_in_range(#[trigger] time_slots@[k]),
        ensures
            final(self).wf(),
            exists|f: int, l: int|
                #[trigger] is_earliest(time_slots@, f) && #[trigger] is_latest(time_slots@, l) && exists|
                    rec: MeetingRecord,
                |
                    #[trigger] fresh_record(rec, *form, meeting_id@, room_name@, room_id@, rfc3339_text(
                        time_slots@[f].start_time as int,
                    ), merged_label_spec(time_slots@[f].scheduled_label@, time_slots@[l].scheduled_label@),
                        operator_name@, operator_id@, created_at@) && final(self)@ == store_result(old(self)@, rec) && r
                        == !has_duplicate(old(self)@, rec.entry_token@, rec.scheduled_label@, rec.status),
    {
        let f = earliest_index(time_slots);
        let l = latest_index(time_slots);
        assert(slot_in_range(time_slots@[f as int]));
        let first = &time_slots[f];
        let last = &time_slots[l];
        let label = merged_label(first.scheduled_label.as_str(), last.scheduled_label.as_str());
        let scheduled_at = format_rfc3339(first.start_time);
        let rec = reservation_record(
            form,
            meeting_id,
            room_name,
            room_id,
            scheduled_at.as_str(),
            label.as_str(),
            operator_name,
            operator_id,
            created_at,
        );
        self.store(rec)
    }

    /// Marks every reserved row of `entry_token` cancelled at `cancelled_at`
    /// and returns their (meeting id, room id) pairs, in row order. Rows
    /// already cancelled are neither changed nor returned.
    pub fn cancel_meeting(&mut self, entry_token: &str, cancelled_at: &str) -> (r: Vec<(String, String)>)
        requires
            old(self).wf(),
            cancelled_at@.len() > 0,
        ensures
            cancel_relation(old(self)@, final(self)@, entry_token@, cancelled_at@),
            r@.map_values(|p: (String, String)| (p.0@, p.1@)) == cancel_targets(old(self)@, entry_token@),
            final(self).wf(),
    {
        let ghost old_rows = self.rows@;
        assert forall|k: int| 0 <= k < old_rows.len() implies record_wf(#[trigger] old_rows[k]) by {
            assert(old_rows[k] == old(self)@[k]);
        }
        let token = String::from_str(entry_token);
        let mut out: Vec<(String, String)> = Vec::new();
        let mut i: usize = 0;
        while i < self.rows.len()
            invariant
                i <= self.rows@.len(),
                self.rows@.len() == old_rows.len(),
                token@ == entry_token@,
                cancelled_at@.len() > 0,
                forall|k: int| 0 <= k < old_rows.len() ==> record_wf(#[trigger] old_rows[k]),
                forall|k: int|
                    0 <= k < i ==> if is_target(#[trigger] old_rows[k], entry_token@) {
                        cancelled_copy(old_rows[k], self.rows@[k], cancelled_at@)
                    } else {
                        self.rows@[k] == old_rows[k]
                    },
                forall|k: int| i <= k < old_rows.len() ==> self.rows@[k] == old_rows[k],
                forall|k: int| 0 <= k < i ==> record_wf(#[trigger] self.rows@[k]),
                out@.map_values(|p: (String, String)| (p.0@, p.1@)) == cancel_targets(old_rows.subrange(0, i as int), entry_token@),
            decreases self.rows@.len() - i,
        {
            let ghost old_out = out@;
            proof {
                assert(old_rows.subrange(0, i as int + 1).drop_last() =~= old_rows.subrange(0, i as int));
                assert(old_rows.subrange(0, i as int + 1).last() == old_rows[i as int]);
            }
            if self.rows[i].entry_token == token && self.rows[i].status == ReservationStatus::Reserved {
                let mut row = self.rows[i].duplicate();
                out.push((row.meeting_id.clone(), row.room_id.clone()));
                row.status = ReservationStatus::Cancelled;
                row.cancelled_at = String::from_str(cancelled_at);
                self.rows.set(i, row);
                proof {
                    assert(out@.map_values(|p: (String, String)| (p.0@, p.1@)) =~= old_out.map_values(
                        |p: (String, String)| (p.0@, p.1@),
                    ).push((old_rows[i as int].meeting_id@, old_rows[i as int].room_id@)));
                }
            } else {
                proof {
                    assert(out@.map_values(|p: (String, String)| (p.0@, p.1@)) =~= old_out.map_values(
                        |p: (String, String)| (p.0@, p.1@),
                    ) + Seq::<(Seq<char>, Seq<char>)>::empty());
                }
            }
            i = i + 1;
        }
        proof {
            assert(old_rows.subrange(0, old_rows.len() as int) =~= old_rows);
            assert forall|k: int| 0 <= k < final(self)@.len() implies record_wf(#[trigger] final(self)@[k]) by {
                assert(final(self)@[k] == self.rows@[k]);
            }
        }
        out
    }

    /// The first row of `entry_token` that is not cancelled, if any.
    pub fn find_meeting_by_token(&self, entry_token: &str) -> (r: Option<MeetingRecord>)
        ensures
            r is None <==> !has_active(self@, entry_token@),
            r is Some ==> exists|i: int|
                0 <= i < self@.len() && self@[i] == r->Some_0 && r->Some_0.entry_token@ == entry_token@
                    && r->Some_0.status != ReservationStatus::Cancelled && forall|k: int|
                    0 <= k < i ==> !((#[trigger] self@[k]).entry_token@ == entry_token@ && self@[k].status
                        != ReservationStatus::Cancelled),
    {
        let token = String::from_str(entry_token);
        let mut i: usize = 0;
        while i < self.rows.len()
            invariant
                i <= self.rows@.len(),
                token@ == entry_token@,
                forall|k: int|
                    0 <= k < i ==> !((#[trigger] self.rows@[k]).entry_token@ == entry_token@ && self.rows@[k].status
                        != ReservationStatus::Cancelled),
            decreases self.rows@.len() - i,
        {
            if self.rows[i].entry_token == token && self.rows[i].status != ReservationStatus::Cancelled {
                assert(self@[i as int] == self.rows@[i as int]);
                return Some(self.rows[i].duplicate());
            }
            i = i + 1;
        }
        None
    }

    /// The first row of `entry_token` with the given status, if any.
    pub fn find_meeting_by_token_and_status(&self, entry_token: &str, status: ReservationStatus) -> (r: Option<MeetingRecord>)
        ensures
            r is None <==> !exists|i: int|
                0 <= i < self@.len() && (#[trigger] self@[i]).entry_token@ == entry_token@ && self@[i].status == status,
            r is Some ==> exists|i: int|
                0 <= i < self@.len() && self@[i] == r->Some_0 && r->Some_0.entry_token@ == entry_token@
                    && r->Some_0.status == status && forall|k: int|
                    0 <= k < i ==> !((#[trigger] self@[k]).entry_token@ == entry_token@ && self@[k].status == status),
    {
        let token = String::from_str(entry_token);
        let mut i: usize = 0;
        while i < self.rows.len()
            invariant
                i <= self.rows@.len(),
                token@ == entry_token@,
                forall|k: int|
                    0 <= k < i ==> !((#[trigger] self.rows@[k]).entry_token@ == entry_token@ && self.rows@[k].status
                        == status),
            decreases self.rows@.len() - i,
        {
            if self.rows[i].entry_token == token && self.rows[i].status == status {
                assert(self@[i as int] == self.rows@[i as int]);
                return Some(self.rows[i].duplicate());
            }
            i = i + 1;
        }
        None
    }

    /// Every row of `entry_token`, in order.
    pub fn find_all_meetings_by_token(&self, entry_token: &str) -> (r: Vec<MeetingRecord>)
        ensures
            r@ == rows_of(self@, entry_token@),
    {
        let token = String::from_str(entry_token);
        let mut out: Vec<MeetingRecord> = Vec::new();
        let mut i: usize = 0;
        while i < self.rows.len()
            invariant
                i <= self.rows@.len(),
                token@ == entry_token@,
                out@ == rows_of(self.rows@.subrange(0, i as int), entry_token@),
            decreases self.rows@.len() - i,
        {
            proof {
                let s = self.rows@.subrange(0, i as int + 1);
                assert(s.drop_last() =~= self.rows@.subrange(0, i as int));
                reveal(Seq::filter);
            }
            if self.rows[i].entry_token == token {
                out.push(self.rows[i].duplicate());
            }
            i = i + 1;
        }
        proof {
            assert(self.rows@.subrange(0, self.rows@.len() as int) =~= self.rows@);
        }
        out
    }
}


proof fn lemma_count_zero(rows: Seq<MeetingRecord>, token: Seq<char>, label: Seq<char>, status: ReservationStatus)
    ensures
        count_matching(rows, token, label, status) == 0 <==> !has_duplicate(rows, token, label, status),
    decreases rows.len(),
{
    if rows.len() > 0 {
        let init = rows.drop_last();
        lemma_count_zero(init, token, label, status);
        if has_duplicate(init, token, label, status) {
            let i = choose|i: int|
                0 <= i < init.len() && (#[trigger] init[i]).entry_token@ == token && init[i].scheduled_label@ == label
                    && init[i].status == status;
            assert(rows[i] == init[i]);
        }
        if has_duplicate(rows, token, label, status) {
            let i = choose|i: int|
                0 <= i < rows.len() && (#[trigger] rows[i]).entry_token@ == token && rows[i].scheduled_label@ == label
                    && rows[i].status == status;
            if i < rows.len() - 1 {
                assert(init[i] == rows[i]);
            }
        }
    }
}

/// Storing the same record twice leaves the ledger as storing it once, and
/// where no row had its token, label and status, exactly one has them after.
pub proof fn lemma_store_idempotent(rows: Seq<MeetingRecord>, rec: MeetingRecord)
    ensures
        store_result(store_result(rows, rec), rec) == store_result(rows, rec),
        !has_duplicate(rows, rec.entry_token@, rec.scheduled_label@, rec.status) ==> count_matching(
            store_result(store_result(rows, rec), rec),
            rec.entry_token@,
            rec.scheduled_label@,
            rec.status,
        ) == 1,
{
    let once = store_result(rows, rec);
    if !has_duplicate(rows, rec.entry_token@, rec.scheduled_label@, rec.status) {
        assert(once[rows.len() as int] == rec);
        assert(has_duplicate(once, rec.entry_token@, rec.scheduled_label@, rec.status));
        lemma_count_zero(rows, rec.entry_token@, rec.scheduled_label@, rec.status);
        assert(once.drop_last() =~= rows);
    }
}

/// Every row of a consistent ledger reads `RESERVED` with no cancellation
/// time, or `CANCELLED` with one.
pub proof fn lemma_row_status_words(ledger: &DatabaseService)
    requires
        ledger.wf(),
    ensures
        forall|i: int|
            0 <= i < ledger@.len() ==> (status_text((#[trigger] ledger@[i]).status) == "RESERVED"@ && ledger@[i].cancelled_at@.len() == 0)
                || (status_text(ledger@[i].status) == "CANCELLED"@ && ledger@[i].cancelled_at@.len() > 0),
{
    assert forall|i: int| 0 <= i < ledger@.len() implies (status_text((#[trigger] ledger@[i]).status) == "RESERVED"@
        && ledger@[i].cancelled_at@.len() == 0) || (status_text(ledger@[i].status) == "CANCELLED"@
        && ledger@[i].cancelled_at@.len() > 0) by {
        assert(record_wf(ledger@[i]));
    }
}

/// After a token is cancelled, none of its rows is active.
pub proof fn lemma_no_active_after_cancel(old: Seq<MeetingRecord>, new: Seq<MeetingRecord>, token: Seq<char>, at: Seq<char>)
    requires
        cancel_relation(old, new, token, at),
    ensures
        !has_active(new, token),
{
    assert forall|i: int| 0 <= i < new.len() && (#[trigger] new[i]).entry_token@ == token implies new[i].status
        == ReservationStatus::Cancelled by {
        if is_target(old[i], token) {
        } else {
            assert(new[i] == old[i]);
        }
    }
}

} // verus!

//! Plain values that flow through the submission pipeline.
use vstd::prelude::*;

verus! {

/// One raw slot entry of a form submission.
#[derive(Debug, Clone)]
pub struct FormField1Item {
    pub item_name: String,
    pub scheduled_label: String,
    pub number: i32,
    pub scheduled_at: String,
    pub api_code: String,
}

/// The entry of a form submission: its token, slots, subject, status and the
/// remaining named fields as text.
#[derive(Debug, Clone)]
pub struct FormEntry {
    pub token: String,
    pub field_1: Vec<FormField1Item>,
    pub field_8: String,
    pub extra_fields: Vec<(String, String)>,
    pub reservation_status_fsf_field: String,
}

/// A submission received from the form service.
#[derive(Debug, Clone)]
pub struct FormSubmission {
    pub form: String,
    pub form_name: String,
    pub entry: FormEntry,
}

/// A parsed slot: a room label and an interval of whole Unix seconds.
#[derive(Debug, Clone)]
pub struct TimeSlot {
    pub item_name: String,
    pub scheduled_label: String,
    pub number: i32,
    pub start_time: i64,
    pub end_time: i64,
    pub api_code: String,
}

impl TimeSlot {
    /// A copy of this slot.
    pub fn duplicate(&self) -> (r: TimeSlot)
        ensures
            r == *self,
    {
        TimeSlot {
            item_name: self.item_name.clone(),
            scheduled_label: self.scheduled_label.clone(),
            number: self.number,
            start_time: self.start_time,
            end_time: self.end_time,
            api_code: self.api_code.clone(),
        }
    }
}

/// The outcome of one planned meeting, as reported to the form service.
#[derive(Debug, Clone)]
pub struct MeetingResult {
    pub meeting_id: Option<String>,
    pub merged: bool,
    pub room_name: String,
    pub time_slots: Vec<String>,
    pub success: bool,
}

/// The answer to a webhook call.
#[derive(Debug, Clone)]
pub struct WebhookResponse {
    pub success: bool,
    pub message: String,
    pub meetings_count: usize,
    pub meetings: Vec<MeetingResult>,
}

/// A canned answer of the development endpoints.
#[derive(Debug, Clone)]
pub struct TestMeetingResponse {
    pub id: String,
    pub name: String,
    pub status: String,
    pub message: String,
}

/// An upstream identity: a display name and its user id.
#[derive(Debug, Clone)]
pub struct Operator {
    pub name: String,
    pub id: String,
}

impl Operator {
    /// A copy of this operator.
    pub fn duplicate(&self) -> (r: Operator)
        ensures
            r == *self,
    {
        Operator { name: self.name.clone(), id: self.id.clone() }
    }
}

/// Paging of the room listing.
#[derive(Debug, Clone)]
pub struct PaginationParams {
    pub page: usize,
    pub page_size: usize,
}

/// The page asked for when none is given.
pub fn default_page() -> (r: usize)
    ensures
        r == 1,
{
    1
}

/// The page size asked for when none is given.
pub fn default_page_size() -> (r: usize)
    ensures
        r == 20,
{
    20
}

impl PaginationParams {
    /// Paging with both values at their defaults.
    pub fn defaults() -> (r: PaginationParams)
        ensures
            r.page == 1,
            r.page_size == 20,
    {
        PaginationParams { page: default_page(), page_size: default_page_size() }
    }
}

} // verus!

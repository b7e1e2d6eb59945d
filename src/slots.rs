//! The slot parser: from a raw form entry to a `TimeSlot` with absolute instants.
use vstd::prelude::*;
use crate::instant::{in_instant_range, now_seconds, parse_rfc3339, rfc3339_seconds, MAX_INSTANT};
use crate::models::{FormField1Item, TimeSlot};
use crate::text::{after_field, after_of, decimal_i64, head_field, head_of, parse_i64};

verus! {

/// Why a raw slot entry gives no `TimeSlot`.
#[derive(PartialEq, Eq, Structural, Debug, Clone, Copy)]
pub enum SlotError {
    /// `scheduled_at` is not RFC 3339 text.
    InvalidScheduledAt,
    /// The slot starts and ends before now.
    PastSlot,
    /// The slot ends outside the range of representable dates.
    OutOfRange,
    /// The clock reads a time outside the range of representable dates.
    ClockOutOfRange,
}

impl SlotError {
    /// A human-readable account of the error.
    pub fn message(&self) -> (r: String)
        ensures
            *self == SlotError::PastSlot ==> r@ == "Time slot is entirely in the past. Cannot create a meeting for past times."@,
    {
        match self {
            SlotError::InvalidScheduledAt => String::from_str("Failed to parse scheduled_at time"),
            SlotError::PastSlot => String::from_str(
                "Time slot is entirely in the past. Cannot create a meeting for past times.",
            ),
            SlotError::OutOfRange => String::from_str("Time slot ends outside the supported range of dates"),
            SlotError::ClockOutOfRange => String::from_str("The clock reads outside the supported range of dates"),
        }
    }
}

/// A parsed integer, or 0 where the text is no integer.
pub open spec fn int_or_zero(s: Seq<char>) -> int {
    match decimal_i64(s) {
        Some(v) => v,
        None => 0,
    }
}

/// Hour and minute of an `HH:MM` text; a part that is no integer counts as 0.
pub open spec fn clock_value(t: Seq<char>) -> (int, int) {
    let hour = int_or_zero(head_field(t, ':'));
    let minute = match after_field(t, ':') {
        Some(rest) => int_or_zero(head_field(rest, ':')),
        None => 0,
    };
    (hour, minute)
}

/// Minutes from `start` to `end` on a 24-hour clock; an end before the start
/// lies on the next day.
pub open spec fn span_minutes(s: int, e: int) -> int {
    if e >= s {
        e - s
    } else {
        1440 + e - s
    }
}

/// Length in minutes of the slot that a label `DATE HH:MM-HH:MM` describes;
/// 60 where the label has no time range.
pub open spec fn label_duration(label: Seq<char>) -> int {
    match after_field(label, ' ') {
        None => 60,
        Some(rest) => {
            let range = head_field(rest, ' ');
            match after_field(range, '-') {
                None => 60,
                Some(tail) => {
                    let st = clock_value(head_field(range, '-'));
                    let en = clock_value(head_field(tail, '-'));
                    span_minutes(st.0 * 60 + st.1, en.0 * 60 + en.1)
                },
            }
        },
    }
}

/// Both instants of a slot lie in the representable range.
pub open spec fn slot_in_range(s: TimeSlot) -> bool {
    in_instant_range(s.start_time as int) && in_instant_range(s.end_time as int)
}

/// The slot of an entry with the given instants.
pub open spec fn slot_with(item: FormField1Item, start: int, end: int) -> TimeSlot {
    TimeSlot {
        item_name: item.item_name,
        scheduled_label: item.scheduled_label,
        number: item.number,
        start_time: start as i64,
        end_time: end as i64,
        api_code: item.api_code,
    }
}

/// The slot of an entry whose start has been read as `start`, at time `now`:
/// the end follows from the label; a slot entirely in the past is refused; a
/// slot already under way starts two minutes from now and keeps its end.
pub open spec fn slot_from_start(item: FormField1Item, start: int, now: int) -> Result<TimeSlot, SlotError> {
    let end = start + 60 * label_duration(item.scheduled_label@);
    if !in_instant_range(end) {
        Err(SlotError::OutOfRange)
    } else if start < now && end < now {
        Err(SlotError::PastSlot)
    } else if start < now {
        Ok(slot_with(item, now + 120, end))
    } else {
        Ok(slot_with(item, start, end))
    }
}

/// The slot of an entry at time `now`; a clock reading outside the
/// supported range of dates gives no slot.
pub open spec fn parse_outcome(item: FormField1Item, now: int) -> Result<TimeSlot, SlotError> {
    if !clock_in_range(now) {
        Err(SlotError::ClockOutOfRange)
    } else {
        parse_from_clock(item, now)
    }
}

/// The slot of an entry at a time `now` within the supported range.
pub open spec fn parse_from_clock(item: FormField1Item, now: int) -> Result<TimeSlot, SlotError> {
    match rfc3339_seconds(item.scheduled_at@) {
        None => Err(SlotError::InvalidScheduledAt),
        Some(start) => slot_from_start(item, start, now),
    }
}

/// The clock readings for which parsing is defined.
pub open spec fn clock_in_range(now: int) -> bool {
    -MAX_INSTANT <= now <= MAX_INSTANT - 120
}

fn int_or_zero_of(s: &str) -> (r: i64)
    ensures
        r as int == int_or_zero(s@),
{
    match parse_i64(s) {
        Some(v) => v,
        None => 0,
    }
}

/// Hour and minute of an `HH:MM` text.
pub fn clock_of(t: &str) -> (r: (i64, i64))
    ensures
        (r.0 as int, r.1 as int) == clock_value(t@),
{
    let h = head_of(t, ':');
    let hour = int_or_zero_of(h.as_str());
    let minute = match after_of(t, ':') {
        Some(rest) => {
            let m = head_of(rest.as_str(), ':');
            int_or_zero_of(m.as_str())
        },
        None => 0,
    };
    (hour, minute)
}

/// Length in minutes of the slot that a label describes.
pub fn duration_minutes(label: &str) -> (r: i128)
    ensures
        r as int == label_duration(label@),
{
    match after_of(label, ' ') {
        None => 60,
        Some(rest) => {
            let range = head_of(rest.as_str(), ' ');
            match after_of(range.as_str(), '-') {
                None => 60,
                Some(tail) => {
                    let first = head_of(range.as_str(), '-');
                    let second = head_of(tail.as_str(), '-');
                    let st = clock_of(first.as_str());
                    let en = clock_of(second.as_str());
                    let s: i128 = st.0 as i128 * 60 + st.1 as i128;
                    let e: i128 = en.0 as i128 * 60 + en.1 as i128;
                    if e >= s {
                        e - s
                    } else {
                        1440 + e - s
                    }
                },
            }
        },
    }
}

fn slot_of(item: &FormField1Item, start: i64, end: i64) -> (r: TimeSlot)
    ensures
        r == slot_with(*item, start as int, end as int),
{
    TimeSlot {
        item_name: item.item_name.clone(),
        scheduled_label: item.scheduled_label.clone(),
        number: item.number,
        start_time: start,
        end_time: end,
        api_code: item.api_code.clone(),
    }
}

/// The slot of an entry whose `scheduled_at` has been read as `start`, at
/// time `now`.
pub fn slot_from_parsed_start(item: &FormField1Item, start: i64, now: i64) -> (r: Result<TimeSlot, SlotError>)
    requires
        in_instant_range(start as int),
        clock_in_range(now as int),
    ensures
        r == slot_from_start(*item, start as int, now as int),
        r is Ok ==> slot_in_range(r->Ok_0),
{
    let d = duration_minutes(item.scheduled_label.as_str());
    if d > 1_000_000_000_000_000 || d < -1_000_000_000_000_000 {
        return Err(SlotError::OutOfRange);
    }
    let end: i128 = start as i128 + 60 * d;
    if end > MAX_INSTANT as i128 || end < -(MAX_INSTANT as i128) {
        return Err(SlotError::OutOfRange);
    }
    let end = end as i64;
    if start < now && end < now {
        Err(SlotError::PastSlot)
    } else if start < now {
        Ok(slot_of(item, now + 120, end))
    } else {
        Ok(slot_of(item, start, end))
    }
}

/// Parses a raw slot entry at time `now`.
pub fn parse_time_slot_at(item: &FormField1Item, now: i64) -> (r: Result<TimeSlot, SlotError>)
    ensures
        r == parse_outcome(*item, now as int),
        r is Ok ==> slot_in_range(r->Ok_0),
{
    if now < -MAX_INSTANT || now > MAX_INSTANT - 120 {
        return Err(SlotError::ClockOutOfRange);
    }
    match parse_rfc3339(item.scheduled_at.as_str()) {
        None => Err(SlotError::InvalidScheduledAt),
        Some(start) => slot_from_parsed_start(item, start, now),
    }
}

/// Parses a raw slot entry at the current time.
pub fn parse_time_slot(item: &FormField1Item) -> (r: Result<TimeSlot, SlotError>)
    ensures
        exists|now: int| i64::MIN <= now <= i64::MAX && r == parse_outcome(*item, now),
        r is Ok ==> slot_in_range(r->Ok_0),
{
    let now = now_seconds();
    parse_time_slot_at(item, now)
}

} // verus!

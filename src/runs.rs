//! What a planned run means for the rest of the pipeline: its merged label,
//! the physical room and location that a form selects, and the operator
//! that authors the upstream calls.
use vstd::prelude::*;
use crate::client::{resolve_operator, TencentMeetingClient};
use crate::models::FormSubmission;
use crate::text::{after_field, after_of, head_field, head_of};

verus! {

/// Label of a run from its first and last slot labels:
/// `DATE FIRST_START-LAST_END`, a missing part left empty.
pub open spec fn merged_label_spec(first: Seq<char>, last: Seq<char>) -> Seq<char> {
    let date = head_field(first, ' ');
    let start = match after_field(first, ' ') {
        Some(r) => head_field(head_field(r, ' '), '-'),
        None => Seq::empty(),
    };
    let end = match after_field(last, ' ') {
        Some(r) => match after_field(head_field(r, ' '), '-') {
            Some(t) => head_field(t, '-'),
            None => Seq::empty(),
        },
        None => Seq::empty(),
    };
    date + " "@ + start + "-"@ + end
}

/// The label of a run whose first and last slots carry these labels.
pub fn merged_label(first: &str, last: &str) -> (r: String)
    ensures
        r@ == merged_label_spec(first@, last@),
{
    let date = head_of(first, ' ');
    let start = match after_of(first, ' ') {
        Some(r) => {
            let range = head_of(r.as_str(), ' ');
            head_of(range.as_str(), '-')
        },
        None => String::new(),
    };
    let end = match after_of(last, ' ') {
        Some(r) => {
            let range = head_of(r.as_str(), ' ');
            match after_of(range.as_str(), '-') {
                Some(t) => head_of(t.as_str(), '-'),
                None => String::new(),
            }
        },
        None => String::new(),
    };
    let mut s = date;
    s.append(" ");
    s.append(start.as_str());
    s.append("-");
    s.append(end.as_str());
    proof {
        reveal_strlit(" ");
        reveal_strlit("-");
    }
    s
}

/// The Xi'an reservation form.
pub open spec fn xa_form() -> Seq<char> {
    "西安会议室预约"@
}

/// The Chengdu reservation form.
pub open spec fn cd_form() -> Seq<char> {
    "成都会议室预约"@
}

/// The physical room id that a form selects; an unknown form falls back to
/// the Xi'an room.
pub open spec fn room_id_for(form_name: Seq<char>, xa: Seq<char>, cd: Seq<char>) -> Seq<char> {
    if form_name == cd_form() {
        cd
    } else {
        xa
    }
}

/// The location text of a meeting that a form books.
pub open spec fn location_for(form_name: Seq<char>, room: Seq<char>) -> Seq<char> {
    if form_name == xa_form() {
        "西安-大会议室"@
    } else if form_name == cd_form() {
        "成都-天府广场"@
    } else {
        room + " (Unknown Location)"@
    }
}

/// The physical room id that a form selects.
pub fn get_room_id_for_form(form_name: &str, xa_room_id: &str, cd_room_id: &str) -> (r: String)
    ensures
        r@ == room_id_for(form_name@, xa_room_id@, cd_room_id@),
{
    proof {
        reveal_strlit("西安会议室预约");
        reveal_strlit("成都会议室预约");
        assert(xa_form()[0] != cd_form()[0]);
    }
    let name = String::from_str(form_name);
    if name == String::from_str("西安会议室预约") {
        String::from_str(xa_room_id)
    } else if name == String::from_str("成都会议室预约") {
        String::from_str(cd_room_id)
    } else {
        String::from_str(xa_room_id)
    }
}

/// The location text of a meeting booked through a form for a room.
pub fn get_location_for_form(form_name: &str, room_name: &str) -> (r: String)
    ensures
        r@ == location_for(form_name@, room_name@),
{
    let name = String::from_str(form_name);
    if name == String::from_str("西安会议室预约") {
        String::from_str("西安-大会议室")
    } else if name == String::from_str("成都会议室预约") {
        String::from_str("成都-天府广场")
    } else {
        proof {
            reveal_strlit(" (Unknown Location)");
        }
        String::from_str(room_name).concat(" (Unknown Location)")
    }
}

/// The value of the first field named `key`.
pub open spec fn field_value(fields: Seq<(String, String)>, key: Seq<char>) -> Option<Seq<char>>
    decreases fields.len(),
{
    if fields.len() == 0 {
        None
    } else if fields[0].0@ == key {
        Some(fields[0].1@)
    } else {
        field_value(fields.drop_first(), key)
    }
}

/// The operator name that a submission carries in the named field, or
/// `default` where the field is missing.
pub open spec fn operator_name_of(form: FormSubmission, user_field_name: Seq<char>) -> Seq<char> {
    match field_value(form.entry.extra_fields@, user_field_name) {
        Some(v) => v,
        None => "default"@,
    }
}

/// The value of the first field named `key`.
pub fn lookup_field(fields: &Vec<(String, String)>, key: &str) -> (r: Option<String>)
    ensures
        match r {
            Some(v) => field_value(fields@, key@) == Some(v@),
            None => field_value(fields@, key@) is None,
        },
{
    let k = String::from_str(key);
    let mut i: usize = 0;
    assert(fields@.subrange(0, fields@.len() as int) =~= fields@);
    while i < fields.len()
        invariant
            i <= fields@.len(),
            k@ == key@,
            field_value(fields@, key@) == field_value(fields@.subrange(i as int, fields@.len() as int), key@),
        decreases fields@.len() - i,
    {
        let ghost rest = fields@.subrange(i as int, fields@.len() as int);
        assert(rest[0] == fields@[i as int]);
        if fields[i].0 == k {
            return Some(fields[i].1.clone());
        }
        assert(rest.drop_first() =~= fields@.subrange(i as int + 1, fields@.len() as int));
        i = i + 1;
    }
    None
}

/// The operator of a submission: its name from the configured field, and
/// the id the registry resolves it to.
pub fn get_operator_info(client: &TencentMeetingClient, form: &FormSubmission, user_field_name: &str) -> (r: (String, String))
    ensures
        r.0@ == operator_name_of(*form, user_field_name@),
        r.1@ == resolve_operator(client.operators_view(), r.0@, client.default_id()),
{
    let name = match lookup_field(&form.entry.extra_fields, user_field_name) {
        Some(v) => v,
        None => {
            proof {
                reveal_strlit("default");
            }
            String::from_str("default")
        },
    };
    let id = client.get_operator_id_by_name(name.as_str());
    (name, id)
}

} // verus!

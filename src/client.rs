//! The upstream client's own logic: request and response values, the operator
//! registry, request signing, the standard header set and request paths.
//! Sending requests is left to the caller.
use vstd::prelude::*;
use crate::auth::{signature_of, TencentAuth};
use crate::models::Operator;
use crate::text::{
    dec_digits, eq_ignore_ascii_case, eq_ignore_ascii_case_spec, i64_text, int_text, split_all,
    split_fields, trim_text, trimmed, u64_text,
};

verus! {

/// An error reported by or about the upstream API.
#[derive(Debug, Clone)]
pub struct TencentApiError {
    pub message: String,
}

impl TencentApiError {
    /// The error's text, prefixed as the upstream client reports it.
    pub fn describe(&self) -> (r: String)
        ensures
            r@ == "Tencent API Error: "@ + self.message@,
    {
        String::from_str("Tencent API Error: ").concat(self.message.as_str())
    }
}

/// One meeting room of the upstream listing.
#[derive(Debug, Clone)]
pub struct MeetingRoomItem {
    pub meeting_room_id: String,
    pub meeting_room_name: String,
    pub meeting_room_location: String,
    pub account_new_type: i32,
    pub account_type: i32,
    pub active_code: String,
    pub participant_number: i32,
    pub meeting_room_status: i32,
    pub scheduled_status: i32,
    pub is_allow_call: bool,
}

impl MeetingRoomItem {
    /// A copy of this room.
    pub fn duplicate(&self) -> (r: MeetingRoomItem)
        ensures
            r == *self,
    {
        MeetingRoomItem {
            meeting_room_id: self.meeting_room_id.clone(),
            meeting_room_name: self.meeting_room_name.clone(),
            meeting_room_location: self.meeting_room_location.clone(),
            account_new_type: self.account_new_type,
            account_type: self.account_type,
            active_code: self.active_code.clone(),
            participant_number: self.participant_number,
            meeting_room_status: self.meeting_room_status,
            scheduled_status: self.scheduled_status,
            is_allow_call: self.is_allow_call,
        }
    }
}

/// A page of the upstream room listing.
#[derive(Debug, Clone)]
pub struct MeetingRoomsResponse {
    pub total_count: i32,
    pub current_size: i32,
    pub current_page: i32,
    pub total_page: i32,
    pub meeting_room_list: Vec<MeetingRoomItem>,
}

/// A user of a meeting.
#[derive(Debug, Clone)]
pub struct User {
    pub userid: String,
    pub is_anonymous: Option<bool>,
    pub nick_name: Option<String>,
}

/// A guest of a meeting, reached by phone.
#[derive(Debug, Clone)]
pub struct Guest {
    pub area: String,
    pub phone_number: String,
    pub guest_name: Option<String>,
}

/// Optional settings of a meeting.
#[derive(Debug, Clone)]
pub struct MeetingSettings {
    pub mute_enable_type_join: Option<i32>,
    pub mute_enable_join: Option<bool>,
    pub allow_unmute_self: Option<bool>,
    pub play_ivr_on_leave: Option<bool>,
    pub play_ivr_on_join: Option<bool>,
    pub allow_in_before_host: Option<bool>,
    pub auto_in_waiting_room: Option<bool>,
    pub allow_screen_shared_watermark: Option<bool>,
    pub water_mark_type: Option<i32>,
    pub only_enterprise_user_allowed: Option<bool>,
    pub only_user_join_type: Option<i32>,
    pub auto_record_type: Option<String>,
    pub participant_join_auto_record: Option<bool>,
    pub enable_host_pause_auto_record: Option<bool>,
    pub allow_multi_device: Option<bool>,
    pub change_nickname: Option<i32>,
}

/// How a meeting recurs.
#[derive(Debug, Clone)]
pub struct RecurringRule {
    pub recurring_type: Option<i32>,
    pub until_type: Option<i32>,
    pub until_date: Option<i64>,
    pub until_count: Option<i32>,
    pub customized_recurring_type: Option<i32>,
    pub customized_recurring_step: Option<i32>,
    pub customized_recurring_days: Option<i32>,
}

/// Watermark of a live stream.
#[derive(Debug, Clone)]
pub struct LiveWatermark {
    pub watermark_opt: Option<i32>,
}

/// Live-stream settings of a meeting.
#[derive(Debug, Clone)]
pub struct LiveConfig {
    pub live_subject: Option<String>,
    pub live_summary: Option<String>,
    pub enable_live_password: Option<bool>,
    pub live_password: Option<String>,
    pub enable_live_im: Option<bool>,
    pub enable_live_replay: Option<bool>,
    pub live_watermark: Option<LiveWatermark>,
    pub live_addr: Option<String>,
}

/// The body of a meeting creation. `schedule_kind` travels under the JSON
/// key `type`; every `None` field is left out of the JSON.
#[derive(Debug, Clone)]
pub struct CreateMeetingRequest {
    pub userid: String,
    pub instanceid: i32,
    pub subject: String,
    pub schedule_kind: i32,
    pub hosts: Option<Vec<User>>,
    pub guests: Option<Vec<Guest>>,
    pub invitees: Option<Vec<User>>,
    pub start_time: String,
    pub end_time: String,
    pub password: Option<String>,
    pub settings: Option<MeetingSettings>,
    pub meeting_type: Option<i32>,
    pub recurring_rule: Option<RecurringRule>,
    pub enable_live: Option<bool>,
    pub live_config: Option<LiveConfig>,
    pub enable_doc_upload_permission: Option<bool>,
    pub media_set_type: Option<i32>,
    pub enable_interpreter: Option<bool>,
    pub enable_enroll: Option<bool>,
    pub enable_host_key: Option<bool>,
    pub host_key: Option<String>,
    pub sync_to_wework: Option<bool>,
    pub time_zone: Option<String>,
    pub location: Option<String>,
    pub allow_enterprise_intranet_only: Option<bool>,
}

/// One created meeting as the upstream API describes it.
#[derive(Debug, Clone)]
pub struct MeetingInfo {
    pub subject: String,
    pub meeting_id: String,
    pub meeting_code: String,
    pub password: Option<String>,
    pub hosts: Option<Vec<User>>,
    pub participants: Option<Vec<User>>,
    pub user_non_registered: Option<Vec<String>>,
    pub start_time: String,
    pub end_time: String,
    pub join_url: Option<String>,
    pub settings: Option<MeetingSettings>,
    pub enable_live: Option<bool>,
    pub live_config: Option<LiveConfig>,
    pub host_key: Option<String>,
}

/// The answer to a meeting creation.
#[derive(Debug, Clone)]
pub struct CreateMeetingResponse {
    pub meeting_number: i32,
    pub meeting_info_list: Vec<MeetingInfo>,
}

/// The body of a meeting cancellation.
#[derive(Debug, Clone)]
pub struct CancelMeetingRequest {
    pub userid: String,
    pub instanceid: i32,
    pub reason_code: i32,
    pub meeting_type: Option<i32>,
    pub sub_meeting_id: Option<String>,
    pub reason_detail: Option<String>,
}

/// The body of a room booking.
#[derive(Debug, Clone)]
pub struct BookRoomsRequest {
    pub operator_id: String,
    pub operator_id_type: i32,
    pub meeting_room_id_list: Vec<String>,
    pub subject_visible: Option<bool>,
}

/// The body of a room release.
#[derive(Debug, Clone)]
pub struct ReleaseRoomsRequest {
    pub operator_id: String,
    pub operator_id_type: i32,
    pub meeting_room_id_list: Vec<String>,
}

/// A request ready to send: full URL, headers in order, and body.
#[derive(Debug, Clone)]
pub struct SignedRequest {
    pub url: String,
    pub headers: Vec<(String, String)>,
    pub body: String,
}

/// An operator as a pair of name and id.
pub open spec fn operator_view(o: Operator) -> (Seq<char>, Seq<char>) {
    (o.name@, o.id@)
}

/// The operator that one comma-separated piece names, if it is `name:id`.
pub open spec fn operator_pair(piece: Seq<char>) -> Option<(Seq<char>, Seq<char>)> {
    let parts = split_fields(trimmed(piece), ':');
    if parts.len() == 2 {
        Some((trimmed(parts[0]), trimmed(parts[1])))
    } else {
        None
    }
}

/// The operators that a list of pieces names, malformed pieces skipped.
pub open spec fn operator_pairs(pieces: Seq<Seq<char>>) -> Seq<(Seq<char>, Seq<char>)>
    decreases pieces.len(),
{
    if pieces.len() == 0 {
        Seq::empty()
    } else {
        operator_pairs(pieces.drop_last()) + match operator_pair(pieces.last()) {
            Some(p) => seq![p],
            None => Seq::empty(),
        }
    }
}

/// The registry that a `name:id,name:id` setting describes; an absent
/// setting, or one of only whitespace, gives the single operator
/// `admin:admin`.
pub open spec fn operators_from(setting: Option<Seq<char>>) -> Seq<(Seq<char>, Seq<char>)> {
    match setting {
        Some(s) => if trimmed(s).len() > 0 {
            operator_pairs(split_fields(s, ','))
        } else {
            seq![("admin"@, "admin"@)]
        },
        None => seq![("admin"@, "admin"@)],
    }
}

/// The id that a name resolves to: the first operator whose name matches
/// without regard to ASCII case, else the default.
pub open spec fn resolve_operator(ops: Seq<(Seq<char>, Seq<char>)>, name: Seq<char>, default: Seq<char>) -> Seq<char>
    decreases ops.len(),
{
    if ops.len() == 0 {
        default
    } else if eq_ignore_ascii_case_spec(ops[0].0, name) {
        ops[0].1
    } else {
        resolve_operator(ops.drop_first(), name, default)
    }
}

/// The default id of a registry: the first operator's, else `admin`.
pub open spec fn default_operator_of(ops: Seq<(Seq<char>, Seq<char>)>) -> Seq<char> {
    if ops.len() > 0 {
        ops[0].1
    } else {
        "admin"@
    }
}

/// The standard header set of every upstream request.
pub open spec fn standard_headers(
    secret_id: Seq<char>,
    app_id: Seq<char>,
    sdk_id: Seq<char>,
    timestamp: int,
    nonce: Seq<char>,
    signature: Seq<char>,
) -> Seq<(Seq<char>, Seq<char>)> {
    seq![
        ("Content-Type"@, "application/json"@),
        ("X-TC-Key"@, secret_id),
        ("X-TC-Timestamp"@, int_text(timestamp)),
        ("X-TC-Nonce"@, nonce),
        ("X-TC-Signature"@, signature),
        ("AppId"@, app_id),
        ("X-TC-Registered"@, "1"@),
    ] + if sdk_id.len() > 0 {
        seq![("SdkId"@, sdk_id)]
    } else {
        Seq::empty()
    }
}

/// Headers as pairs of texts.
pub open spec fn headers_view(h: Seq<(String, String)>) -> Seq<(Seq<char>, Seq<char>)> {
    h.map_values(|p: (String, String)| (p.0@, p.1@))
}

/// Parses a `name:id,name:id` operator setting.
pub fn parse_operators(setting: Option<&str>) -> (r: Vec<Operator>)
    ensures
        r@.map_values(|o: Operator| operator_view(o)) == operators_from(
            match setting {
                Some(s) => Some(s@),
                None => None,
            },
        ),
{
    proof {
        reveal_strlit("admin");
    }
    let mut out: Vec<Operator> = Vec::new();
    let s = match setting {
        None => {
            out.push(Operator { name: String::from_str("admin"), id: String::from_str("admin") });
            assert(out@.map_values(|o: Operator| operator_view(o)) =~= seq![("admin"@, "admin"@)]);
            return out;
        },
        Some(s) => s,
    };
    let whole = trim_text(s);
    if whole.as_str().unicode_len() == 0 {
        out.push(Operator { name: String::from_str("admin"), id: String::from_str("admin") });
        assert(out@.map_values(|o: Operator| operator_view(o)) =~= seq![("admin"@, "admin"@)]);
        return out;
    }
    let pieces = split_all(s, ',');
    let ghost pv = pieces@.map_values(|t: String| t@);
    let mut i: usize = 0;
    while i < pieces.len()
        invariant
            0 <= i <= pieces@.len(),
            pv == pieces@.map_values(|t: String| t@),
            out@.map_values(|o: Operator| operator_view(o)) == operator_pairs(pv.subrange(0, i as int)),
        decreases pieces@.len() - i,
    {
        let ghost old_out = out@;
        let piece = trim_text(pieces[i].as_str());
        let parts = split_all(piece.as_str(), ':');
        proof {
            assert(pv.subrange(0, i as int + 1).drop_last() =~= pv.subrange(0, i as int));
            assert(parts@.map_values(|t: String| t@).len() == parts@.len());
        }
        if parts.len() == 2 {
            let name = trim_text(parts[0].as_str());
            let id = trim_text(parts[1].as_str());
            proof {
                assert(parts@.map_values(|t: String| t@)[0] == parts@[0]@);
                assert(parts@.map_values(|t: String| t@)[1] == parts@[1]@);
            }
            out.push(Operator { name, id });
            proof {
                assert(out@.map_values(|o: Operator| operator_view(o)) =~= old_out.map_values(|o: Operator| operator_view(o)) + seq![operator_pair(pv[i as int])->Some_0]);
            }
        } else {
            proof {
                assert(out@.map_values(|o: Operator| operator_view(o)) =~= old_out.map_values(|o: Operator| operator_view(o)) + Seq::<(Seq<char>, Seq<char>)>::empty());
            }
        }
        i = i + 1;
    }
    proof {
        assert(pv.subrange(0, pieces@.len() as int) =~= pv);
    }
    out
}

/// Client settings of the upstream API, with its operator registry.
#[derive(Debug)]
pub struct TencentMeetingClient {
    app_id: String,
    secret_id: String,
    secret_key: String,
    endpoint: String,
    sdk_id: String,
    operators: Vec<Operator>,
    default_operator_id: String,
}

impl TencentMeetingClient {
    /// The registry as pairs of name and id.
    pub closed spec fn operators_view(&self) -> Seq<(Seq<char>, Seq<char>)> {
        self.operators@.map_values(|o: Operator| operator_view(o))
    }

    /// The default operator id.
    pub closed spec fn default_id(&self) -> Seq<char> {
        self.default_operator_id@
    }

    /// The application id.
    pub closed spec fn app_id_view(&self) -> Seq<char> {
        self.app_id@
    }

    /// The secret id.
    pub closed spec fn secret_id_view(&self) -> Seq<char> {
        self.secret_id@
    }

    /// The secret key.
    pub closed spec fn secret_key_view(&self) -> Seq<char> {
        self.secret_key@
    }

    /// The base URL.
    pub closed spec fn endpoint_view(&self) -> Seq<char> {
        self.endpoint@
    }

    /// The SDK id; empty where none is configured.
    pub closed spec fn sdk_id_view(&self) -> Seq<char> {
        self.sdk_id@
    }

    /// The registry's default is its first operator's id, or `admin`.
    pub closed spec fn wf(&self) -> bool {
        self.default_operator_id@ == default_operator_of(self.operators_view())
    }

    /// A client from its settings: an absent endpoint is the public API, an
    /// absent SDK id is empty, and the operator setting is parsed as
    /// `parse_operators` does.
    pub fn new(
        app_id: String,
        secret_id: String,
        secret_key: String,
        endpoint: Option<String>,
        sdk_id: Option<String>,
        operator_setting: Option<String>,
    ) -> (r: TencentMeetingClient)
        ensures
            r.wf(),
            r.app_id_view() == app_id@,
            r.secret_id_view() == secret_id@,
            r.secret_key_view() == secret_key@,
            r.endpoint_view() == match endpoint {
                Some(e) => e@,
                None => "https://api.meeting.qq.com"@,
            },
            r.sdk_id_view() == match sdk_id {
                Some(s) => s@,
                None => Seq::<char>::empty(),
            },
            r.operators_view() == operators_from(
                match operator_setting {
                    Some(s) => Some(s@),
                    None => None,
                },
            ),
    {
        let operators = match &operator_setting {
            Some(s) => parse_operators(Some(s.as_str())),
            None => parse_operators(None),
        };
        proof {
            reveal_strlit("admin");
            assert(operators@.len() > 0 ==> operators@.map_values(|o: Operator| operator_view(o))[0] == operator_view(operators@[0]));
        }
        let default_operator_id = if operators.len() > 0 {
            operators[0].id.clone()
        } else {
            String::from_str("admin")
        };
        let endpoint = match endpoint {
            Some(e) => e,
            None => String::from_str("https://api.meeting.qq.com"),
        };
        let sdk_id = match sdk_id {
            Some(s) => s,
            None => String::new(),
        };
        TencentMeetingClient { app_id, secret_id, secret_key, endpoint, sdk_id, operators, default_operator_id }
    }

    /// The id of the operator named `name`, ignoring ASCII case; the default
    /// id where no operator has that name.
    pub fn get_operator_id_by_name(&self, name: &str) -> (r: String)
        ensures
            r@ == resolve_operator(self.operators_view(), name@, self.default_id()),
    {
        let ghost ops = self.operators_view();
        assert(ops.subrange(0, ops.len() as int) =~= ops);
        let mut i: usize = 0;
        while i < self.operators.len()
            invariant
                0 <= i <= self.operators@.len(),
                ops == self.operators_view(),
                resolve_operator(ops, name@, self.default_id()) == resolve_operator(
                    ops.subrange(i as int, ops.len() as int),
                    name@,
                    self.default_id(),
                ),
            decreases self.operators@.len() - i,
        {
            let ghost rest = ops.subrange(i as int, ops.len() as int);
            assert(rest[0] == operator_view(self.operators@[i as int]));
            if eq_ignore_ascii_case(self.operators[i].name.as_str(), name) {
                return self.operators[i].id.clone();
            }
            assert(rest.drop_first() =~= ops.subrange(i as int + 1, ops.len() as int));
            i = i + 1;
        }
        self.default_operator_id.clone()
    }

    /// The default operator id.
    pub fn get_operator_id(&self) -> (r: &str)
        ensures
            r@ == self.default_id(),
    {
        self.default_operator_id.as_str()
    }

    /// All registered operators, in the order of the setting.
    pub fn get_operators(&self) -> (r: &[Operator])
        ensures
            r@.map_values(|o: Operator| operator_view(o)) == self.operators_view(),
    {
        self.operators.as_slice()
    }

    /// The signature of a request under this client's credentials.
    pub fn generate_signature(&self, method: &str, uri: &str, timestamp: i64, nonce: &str, body: &str) -> (r: String)
        ensures
            r@ == signature_of(self.secret_id_view(), self.secret_key_view(), method@, uri@, timestamp as int, nonce@, body@),
    {
        TencentAuth::generate_signature(
            self.secret_id.as_str(),
            self.secret_key.as_str(),
            method,
            uri,
            timestamp,
            nonce,
            body,
        )
    }

    /// The standard header set for a request with the given freshness
    /// values and signature.
    pub fn request_headers(&self, timestamp: i64, nonce: &str, signature: &str) -> (r: Vec<(String, String)>)
        ensures
            headers_view(r@) == standard_headers(
                self.secret_id_view(),
                self.app_id_view(),
                self.sdk_id_view(),
                timestamp as int,
                nonce@,
                signature@,
            ),
    {
        proof {
            reveal_strlit("Content-Type");
            reveal_strlit("application/json");
            reveal_strlit("X-TC-Key");
            reveal_strlit("X-TC-Timestamp");
            reveal_strlit("X-TC-Nonce");
            reveal_strlit("X-TC-Signature");
            reveal_strlit("AppId");
            reveal_strlit("X-TC-Registered");
            reveal_strlit("1");
            reveal_strlit("SdkId");
        }
        let mut h: Vec<(String, String)> = Vec::new();
        h.push((String::from_str("Content-Type"), String::from_str("application/json")));
        h.push((String::from_str("X-TC-Key"), self.secret_id.clone()));
        h.push((String::from_str("X-TC-Timestamp"), i64_text(timestamp)));
        h.push((String::from_str("X-TC-Nonce"), String::from_str(nonce)));
        h.push((String::from_str("X-TC-Signature"), String::from_str(signature)));
        h.push((String::from_str("AppId"), self.app_id.clone()));
        h.push((String::from_str("X-TC-Registered"), String::from_str("1")));
        if self.sdk_id.as_str().unicode_len() > 0 {
            h.push((String::from_str("SdkId"), self.sdk_id.clone()));
        }
        proof {
            assert(headers_view(h@) =~= standard_headers(
                self.secret_id_view(),
                self.app_id_view(),
                self.sdk_id_view(),
                timestamp as int,
                nonce@,
                signature@,
            ));
        }
        h
    }

    /// A request to `uri`, signed with the given freshness values: the full
    /// URL, the standard headers and the body.
    pub fn signed_request(&self, method: &str, uri: &str, body: &str, timestamp: i64, nonce: &str) -> (r: SignedRequest)
        ensures
            r.url@ == self.endpoint_view() + uri@,
            r.body@ == body@,
            headers_view(r.headers@) == standard_headers(
                self.secret_id_view(),
                self.app_id_view(),
                self.sdk_id_view(),
                timestamp as int,
                nonce@,
                signature_of(self.secret_id_view(), self.secret_key_view(), method@, uri@, timestamp as int, nonce@, body@),
            ),
    {
        let signature = self.generate_signature(method, uri, timestamp, nonce, body);
        let headers = self.request_headers(timestamp, nonce, signature.as_str());
        SignedRequest { url: self.endpoint.clone().concat(uri), headers, body: String::from_str(body) }
    }

    /// Path and query of the room listing.
    pub fn list_rooms_uri(&self, page: usize, page_size: usize) -> (r: String)
        ensures
            r@ == "/v1/meeting-rooms?page="@ + dec_digits(page as nat) + "&page_size="@ + dec_digits(page_size as nat)
                + "&operator_id="@ + self.default_id() + "&operator_id_type=1"@,
    {
        let mut s = String::from_str("/v1/meeting-rooms?page=");
        let p = u64_text(page as u64);
        s.append(p.as_str());
        s.append("&page_size=");
        let q = u64_text(page_size as u64);
        s.append(q.as_str());
        s.append("&operator_id=");
        s.append(self.default_operator_id.as_str());
        s.append("&operator_id_type=1");
        s
    }
}

/// Path of meeting creation.
pub fn create_meeting_uri() -> (r: String)
    ensures
        r@ == "/v1/meetings"@,
{
    String::from_str("/v1/meetings")
}

/// Path of an action on one meeting: `cancel`, `book-rooms` or `release-rooms`.
pub fn meeting_action_uri(meeting_id: &str, action: &str) -> (r: String)
    ensures
        r@ == "/v1/meetings/"@ + meeting_id@ + "/"@ + action@,
{
    let mut s = String::from_str("/v1/meetings/");
    s.append(meeting_id);
    s.append("/");
    s.append(action);
    s
}

} // verus!

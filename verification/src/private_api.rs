//! Events from the Messages helper, their parsed forms, and the helper's port.
use vstd::prelude::*;
use crate::json::{
    copy_entries, copy_json, entry_views, field_of, json_view, json_views, model_get, Json, JsonModel,
};
use crate::text::{
    chars_equal, chars_of, contains_seq, contains_seq_exec, push_all, split_chars, split_on,
    string_of, trim, trim_chars,
};

verus! {

/// Parsed typing event.
#[derive(Debug, Clone)]
pub struct TypingEvent {
    pub guid: String,
    pub is_typing: bool,
}

/// Parsed FaceTime call status.
#[derive(Debug, Clone, Copy, PartialEq, Eq, Structural)]
pub enum FaceTimeStatus {
    Unknown,
    Answered,
    Outgoing,
    Incoming,
    Disconnected,
}

/// The status a FaceTime `call_status` code denotes.
pub open spec fn facetime_status_of(val: int) -> FaceTimeStatus {
    if val == 1 {
        FaceTimeStatus::Answered
    } else if val == 3 {
        FaceTimeStatus::Outgoing
    } else if val == 4 {
        FaceTimeStatus::Incoming
    } else if val == 6 {
        FaceTimeStatus::Disconnected
    } else {
        FaceTimeStatus::Unknown
    }
}

/// The `call_status` code of each status.
pub open spec fn facetime_status_code(s: FaceTimeStatus) -> int {
    match s {
        FaceTimeStatus::Unknown => 0,
        FaceTimeStatus::Answered => 1,
        FaceTimeStatus::Outgoing => 3,
        FaceTimeStatus::Incoming => 4,
        FaceTimeStatus::Disconnected => 6,
    }
}

pub open spec fn facetime_status_name(s: FaceTimeStatus) -> Seq<char> {
    match s {
        FaceTimeStatus::Unknown => "unknown"@,
        FaceTimeStatus::Answered => "answered"@,
        FaceTimeStatus::Outgoing => "outgoing"@,
        FaceTimeStatus::Incoming => "incoming"@,
        FaceTimeStatus::Disconnected => "disconnected"@,
    }
}

impl FaceTimeStatus {
    pub fn from_i64(val: i64) -> (r: Self)
        ensures
            r == facetime_status_of(val as int),
    {
        match val {
            1 => Self::Answered,
            3 => Self::Outgoing,
            4 => Self::Incoming,
            6 => Self::Disconnected,
            _ => Self::Unknown,
        }
    }

    pub fn as_str(&self) -> (r: &'static str)
        ensures
            r@ == facetime_status_name(*self),
    {
        match self {
            Self::Unknown => "unknown",
            Self::Answered => "answered",
            Self::Outgoing => "outgoing",
            Self::Incoming => "incoming",
            Self::Disconnected => "disconnected",
        }
    }

    /// The `call_status` code of this status.
    pub fn code(&self) -> (r: i64)
        ensures
            r == facetime_status_code(*self),
    {
        match self {
            Self::Unknown => 0,
            Self::Answered => 1,
            Self::Outgoing => 3,
            Self::Incoming => 4,
            Self::Disconnected => 6,
        }
    }
}

/// Reading a status back from its code gives the status.
pub proof fn law_facetime_status_code_roundtrip(s: FaceTimeStatus)
    ensures
        facetime_status_of(facetime_status_code(s)) == s,
{
}

/// Parsed FaceTime call event.
#[derive(Debug, Clone)]
pub struct FaceTimeEvent {
    pub call_uuid: String,
    pub status: FaceTimeStatus,
    pub status_id: i64,
    pub address: String,
    pub ended_error: Option<String>,
    pub ended_reason: Option<String>,
    pub image_url: Option<String>,
    pub is_outgoing: bool,
    pub is_audio: bool,
    pub is_video: bool,
}

/// Transaction types.
#[derive(Debug, Clone, Copy, PartialEq, Eq, Structural)]
pub enum TransactionType {
    Chat,
    Message,
    Attachment,
    Handle,
    FindMy,
    Other,
}

/// Lowest port of the helper's TCP service (user id 501).
pub const MIN_PORT: u16 = 45670;

/// Highest port of the helper's TCP service.
pub const MAX_PORT: u16 = 65535;

/// The helper port for a user id: `45670 + (uid - 501)`, no lower than
/// `MIN_PORT` and no higher than `MAX_PORT`.
pub open spec fn port_of_uid(uid: int) -> int {
    let p = MIN_PORT as int + (if uid > 501 { uid - 501 } else { 0 });
    if p > MAX_PORT as int {
        MAX_PORT as int
    } else {
        p
    }
}

/// Calculate the Private API port for the given user id.
pub fn port_for_uid(uid: u32) -> (r: u16)
    requires
        uid <= u32::MAX - 45169,
    ensures
        r == port_of_uid(uid as int),
{
    let port: u32 = MIN_PORT as u32 + uid.saturating_sub(501);
    if port > MAX_PORT as u32 {
        MAX_PORT
    } else {
        port as u16
    }
}

// ---------------------------------------------------------------------------
// Raw events
// ---------------------------------------------------------------------------

/// An event or reply received from the helper.
#[derive(Debug)]
pub struct RawEvent {
    /// Event type (`ping`, `started-typing`, ...).
    pub event: Option<String>,
    /// Transaction id, on a reply to an action.
    pub transaction_id: Option<String>,
    /// Message or entity identifier returned in replies.
    pub identifier: Option<String>,
    /// Chat GUID (typing events).
    pub guid: Option<String>,
    /// Event payload.
    pub data: Option<Json>,
    /// Error message of a failed transaction.
    pub error: Option<String>,
    /// Process bundle identifier (ping events).
    pub process: Option<String>,
    /// The other top-level fields, each key once.
    pub extra: Vec<(String, Json)>,
}

/// The data of a reply: its `data` field when there is one, else its
/// other top-level fields as an object, else nothing.
pub open spec fn event_data(e: RawEvent) -> Option<JsonModel> {
    match e.data {
        Some(d) => Some(json_view(d)),
        None => if e.extra@.len() > 0 {
            Some(JsonModel::Object(entry_views(e.extra@)))
        } else {
            None
        },
    }
}

impl RawEvent {
    /// A reply to an action (it has a transaction id).
    pub fn is_transaction_response(&self) -> (r: bool)
        ensures
            r == self.transaction_id is Some,
    {
        self.transaction_id.is_some()
    }

    /// An event (it has an event type).
    pub fn is_event(&self) -> (r: bool)
        ensures
            r == self.event is Some,
    {
        self.event.is_some()
    }

    /// Extract the reply data: the explicit `data` field, or else the other
    /// top-level fields as an object.
    pub fn extract_data(&self) -> (r: Option<Json>)
        ensures
            match event_data(*self) {
                Some(m) => r matches Some(j) && json_view(j) == m,
                None => r is None,
            },
    {
        match &self.data {
            Some(d) => Some(copy_json(d)),
            None => {
                if self.extra.len() > 0 {
                    Some(Json::Object(copy_entries(&self.extra)))
                } else {
                    None
                }
            },
        }
    }
}

// ---------------------------------------------------------------------------
// Reading payload fields
// ---------------------------------------------------------------------------

/// Field `k` of a JSON object (nothing for other values).
pub open spec fn field(j: JsonModel, k: Seq<char>) -> Option<JsonModel> {
    match j {
        JsonModel::Object(f) => model_get(f, k),
        _ => None,
    }
}

/// A number that fits in `i64`.
pub open spec fn as_i64_model(j: Option<JsonModel>) -> Option<int> {
    match j {
        Some(JsonModel::Int(n)) => if i64::MIN <= n <= i64::MAX {
            Some(n)
        } else {
            None
        },
        _ => None,
    }
}

pub open spec fn as_text(j: Option<JsonModel>) -> Option<Seq<char>> {
    match j {
        Some(JsonModel::Str(s)) => Some(s),
        _ => None,
    }
}

/// A boolean field, false when absent or not a boolean.
pub open spec fn as_flag(j: Option<JsonModel>) -> bool {
    match j {
        Some(JsonModel::Bool(b)) => b,
        _ => false,
    }
}

pub open spec fn text_or_empty(o: Option<Seq<char>>) -> Seq<char> {
    match o {
        Some(s) => s,
        None => Seq::empty(),
    }
}

pub open spec fn opt_seq(o: Option<String>) -> Option<Seq<char>> {
    match o {
        Some(s) => Some(s@),
        None => None,
    }
}

fn get_field<'a>(j: &'a Json, k: &str) -> (r: Option<&'a Json>)
    ensures
        match field(json_view(*j), k@) {
            Some(m) => r matches Some(x) && json_view(*x) == m,
            None => r is None,
        },
{
    match j {
        Json::Object(f) => field_of(f, k),
        _ => None,
    }
}

fn i64_of(j: Option<&Json>) -> (r: Option<i64>)
    ensures
        match as_i64_model(
            match j {
                Some(x) => Some(json_view(*x)),
                None => None,
            },
        ) {
            Some(n) => r == Some(n as i64),
            None => r is None,
        },
{
    match j {
        Some(Json::Int(n)) => Some(*n),
        Some(Json::Uint(n)) => if *n <= i64::MAX as u64 {
            Some(*n as i64)
        } else {
            None
        },
        _ => None,
    }
}

fn text_of(j: Option<&Json>) -> (r: Option<String>)
    ensures
        opt_seq(r) == as_text(
            match j {
                Some(x) => Some(json_view(*x)),
                None => None,
            },
        ),
{
    match j {
        Some(Json::Str(s)) => Some(s.clone()),
        _ => None,
    }
}

fn flag_of(j: Option<&Json>) -> (r: bool)
    ensures
        r == as_flag(
            match j {
                Some(x) => Some(json_view(*x)),
                None => None,
            },
        ),
{
    match j {
        Some(Json::Bool(b)) => *b,
        _ => false,
    }
}

// ---------------------------------------------------------------------------
// Parsed events
// ---------------------------------------------------------------------------

/// A typing event: its chat and whether typing started, for a
/// one-to-one chat (group GUIDs hold `;+;`).
pub open spec fn typing_of(e: RawEvent) -> Option<(Seq<char>, bool)> {
    match (e.event, e.guid) {
        (Some(ev), Some(g)) => if contains_seq(g@, seq![';', '+', ';']) {
            None
        } else {
            Some((g@, ev@ == "started-typing"@ || ev@ == "typing"@))
        },
        _ => None,
    }
}

/// Parse a typing event from a raw event.
pub fn parse_typing_event(raw: &RawEvent) -> (r: Option<TypingEvent>)
    ensures
        match typing_of(*raw) {
            Some((g, t)) => r matches Some(te) && te.guid@ == g && te.is_typing == t,
            None => r is None,
        },
{
    let ev = match &raw.event {
        Some(e) => e,
        None => return None,
    };
    let guid = match &raw.guid {
        Some(g) => g,
        None => return None,
    };
    let group = vec![';', '+', ';'];
    assert(group@ =~= seq![';', '+', ';']);
    if contains_seq_exec(&chars_of(guid.as_str()), &group) {
        return None;
    }
    let e = chars_of(ev.as_str());
    let is_typing = chars_equal(&e, &chars_of("started-typing")) || chars_equal(
        &e,
        &chars_of("typing"),
    );
    Some(TypingEvent { guid: guid.clone(), is_typing })
}

/// The `call_status` of a FaceTime event's payload.
pub open spec fn call_status(e: RawEvent) -> Option<int> {
    match e.data {
        Some(d) => as_i64_model(field(json_view(d), "call_status"@)),
        None => None,
    }
}

pub open spec fn data_text(e: RawEvent, k: Seq<char>) -> Option<Seq<char>> {
    match e.data {
        Some(d) => as_text(field(json_view(d), k)),
        None => None,
    }
}

pub open spec fn data_flag(e: RawEvent, k: Seq<char>) -> bool {
    match e.data {
        Some(d) => as_flag(field(json_view(d), k)),
        None => false,
    }
}

/// The `value` of the payload's `handle`.
pub open spec fn handle_value(e: RawEvent) -> Option<Seq<char>> {
    match e.data {
        Some(d) => match field(json_view(d), "handle"@) {
            Some(h) => as_text(field(h, "value"@)),
            None => None,
        },
        None => None,
    }
}

/// Parse a FaceTime event from raw event data: present when the payload
/// has an integer `call_status`.
pub fn parse_facetime_event(raw: &RawEvent) -> (r: Option<FaceTimeEvent>)
    ensures
        r is Some <==> call_status(*raw) is Some,
        r matches Some(ev) ==> {
            &&& ev.status_id == call_status(*raw)->0
            &&& ev.status == facetime_status_of(ev.status_id as int)
            &&& ev.call_uuid@ == text_or_empty(data_text(*raw, "call_uuid"@))
            &&& ev.address@ == text_or_empty(handle_value(*raw))
            &&& opt_seq(ev.ended_error) == data_text(*raw, "ended_error"@)
            &&& opt_seq(ev.ended_reason) == data_text(*raw, "ended_reason"@)
            &&& opt_seq(ev.image_url) == data_text(*raw, "image_url"@)
            &&& ev.is_outgoing == data_flag(*raw, "is_outgoing"@)
            &&& ev.is_audio == data_flag(*raw, "is_sending_audio"@)
            &&& ev.is_video == data_flag(*raw, "is_sending_video"@)
        },
{
    let data = match &raw.data {
        Some(d) => d,
        None => return None,
    };
    let call_status = match i64_of(get_field(data, "call_status")) {
        Some(n) => n,
        None => return None,
    };
    let call_uuid = match text_of(get_field(data, "call_uuid")) {
        Some(s) => s,
        None => string_of(&Vec::new()),
    };
    let address = match get_field(data, "handle") {
        Some(h) => match text_of(get_field(h, "value")) {
            Some(s) => s,
            None => string_of(&Vec::new()),
        },
        None => string_of(&Vec::new()),
    };
    Some(
        FaceTimeEvent {
            call_uuid,
            status: FaceTimeStatus::from_i64(call_status),
            status_id: call_status,
            address,
            ended_error: text_of(get_field(data, "ended_error")),
            ended_reason: text_of(get_field(data, "ended_reason")),
            image_url: text_of(get_field(data, "image_url")),
            is_outgoing: flag_of(get_field(data, "is_outgoing")),
            is_audio: flag_of(get_field(data, "is_sending_audio")),
            is_video: flag_of(get_field(data, "is_sending_video")),
        },
    )
}

// ---------------------------------------------------------------------------
// Handling what the helper sends
// ---------------------------------------------------------------------------

/// The helpers, by the app they run in.
#[derive(Debug, Clone, Copy, PartialEq, Eq, Structural)]
pub enum HelperKind {
    Messages,
    FaceTime,
    FindMy,
}

/// The helper a process bundle id runs.
pub open spec fn helper_of(process: Seq<char>) -> Option<HelperKind> {
    if process == "com.apple.MobileSMS"@ || process == "com.apple.Messages"@ {
        Some(HelperKind::Messages)
    } else if process == "com.apple.FaceTime"@ || process == "com.apple.TelephonyUtilities"@ {
        Some(HelperKind::FaceTime)
    } else if process == "com.apple.findmy"@ {
        Some(HelperKind::FindMy)
    } else {
        None
    }
}

/// The helper a process bundle id runs.
pub fn helper_kind(process: &str) -> (r: Option<HelperKind>)
    ensures
        r == helper_of(process@),
{
    let p = chars_of(process);
    if chars_equal(&p, &chars_of("com.apple.MobileSMS")) || chars_equal(
        &p,
        &chars_of("com.apple.Messages"),
    ) {
        Some(HelperKind::Messages)
    } else if chars_equal(&p, &chars_of("com.apple.FaceTime")) || chars_equal(
        &p,
        &chars_of("com.apple.TelephonyUtilities"),
    ) {
        Some(HelperKind::FaceTime)
    } else if chars_equal(&p, &chars_of("com.apple.findmy")) {
        Some(HelperKind::FindMy)
    } else {
        None
    }
}

/// Which helpers have finished starting up.
#[derive(Debug, Clone, Copy, PartialEq, Eq, Structural, Default)]
pub struct HelperReadiness {
    pub messages: bool,
    pub facetime: bool,
    pub findmy: bool,
}

impl HelperReadiness {
    /// Marks the helper of a process ready or not; other processes change
    /// nothing.
    pub fn set_process_ready(&mut self, process: &str, ready: bool)
        ensures
            final(self).messages == (if helper_of(process@) == Some(HelperKind::Messages) {
                ready
            } else {
                old(self).messages
            }),
            final(self).facetime == (if helper_of(process@) == Some(HelperKind::FaceTime) {
                ready
            } else {
                old(self).facetime
            }),
            final(self).findmy == (if helper_of(process@) == Some(HelperKind::FindMy) {
                ready
            } else {
                old(self).findmy
            }),
    {
        match helper_kind(process) {
            Some(HelperKind::Messages) => self.messages = ready,
            Some(HelperKind::FaceTime) => self.facetime = ready,
            Some(HelperKind::FindMy) => self.findmy = ready,
            None => {},
        }
    }
}

/// What is done with an event the helper sends.
#[derive(Debug)]
pub enum EventAction {
    /// Fail the transaction with the helper's error.
    Reject { transaction_id: String, error: String },
    /// Complete the transaction with the identifier and data returned.
    Resolve { transaction_id: String, identifier: String, data: Option<Json> },
    /// Pass the event on to subscribers, first registering the process of
    /// a `ping` and marking ready the helper of a `ready`.
    Broadcast { registers: Option<String>, ready: Option<HelperKind> },
}

pub open spec fn event_is(e: RawEvent, name: Seq<char>) -> bool {
    e.event matches Some(n) && n@ == name
}

/// What an event comes to.
pub open spec fn event_action_is(e: RawEvent, a: EventAction) -> bool {
    match e.transaction_id {
        Some(t) => if e.error matches Some(err) && err@.len() > 0 {
            a matches EventAction::Reject { transaction_id, error } && transaction_id@ == t@
                && error@ == e.error->0@
        } else {
            a matches EventAction::Resolve { transaction_id, identifier, data } && transaction_id@
                == t@ && identifier@ == (match e.identifier {
                Some(i) => i@,
                None => Seq::empty(),
            }) && match event_data(e) {
                Some(m) => data matches Some(j) && json_view(j) == m,
                None => data is None,
            }
        },
        None => a matches EventAction::Broadcast { registers, ready } && (if event_is(e, "ping"@)
            && e.process is Some {
            registers matches Some(p) && p@ == e.process->0@
        } else {
            registers is None
        }) && ready == (if event_is(e, "ready"@) && e.process is Some {
            helper_of(e.process->0@)
        } else {
            None
        }),
    }
}

fn is_event_named(e: &RawEvent, name: &str) -> (r: bool)
    ensures
        r == event_is(*e, name@),
{
    match &e.event {
        Some(n) => chars_equal(&chars_of(n.as_str()), &chars_of(name)),
        None => false,
    }
}

/// Decides what to do with an event from the helper: replies complete or
/// fail their transaction, other events are passed on.
pub fn event_action(e: &RawEvent) -> (r: EventAction)
    ensures
        event_action_is(*e, r),
{
    match &e.transaction_id {
        Some(t) => {
            match &e.error {
                Some(err) => {
                    if !err.as_str().is_empty() {
                        return EventAction::Reject { transaction_id: t.clone(), error: err.clone() };
                    }
                },
                None => {},
            }
            let identifier = match &e.identifier {
                Some(i) => i.clone(),
                None => string_of(&Vec::new()),
            };
            EventAction::Resolve { transaction_id: t.clone(), identifier, data: e.extract_data() }
        },
        None => {
            let registers = if is_event_named(e, "ping") {
                match &e.process {
                    Some(p) => Some(p.clone()),
                    None => None,
                }
            } else {
                None
            };
            let ready = if is_event_named(e, "ready") {
                match &e.process {
                    Some(p) => helper_kind(p.as_str()),
                    None => None,
                }
            } else {
                None
            };
            EventAction::Broadcast { registers, ready }
        },
    }
}

/// The pieces of a batch read from the helper, each once, in the order
/// first seen.
pub open spec fn first_seen(s: Seq<Seq<char>>) -> Seq<Seq<char>>
    decreases s.len(),
{
    if s.len() == 0 {
        s
    } else {
        let p = first_seen(s.drop_last());
        if p.contains(s.last()) {
            p
        } else {
            p.push(s.last())
        }
    }
}

/// The events of a batch: its lines, each distinct line once, trimmed,
/// empty ones dropped.
pub open spec fn event_texts(raw: Seq<char>) -> Seq<Seq<char>> {
    first_seen(split_on(trim(raw), '\n')).map_values(|p: Seq<char>| trim(p)).filter(
        |p: Seq<char>| p.len() > 0,
    )
}

proof fn lemma_filter_push(s: Seq<Seq<char>>, x: Seq<char>)
    ensures
        s.push(x).filter(|p: Seq<char>| p.len() > 0) == if x.len() > 0 {
            s.filter(|p: Seq<char>| p.len() > 0).push(x)
        } else {
            s.filter(|p: Seq<char>| p.len() > 0)
        },
{
    reveal(Seq::filter);
    assert(s.push(x).drop_last() =~= s);
}

/// Splits a batch read from the helper into its event texts.
pub fn event_lines(raw: &str) -> (r: Vec<String>)
    ensures
        r@.map_values(|s: String| s@) == event_texts(raw@),
{
    let t = trim_chars(&chars_of(raw));
    let pieces = split_chars(&t, '\n');
    let ghost ps = split_on(trim(raw@), '\n');
    assert(pieces@.map_values(|p: Vec<char>| p@) == ps);
    let mut seen: Vec<Vec<char>> = Vec::new();
    let mut out: Vec<String> = Vec::new();
    let mut k: usize = 0;
    while k < pieces.len()
        invariant
            k <= pieces.len(),
            ps == pieces@.map_values(|p: Vec<char>| p@),
            seen@.map_values(|p: Vec<char>| p@) == first_seen(ps.subrange(0, k as int)),
            out@.map_values(|s: String| s@) == first_seen(ps.subrange(0, k as int)).map_values(
                |p: Seq<char>| trim(p),
            ).filter(|p: Seq<char>| p.len() > 0),
        decreases pieces.len() - k,
    {
        let ghost sv = seen@.map_values(|p: Vec<char>| p@);
        let ghost prefix = ps.subrange(0, k + 1);
        proof {
            assert(prefix.drop_last() =~= ps.subrange(0, k as int));
            assert(prefix.last() == pieces@[k as int]@);
        }
        let mut dup = false;
        let mut j: usize = 0;
        while j < seen.len()
            invariant
                j <= seen.len(),
                k < pieces.len(),
                sv == seen@.map_values(|p: Vec<char>| p@),
                dup ==> sv.contains(pieces@[k as int]@),
                !dup ==> forall|i: int| 0 <= i < j ==> sv[i] != pieces@[k as int]@,
            decreases seen.len() - j,
        {
            if chars_equal(&seen[j], &pieces[k]) {
                dup = true;
                assert(sv[j as int] == pieces@[k as int]@);
            }
            j = j + 1;
        }
        if !dup {
            let ghost o0 = out@.map_values(|s: String| s@);
            let p = clone_chars(&pieces[k]);
            seen.push(p);
            assert(seen@.map_values(|p: Vec<char>| p@) =~= sv.push(pieces@[k as int]@));
            let tp = trim_chars(&pieces[k]);
            proof {
                let f = first_seen(ps.subrange(0, k as int));
                assert(f.push(pieces@[k as int]@).map_values(|p: Seq<char>| trim(p)) =~= f.map_values(
                    |p: Seq<char>| trim(p),
                ).push(trim(pieces@[k as int]@)));
                lemma_filter_push(f.map_values(|p: Seq<char>| trim(p)), trim(pieces@[k as int]@));
            }
            if tp.len() > 0 {
                out.push(string_of(&tp));
                assert(out@.map_values(|s: String| s@) =~= o0.push(tp@));
            }
        }
        k = k + 1;
    }
    assert(ps.subrange(0, pieces@.len() as int) =~= ps);
    out
}

fn clone_chars(v: &Vec<char>) -> (r: Vec<char>)
    ensures
        r@ == v@,
{
    let mut r: Vec<char> = Vec::new();
    push_all(&mut r, v);
    assert(r@ =~= v@);
    r
}

// ---------------------------------------------------------------------------
// Find My locations
// ---------------------------------------------------------------------------

/// A friend's location as the helper reports it.
#[derive(Debug)]
pub struct FindMyLocation {
    pub handle: String,
    /// Latitude and longitude, as the numbers the helper sent.
    pub coordinates: (Json, Json),
    pub long_address: Option<String>,
    pub short_address: Option<String>,
    pub subtitle: Option<String>,
    pub title: Option<String>,
    pub last_updated: Option<i64>,
    pub is_locating_in_progress: bool,
    pub status: String,
}

pub open spec fn is_number(j: JsonModel) -> bool {
    j is Int || j is Real
}

/// The coordinates of a location item: the first two entries of its
/// `coordinates` array, when both are numbers.
pub open spec fn coordinates_of(item: JsonModel) -> Option<(JsonModel, JsonModel)> {
    match field(item, "coordinates"@) {
        Some(JsonModel::Array(a)) => if a.len() >= 2 && is_number(a[0]) && is_number(a[1]) {
            Some((a[0], a[1]))
        } else {
            None
        },
        _ => None,
    }
}

/// `is_locating_in_progress`: a boolean, or a number other than 0.
pub open spec fn locating_flag(j: Option<JsonModel>) -> bool {
    match j {
        Some(JsonModel::Bool(b)) => b,
        Some(JsonModel::Int(n)) => i64::MIN <= n <= i64::MAX && n != 0,
        _ => false,
    }
}

/// The location an item describes, when it has a text handle and numeric
/// coordinates.
pub open spec fn location_of(item: JsonModel) -> Option<FindMyLocationModel> {
    match (as_text(field(item, "handle"@)), coordinates_of(item)) {
        (Some(h), Some(c)) => Some(
            FindMyLocationModel {
                handle: h,
                coordinates: c,
                long_address: as_text(field(item, "long_address"@)),
                short_address: as_text(field(item, "short_address"@)),
                subtitle: as_text(field(item, "subtitle"@)),
                title: as_text(field(item, "title"@)),
                last_updated: as_i64_model(field(item, "last_updated"@)),
                is_locating_in_progress: locating_flag(field(item, "is_locating_in_progress"@)),
                status: match as_text(field(item, "status"@)) {
                    Some(s) => s,
                    None => "unknown"@,
                },
            },
        ),
        _ => None,
    }
}

/// A location as plain values.
pub struct FindMyLocationModel {
    pub handle: Seq<char>,
    pub coordinates: (JsonModel, JsonModel),
    pub long_address: Option<Seq<char>>,
    pub short_address: Option<Seq<char>>,
    pub subtitle: Option<Seq<char>>,
    pub title: Option<Seq<char>>,
    pub last_updated: Option<int>,
    pub is_locating_in_progress: bool,
    pub status: Seq<char>,
}

pub open spec fn location_view(l: FindMyLocation) -> FindMyLocationModel {
    FindMyLocationModel {
        handle: l.handle@,
        coordinates: (json_view(l.coordinates.0), json_view(l.coordinates.1)),
        long_address: opt_seq(l.long_address),
        short_address: opt_seq(l.short_address),
        subtitle: opt_seq(l.subtitle),
        title: opt_seq(l.title),
        last_updated: match l.last_updated {
            Some(n) => Some(n as int),
            None => None,
        },
        is_locating_in_progress: l.is_locating_in_progress,
        status: l.status@,
    }
}

/// The locations of the items, those without a text handle or numeric
/// coordinates left out.
pub open spec fn locations_of(items: Seq<JsonModel>) -> Seq<FindMyLocationModel>
    decreases items.len(),
{
    if items.len() == 0 {
        Seq::empty()
    } else {
        let rest = locations_of(items.drop_last());
        match location_of(items.last()) {
            Some(l) => rest.push(l),
            None => rest,
        }
    }
}

/// The locations an event carries: those of its data's items, when its
/// data is an array.
pub open spec fn event_locations(e: RawEvent) -> Seq<FindMyLocationModel> {
    match e.data {
        Some(Json::Array(a)) => locations_of(json_views(a@)),
        _ => Seq::empty(),
    }
}

fn get_item<'a>(j: &'a Json, k: &str) -> (r: Option<&'a Json>)
    ensures
        match field(json_view(*j), k@) {
            Some(m) => r matches Some(v) && json_view(*v) == m,
            None => r is None,
        },
{
    match j {
        Json::Object(f) => field_of(f, k),
        _ => None,
    }
}

fn number_of(j: &Json) -> (r: bool)
    ensures
        r == is_number(json_view(*j)),
{
    match j {
        Json::Int(_) | Json::Uint(_) | Json::Real(_) => true,
        _ => false,
    }
}

fn location_from(item: &Json) -> (r: Option<FindMyLocation>)
    ensures
        match location_of(json_view(*item)) {
            Some(m) => r matches Some(l) && location_view(l) == m,
            None => r is None,
        },
{
    let handle = match text_of(get_item(item, "handle")) {
        Some(h) => h,
        None => return None,
    };
    let coords = match get_item(item, "coordinates") {
        Some(Json::Array(a)) => {
            proof {
                crate::json::lemma_json_views(a@);
            }
            if a.len() >= 2 && number_of(&a[0]) && number_of(&a[1]) {
                (copy_json(&a[0]), copy_json(&a[1]))
            } else {
                return None;
            }
        },
        _ => return None,
    };
    let locating = match get_item(item, "is_locating_in_progress") {
        Some(Json::Bool(b)) => *b,
        Some(j) => match i64_of(Some(j)) {
            Some(n) => n != 0,
            None => false,
        },
        None => false,
    };
    let status = match text_of(get_item(item, "status")) {
        Some(s) => s,
        None => "unknown".to_owned(),
    };
    Some(FindMyLocation {
        handle,
        coordinates: coords,
        long_address: text_of(get_item(item, "long_address")),
        short_address: text_of(get_item(item, "short_address")),
        subtitle: text_of(get_item(item, "subtitle")),
        title: text_of(get_item(item, "title")),
        last_updated: i64_of(get_item(item, "last_updated")),
        is_locating_in_progress: locating,
        status,
    })
}

/// Parse Find My locations from a raw event.
pub fn parse_findmy_locations(raw: &RawEvent) -> (r: Vec<FindMyLocation>)
    ensures
        r@.map_values(|l: FindMyLocation| location_view(l)) == event_locations(*raw),
{
    let mut out: Vec<FindMyLocation> = Vec::new();
    let items = match &raw.data {
        Some(Json::Array(a)) => a,
        _ => {
            assert(out@.map_values(|l: FindMyLocation| location_view(l)) =~= Seq::<FindMyLocationModel>::empty());
            return out;
        },
    };
    let ghost iv = json_views(items@);
    proof {
        crate::json::lemma_json_views(items@);
    }
    let mut k: usize = 0;
    while k < items.len()
        invariant
            k <= items@.len(),
            iv == json_views(items@),
            iv.len() == items@.len(),
            forall|j: int| 0 <= j < items@.len() ==> #[trigger] iv[j] == json_view(items@[j]),
            out@.map_values(|l: FindMyLocation| location_view(l)) == locations_of(iv.take(k as int)),
        decreases items.len() - k,
    {
        assert(iv.take(k + 1).drop_last() =~= iv.take(k as int));
        assert(iv.take(k + 1).last() == json_view(items@[k as int]));
        match location_from(&items[k]) {
            Some(l) => {
                let ghost o0 = out@.map_values(|l: FindMyLocation| location_view(l));
                out.push(l);
                assert(out@.map_values(|l: FindMyLocation| location_view(l)) =~= o0.push(location_view(l)));
            },
            None => {},
        }
        k = k + 1;
    }
    assert(iv.take(iv.len() as int) =~= iv);
    out
}

} // verus!

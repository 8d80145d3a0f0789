//! What the server passes on to webhooks: watcher events keyed for
//! deduplication, helper events turned into webhook events, and the
//! friend locations the helper reports kept in the Find My cache.
use vstd::prelude::*;
use crate::config::WebhookConfigEntry;
use crate::json::{
    copy_json, entry_views, json_view, json_views, key_index, model_get, object_insert, object_set,
    put_field, Json, JsonModel, RealValue,
};
use crate::private_api::{
    as_i64_model, as_text, call_status, data_flag, data_text, event_locations, facetime_status_name,
    facetime_status_of, field, handle_value, location_view, parse_facetime_event,
    parse_findmy_locations, parse_typing_event, text_or_empty, typing_of, FaceTimeStatus,
    FindMyLocation, FindMyLocationModel, RawEvent,
};
use crate::text::{chars_equal, chars_of, push_str, string_of};
use crate::webhooks::WebhookTarget;

verus! {

// ---------------------------------------------------------------------------
// Webhook targets and watcher events
// ---------------------------------------------------------------------------

/// The webhook a config entry names: a bare URL subscribes to every event
/// (`*`), as does a detailed entry without an event list.
pub open spec fn target_of(e: WebhookConfigEntry) -> (Seq<char>, Seq<Seq<char>>) {
    match e {
        WebhookConfigEntry::Simple(u) => (u@, seq!["*"@]),
        WebhookConfigEntry::Detailed { url, events } => (
            url@,
            match events {
                Some(v) => v@.map_values(|s: String| s@),
                None => seq!["*"@],
            },
        ),
    }
}

pub open spec fn target_view(t: WebhookTarget) -> (Seq<char>, Seq<Seq<char>>) {
    (t.url@, t.events@.map_values(|s: String| s@))
}

fn copy_strings(v: &Vec<String>) -> (r: Vec<String>)
    ensures
        r@.map_values(|s: String| s@) == v@.map_values(|s: String| s@),
{
    let mut out: Vec<String> = Vec::new();
    let mut i: usize = 0;
    while i < v.len()
        invariant
            i <= v.len(),
            out@.map_values(|s: String| s@) == v@.take(i as int).map_values(|s: String| s@),
        decreases v.len() - i,
    {
        let ghost o0 = out@;
        let ghost t0 = v@.take(i as int);
        assert(v@.take(i + 1) =~= t0.push(v@[i as int]));
        let c = v[i].clone();
        assert(c@ == v@[i as int]@);
        out.push(c);
        proof {
            assert(out@ =~= o0.push(c));
            assert(out@.map_values(|s: String| s@) =~= o0.map_values(|s: String| s@).push(c@));
            assert(v@.take(i + 1).map_values(|s: String| s@) =~= t0.map_values(|s: String| s@).push(
                v@[i as int]@,
            ));
        }
        i = i + 1;
    }
    assert(v@.take(v@.len() as int) =~= v@);
    out
}

fn everything() -> (r: Vec<String>)
    ensures
        r@.map_values(|s: String| s@) == seq!["*"@],
{
    let mut v: Vec<String> = Vec::new();
    v.push("*".to_owned());
    assert(v@.map_values(|s: String| s@) =~= seq!["*"@]);
    v
}

/// The webhook targets the config names, in order.
pub fn webhook_targets(entries: &Vec<WebhookConfigEntry>) -> (r: Vec<WebhookTarget>)
    ensures
        r@.map_values(|t: WebhookTarget| target_view(t)) == entries@.map_values(
            |e: WebhookConfigEntry| target_of(e),
        ),
{
    let mut out: Vec<WebhookTarget> = Vec::new();
    let mut i: usize = 0;
    while i < entries.len()
        invariant
            i <= entries.len(),
            out@.map_values(|t: WebhookTarget| target_view(t)) == entries@.take(i as int).map_values(
                |e: WebhookConfigEntry| target_of(e),
            ),
        decreases entries.len() - i,
    {
        let t = match &entries[i] {
            WebhookConfigEntry::Simple(u) => WebhookTarget { url: u.clone(), events: everything() },
            WebhookConfigEntry::Detailed { url, events } => WebhookTarget {
                url: url.clone(),
                events: match events {
                    Some(v) => copy_strings(v),
                    None => everything(),
                },
            },
        };
        assert(target_view(t) == target_of(entries@[i as int]));
        let ghost t0 = entries@.take(i as int);
        assert(entries@.take(i + 1) =~= t0.push(entries@[i as int]));
        let ghost o0 = out@;
        let ghost tv = target_view(t);
        out.push(t);
        proof {
            assert(out@.map_values(|t: WebhookTarget| target_view(t)) =~= o0.map_values(
                |t: WebhookTarget| target_view(t),
            ).push(tv));
            assert(entries@.take(i + 1).map_values(|e: WebhookConfigEntry| target_of(e)) =~= t0.map_values(
                |e: WebhookConfigEntry| target_of(e),
            ).push(target_of(entries@[i as int])));
        }
        i = i + 1;
    }
    assert(entries@.take(entries@.len() as int) =~= entries@);
    out
}

/// The key a watcher event is deduplicated by: its type and the GUID of
/// its data, when the data has a text `guid`.
pub open spec fn watcher_key(event_type: Seq<char>, data: JsonModel) -> Option<Seq<char>> {
    match as_text(field(data, "guid"@)) {
        Some(g) => Some(event_type + "-"@ + g),
        None => None,
    }
}

/// The deduplication key of a watcher event.
pub fn watcher_dedup_key(event_type: &str, data: &Json) -> (r: Option<String>)
    ensures
        match watcher_key(event_type@, json_view(*data)) {
            Some(k) => r matches Some(s) && s@ == k,
            None => r is None,
        },
{
    match crate::findmy::get_field(data, "guid") {
        Some(Json::Str(g)) => {
            let mut k = chars_of(event_type);
            push_str(&mut k, "-");
            push_str(&mut k, g.as_str());
            Some(string_of(&k))
        },
        _ => None,
    }
}

// ---------------------------------------------------------------------------
// Helper events
// ---------------------------------------------------------------------------

pub open spec fn text_json(o: Option<Seq<char>>) -> JsonModel {
    match o {
        Some(s) => JsonModel::Str(s),
        None => JsonModel::Null,
    }
}

/// A location as webhooks and the friends cache carry it.
pub open spec fn location_json(l: FindMyLocationModel) -> JsonModel {
    JsonModel::Object(location_fields(l))
}

pub open spec fn location_fields(l: FindMyLocationModel) -> Seq<(Seq<char>, JsonModel)> {
    seq![
        ("handle"@, JsonModel::Str(l.handle)),
        ("coordinates"@, JsonModel::Array(seq![l.coordinates.0, l.coordinates.1])),
        ("long_address"@, text_json(l.long_address)),
        ("short_address"@, text_json(l.short_address)),
        ("subtitle"@, text_json(l.subtitle)),
        ("title"@, text_json(l.title)),
        ("last_updated"@, match l.last_updated {
            Some(n) => JsonModel::Int(n),
            None => JsonModel::Null,
        }),
        ("is_locating_in_progress"@, JsonModel::Bool(l.is_locating_in_progress)),
        ("status"@, JsonModel::Str(l.status)),
    ]
}

fn opt_text(o: &Option<String>) -> (r: Json)
    ensures
        json_view(r) == text_json(crate::private_api::opt_seq(*o)),
{
    match o {
        Some(s) => Json::Str(s.clone()),
        None => Json::Null,
    }
}

fn push_json(v: &mut Vec<Json>, x: Json)
    ensures
        json_views(final(v)@) == json_views(old(v)@).push(json_view(x)),
{
    let ghost v0 = v@;
    v.push(x);
    assert(v@.subrange(0, v@.len() - 1) =~= v0);
}

/// A location as JSON.
pub fn location_to_json(l: &FindMyLocation) -> (r: Json)
    ensures
        json_view(r) == location_json(location_view(*l)),
{
    let mut coords: Vec<Json> = Vec::new();
    assert(json_views(coords@) =~= Seq::<JsonModel>::empty());
    push_json(&mut coords, copy_json(&l.coordinates.0));
    push_json(&mut coords, copy_json(&l.coordinates.1));
    assert(json_views(coords@) =~= seq![json_view(l.coordinates.0), json_view(l.coordinates.1)]);
    let mut f: Vec<(String, Json)> = Vec::new();
    put_field(&mut f, "handle", Json::Str(l.handle.clone()));
    put_field(&mut f, "coordinates", Json::Array(coords));
    put_field(&mut f, "long_address", opt_text(&l.long_address));
    put_field(&mut f, "short_address", opt_text(&l.short_address));
    put_field(&mut f, "subtitle", opt_text(&l.subtitle));
    put_field(&mut f, "title", opt_text(&l.title));
    put_field(
        &mut f,
        "last_updated",
        match l.last_updated {
            Some(n) => Json::Int(n),
            None => Json::Null,
        },
    );
    put_field(&mut f, "is_locating_in_progress", Json::Bool(l.is_locating_in_progress));
    put_field(&mut f, "status", Json::Str(l.status.clone()));
    let ghost m = location_view(*l);
    assert(entry_views(f@) =~= location_fields(m));
    Json::Object(f)
}

/// The data of a FaceTime webhook event, from the helper's event.
pub open spec fn facetime_payload(e: RawEvent) -> JsonModel {
    let status = call_status(e)->0;
    JsonModel::Object(
        seq![
            ("callUuid"@, JsonModel::Str(text_or_empty(data_text(e, "call_uuid"@)))),
            ("status"@, JsonModel::Str(facetime_status_name(facetime_status_of(status)))),
            ("statusId"@, JsonModel::Int(status)),
            ("address"@, JsonModel::Str(text_or_empty(handle_value(e)))),
            ("endedError"@, text_json(data_text(e, "ended_error"@))),
            ("endedReason"@, text_json(data_text(e, "ended_reason"@))),
            ("imageUrl"@, text_json(data_text(e, "image_url"@))),
            ("isOutgoing"@, JsonModel::Bool(data_flag(e, "is_outgoing"@))),
            ("isAudio"@, JsonModel::Bool(data_flag(e, "is_sending_audio"@))),
            ("isVideo"@, JsonModel::Bool(data_flag(e, "is_sending_video"@))),
        ],
    )
}

pub open spec fn event_named(e: RawEvent, n: Seq<char>) -> bool {
    e.event matches Some(s) && s@ == n
}

/// The webhook events a helper event becomes, in order: a typing
/// indicator for a typing event of a one-to-one chat; the call status
/// (and an incoming call, for one) for a FaceTime event; the removed
/// aliases; the friend locations, when there are any.
pub open spec fn bridged(e: RawEvent) -> Seq<(Seq<char>, JsonModel)> {
    if event_named(e, "started-typing"@) || event_named(e, "typing"@) || event_named(e, "stopped-typing"@) {
        match typing_of(e) {
            Some((g, t)) => seq![
                (
                    "typing-indicator"@,
                    JsonModel::Object(seq![("guid"@, JsonModel::Str(g)), ("display"@, JsonModel::Bool(t))]),
                ),
            ],
            None => Seq::empty(),
        }
    } else if event_named(e, "facetime-call-status-changed"@) {
        match call_status(e) {
            Some(s) => if facetime_status_of(s) == FaceTimeStatus::Incoming {
                seq![
                    ("facetime-call-status-changed"@, facetime_payload(e)),
                    ("incoming-facetime"@, facetime_payload(e)),
                ]
            } else {
                seq![("facetime-call-status-changed"@, facetime_payload(e))]
            },
            None => Seq::empty(),
        }
    } else if event_named(e, "aliases-removed"@) {
        match e.data {
            Some(d) => seq![("imessage-aliases-removed"@, json_view(d))],
            None => Seq::empty(),
        }
    } else if event_named(e, "new-findmy-location"@) {
        let ls = event_locations(e);
        if ls.len() > 0 {
            seq![
                (
                    "new-findmy-location"@,
                    JsonModel::Array(ls.map_values(|l: FindMyLocationModel| location_json(l))),
                ),
            ]
        } else {
            Seq::empty()
        }
    } else {
        Seq::empty()
    }
}

pub open spec fn bridged_view(s: Seq<(String, Json)>) -> Seq<(Seq<char>, JsonModel)> {
    s.map_values(|e: (String, Json)| (e.0@, json_view(e.1)))
}

fn named(e: &RawEvent, n: &str) -> (r: bool)
    ensures
        r == event_named(*e, n@),
{
    match &e.event {
        Some(s) => chars_equal(&chars_of(s.as_str()), &chars_of(n)),
        None => false,
    }
}

fn facetime_data(ev: &crate::private_api::FaceTimeEvent) -> (r: Json)
    ensures
        json_view(r) == JsonModel::Object(
            seq![
                ("callUuid"@, JsonModel::Str(ev.call_uuid@)),
                ("status"@, JsonModel::Str(facetime_status_name(ev.status))),
                ("statusId"@, JsonModel::Int(ev.status_id as int)),
                ("address"@, JsonModel::Str(ev.address@)),
                ("endedError"@, text_json(crate::private_api::opt_seq(ev.ended_error))),
                ("endedReason"@, text_json(crate::private_api::opt_seq(ev.ended_reason))),
                ("imageUrl"@, text_json(crate::private_api::opt_seq(ev.image_url))),
                ("isOutgoing"@, JsonModel::Bool(ev.is_outgoing)),
                ("isAudio"@, JsonModel::Bool(ev.is_audio)),
                ("isVideo"@, JsonModel::Bool(ev.is_video)),
            ],
        ),
{
    let mut f: Vec<(String, Json)> = Vec::new();
    put_field(&mut f, "callUuid", Json::Str(ev.call_uuid.clone()));
    put_field(&mut f, "status", Json::Str(ev.status.as_str().to_owned()));
    put_field(&mut f, "statusId", Json::Int(ev.status_id));
    put_field(&mut f, "address", Json::Str(ev.address.clone()));
    put_field(&mut f, "endedError", opt_text(&ev.ended_error));
    put_field(&mut f, "endedReason", opt_text(&ev.ended_reason));
    put_field(&mut f, "imageUrl", opt_text(&ev.image_url));
    put_field(&mut f, "isOutgoing", Json::Bool(ev.is_outgoing));
    put_field(&mut f, "isAudio", Json::Bool(ev.is_audio));
    put_field(&mut f, "isVideo", Json::Bool(ev.is_video));
    assert(entry_views(f@) =~= seq![
        ("callUuid"@, JsonModel::Str(ev.call_uuid@)),
        ("status"@, JsonModel::Str(facetime_status_name(ev.status))),
        ("statusId"@, JsonModel::Int(ev.status_id as int)),
        ("address"@, JsonModel::Str(ev.address@)),
        ("endedError"@, text_json(crate::private_api::opt_seq(ev.ended_error))),
        ("endedReason"@, text_json(crate::private_api::opt_seq(ev.ended_reason))),
        ("imageUrl"@, text_json(crate::private_api::opt_seq(ev.image_url))),
        ("isOutgoing"@, JsonModel::Bool(ev.is_outgoing)),
        ("isAudio"@, JsonModel::Bool(ev.is_audio)),
        ("isVideo"@, JsonModel::Bool(ev.is_video)),
    ]);
    Json::Object(f)
}

fn one_event(name: &str, data: Json) -> (r: Vec<(String, Json)>)
    ensures
        bridged_view(r@) == seq![(name@, json_view(data))],
{
    let mut v: Vec<(String, Json)> = Vec::new();
    let ghost d = json_view(data);
    v.push((name.to_owned(), data));
    assert(bridged_view(v@) =~= seq![(name@, d)]);
    v
}

fn typing_events(e: &RawEvent) -> (r: Vec<(String, Json)>)
    ensures
        bridged_view(r@) == match typing_of(*e) {
            Some((g, t)) => seq![
                (
                    "typing-indicator"@,
                    JsonModel::Object(seq![("guid"@, JsonModel::Str(g)), ("display"@, JsonModel::Bool(t))]),
                ),
            ],
            None => Seq::<(Seq<char>, JsonModel)>::empty(),
        },
{
    match parse_typing_event(e) {
        Some(te) => {
            let mut f: Vec<(String, Json)> = Vec::new();
            put_field(&mut f, "guid", Json::Str(te.guid.clone()));
            put_field(&mut f, "display", Json::Bool(te.is_typing));
            assert(entry_views(f@) =~= seq![("guid"@, JsonModel::Str(te.guid@)), ("display"@, JsonModel::Bool(te.is_typing))]);
            one_event("typing-indicator", Json::Object(f))
        },
        None => {
            let v: Vec<(String, Json)> = Vec::new();
            assert(bridged_view(v@) =~= Seq::<(Seq<char>, JsonModel)>::empty());
            v
        },
    }
}

fn facetime_events(e: &RawEvent) -> (r: Vec<(String, Json)>)
    ensures
        bridged_view(r@) == match call_status(*e) {
            Some(s) => if facetime_status_of(s) == FaceTimeStatus::Incoming {
                seq![
                    ("facetime-call-status-changed"@, facetime_payload(*e)),
                    ("incoming-facetime"@, facetime_payload(*e)),
                ]
            } else {
                seq![("facetime-call-status-changed"@, facetime_payload(*e))]
            },
            None => Seq::<(Seq<char>, JsonModel)>::empty(),
        },
{
    match parse_facetime_event(e) {
        Some(ev) => {
            let d = facetime_data(&ev);
            assert(json_view(d) =~~= facetime_payload(*e));
            let incoming = match ev.status {
                FaceTimeStatus::Incoming => true,
                _ => false,
            };
            let d2 = copy_json(&d);
            let mut v = one_event("facetime-call-status-changed", d);
            if incoming {
                let ghost v0 = bridged_view(v@);
                v.push(("incoming-facetime".to_owned(), d2));
                assert(bridged_view(v@) =~= v0.push(("incoming-facetime"@, facetime_payload(*e))));
            }
            v
        },
        None => {
            let v: Vec<(String, Json)> = Vec::new();
            assert(bridged_view(v@) =~= Seq::<(Seq<char>, JsonModel)>::empty());
            v
        },
    }
}

fn findmy_events(e: &RawEvent) -> (r: Vec<(String, Json)>)
    ensures
        bridged_view(r@) == (if event_locations(*e).len() > 0 {
            seq![
                (
                    "new-findmy-location"@,
                    JsonModel::Array(
                        event_locations(*e).map_values(|l: FindMyLocationModel| location_json(l)),
                    ),
                ),
            ]
        } else {
            Seq::<(Seq<char>, JsonModel)>::empty()
        }),
{
    let ls = parse_findmy_locations(e);
    let ghost lv = ls@.map_values(|l: FindMyLocation| location_view(l));
    if ls.len() == 0 {
        let v: Vec<(String, Json)> = Vec::new();
        assert(bridged_view(v@) =~= Seq::<(Seq<char>, JsonModel)>::empty());
        return v;
    }
    let mut arr: Vec<Json> = Vec::new();
    assert(json_views(arr@) =~= Seq::<JsonModel>::empty());
    let mut i: usize = 0;
    while i < ls.len()
        invariant
            i <= ls@.len(),
            lv == ls@.map_values(|l: FindMyLocation| location_view(l)),
            json_views(arr@) == lv.take(i as int).map_values(|l: FindMyLocationModel| location_json(l)),
        decreases ls.len() - i,
    {
        push_json(&mut arr, location_to_json(&ls[i]));
        i = i + 1;
        assert(json_views(arr@) =~= lv.take(i as int).map_values(|l: FindMyLocationModel| location_json(l)));
    }
    assert(lv.take(lv.len() as int) =~= lv);
    one_event("new-findmy-location", Json::Array(arr))
}

/// The webhook events a helper event becomes.
pub fn bridge_private_api_event(e: &RawEvent) -> (r: Vec<(String, Json)>)
    ensures
        bridged_view(r@) == bridged(*e),
{
    if named(e, "started-typing") || named(e, "typing") || named(e, "stopped-typing") {
        typing_events(e)
    } else if named(e, "facetime-call-status-changed") {
        facetime_events(e)
    } else if named(e, "aliases-removed") {
        match &e.data {
            Some(d) => one_event("imessage-aliases-removed", copy_json(d)),
            None => {
                let v: Vec<(String, Json)> = Vec::new();
                assert(bridged_view(v@) =~= Seq::<(Seq<char>, JsonModel)>::empty());
                v
            },
        }
    } else if named(e, "new-findmy-location") {
        findmy_events(e)
    } else {
        let v: Vec<(String, Json)> = Vec::new();
        assert(bridged_view(v@) =~= Seq::<(Seq<char>, JsonModel)>::empty());
        v
    }
}

// ---------------------------------------------------------------------------
// Friend locations
// ---------------------------------------------------------------------------

/// A JSON value read as a float is zero: a zero integer, a signed zero, or
/// not a number at all (read as 0).
pub open spec fn reads_as_zero(j: JsonModel) -> bool {
    match j {
        JsonModel::Int(n) => n == 0,
        JsonModel::Real(RealValue::Double(b)) => b == 0 || b == 0x8000_0000_0000_0000u64,
        JsonModel::Real(RealValue::Single(b)) => b == 0 || b == 0x8000_0000u32,
        JsonModel::Real(RealValue::Whole(n)) => n == 0,
        _ => true,
    }
}

/// A cached location has real coordinates: a two-entry array not both zero.
pub open spec fn has_real_coordinates(cached: JsonModel) -> bool {
    match field(cached, "coordinates"@) {
        Some(JsonModel::Array(c)) => c.len() == 2 && !(reads_as_zero(c[0]) && reads_as_zero(c[1])),
        _ => false,
    }
}

/// Whether a new location replaces what the cache holds for its handle: it
/// does unless it is older, or it has zero coordinates where real ones are
/// cached.
pub open spec fn location_accepted(cache: Seq<(Seq<char>, JsonModel)>, l: FindMyLocationModel) -> bool {
    match model_get(cache, l.handle) {
        None => true,
        Some(existing) => {
            let existing_ts = match as_i64_model(field(existing, "last_updated"@)) {
                Some(n) => n,
                None => 0,
            };
            let new_ts = match l.last_updated {
                Some(n) => n,
                None => 0,
            };
            !(new_ts < existing_ts) && !(reads_as_zero(l.coordinates.0) && reads_as_zero(l.coordinates.1)
                && has_real_coordinates(existing))
        },
    }
}

/// The friends cache after the locations are taken in turn.
pub open spec fn friends_after(cache: Seq<(Seq<char>, JsonModel)>, ls: Seq<FindMyLocationModel>) -> Seq<(Seq<char>, JsonModel)>
    decreases ls.len(),
{
    if ls.len() == 0 {
        cache
    } else {
        let prev = friends_after(cache, ls.drop_last());
        let l = ls.last();
        if location_accepted(prev, l) {
            object_insert(prev, l.handle, location_json(l))
        } else {
            prev
        }
    }
}

fn zero_json(j: &Json) -> (r: bool)
    ensures
        r == reads_as_zero(json_view(*j)),
{
    match j {
        Json::Int(n) => *n == 0,
        Json::Uint(n) => *n == 0,
        Json::Real(RealValue::Double(b)) => *b == 0 || *b == 0x8000_0000_0000_0000u64,
        Json::Real(RealValue::Single(b)) => *b == 0 || *b == 0x8000_0000u32,
        Json::Real(RealValue::Whole(n)) => *n == 0,
        _ => true,
    }
}

fn accepts(cache: &Vec<(String, Json)>, l: &FindMyLocation) -> (r: bool)
    ensures
        r == location_accepted(entry_views(cache@), location_view(*l)),
{
    let existing = match crate::json::field_of(cache, l.handle.as_str()) {
        Some(e) => e,
        None => return true,
    };
    let existing_ts: i64 = match crate::findmy::get_field(existing, "last_updated") {
        Some(Json::Int(n)) => *n,
        Some(Json::Uint(n)) => if *n <= 0x7fff_ffff_ffff_ffff {
            *n as i64
        } else {
            0
        },
        _ => 0,
    };
    let new_ts: i64 = match l.last_updated {
        Some(n) => n,
        None => 0,
    };
    if new_ts < existing_ts {
        return false;
    }
    if zero_json(&l.coordinates.0) && zero_json(&l.coordinates.1) {
        match crate::findmy::get_field(existing, "coordinates") {
            Some(Json::Array(c)) => {
                proof {
                    crate::json::lemma_json_views(c@);
                }
                if c.len() == 2 && !(zero_json(&c[0]) && zero_json(&c[1])) {
                    return false;
                }
            },
            _ => {},
        }
    }
    true
}

/// Takes the locations a helper event reports into the friends cache.
pub fn update_friend_locations(cache: &mut Vec<(String, Json)>, ls: &Vec<FindMyLocation>)
    ensures
        entry_views(final(cache)@) == friends_after(
            entry_views(old(cache)@),
            ls@.map_values(|l: FindMyLocation| location_view(l)),
        ),
{
    let ghost c0 = entry_views(cache@);
    let ghost lv = ls@.map_values(|l: FindMyLocation| location_view(l));
    let mut i: usize = 0;
    while i < ls.len()
        invariant
            i <= ls@.len(),
            lv == ls@.map_values(|l: FindMyLocation| location_view(l)),
            c0 == entry_views(old(cache)@),
            entry_views(cache@) == friends_after(c0, lv.take(i as int)),
        decreases ls.len() - i,
    {
        assert(lv.take(i + 1).drop_last() =~= lv.take(i as int));
        assert(lv.take(i + 1).last() == location_view(ls@[i as int]));
        let l = &ls[i];
        if accepts(cache, l) {
            object_set(cache, l.handle.clone(), location_to_json(l));
        }
        i = i + 1;
    }
    assert(lv.take(lv.len() as int) =~= lv);
}

/// A location older than the one cached for its handle leaves the
/// friends cache as it is.
pub proof fn law_older_location_ignored(cache: Seq<(Seq<char>, JsonModel)>, l: FindMyLocationModel)
    requires
        model_get(cache, l.handle) matches Some(existing) && match l.last_updated {
            Some(n) => n,
            None => 0,
        } < match as_i64_model(field(existing, "last_updated"@)) {
            Some(n) => n,
            None => 0,
        },
    ensures
        friends_after(cache, seq![l]) == cache,
{
    assert(seq![l].drop_last() =~= Seq::<FindMyLocationModel>::empty());
    assert(seq![l].last() == l);
    assert(friends_after(cache, seq![l].drop_last()) == cache);
    assert(seq![l].len() == 1);
}

/// A location for a handle not yet cached is always taken.
pub proof fn law_new_handle_location_taken(cache: Seq<(Seq<char>, JsonModel)>, l: FindMyLocationModel)
    requires
        model_get(cache, l.handle) is None,
    ensures
        friends_after(cache, seq![l]) == object_insert(cache, l.handle, location_json(l)),
{
    assert(seq![l].drop_last() =~= Seq::<FindMyLocationModel>::empty());
    assert(seq![l].last() == l);
    assert(friends_after(cache, seq![l].drop_last()) == cache);
    assert(seq![l].len() == 1);
}

} // verus!

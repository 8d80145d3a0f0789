//! The API's JSON shapes of handles, chats, attachments and messages.
//!
//! Fields appear in a fixed order; some are present only outside
//! notifications or when the configuration asks for them.  Blobs are read
//! with the property-list reader the caller passes in.
use vstd::prelude::*;
use crate::db::{Attachment, Chat, Handle, Message};
use crate::decimal::{parse_u32, u32_text_value};
use crate::json::{entry_views, json_view, json_views, lemma_entry_views, lemma_json_views, Json, JsonModel};
use crate::plist::{decode_chat_properties, decode_message_plist, plist_parse_ok, read_outcome, read_plist, PlistValue};
use crate::typedstream::{decode_attributed_body, extract_text, extracted_text, header_end, rendered_body};
use crate::serializers::{
    has_live_photo, mdls_map, parse_mdls_output, resolve_tilde, tilde_resolved, tilde_well_formed,
    AttachmentSerializerConfig, ChatSerializerConfig, MessageSerializerConfig, StringMap,
};
use crate::config::home_dir_text;
use crate::text::{
    chars_equal, chars_of, has_prefix, slice_of, split_chars, split_on, starts_with_chars,
    string_of, trim, trim_chars, lemma_split_on_nonempty,
};

verus! {

// ---------------------------------------------------------------------------
// Field values
// ---------------------------------------------------------------------------

pub open spec fn opt_str_json(o: Option<String>) -> JsonModel {
    match o {
        Some(s) => JsonModel::Str(s@),
        None => JsonModel::Null,
    }
}

pub open spec fn opt_int_json(o: Option<i64>) -> JsonModel {
    match o {
        Some(n) => JsonModel::Int(n as int),
        None => JsonModel::Null,
    }
}

pub open spec fn opt_bool_json(o: Option<bool>) -> JsonModel {
    match o {
        Some(b) => JsonModel::Bool(b),
        None => JsonModel::Null,
    }
}

fn str_json(s: &String) -> (r: Json)
    ensures
        json_view(r) == JsonModel::Str(s@),
{
    Json::Str(s.clone())
}

fn opt_str(o: &Option<String>) -> (r: Json)
    ensures
        json_view(r) == opt_str_json(*o),
{
    match o {
        Some(s) => Json::Str(s.clone()),
        None => Json::Null,
    }
}

fn opt_int(o: Option<i64>) -> (r: Json)
    ensures
        json_view(r) == opt_int_json(o),
{
    match o {
        Some(n) => Json::Int(n),
        None => Json::Null,
    }
}

fn opt_bool(o: Option<bool>) -> (r: Json)
    ensures
        json_view(r) == opt_bool_json(o),
{
    match o {
        Some(b) => Json::Bool(b),
        None => Json::Null,
    }
}

/// An optional flag, false when absent.
fn flag(o: Option<bool>) -> (r: bool)
    ensures
        r == (o == Some(true)),
{
    match o {
        Some(b) => b,
        None => false,
    }
}

/// Appends an entry to an object's entries.
fn put(fields: &mut Vec<(String, Json)>, key: &str, v: Json)
    ensures
        entry_views(final(fields)@) == entry_views(old(fields)@).push((key@, json_view(v))),
{
    let ghost f0 = fields@;
    fields.push((key.to_owned(), v));
    assert(fields@.subrange(0, fields@.len() - 1) =~= f0);
}

/// What a blob renders as, read with the property-list reader: null without a blob or when
/// it does not decode.
pub open spec fn blob_json(
    blob: Option<Vec<u8>>,
    raw: bool,
    j: JsonModel,
) -> bool {
    match blob {
        None => j == JsonModel::Null,
        Some(b) => exists|s: &[u8], r: Option<Json>|
            s@ == b@ && #[trigger] read_outcome(s, r, raw) && j == match r {
                Some(x) => json_view(x),
                None => JsonModel::Null,
            },
    }
}

// ---------------------------------------------------------------------------
// Handles
// ---------------------------------------------------------------------------

/// The fields of a handle: its row id, address and service, and outside
/// notifications its uncanonicalized id and country.
pub open spec fn handle_fields(h: Handle, notification: bool) -> Seq<(Seq<char>, JsonModel)> {
    seq![
        ("originalROWID"@, JsonModel::Int(h.rowid as int)),
        ("address"@, JsonModel::Str(h.id@)),
        ("service"@, JsonModel::Str(h.service@)),
    ] + if notification {
        Seq::empty()
    } else {
        seq![
            ("uncanonicalizedId"@, opt_str_json(h.uncanonicalized_id)),
            ("country"@, opt_str_json(h.country)),
        ]
    }
}

/// Serialize a single Handle to JSON.
pub fn serialize_handle(handle: &Handle, is_for_notification: bool) -> (r: Json)
    ensures
        json_view(r) == JsonModel::Object(handle_fields(*handle, is_for_notification)),
{
    let mut f: Vec<(String, Json)> = Vec::new();
    put(&mut f, "originalROWID", Json::Int(handle.rowid));
    put(&mut f, "address", str_json(&handle.id));
    put(&mut f, "service", str_json(&handle.service));
    if !is_for_notification {
        put(&mut f, "uncanonicalizedId", opt_str(&handle.uncanonicalized_id));
        put(&mut f, "country", opt_str(&handle.country));
    }
    proof {
        assert(entry_views(Seq::<(String, Json)>::empty()) =~= Seq::empty());
        assert(entry_views(f@) =~= handle_fields(*handle, is_for_notification));
    }
    Json::Object(f)
}

pub open spec fn handles_json(hs: Seq<Handle>, notification: bool) -> Seq<JsonModel> {
    hs.map_values(|h: Handle| JsonModel::Object(handle_fields(h, notification)))
}

/// Serialize a list of Handles to JSON.
pub fn serialize_handles(handles: &[Handle], is_for_notification: bool) -> (r: Json)
    ensures
        json_view(r) == JsonModel::Array(handles_json(handles@, is_for_notification)),
{
    let mut out: Vec<Json> = Vec::new();
    let mut k: usize = 0;
    while k < handles.len()
        invariant
            k <= handles.len(),
            out@.len() == k,
            json_views(out@) == handles_json(handles@.subrange(0, k as int), is_for_notification),
        decreases handles.len() - k,
    {
        let ghost o0 = out@;
        out.push(serialize_handle(&handles[k], is_for_notification));
        proof {
            assert(out@.subrange(0, out@.len() - 1) =~= o0);
            assert(handles_json(handles@.subrange(0, k + 1), is_for_notification) =~= handles_json(
                handles@.subrange(0, k as int),
                is_for_notification,
            ).push(JsonModel::Object(handle_fields(handles@[k as int], is_for_notification))));
        }
        k = k + 1;
    }
    assert(handles@.subrange(0, handles@.len() as int) =~= handles@);
    Json::Array(out)
}

// ---------------------------------------------------------------------------
// Chats
// ---------------------------------------------------------------------------

/// The fields of a chat, given what its properties blob renders as.
pub open spec fn chat_fields(
    c: Chat,
    config: ChatSerializerConfig,
    notification: bool,
    properties: JsonModel,
) -> Seq<(Seq<char>, JsonModel)> {
    seq![
        ("originalROWID"@, JsonModel::Int(c.rowid as int)),
        ("guid"@, JsonModel::Str(c.guid@)),
        ("style"@, JsonModel::Int(c.style as int)),
        ("chatIdentifier"@, opt_str_json(c.chat_identifier)),
        ("isArchived"@, JsonModel::Bool(c.is_archived)),
        ("displayName"@, opt_str_json(c.display_name)),
    ] + (if config.include_participants {
        seq![("participants"@, JsonModel::Array(handles_json(c.participants@, notification)))]
    } else {
        Seq::empty()
    }) + (if config.include_messages {
        seq![("messages"@, JsonModel::Array(Seq::empty()))]
    } else {
        Seq::empty()
    }) + if notification {
        Seq::empty()
    } else {
        seq![
            ("isFiltered"@, JsonModel::Bool(c.is_filtered)),
            ("groupId"@, opt_str_json(c.group_id)),
            ("properties"@, properties),
            ("lastAddressedHandle"@, opt_str_json(c.last_addressed_handle)),
        ]
    }
}

/// A chat's JSON form: its fields, with its properties blob read by
/// the property-list reader (outside notifications).
pub open spec fn chat_rendered(
    c: Chat,
    config: ChatSerializerConfig,
    notification: bool,
    j: JsonModel,
) -> bool {
    exists|p: JsonModel|
        (notification || blob_json(c.properties, true, p)) && j == JsonModel::Object(
            #[trigger] chat_fields(c, config, notification, p),
        )
}

/// Serialize a single Chat to JSON.
pub fn serialize_chat(
    chat: &Chat,
    config: &ChatSerializerConfig,
    is_for_notification: bool,
) -> (r: Json)
    ensures
        chat_rendered(*chat, *config, is_for_notification, json_view(r)),
{
    let mut f: Vec<(String, Json)> = Vec::new();
    put(&mut f, "originalROWID", Json::Int(chat.rowid));
    put(&mut f, "guid", str_json(&chat.guid));
    put(&mut f, "style", Json::Int(chat.style));
    put(&mut f, "chatIdentifier", opt_str(&chat.chat_identifier));
    put(&mut f, "isArchived", Json::Bool(chat.is_archived));
    put(&mut f, "displayName", opt_str(&chat.display_name));
    let ghost base = entry_views(f@);
    if config.include_participants {
        put(&mut f, "participants", serialize_handles(chat.participants.as_slice(), is_for_notification));
    }
    if config.include_messages {
        put(&mut f, "messages", Json::Array(Vec::new()));
        proof {
            assert(json_views(Seq::<Json>::empty()) =~= Seq::empty());
        }
    }
    let ghost mut props = JsonModel::Null;
    if !is_for_notification {
        put(&mut f, "isFiltered", Json::Bool(chat.is_filtered));
        put(&mut f, "groupId", opt_str(&chat.group_id));
        let p = match &chat.properties {
            Some(b) => {
                let s: &[u8] = b.as_slice();
                let decoded = decode_chat_properties(s);
                let ghost rj = decoded;
                let p = match decoded {
                    Some(j) => j,
                    None => Json::Null,
                };
                proof {
                    assert(json_view(p) == match rj {
                        Some(x) => json_view(x),
                        None => JsonModel::Null,
                    });
                    assert(read_outcome(s, rj, true));
                }
                p
            },
            None => Json::Null,
        };
        proof {
            props = json_view(p);
        }
        put(&mut f, "properties", p);
        put(&mut f, "lastAddressedHandle", opt_str(&chat.last_addressed_handle));
    }
    proof {
        assert(entry_views(Seq::<(String, Json)>::empty()) =~= Seq::empty());
        assert(entry_views(f@) =~= chat_fields(*chat, *config, is_for_notification, props));
    }
    Json::Object(f)
}

/// Serialize a list of Chats to JSON.
pub fn serialize_chats(
    chats: &[Chat],
    config: &ChatSerializerConfig,
    is_for_notification: bool,
) -> (r: Json)
    ensures
        r matches Json::Array(v) && v@.len() == chats@.len() && forall|i: int|
            0 <= i < v@.len() ==> chat_rendered(
                chats@[i],
                *config,
                is_for_notification,
                json_view(#[trigger] v@[i]),
            ),
{
    let mut out: Vec<Json> = Vec::new();
    let mut k: usize = 0;
    while k < chats.len()
        invariant
            k <= chats.len(),
            out@.len() == k,
            forall|i: int|
                0 <= i < k ==> chat_rendered(
                    chats@[i],
                    *config,
                    is_for_notification,
                    json_view(#[trigger] out@[i]),
                ),
        decreases chats.len() - k,
    {
        out.push(serialize_chat(&chats[k], config, is_for_notification));
        k = k + 1;
    }
    Json::Array(out)
}

// ---------------------------------------------------------------------------
// Attachment dimensions
// ---------------------------------------------------------------------------

/// Image types whose dimensions `sips` can read.
pub open spec fn sips_image_mimes() -> Seq<Seq<char>> {
    seq![
        "image/jpeg"@,
        "image/png"@,
        "image/gif"@,
        "image/tiff"@,
        "image/bmp"@,
        "image/heic"@,
        "image/heif"@,
    ]
}

fn is_sips_mime(m: &str) -> (r: bool)
    ensures
        r == sips_image_mimes().contains(m@),
{
    let c = chars_of(m);
    let names = [
        chars_of("image/jpeg"),
        chars_of("image/png"),
        chars_of("image/gif"),
        chars_of("image/tiff"),
        chars_of("image/bmp"),
        chars_of("image/heic"),
        chars_of("image/heif"),
    ];
    let mut k: usize = 0;
    while k < 7
        invariant
            k <= 7,
            c@ == m@,
            forall|j: int| 0 <= j < 7 ==> (#[trigger] names@[j])@ == sips_image_mimes()[j],
            forall|j: int| 0 <= j < k ==> sips_image_mimes()[j] != m@,
        decreases 7 - k,
    {
        if chars_equal(&c, &names[k]) {
            assert(sips_image_mimes()[k as int] == m@);
            return true;
        }
        k = k + 1;
    }
    proof {
        if sips_image_mimes().contains(m@) {
            let j = choose|j: int| 0 <= j < 7 && sips_image_mimes()[j] == m@;
            assert(false);
        }
    }
    false
}

/// A pixel dimension `mdls` reports: the value of `key` read as a `u32`, 0
/// when it is missing or is not one.
pub open spec fn mdls_dimension(m: Map<Seq<char>, Seq<char>>, key: Seq<char>) -> nat {
    if m.contains_key(key) {
        match u32_text_value(m[key]) {
            Some(v) => v,
            None => 0,
        }
    } else {
        0
    }
}

fn mdls_dimension_of(mdls: &StringMap, key: &str) -> (r: u32)
    requires
        mdls.wf(),
    ensures
        r as nat == mdls_dimension(mdls.view(), key@),
{
    match mdls.get(key) {
        Some(v) => {
            let c = chars_of(v.as_str());
            match parse_u32(&c) {
                Some(n) => n,
                None => 0,
            }
        },
        None => 0,
    }
}

/// The value of the first entry with key `k` in a property-list dictionary.
pub open spec fn dict_entry(d: Seq<(String, PlistValue)>, k: Seq<char>, i: int) -> Option<PlistValue>
    decreases d.len() - i,
{
    if i < 0 || i >= d.len() {
        None
    } else if d[i].0@ == k {
        Some(d[i].1)
    } else {
        dict_entry(d, k, i + 1)
    }
}

/// An integer attribute read as a dimension: the integer as a `u64` (a
/// negative one wrapped), then cut to its low 32 bits; 0 for anything else.
pub open spec fn attribute_dimension(v: Option<PlistValue>) -> nat {
    match v {
        Some(PlistValue::Integer(n)) => if i64::MIN <= n <= u64::MAX {
            (n % 4294967296) as nat
        } else {
            0
        },
        _ => 0,
    }
}

/// The (width, height) that an attachment's attribution info records
/// (`pgensw`, `pgensh`), unless both are 0 or it is not a dictionary.
pub open spec fn attribution_dimensions(parsed: Option<PlistValue>) -> Option<(nat, nat)> {
    match parsed {
        Some(PlistValue::Dictionary(d)) => {
            let h = attribute_dimension(dict_entry(d@, "pgensh"@, 0));
            let w = attribute_dimension(dict_entry(d@, "pgensw"@, 0));
            if h > 0 || w > 0 {
                Some((w, h))
            } else {
                None
            }
        },
        _ => None,
    }
}

fn attribute_dimension_of(d: &Vec<(String, PlistValue)>, key: &str) -> (r: u32)
    ensures
        r as nat == attribute_dimension(dict_entry(d@, key@, 0)),
{
    let k = key.to_owned();
    let mut i: usize = 0;
    while i < d.len()
        invariant
            i <= d.len(),
            k@ == key@,
            dict_entry(d@, key@, i as int) == dict_entry(d@, key@, 0),
        decreases d.len() - i,
    {
        if d[i].0 == k {
            return match &d[i].1 {
                PlistValue::Integer(n) => {
                    let n = *n;
                    if n < i64::MIN as i128 || n > u64::MAX as i128 {
                        0
                    } else if n >= 0 {
                        ((n as u128) % 4294967296) as u32
                    } else {
                        let m = ((-n) as u128) % 4294967296;
                        let low: u128 = if m == 0 {
                            0
                        } else {
                            4294967296 - m
                        };
                        assert(low == n % 4294967296) by (nonlinear_arith)
                            requires
                                n < 0,
                                m == (-n) % 4294967296,
                                low == (if m == 0 {
                                    0
                                } else {
                                    4294967296 - m
                                }),
                        ;
                        low as u32
                    }
                },
                _ => 0,
            };
        }
        i = i + 1;
    }
    0
}

/// The dimensions recorded in an attachment's parsed attribution info.
pub fn attribution_dimensions_of(parsed: &Option<PlistValue>) -> (r: Option<(u32, u32)>)
    ensures
        match attribution_dimensions(*parsed) {
            Some((w, h)) => r == Some((w as u32, h as u32)) && w == w as u32 && h == h as u32,
            None => r is None,
        },
{
    match parsed {
        Some(PlistValue::Dictionary(d)) => {
            let h = attribute_dimension_of(d, "pgensh");
            let w = attribute_dimension_of(d, "pgensw");
            if h > 0 || w > 0 {
                Some((w, h))
            } else {
                None
            }
        },
        _ => None,
    }
}

/// The dimensions `sips` prints, read line by line: the last
/// `pixelWidth:` and `pixelHeight:` lines give them (a line that does not
/// read as a `u32` clears the value).
pub open spec fn sips_values(lines: Seq<Seq<char>>) -> (Option<nat>, Option<nat>)
    decreases lines.len(),
{
    if lines.len() == 0 {
        (None, None)
    } else {
        let prev = sips_values(lines.drop_last());
        let t = trim(lines.last());
        if has_prefix(t, "pixelWidth:"@) {
            (u32_text_value(trim(t.skip(11))), prev.1)
        } else if has_prefix(t, "pixelHeight:"@) {
            (prev.0, u32_text_value(trim(t.skip(12))))
        } else {
            prev
        }
    }
}

/// The (width, height) of `sips` output, when both are positive.
pub open spec fn sips_dimensions(output: Seq<char>) -> Option<(nat, nat)> {
    match sips_values(split_on(output, '\n')) {
        (Some(w), Some(h)) => if w > 0 && h > 0 {
            Some((w, h))
        } else {
            None
        },
        _ => None,
    }
}

/// Reads the dimensions from `sips` output.
pub fn sips_dimensions_of(output: &str) -> (r: Option<(u32, u32)>)
    ensures
        match sips_dimensions(output@) {
            Some((w, h)) => r == Some((w as u32, h as u32)) && w == w as u32 && h == h as u32,
            None => r is None,
        },
{
    let o = chars_of(output);
    let lines = split_chars(&o, '\n');
    let ghost ls = split_on(output@, '\n');
    let wp = chars_of("pixelWidth:");
    let hp = chars_of("pixelHeight:");
    proof {
        reveal_strlit("pixelWidth:");
        reveal_strlit("pixelHeight:");
    }
    let mut width: Option<u32> = None;
    let mut height: Option<u32> = None;
    let mut k: usize = 0;
    while k < lines.len()
        invariant
            k <= lines.len(),
            ls == split_on(output@, '\n'),
            lines@.len() == ls.len(),
            forall|j: int| 0 <= j < lines@.len() ==> #[trigger] lines@[j]@ == ls[j],
            wp@ == "pixelWidth:"@,
            hp@ == "pixelHeight:"@,
            wp@.len() == 11,
            hp@.len() == 12,
            (match width {
                Some(w) => Some(w as nat),
                None => None,
            }) == sips_values(ls.take(k as int)).0,
            (match height {
                Some(h) => Some(h as nat),
                None => None,
            }) == sips_values(ls.take(k as int)).1,
        decreases lines.len() - k,
    {
        proof {
            assert(ls.take(k + 1).drop_last() =~= ls.take(k as int));
            assert(ls.take(k + 1).last() == ls[k as int]);
        }
        let t = trim_chars(&lines[k]);
        if starts_with_chars(&t, &wp) {
            let rest = slice_of(&t, 11, t.len());
            let v = trim_chars(&rest);
            assert(rest@ =~= t@.skip(11));
            width = parse_u32(&v);
        } else if starts_with_chars(&t, &hp) {
            let rest = slice_of(&t, 12, t.len());
            let v = trim_chars(&rest);
            assert(rest@ =~= t@.skip(12));
            height = parse_u32(&v);
        }
        k = k + 1;
    }
    assert(ls.take(ls.len() as int) =~= ls);
    match (width, height) {
        (Some(w), Some(h)) => if w > 0 && h > 0 {
            Some((w, h))
        } else {
            None
        },
        _ => None,
    }
}

/// The dimensions an attachment gets: `mdls`'s, replaced by the attribution
/// info's when it records some, and by `sips`'s for an image whose width or
/// height is still 0.
pub open spec fn chosen_dimensions(
    mdls_w: nat,
    mdls_h: nat,
    attribution: Option<(nat, nat)>,
    sips: Option<(nat, nat)>,
) -> (nat, nat) {
    let (w, h) = match attribution {
        Some(d) => d,
        None => (mdls_w, mdls_h),
    };
    if w == 0 || h == 0 {
        match sips {
            Some(d) => d,
            None => (w, h),
        }
    } else {
        (w, h)
    }
}

// ---------------------------------------------------------------------------
// Attachments
// ---------------------------------------------------------------------------

/// The fields of an attachment, given whether it has a live-photo companion,
/// its dimensions and its metadata object.
pub open spec fn attachment_fields(
    a: Attachment,
    config: AttachmentSerializerConfig,
    notification: bool,
    live: bool,
    width: nat,
    height: nat,
    metadata: JsonModel,
) -> Seq<(Seq<char>, JsonModel)> {
    seq![
        ("originalROWID"@, JsonModel::Int(a.rowid as int)),
        ("guid"@, JsonModel::Str(a.guid@)),
        ("uti"@, opt_str_json(a.uti)),
        ("mimeType"@, opt_str_json(a.mime_type)),
        ("transferName"@, opt_str_json(a.transfer_name)),
        ("totalBytes"@, JsonModel::Int(a.total_bytes as int)),
    ] + (if notification {
        Seq::empty()
    } else {
        seq![
            ("transferState"@, JsonModel::Int(a.transfer_state as int)),
            ("isOutgoing"@, JsonModel::Bool(a.is_outgoing)),
            ("hideAttachment"@, JsonModel::Bool(a.hide_attachment == Some(true))),
            ("isSticker"@, JsonModel::Bool(a.is_sticker == Some(true))),
            ("originalGuid"@, opt_str_json(a.original_guid)),
            ("hasLivePhoto"@, JsonModel::Bool(live)),
        ]
    }) + (if config.load_metadata {
        seq![
            ("height"@, JsonModel::Int(height as int)),
            ("width"@, JsonModel::Int(width as int)),
            ("metadata"@, metadata),
        ]
    } else {
        Seq::empty()
    }) + if config.load_data {
        seq![("data"@, JsonModel::Null)]
    } else {
        Seq::empty()
    }
}

/// Assembles an attachment's JSON from what the probes found.
pub fn attachment_json(
    attachment: &Attachment,
    config: &AttachmentSerializerConfig,
    is_for_notification: bool,
    live: bool,
    width: u32,
    height: u32,
    metadata: Json,
) -> (r: Json)
    ensures
        json_view(r) == JsonModel::Object(
            attachment_fields(
                *attachment,
                *config,
                is_for_notification,
                live,
                width as nat,
                height as nat,
                json_view(metadata),
            ),
        ),
{
    let ghost meta = json_view(metadata);
    let mut f: Vec<(String, Json)> = Vec::new();
    put(&mut f, "originalROWID", Json::Int(attachment.rowid));
    put(&mut f, "guid", str_json(&attachment.guid));
    put(&mut f, "uti", opt_str(&attachment.uti));
    put(&mut f, "mimeType", opt_str(&attachment.mime_type));
    put(&mut f, "transferName", opt_str(&attachment.transfer_name));
    put(&mut f, "totalBytes", Json::Int(attachment.total_bytes));
    if !is_for_notification {
        put(&mut f, "transferState", Json::Int(attachment.transfer_state));
        put(&mut f, "isOutgoing", Json::Bool(attachment.is_outgoing));
        put(&mut f, "hideAttachment", Json::Bool(flag(attachment.hide_attachment)));
        put(&mut f, "isSticker", Json::Bool(flag(attachment.is_sticker)));
        put(&mut f, "originalGuid", opt_str(&attachment.original_guid));
        put(&mut f, "hasLivePhoto", Json::Bool(live));
    }
    if config.load_metadata {
        put(&mut f, "height", Json::Uint(height as u64));
        put(&mut f, "width", Json::Uint(width as u64));
        put(&mut f, "metadata", metadata);
    }
    if config.load_data {
        put(&mut f, "data", Json::Null);
    }
    proof {
        assert(entry_views(Seq::<(String, Json)>::empty()) =~= Seq::empty());
        assert(entry_views(f@) =~= attachment_fields(
            *attachment,
            *config,
            is_for_notification,
            live,
            width as nat,
            height as nat,
            meta,
        ));
    }
    Json::Object(f)
}

/// What an attachment renders as: its fields, where `hasLivePhoto` can be
/// true only outside notifications for an attachment with a file, and the
/// dimensions, when loaded, are chosen from some `mdls` values, attribution
/// dimensions and `sips` dimensions, `sips` being asked only for a file of
/// a type it reads.
pub open spec fn attachment_rendered(
    a: Attachment,
    config: AttachmentSerializerConfig,
    notification: bool,
    j: JsonModel,
) -> bool {
    exists|live: bool, width: nat, height: nat, metadata: JsonModel|
        #[trigger] attachment_fields(a, config, notification, live, width, height, metadata) == (
        match j {
            JsonModel::Object(f) => f,
            _ => Seq::empty(),
        }) && j is Object && ((notification || a.filename is None) ==> !live) && (
        config.load_metadata ==> exists|
            m: Map<Seq<char>, Seq<char>>,
            att: Option<(nat, nat)>,
            sp: Option<(nat, nat)>,
        |
            #[trigger] chosen_dimensions(
                mdls_dimension(m, "kMDItemPixelWidth"@),
                mdls_dimension(m, "kMDItemPixelHeight"@),
                att,
                sp,
            ) == (width, height) && (sp is Some ==> a.filename is Some && sips_image_mimes().contains(
                text_or_empty(a.mime_type),
            )))
}

/// The text of an optional string, empty when there is none.
pub open spec fn text_or_empty(o: Option<String>) -> Seq<char> {
    match o {
        Some(s) => s@,
        None => ""@,
    }
}

/// What `mdls` reports for a file, as a map (empty when it reports nothing).
fn file_metadata<M: Fn(&str) -> Option<String>>(file_path: &str, run_mdls: &M) -> (r: StringMap)
    requires
        tilde_well_formed(file_path@),
        forall|p: &str| run_mdls.requires((p,)),
    ensures
        r.wf(),
        exists|home: Option<Seq<char>>, path: &str, output: Option<String>|
            #![trigger tilde_resolved(file_path@, home), run_mdls.ensures((path,), output)]
            path@ == tilde_resolved(file_path@, home) && run_mdls.ensures((path,), output) && r.view() == match output {
                Some(o) => mdls_map(split_on(o@, '\n')),
                None => Map::<Seq<char>, Seq<char>>::empty(),
            },
{
    let home = home_dir_text();
    let resolved = string_of(&resolve_tilde(file_path, &home));
    let path: &str = resolved.as_str();
    let output = run_mdls(path);
    proof {
        assert(run_mdls.ensures((path,), output));
        assert(path@ == tilde_resolved(file_path@, crate::config::opt_text(home)));
    }
    match output {
        Some(o) => parse_mdls_output(o.as_str()),
        None => StringMap::new(),
    }
}

/// What `sips` reports of an image's dimensions.
fn sips_dimensions_for<S: Fn(&str) -> Option<String>>(file_path: &str, run_sips: &S) -> (r: Option<
    (u32, u32),
>)
    requires
        tilde_well_formed(file_path@),
        forall|p: &str| run_sips.requires((p,)),
    ensures
        exists|home: Option<Seq<char>>, path: &str, output: Option<String>|
            #![trigger tilde_resolved(file_path@, home), run_sips.ensures((path,), output)]
            path@ == tilde_resolved(file_path@, home) && run_sips.ensures((path,), output) && match output {
                Some(o) => match sips_dimensions(o@) {
                    Some((w, h)) => r == Some((w as u32, h as u32)),
                    None => r is None,
                },
                None => r is None,
            },
{
    let home = home_dir_text();
    let resolved = string_of(&resolve_tilde(file_path, &home));
    let path: &str = resolved.as_str();
    let output = run_sips(path);
    proof {
        assert(run_sips.ensures((path,), output));
        assert(path@ == tilde_resolved(file_path@, crate::config::opt_text(home)));
    }
    match output {
        Some(o) => sips_dimensions_of(o.as_str()),
        None => None,
    }
}

/// An attachment's file may be probed: a path starting with `~` is well
/// formed wherever it is resolved.
pub open spec fn attachment_probe_ok(
    a: Attachment,
    config: AttachmentSerializerConfig,
    notification: bool,
) -> bool {
    (!notification || config.load_metadata) && a.filename is Some ==> tilde_well_formed(
        a.filename->0@,
    )
}

/// Serialize a single Attachment to JSON.  `mov_exists` tells whether a
/// live-photo companion exists, `run_mdls` and `run_sips` give the output
/// of those tools for a file (nothing when the file is missing or the tool
/// fails), `build_metadata` makes the metadata object of `mdls` values, and
/// the property-list reader reads the attribution blob.
pub fn serialize_attachment<
    P: Fn(&str) -> bool,
    M: Fn(&str) -> Option<String>,
    S: Fn(&str) -> Option<String>,
    B: Fn(&StringMap, &str) -> Json,
>(
    attachment: &Attachment,
    config: &AttachmentSerializerConfig,
    is_for_notification: bool,
    mov_exists: &P,
    run_mdls: &M,
    run_sips: &S,
    build_metadata: &B,
) -> (r: Json)
    requires
        attachment_probe_ok(*attachment, *config, is_for_notification),
        forall|p: &str| mov_exists.requires((p,)),
        forall|p: &str| run_mdls.requires((p,)),
        forall|p: &str| run_sips.requires((p,)),
        forall|m: &StringMap, t: &str| build_metadata.requires((m, t)),
    ensures
        attachment_rendered(*attachment, *config, is_for_notification, json_view(r)),
{
    let live = if !is_for_notification {
        match &attachment.filename {
            Some(f) => has_live_photo(f.as_str(), mov_exists),
            None => false,
        }
    } else {
        false
    };
    if !config.load_metadata {
        let r = attachment_json(attachment, config, is_for_notification, live, 0, 0, Json::Null);
        proof {
            let j = json_view(r);
            assert(attachment_fields(
                *attachment,
                *config,
                is_for_notification,
                live,
                0,
                0,
                JsonModel::Null,
            ) == (match j {
                JsonModel::Object(f) => f,
                _ => Seq::empty(),
            }));
        }
        return r;
    }
    proof {
        reveal_strlit("");
    }
    let file_path: &str = match &attachment.filename {
        Some(f) => f.as_str(),
        None => "",
    };
    let mime: &str = match &attachment.mime_type {
        Some(m) => m.as_str(),
        None => "",
    };
    let mdls = if !file_path.is_empty() {
        file_metadata(file_path, run_mdls)
    } else {
        StringMap::new()
    };
    let mw = mdls_dimension_of(&mdls, "kMDItemPixelWidth");
    let mh = mdls_dimension_of(&mdls, "kMDItemPixelHeight");
    let mut width = mw;
    let mut height = mh;
    let att: Option<(u32, u32)> = match &attachment.attribution_info {
        Some(blob) => {
            let parsed = read_plist(blob.as_slice());
            assert(plist_parse_ok(blob@, parsed));
            attribution_dimensions_of(&parsed)
        },
        None => None,
    };
    match att {
        Some((aw, ah)) => {
            width = aw;
            height = ah;
        },
        None => {},
    }
    let mut sp: Option<(u32, u32)> = None;
    if (width == 0 || height == 0) && !file_path.is_empty() && is_sips_mime(mime) {
        sp = sips_dimensions_for(file_path, run_sips);
        match sp {
            Some((sw, sh)) => {
                width = sw;
                height = sh;
            },
            None => {},
        }
    }
    let metadata = if mdls.len() > 0 {
        build_metadata(&mdls, mime)
    } else {
        Json::Null
    };
    let r = attachment_json(attachment, config, is_for_notification, live, width, height, metadata);
    proof {
        let attv: Option<(nat, nat)> = match att {
            Some((a1, a2)) => Some((a1 as nat, a2 as nat)),
            None => None,
        };
        let spv: Option<(nat, nat)> = match sp {
            Some((s1, s2)) => Some((s1 as nat, s2 as nat)),
            None => None,
        };
        assert(chosen_dimensions(
            mdls_dimension(mdls.view(), "kMDItemPixelWidth"@),
            mdls_dimension(mdls.view(), "kMDItemPixelHeight"@),
            attv,
            spv,
        ) == (width as nat, height as nat));
        let j = json_view(r);
        assert(attachment_fields(
            *attachment,
            *config,
            is_for_notification,
            live,
            width as nat,
            height as nat,
            json_view(metadata),
        ) == (match j {
            JsonModel::Object(f) => f,
            _ => Seq::empty(),
        }));
    }
    r
}

/// Serialize a list of Attachments to JSON.
pub fn serialize_attachments<
    P: Fn(&str) -> bool,
    M: Fn(&str) -> Option<String>,
    S: Fn(&str) -> Option<String>,
    B: Fn(&StringMap, &str) -> Json,
>(
    attachments: &[Attachment],
    config: &AttachmentSerializerConfig,
    is_for_notification: bool,
    mov_exists: &P,
    run_mdls: &M,
    run_sips: &S,
    build_metadata: &B,
) -> (r: Json)
    requires
        forall|i: int|
            0 <= i < attachments@.len() ==> attachment_probe_ok(
                #[trigger] attachments@[i],
                *config,
                is_for_notification,
            ),
        forall|p: &str| mov_exists.requires((p,)),
        forall|p: &str| run_mdls.requires((p,)),
        forall|p: &str| run_sips.requires((p,)),
        forall|m: &StringMap, t: &str| build_metadata.requires((m, t)),
    ensures
        r matches Json::Array(v) && v@.len() == attachments@.len() && forall|i: int|
            0 <= i < v@.len() ==> attachment_rendered(
                attachments@[i],
                *config,
                is_for_notification,
                json_view(#[trigger] v@[i]),
            ),
{
    let mut out: Vec<Json> = Vec::new();
    let mut k: usize = 0;
    while k < attachments.len()
        invariant
            k <= attachments.len(),
            out@.len() == k,
            forall|i: int|
                0 <= i < attachments@.len() ==> attachment_probe_ok(
                    #[trigger] attachments@[i],
                    *config,
                    is_for_notification,
                ),
            forall|p: &str| mov_exists.requires((p,)),
            forall|p: &str| run_mdls.requires((p,)),
            forall|p: &str| run_sips.requires((p,)),
            forall|m: &StringMap, t: &str| build_metadata.requires((m, t)),
            forall|i: int|
                0 <= i < k ==> attachment_rendered(
                    attachments@[i],
                    *config,
                    is_for_notification,
                    json_view(#[trigger] out@[i]),
                ),
        decreases attachments.len() - k,
    {
        assert(attachment_probe_ok(attachments@[k as int], *config, is_for_notification));
        out.push(
            serialize_attachment(
                &attachments[k],
                config,
                is_for_notification,
                mov_exists,
                run_mdls,
                run_sips,
                build_metadata,
            ),
        );
        k = k + 1;
    }
    Json::Array(out)
}

// ---------------------------------------------------------------------------
// Messages
// ---------------------------------------------------------------------------

/// The leading fields of a message: identity, text and body, handle and
/// attachments.
pub open spec fn message_head(
    m: Message,
    text: JsonModel,
    attributed: JsonModel,
    attachments: JsonModel,
) -> Seq<(Seq<char>, JsonModel)> {
    seq![
        ("originalROWID"@, JsonModel::Int(m.rowid as int)),
        ("guid"@, JsonModel::Str(m.guid@)),
        ("text"@, text),
        ("attributedBody"@, attributed),
        ("handle"@, match m.handle {
            Some(h) => JsonModel::Object(handle_fields(h, false)),
            None => JsonModel::Null,
        }),
        ("handleId"@, JsonModel::Int(m.handle_id as int)),
        ("otherHandle"@, JsonModel::Int(m.other_handle as int)),
        ("attachments"@, attachments),
    ]
}

/// The message's other fields that every rendering has.
pub open spec fn message_core(m: Message) -> Seq<(Seq<char>, JsonModel)> {
    seq![
        ("subject"@, opt_str_json(m.subject)),
        ("error"@, JsonModel::Int(m.error as int)),
        ("dateCreated"@, opt_int_json(m.date)),
        ("dateRead"@, opt_int_json(m.date_read)),
        ("dateDelivered"@, opt_int_json(m.date_delivered)),
        ("isDelivered"@, JsonModel::Bool(m.is_delivered)),
        ("isFromMe"@, JsonModel::Bool(m.is_from_me)),
        ("hasDdResults"@, JsonModel::Bool(m.has_dd_results)),
        ("isArchived"@, JsonModel::Bool(m.is_archive)),
        ("itemType"@, JsonModel::Int(m.item_type as int)),
        ("groupTitle"@, opt_str_json(m.group_title)),
        ("groupActionType"@, JsonModel::Int(m.group_action_type as int)),
        ("balloonBundleId"@, opt_str_json(m.balloon_bundle_id)),
        ("associatedMessageGuid"@, opt_str_json(m.associated_message_guid)),
        ("associatedMessageType"@, opt_str_json(m.associated_message_type)),
        ("associatedMessageEmoji"@, opt_str_json(m.associated_message_emoji)),
        ("expressiveSendStyleId"@, opt_str_json(m.expressive_send_style_id)),
        ("threadOriginatorGuid"@, opt_str_json(m.thread_originator_guid)),
        ("hasPayloadData"@, JsonModel::Bool(m.payload_data is Some)),
    ]
}

/// The fields a message has outside notifications: its flags ...
pub open spec fn message_flags(m: Message) -> Seq<(Seq<char>, JsonModel)> {
    seq![
        ("country"@, opt_str_json(m.country)),
        ("isDelayed"@, JsonModel::Bool(m.is_delayed)),
        ("isAutoReply"@, JsonModel::Bool(m.is_auto_reply)),
        ("isSystemMessage"@, JsonModel::Bool(m.is_system_message)),
        ("isServiceMessage"@, JsonModel::Bool(m.is_service_message)),
        ("isForward"@, JsonModel::Bool(m.is_forward)),
        ("threadOriginatorPart"@, opt_str_json(m.thread_originator_part)),
        ("isCorrupt"@, JsonModel::Bool(m.is_corrupt == Some(true))),
        ("datePlayed"@, opt_int_json(m.date_played)),
        ("cacheRoomnames"@, opt_str_json(m.cache_roomnames)),
    ]
}

/// ... and its state.
pub open spec fn message_state(m: Message) -> Seq<(Seq<char>, JsonModel)> {
    seq![
        ("isSpam"@, JsonModel::Bool(m.is_spam == Some(true))),
        ("isExpired"@, JsonModel::Bool(m.is_expirable)),
        ("timeExpressiveSendPlayed"@, opt_int_json(m.time_expressive_send_played)),
        ("isAudioMessage"@, JsonModel::Bool(m.is_audio_message)),
        ("replyToGuid"@, opt_str_json(m.reply_to_guid)),
        ("shareStatus"@, JsonModel::Int(m.share_status as int)),
        ("shareDirection"@, JsonModel::Int(m.share_direction as int)),
        ("wasDeliveredQuietly"@, JsonModel::Bool(m.was_delivered_quietly == Some(true))),
        ("didNotifyRecipient"@, JsonModel::Bool(m.did_notify_recipient == Some(true))),
    ]
}

/// The closing fields of a message: blobs and edit dates.
pub open spec fn message_tail(m: Message, summary: JsonModel, payload: JsonModel) -> Seq<
    (Seq<char>, JsonModel),
> {
    seq![
        ("messageSummaryInfo"@, summary),
        ("payloadData"@, payload),
        ("dateEdited"@, opt_int_json(m.date_edited)),
        ("dateRetracted"@, opt_int_json(m.date_retracted)),
        ("partCount"@, opt_int_json(m.part_count)),
    ]
}

/// The fields of a message, given its text, attributed body, attachments,
/// chats, summary info and payload data as rendered.
pub open spec fn message_fields(
    m: Message,
    config: MessageSerializerConfig,
    notification: bool,
    text: JsonModel,
    attributed: JsonModel,
    attachments: JsonModel,
    chats: JsonModel,
    summary: JsonModel,
    payload: JsonModel,
) -> Seq<(Seq<char>, JsonModel)> {
    message_head(m, text, attributed, attachments) + message_core(m) + (if notification {
        Seq::empty()
    } else {
        message_flags(m) + message_state(m)
    }) + (if config.include_chats {
        seq![("chats"@, chats)]
    } else {
        Seq::empty()
    }) + message_tail(m, summary, payload)
}

fn put_message_head(f: &mut Vec<(String, Json)>, m: &Message, text: Json, attributed: Json, attachments: Json)
    ensures
        entry_views(final(f)@) == entry_views(old(f)@) + message_head(
            *m,
            json_view(text),
            json_view(attributed),
            json_view(attachments),
        ),
{
    let ghost (tv, av, atv) = (json_view(text), json_view(attributed), json_view(attachments));
    put(f, "originalROWID", Json::Int(m.rowid));
    put(f, "guid", str_json(&m.guid));
    put(f, "text", text);
    put(f, "attributedBody", attributed);
    let handle = match &m.handle {
        Some(h) => serialize_handle(h, false),
        None => Json::Null,
    };
    put(f, "handle", handle);
    put(f, "handleId", Json::Int(m.handle_id));
    put(f, "otherHandle", Json::Int(m.other_handle));
    put(f, "attachments", attachments);
    assert(entry_views(f@) =~= entry_views(old(f)@) + message_head(*m, tv, av, atv));
}

/// The first fields of [`message_core`]: subject to item type.
pub open spec fn message_core_dates(m: Message) -> Seq<(Seq<char>, JsonModel)> {
    message_core(m).take(10)
}

fn put_message_core_dates(f: &mut Vec<(String, Json)>, m: &Message)
    ensures
        entry_views(final(f)@) == entry_views(old(f)@) + message_core_dates(*m),
{
    put(f, "subject", opt_str(&m.subject));
    put(f, "error", Json::Int(m.error));
    put(f, "dateCreated", opt_int(m.date));
    put(f, "dateRead", opt_int(m.date_read));
    put(f, "dateDelivered", opt_int(m.date_delivered));
    put(f, "isDelivered", Json::Bool(m.is_delivered));
    put(f, "isFromMe", Json::Bool(m.is_from_me));
    put(f, "hasDdResults", Json::Bool(m.has_dd_results));
    put(f, "isArchived", Json::Bool(m.is_archive));
    put(f, "itemType", Json::Int(m.item_type));
    assert(entry_views(f@) =~= entry_views(old(f)@) + message_core_dates(*m));
}

fn put_message_core_links(f: &mut Vec<(String, Json)>, m: &Message)
    ensures
        entry_views(final(f)@) == entry_views(old(f)@) + message_core(*m).skip(10),
{
    put(f, "groupTitle", opt_str(&m.group_title));
    put(f, "groupActionType", Json::Int(m.group_action_type));
    put(f, "balloonBundleId", opt_str(&m.balloon_bundle_id));
    put(f, "associatedMessageGuid", opt_str(&m.associated_message_guid));
    put(f, "associatedMessageType", opt_str(&m.associated_message_type));
    put(f, "associatedMessageEmoji", opt_str(&m.associated_message_emoji));
    put(f, "expressiveSendStyleId", opt_str(&m.expressive_send_style_id));
    put(f, "threadOriginatorGuid", opt_str(&m.thread_originator_guid));
    put(f, "hasPayloadData", Json::Bool(m.payload_data.is_some()));
    assert(entry_views(f@) =~= entry_views(old(f)@) + message_core(*m).skip(10));
}

fn put_message_core(f: &mut Vec<(String, Json)>, m: &Message)
    ensures
        entry_views(final(f)@) == entry_views(old(f)@) + message_core(*m),
{
    put_message_core_dates(f, m);
    put_message_core_links(f, m);
    assert(message_core(*m) =~= message_core_dates(*m) + message_core(*m).skip(10));
    assert(entry_views(f@) =~= entry_views(old(f)@) + message_core(*m));
}

fn put_message_flags(f: &mut Vec<(String, Json)>, m: &Message)
    ensures
        entry_views(final(f)@) == entry_views(old(f)@) + message_flags(*m),
{
    put(f, "country", opt_str(&m.country));
    put(f, "isDelayed", Json::Bool(m.is_delayed));
    put(f, "isAutoReply", Json::Bool(m.is_auto_reply));
    put(f, "isSystemMessage", Json::Bool(m.is_system_message));
    put(f, "isServiceMessage", Json::Bool(m.is_service_message));
    put(f, "isForward", Json::Bool(m.is_forward));
    put(f, "threadOriginatorPart", opt_str(&m.thread_originator_part));
    put(f, "isCorrupt", Json::Bool(flag(m.is_corrupt)));
    put(f, "datePlayed", opt_int(m.date_played));
    put(f, "cacheRoomnames", opt_str(&m.cache_roomnames));
    assert(entry_views(f@) =~= entry_views(old(f)@) + message_flags(*m));
}

fn put_message_state(f: &mut Vec<(String, Json)>, m: &Message)
    ensures
        entry_views(final(f)@) == entry_views(old(f)@) + message_state(*m),
{
    put(f, "isSpam", Json::Bool(flag(m.is_spam)));
    put(f, "isExpired", Json::Bool(m.is_expirable));
    put(f, "timeExpressiveSendPlayed", opt_int(m.time_expressive_send_played));
    put(f, "isAudioMessage", Json::Bool(m.is_audio_message));
    put(f, "replyToGuid", opt_str(&m.reply_to_guid));
    put(f, "shareStatus", Json::Int(m.share_status));
    put(f, "shareDirection", Json::Int(m.share_direction));
    put(f, "wasDeliveredQuietly", Json::Bool(flag(m.was_delivered_quietly)));
    put(f, "didNotifyRecipient", Json::Bool(flag(m.did_notify_recipient)));
    assert(entry_views(f@) =~= entry_views(old(f)@) + message_state(*m));
}

fn put_message_tail(f: &mut Vec<(String, Json)>, m: &Message, summary: Json, payload: Json)
    ensures
        entry_views(final(f)@) == entry_views(old(f)@) + message_tail(
            *m,
            json_view(summary),
            json_view(payload),
        ),
{
    let ghost (sv, pv) = (json_view(summary), json_view(payload));
    put(f, "messageSummaryInfo", summary);
    put(f, "payloadData", payload);
    put(f, "dateEdited", opt_int(m.date_edited));
    put(f, "dateRetracted", opt_int(m.date_retracted));
    put(f, "partCount", opt_int(m.part_count));
    assert(entry_views(f@) =~= entry_views(old(f)@) + message_tail(*m, sv, pv));
}

/// Assembles a message's JSON from its rendered parts.
pub fn message_json(
    message: &Message,
    config: &MessageSerializerConfig,
    is_for_notification: bool,
    text: Json,
    attributed: Json,
    attachments: Json,
    chats: Json,
    summary: Json,
    payload: Json,
) -> (r: Json)
    ensures
        json_view(r) == JsonModel::Object(
            message_fields(
                *message,
                *config,
                is_for_notification,
                json_view(text),
                json_view(attributed),
                json_view(attachments),
                json_view(chats),
                json_view(summary),
                json_view(payload),
            ),
        ),
{
    let ghost (tv, av, atv, cv, sv, pv) = (
        json_view(text),
        json_view(attributed),
        json_view(attachments),
        json_view(chats),
        json_view(summary),
        json_view(payload),
    );
    let mut f: Vec<(String, Json)> = Vec::new();
    proof {
        assert(entry_views(f@) =~= Seq::empty());
    }
    put_message_head(&mut f, message, text, attributed, attachments);
    put_message_core(&mut f, message);
    if !is_for_notification {
        put_message_flags(&mut f, message);
        put_message_state(&mut f, message);
    }
    if config.include_chats {
        put(&mut f, "chats", chats);
    }
    put_message_tail(&mut f, message, summary, payload);
    proof {
        assert(entry_views(f@) =~= message_fields(
            *message,
            *config,
            is_for_notification,
            tv,
            av,
            atv,
            cv,
            sv,
            pv,
        ));
    }
    Json::Object(f)
}

/// The text a JSON value holds, if it is a string.
pub open spec fn model_text(j: JsonModel) -> Option<Seq<char>> {
    match j {
        JsonModel::Str(s) => Some(s),
        _ => None,
    }
}

/// A JSON value, or nothing for null.
pub open spec fn model_opt(j: JsonModel) -> Option<JsonModel> {
    match j {
        JsonModel::Null => None,
        _ => Some(j),
    }
}

/// A message's `text`: its text column when that is not empty; otherwise
/// the plain text of its attributed body (see [`extracted_text`]), null
/// when there is none.
pub open spec fn message_text_ok(m: Message, j: JsonModel) -> bool {
    match m.text {
        Some(t) if t@.len() > 0 => j == JsonModel::Str(t@),
        _ => match m.attributed_body {
            None => j == JsonModel::Null,
            Some(b) => (j is Null || j is Str) && extracted_text(b@, model_text(j)),
        },
    }
}

/// A message's `attributedBody`: null unless the configuration asks for it,
/// else what its attributed body renders as (see [`rendered_body`]), null
/// when it renders as nothing.
pub open spec fn attributed_ok(m: Message, config: MessageSerializerConfig, j: JsonModel) -> bool {
    if !config.parse_attributed_body {
        j == JsonModel::Null
    } else {
        match m.attributed_body {
            None => j == JsonModel::Null,
            Some(b) => (j is Null || j is Array) && rendered_body(b@, model_opt(j)),
        }
    }
}

/// A blob field of a message: null unless the configuration asks for it,
/// then the blob as read with the property-list reader.
pub open spec fn message_blob_ok(
    wanted: bool,
    blob: Option<Vec<u8>>,
    j: JsonModel,
) -> bool {
    if wanted {
        blob_json(blob, false, j)
    } else {
        j == JsonModel::Null
    }
}

/// The chat configuration of chats inside a message.
pub open spec fn inner_chat_config() -> ChatSerializerConfig {
    ChatSerializerConfig { include_participants: false, include_messages: false }
}

/// What a message renders as: its fields, with each rendered part as
/// described by the predicates above.
pub open spec fn message_rendered(
    m: Message,
    config: MessageSerializerConfig,
    attachment_config: AttachmentSerializerConfig,
    notification: bool,
    j: JsonModel,
) -> bool {
    exists|
        text: JsonModel,
        attributed: JsonModel,
        atts: Seq<JsonModel>,
        chats: Seq<JsonModel>,
        summary: JsonModel,
        payload: JsonModel,
    |
        j == JsonModel::Object(
            #[trigger] message_fields(
                m,
                config,
                notification,
                text,
                attributed,
                JsonModel::Array(atts),
                JsonModel::Array(chats),
                summary,
                payload,
            ),
        ) && message_text_ok(m, text) && attributed_ok(m, config, attributed) && atts.len()
            == m.attachments@.len() && (forall|i: int|
            0 <= i < atts.len() ==> attachment_rendered(
                m.attachments@[i],
                attachment_config,
                notification,
                #[trigger] atts[i],
            )) && (config.include_chats ==> chats.len() == m.chats@.len() && forall|i: int|
            0 <= i < chats.len() ==> chat_rendered(
                m.chats@[i],
                inner_chat_config(),
                notification,
                #[trigger] chats[i],
            )) && message_blob_ok(config.parse_message_summary, m.message_summary_info, summary)
            && message_blob_ok(config.parse_payload_data, m.payload_data, payload)
}

/// A rendered message's `dateEdited` is the message's edit date and its
/// `dateRetracted` its retraction date (each a number, or null when the
/// message has none); they are the third and second entries from the end.
pub proof fn law_message_edit_dates(
    m: Message,
    config: MessageSerializerConfig,
    attachment_config: AttachmentSerializerConfig,
    notification: bool,
    j: JsonModel,
)
    requires
        message_rendered(m, config, attachment_config, notification, j),
    ensures
        j matches JsonModel::Object(f) && f.len() >= 5 && f[f.len() - 3] == ("dateEdited"@, match m.date_edited {
            Some(n) => JsonModel::Int(n as int),
            None => JsonModel::Null,
        }) && f[f.len() - 2] == ("dateRetracted"@, match m.date_retracted {
            Some(n) => JsonModel::Int(n as int),
            None => JsonModel::Null,
        }),
{
    let (text, attributed, atts, chats, summary, payload) = choose|
        text: JsonModel,
        attributed: JsonModel,
        atts: Seq<JsonModel>,
        chats: Seq<JsonModel>,
        summary: JsonModel,
        payload: JsonModel,
    |
        j == JsonModel::Object(
            #[trigger] message_fields(
                m,
                config,
                notification,
                text,
                attributed,
                JsonModel::Array(atts),
                JsonModel::Array(chats),
                summary,
                payload,
            ),
        ) && message_text_ok(m, text) && attributed_ok(m, config, attributed) && atts.len()
            == m.attachments@.len() && (forall|i: int|
            0 <= i < atts.len() ==> attachment_rendered(
                m.attachments@[i],
                attachment_config,
                notification,
                #[trigger] atts[i],
            )) && (config.include_chats ==> chats.len() == m.chats@.len() && forall|i: int|
            0 <= i < chats.len() ==> chat_rendered(
                m.chats@[i],
                inner_chat_config(),
                notification,
                #[trigger] chats[i],
            )) && message_blob_ok(config.parse_message_summary, m.message_summary_info, summary)
            && message_blob_ok(config.parse_payload_data, m.payload_data, payload);
    let head = message_head(m, text, attributed, JsonModel::Array(atts));
    let core = message_core(m);
    let mid: Seq<(Seq<char>, JsonModel)> = if notification {
        Seq::empty()
    } else {
        message_flags(m) + message_state(m)
    };
    let ch: Seq<(Seq<char>, JsonModel)> = if config.include_chats {
        seq![("chats"@, JsonModel::Array(chats))]
    } else {
        Seq::empty()
    };
    let tail = message_tail(m, summary, payload);
    let f = message_fields(
        m,
        config,
        notification,
        text,
        attributed,
        JsonModel::Array(atts),
        JsonModel::Array(chats),
        summary,
        payload,
    );
    assert(f == head + core + mid + ch + tail);
    assert(f[f.len() - 3] == tail[2]);
    assert(f[f.len() - 2] == tail[3]);
}

/// The key `k` is one of the keys of `f`.
pub open spec fn has_key(f: Seq<(Seq<char>, JsonModel)>, k: Seq<char>) -> bool {
    exists|i: int| 0 <= i < f.len() && (#[trigger] f[i]).0 == k
}

/// Every rendered message has the keys `originalROWID`, `guid` and `text`;
/// its `hasPayloadData` tells whether it has payload data; its
/// `attachments` is an array with one item per attachment; its
/// `payloadData` is null unless payload data is parsed; and it has the
/// keys `country`, `isDelayed`, `isAutoReply` and `shareStatus` exactly
/// when it is not rendered for a notification.
pub proof fn law_message_keys(
    m: Message,
    config: MessageSerializerConfig,
    attachment_config: AttachmentSerializerConfig,
    notification: bool,
    j: JsonModel,
)
    requires
        message_rendered(m, config, attachment_config, notification, j),
    ensures
        j matches JsonModel::Object(f) && {
            &&& f[0].0 == "originalROWID"@ && f[1].0 == "guid"@ && f[2].0 == "text"@
            &&& f[26] == ("hasPayloadData"@, JsonModel::Bool(m.payload_data is Some))
            &&& f[7].0 == "attachments"@ && (f[7].1 matches JsonModel::Array(a) && a.len()
                == m.attachments@.len())
            &&& !config.parse_payload_data ==> f[f.len() - 4] == ("payloadData"@, JsonModel::Null)
            &&& !notification ==> (has_key(f, "country"@) && has_key(f, "isDelayed"@) && has_key(
                f,
                "isAutoReply"@,
            ) && has_key(f, "shareStatus"@))
            &&& notification ==> (!has_key(f, "country"@) && !has_key(f, "isDelayed"@)
                && !has_key(f, "isAutoReply"@) && !has_key(f, "shareStatus"@))
        },
{
    let (text, attributed, atts, chats, summary, payload) = choose|
        text: JsonModel,
        attributed: JsonModel,
        atts: Seq<JsonModel>,
        chats: Seq<JsonModel>,
        summary: JsonModel,
        payload: JsonModel,
    |
        j == JsonModel::Object(
            #[trigger] message_fields(
                m,
                config,
                notification,
                text,
                attributed,
                JsonModel::Array(atts),
                JsonModel::Array(chats),
                summary,
                payload,
            ),
        ) && message_text_ok(m, text) && attributed_ok(m, config, attributed) && atts.len()
            == m.attachments@.len() && (forall|i: int|
            0 <= i < atts.len() ==> attachment_rendered(
                m.attachments@[i],
                attachment_config,
                notification,
                #[trigger] atts[i],
            )) && (config.include_chats ==> chats.len() == m.chats@.len() && forall|i: int|
            0 <= i < chats.len() ==> chat_rendered(
                m.chats@[i],
                inner_chat_config(),
                notification,
                #[trigger] chats[i],
            )) && message_blob_ok(config.parse_message_summary, m.message_summary_info, summary)
            && message_blob_ok(config.parse_payload_data, m.payload_data, payload);
    let head = message_head(m, text, attributed, JsonModel::Array(atts));
    let core = message_core(m);
    let mid: Seq<(Seq<char>, JsonModel)> = if notification {
        Seq::empty()
    } else {
        message_flags(m) + message_state(m)
    };
    let ch: Seq<(Seq<char>, JsonModel)> = if config.include_chats {
        seq![("chats"@, JsonModel::Array(chats))]
    } else {
        Seq::empty()
    };
    let tail = message_tail(m, summary, payload);
    let f = message_fields(
        m,
        config,
        notification,
        text,
        attributed,
        JsonModel::Array(atts),
        JsonModel::Array(chats),
        summary,
        payload,
    );
    assert(f == head + core + mid + ch + tail);
    assert(f.len() == 27 + mid.len() + ch.len() + 5);
    assert(f[0] == head[0] && f[1] == head[1] && f[2] == head[2] && f[7] == head[7]);
    assert(f[26] == core[18]);
    assert(f[f.len() - 4] == tail[1]);
    if !notification {
        assert(f[27] == message_flags(m)[0]);
        assert(f[28] == message_flags(m)[1]);
        assert(f[29] == message_flags(m)[2]);
        assert(f[42] == message_state(m)[5]);
    } else {
        reveal_strlit("associatedMessageEmoji");
        reveal_strlit("associatedMessageGuid");
        reveal_strlit("associatedMessageType");
        reveal_strlit("attachments");
        reveal_strlit("attributedBody");
        reveal_strlit("balloonBundleId");
        reveal_strlit("chats");
        reveal_strlit("country");
        reveal_strlit("dateCreated");
        reveal_strlit("dateDelivered");
        reveal_strlit("dateEdited");
        reveal_strlit("dateRead");
        reveal_strlit("dateRetracted");
        reveal_strlit("error");
        reveal_strlit("expressiveSendStyleId");
        reveal_strlit("groupActionType");
        reveal_strlit("groupTitle");
        reveal_strlit("guid");
        reveal_strlit("handle");
        reveal_strlit("handleId");
        reveal_strlit("hasDdResults");
        reveal_strlit("hasPayloadData");
        reveal_strlit("isArchived");
        reveal_strlit("isAutoReply");
        reveal_strlit("isDelayed");
        reveal_strlit("isDelivered");
        reveal_strlit("isFromMe");
        reveal_strlit("itemType");
        reveal_strlit("messageSummaryInfo");
        reveal_strlit("originalROWID");
        reveal_strlit("otherHandle");
        reveal_strlit("partCount");
        reveal_strlit("payloadData");
        reveal_strlit("shareStatus");
        reveal_strlit("subject");
        reveal_strlit("text");
        reveal_strlit("threadOriginatorGuid");
        assert forall|i: int| 0 <= i < f.len() implies (#[trigger] f[i]).0 != "country"@ && f[i].0
            != "isDelayed"@ && f[i].0 != "isAutoReply"@ && f[i].0 != "shareStatus"@ by {
            if config.include_chats {
                assert(f =~= head + core + ch + tail);
            if i == 0 {
                assert(f[0].0 == "originalROWID"@);
                assert(f[0].0.len() == 13);
            }
            if i == 1 {
                assert(f[1].0 == "guid"@);
                assert(f[1].0.len() == 4);
            }
            if i == 2 {
                assert(f[2].0 == "text"@);
                assert(f[2].0.len() == 4);
            }
            if i == 3 {
                assert(f[3].0 == "attributedBody"@);
                assert(f[3].0.len() == 14);
            }
            if i == 4 {
                assert(f[4].0 == "handle"@);
                assert(f[4].0.len() == 6);
            }
            if i == 5 {
                assert(f[5].0 == "handleId"@);
                assert(f[5].0.len() == 8);
            }
            if i == 6 {
                assert(f[6].0 == "otherHandle"@);
                assert(f[6].0.len() == 11);
                assert(f[6].0[0] == 'o' && "isAutoReply"@[0] == 'i');
                assert(f[6].0[0] == 'o' && "shareStatus"@[0] == 's');
            }
            if i == 7 {
                assert(f[7].0 == "attachments"@);
                assert(f[7].0.len() == 11);
                assert(f[7].0[0] == 'a' && "isAutoReply"@[0] == 'i');
                assert(f[7].0[0] == 'a' && "shareStatus"@[0] == 's');
            }
            if i == 8 {
                assert(f[8].0 == "subject"@);
                assert(f[8].0.len() == 7);
                assert(f[8].0[0] == 's' && "country"@[0] == 'c');
            }
            if i == 9 {
                assert(f[9].0 == "error"@);
                assert(f[9].0.len() == 5);
            }
            if i == 10 {
                assert(f[10].0 == "dateCreated"@);
                assert(f[10].0.len() == 11);
                assert(f[10].0[0] == 'd' && "isAutoReply"@[0] == 'i');
                assert(f[10].0[0] == 'd' && "shareStatus"@[0] == 's');
            }
            if i == 11 {
                assert(f[11].0 == "dateRead"@);
                assert(f[11].0.len() == 8);
            }
            if i == 12 {
                assert(f[12].0 == "dateDelivered"@);
                assert(f[12].0.len() == 13);
            }
            if i == 13 {
                assert(f[13].0 == "isDelivered"@);
                assert(f[13].0.len() == 11);
                assert(f[13].0[2] == 'D' && "isAutoReply"@[2] == 'A');
                assert(f[13].0[0] == 'i' && "shareStatus"@[0] == 's');
            }
            if i == 14 {
                assert(f[14].0 == "isFromMe"@);
                assert(f[14].0.len() == 8);
            }
            if i == 15 {
                assert(f[15].0 == "hasDdResults"@);
                assert(f[15].0.len() == 12);
            }
            if i == 16 {
                assert(f[16].0 == "isArchived"@);
                assert(f[16].0.len() == 10);
            }
            if i == 17 {
                assert(f[17].0 == "itemType"@);
                assert(f[17].0.len() == 8);
            }
            if i == 18 {
                assert(f[18].0 == "groupTitle"@);
                assert(f[18].0.len() == 10);
            }
            if i == 19 {
                assert(f[19].0 == "groupActionType"@);
                assert(f[19].0.len() == 15);
            }
            if i == 20 {
                assert(f[20].0 == "balloonBundleId"@);
                assert(f[20].0.len() == 15);
            }
            if i == 21 {
                assert(f[21].0 == "associatedMessageGuid"@);
                assert(f[21].0.len() == 21);
            }
            if i == 22 {
                assert(f[22].0 == "associatedMessageType"@);
                assert(f[22].0.len() == 21);
            }
            if i == 23 {
                assert(f[23].0 == "associatedMessageEmoji"@);
                assert(f[23].0.len() == 22);
            }
            if i == 24 {
                assert(f[24].0 == "expressiveSendStyleId"@);
                assert(f[24].0.len() == 21);
            }
            if i == 25 {
                assert(f[25].0 == "threadOriginatorGuid"@);
                assert(f[25].0.len() == 20);
            }
            if i == 26 {
                assert(f[26].0 == "hasPayloadData"@);
                assert(f[26].0.len() == 14);
            }
            if i == 27 {
                assert(f[27].0 == "chats"@);
                assert(f[27].0.len() == 5);
            }
            if i == 28 {
                assert(f[28].0 == "messageSummaryInfo"@);
                assert(f[28].0.len() == 18);
            }
            if i == 29 {
                assert(f[29].0 == "payloadData"@);
                assert(f[29].0.len() == 11);
                assert(f[29].0[0] == 'p' && "isAutoReply"@[0] == 'i');
                assert(f[29].0[0] == 'p' && "shareStatus"@[0] == 's');
            }
            if i == 30 {
                assert(f[30].0 == "dateEdited"@);
                assert(f[30].0.len() == 10);
            }
            if i == 31 {
                assert(f[31].0 == "dateRetracted"@);
                assert(f[31].0.len() == 13);
            }
            if i == 32 {
                assert(f[32].0 == "partCount"@);
                assert(f[32].0.len() == 9);
                assert(f[32].0[0] == 'p' && "isDelayed"@[0] == 'i');
            }
            } else {
                assert(f =~= head + core + tail);
            if i == 0 {
                assert(f[0].0 == "originalROWID"@);
                assert(f[0].0.len() == 13);
            }
            if i == 1 {
                assert(f[1].0 == "guid"@);
                assert(f[1].0.len() == 4);
            }
            if i == 2 {
                assert(f[2].0 == "text"@);
                assert(f[2].0.len() == 4);
            }
            if i == 3 {
                assert(f[3].0 == "attributedBody"@);
                assert(f[3].0.len() == 14);
            }
            if i == 4 {
                assert(f[4].0 == "handle"@);
                assert(f[4].0.len() == 6);
            }
            if i == 5 {
                assert(f[5].0 == "handleId"@);
                assert(f[5].0.len() == 8);
            }
            if i == 6 {
                assert(f[6].0 == "otherHandle"@);
                assert(f[6].0.len() == 11);
                assert(f[6].0[0] == 'o' && "isAutoReply"@[0] == 'i');
                assert(f[6].0[0] == 'o' && "shareStatus"@[0] == 's');
            }
            if i == 7 {
                assert(f[7].0 == "attachments"@);
                assert(f[7].0.len() == 11);
                assert(f[7].0[0] == 'a' && "isAutoReply"@[0] == 'i');
                assert(f[7].0[0] == 'a' && "shareStatus"@[0] == 's');
            }
            if i == 8 {
                assert(f[8].0 == "subject"@);
                assert(f[8].0.len() == 7);
                assert(f[8].0[0] == 's' && "country"@[0] == 'c');
            }
            if i == 9 {
                assert(f[9].0 == "error"@);
                assert(f[9].0.len() == 5);
            }
            if i == 10 {
                assert(f[10].0 == "dateCreated"@);
                assert(f[10].0.len() == 11);
                assert(f[10].0[0] == 'd' && "isAutoReply"@[0] == 'i');
                assert(f[10].0[0] == 'd' && "shareStatus"@[0] == 's');
            }
            if i == 11 {
                assert(f[11].0 == "dateRead"@);
                assert(f[11].0.len() == 8);
            }
            if i == 12 {
                assert(f[12].0 == "dateDelivered"@);
                assert(f[12].0.len() == 13);
            }
            if i == 13 {
                assert(f[13].0 == "isDelivered"@);
                assert(f[13].0.len() == 11);
                assert(f[13].0[2] == 'D' && "isAutoReply"@[2] == 'A');
                assert(f[13].0[0] == 'i' && "shareStatus"@[0] == 's');
            }
            if i == 14 {
                assert(f[14].0 == "isFromMe"@);
                assert(f[14].0.len() == 8);
            }
            if i == 15 {
                assert(f[15].0 == "hasDdResults"@);
                assert(f[15].0.len() == 12);
            }
            if i == 16 {
                assert(f[16].0 == "isArchived"@);
                assert(f[16].0.len() == 10);
            }
            if i == 17 {
                assert(f[17].0 == "itemType"@);
                assert(f[17].0.len() == 8);
            }
            if i == 18 {
                assert(f[18].0 == "groupTitle"@);
                assert(f[18].0.len() == 10);
            }
            if i == 19 {
                assert(f[19].0 == "groupActionType"@);
                assert(f[19].0.len() == 15);
            }
            if i == 20 {
                assert(f[20].0 == "balloonBundleId"@);
                assert(f[20].0.len() == 15);
            }
            if i == 21 {
                assert(f[21].0 == "associatedMessageGuid"@);
                assert(f[21].0.len() == 21);
            }
            if i == 22 {
                assert(f[22].0 == "associatedMessageType"@);
                assert(f[22].0.len() == 21);
            }
            if i == 23 {
                assert(f[23].0 == "associatedMessageEmoji"@);
                assert(f[23].0.len() == 22);
            }
            if i == 24 {
                assert(f[24].0 == "expressiveSendStyleId"@);
                assert(f[24].0.len() == 21);
            }
            if i == 25 {
                assert(f[25].0 == "threadOriginatorGuid"@);
                assert(f[25].0.len() == 20);
            }
            if i == 26 {
                assert(f[26].0 == "hasPayloadData"@);
                assert(f[26].0.len() == 14);
            }
            if i == 27 {
                assert(f[27].0 == "messageSummaryInfo"@);
                assert(f[27].0.len() == 18);
            }
            if i == 28 {
                assert(f[28].0 == "payloadData"@);
                assert(f[28].0.len() == 11);
                assert(f[28].0[0] == 'p' && "isAutoReply"@[0] == 'i');
                assert(f[28].0[0] == 'p' && "shareStatus"@[0] == 's');
            }
            if i == 29 {
                assert(f[29].0 == "dateEdited"@);
                assert(f[29].0.len() == 10);
            }
            if i == 30 {
                assert(f[30].0 == "dateRetracted"@);
                assert(f[30].0.len() == 13);
            }
            if i == 31 {
                assert(f[31].0 == "partCount"@);
                assert(f[31].0.len() == 9);
                assert(f[31].0[0] == 'p' && "isDelayed"@[0] == 'i');
            }
            }
        }
    }
}

fn text_json(m: &Message) -> (r: Json)
    ensures
        message_text_ok(*m, json_view(r)),
{
    match &m.text {
        Some(t) => {
            if !t.as_str().is_empty() {
                return Json::Str(t.clone());
            }
        },
        None => {},
    }
    match &m.attributed_body {
        Some(b) => match extract_text(b.as_slice()) {
            Some(s) => Json::Str(s),
            None => Json::Null,
        },
        None => Json::Null,
    }
}

fn blob_field(wanted: bool, blob: &Option<Vec<u8>>) -> (r: Json)
    ensures
        message_blob_ok(wanted, *blob, json_view(r)),
{
    if !wanted {
        return Json::Null;
    }
    match blob {
        Some(b) => {
            let s: &[u8] = b.as_slice();
            let decoded = decode_message_plist(s);
            let ghost rj = decoded;
            let r = match decoded {
                Some(j) => j,
                None => Json::Null,
            };
            proof {
                assert(read_outcome(s, rj, false));
                assert(json_view(r) == match rj {
                    Some(x) => json_view(x),
                    None => JsonModel::Null,
                });
            }
            r
        },
        None => Json::Null,
    }
}

/// Serialize a single Message to JSON (see [`serialize_attachment`] for
/// the probes).
pub fn serialize_message<
    P: Fn(&str) -> bool,
    M: Fn(&str) -> Option<String>,
    S: Fn(&str) -> Option<String>,
    B: Fn(&StringMap, &str) -> Json,
>(
    message: &Message,
    config: &MessageSerializerConfig,
    attachment_config: &AttachmentSerializerConfig,
    is_for_notification: bool,
    mov_exists: &P,
    run_mdls: &M,
    run_sips: &S,
    build_metadata: &B,
) -> (r: Json)
    requires
        forall|i: int|
            0 <= i < message.attachments@.len() ==> attachment_probe_ok(
                #[trigger] message.attachments@[i],
                *attachment_config,
                is_for_notification,
            ),
        forall|p: &str| mov_exists.requires((p,)),
        forall|p: &str| run_mdls.requires((p,)),
        forall|p: &str| run_sips.requires((p,)),
        forall|m: &StringMap, t: &str| build_metadata.requires((m, t)),
    ensures
        message_rendered(
            *message,
            *config,
            *attachment_config,
            is_for_notification,
            json_view(r),
        ),
{
    let text = text_json(message);
    let attributed = if config.parse_attributed_body {
        match &message.attributed_body {
            Some(b) => match decode_attributed_body(b.as_slice()) {
                Some(j) => j,
                None => Json::Null,
            },
            None => Json::Null,
        }
    } else {
        Json::Null
    };
    let attachments = serialize_attachments(
        message.attachments.as_slice(),
        attachment_config,
        is_for_notification,
        mov_exists,
        run_mdls,
        run_sips,
        build_metadata,
    );
    let chats = if config.include_chats {
        let chat_config = ChatSerializerConfig {
            include_participants: false,
            include_messages: false,
        };
        serialize_chats(message.chats.as_slice(), &chat_config, is_for_notification)
    } else {
        Json::Array(Vec::new())
    };
    let summary = blob_field(config.parse_message_summary, &message.message_summary_info);
    let payload = blob_field(config.parse_payload_data, &message.payload_data);
    let ghost tv = json_view(text);
    let ghost av = json_view(attributed);
    let ghost atts = json_view(attachments);
    let ghost cv = json_view(chats);
    let ghost sv = json_view(summary);
    let ghost pv = json_view(payload);
    proof {
        lemma_json_views(attachments->Array_0@);
        lemma_json_views(chats->Array_0@);
    }
    let r = message_json(
        message,
        config,
        is_for_notification,
        text,
        attributed,
        attachments,
        chats,
        summary,
        payload,
    );
    proof {
        let av_s = atts->Array_0;
        let cv_s = cv->Array_0;
        assert(message_fields(
            *message,
            *config,
            is_for_notification,
            tv,
            av,
            JsonModel::Array(av_s),
            JsonModel::Array(cv_s),
            sv,
            pv,
        ) == message_fields(*message, *config, is_for_notification, tv, av, atts, cv, sv, pv));
    }
    r
}

/// Serialize a list of Messages to JSON.
pub fn serialize_messages<
    P: Fn(&str) -> bool,
    M: Fn(&str) -> Option<String>,
    S: Fn(&str) -> Option<String>,
    B: Fn(&StringMap, &str) -> Json,
>(
    messages: &[Message],
    config: &MessageSerializerConfig,
    attachment_config: &AttachmentSerializerConfig,
    is_for_notification: bool,
    mov_exists: &P,
    run_mdls: &M,
    run_sips: &S,
    build_metadata: &B,
) -> (r: Json)
    requires
        forall|k: int, i: int|
            0 <= k < messages@.len() && 0 <= i < messages@[k].attachments@.len()
                ==> attachment_probe_ok(
                #[trigger] messages@[k].attachments@[i],
                *attachment_config,
                is_for_notification,
            ),
        forall|p: &str| mov_exists.requires((p,)),
        forall|p: &str| run_mdls.requires((p,)),
        forall|p: &str| run_sips.requires((p,)),
        forall|m: &StringMap, t: &str| build_metadata.requires((m, t)),
    ensures
        r matches Json::Array(v) && v@.len() == messages@.len() && forall|i: int|
            0 <= i < v@.len() ==> message_rendered(
                messages@[i],
                *config,
                *attachment_config,
                is_for_notification,
                json_view(#[trigger] v@[i]),
            ),
{
    let mut out: Vec<Json> = Vec::new();
    let mut k: usize = 0;
    while k < messages.len()
        invariant
            k <= messages.len(),
            out@.len() == k,
            forall|j: int, i: int|
                0 <= j < messages@.len() && 0 <= i < messages@[j].attachments@.len()
                    ==> attachment_probe_ok(
                    #[trigger] messages@[j].attachments@[i],
                    *attachment_config,
                    is_for_notification,
                ),
            forall|p: &str| mov_exists.requires((p,)),
            forall|p: &str| run_mdls.requires((p,)),
            forall|p: &str| run_sips.requires((p,)),
            forall|m: &StringMap, t: &str| build_metadata.requires((m, t)),
            forall|i: int|
                0 <= i < k ==> message_rendered(
                    messages@[i],
                    *config,
                    *attachment_config,
                    is_for_notification,
                    json_view(#[trigger] out@[i]),
                ),
        decreases messages.len() - k,
    {
        out.push(
            serialize_message(
                &messages[k],
                config,
                attachment_config,
                is_for_notification,
                mov_exists,
                run_mdls,
                run_sips,
                build_metadata,
            ),
        );
        k = k + 1;
    }
    Json::Array(out)
}

} // verus!

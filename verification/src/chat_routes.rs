//! Decisions of the chat routes between their database reads and helper
//! calls: the queries a chat's messages are read with, renaming and
//! membership changes of group chats, group icons and uploads.
use vstd::prelude::*;
use crate::db::{Attachment, Chat, ChatQueryParams, SortOrder};
use crate::decimal::i64_text_value;
use crate::http::{
    normalize_chat_guid, parse_opt_i64, parse_with_query, sanitize_filename, sanitized_filename,
    with_has, with_items,
};
use crate::json::{json_view, put_field, Json, JsonModel};
use crate::macos::MacOsVersion;
use crate::plist::{plist_parse_ok, read_plist, PlistValue};
use crate::private_api::{as_text, field};
use crate::queries::MessageQueryParams;
use crate::scripts::tahoe_guid;
use crate::serializers::MessageSerializerConfig;
use crate::text::{
    chars_equal, chars_of, split_chars, split_on, lemma_split_on_nonempty, string_of, utf8_decoded,
    utf8_text,
};
use crate::serialize::dict_entry;

verus! {

// ---------------------------------------------------------------------------
// Reading a chat and its messages
// ---------------------------------------------------------------------------

/// The entries of a `with` query parameter.
pub open spec fn with_param(o: Option<String>) -> Seq<Seq<char>> {
    match o {
        Some(s) => with_items(split_on(s@, ',')),
        None => Seq::empty(),
    }
}

/// One of `names` is in the list.
pub open spec fn has_any(items: Seq<Seq<char>>, names: Seq<Seq<char>>) -> bool {
    exists|i: int, j: int| 0 <= i < items.len() && 0 <= j < names.len() && items[i] == names[j]
}

fn with_list_of(o: &Option<String>) -> (r: Vec<String>)
    ensures
        r@.map_values(|s: String| s@) == with_param(*o),
{
    match o {
        Some(s) => parse_with_query(Some(s.as_str())),
        None => parse_with_query(None),
    }
}

fn list_has_any(w: &Vec<String>, names: &[&str]) -> (r: bool)
    ensures
        r == has_any(w@.map_values(|s: String| s@), names@.map_values(|n: &str| n@)),
{
    let b = with_has(w.as_slice(), names);
    proof {
        let items = w@.map_values(|s: String| s@);
        let ns = names@.map_values(|n: &str| n@);
        if b {
            let (i, j) = choose|i: int, j: int|
                0 <= i < w@.len() && 0 <= j < names@.len() && #[trigger] w@[i]@ == #[trigger] names@[j]@;
            assert(items[i] == ns[j]);
        } else {
            assert forall|i: int, j: int| 0 <= i < items.len() && 0 <= j < ns.len() implies items[i] != ns[j] by {
                assert(w@[i]@ != names@[j]@);
            }
        }
    }
    b
}

/// A query parameter read as an `i64`, when it is one.
pub open spec fn param_i64(o: Option<String>) -> Option<int> {
    match o {
        Some(s) => i64_text_value(s@),
        None => None,
    }
}

fn read_i64(o: &Option<String>) -> (r: Option<i64>)
    ensures
        match r {
            Some(v) => param_i64(*o) == Some(v as int),
            None => param_i64(*o) is None,
        },
{
    match o {
        Some(s) => parse_opt_i64(Some(s.as_str())),
        None => None,
    }
}

pub open spec fn opt_i64(o: Option<i64>) -> Option<int> {
    match o {
        Some(v) => Some(v as int),
        None => None,
    }
}

/// Query parameters of a chat's messages.
#[derive(Debug, Default)]
pub struct ChatMessagesParams {
    pub with_query: Option<String>,
    pub sort: Option<String>,
    pub before: Option<String>,
    pub after: Option<String>,
    pub offset: Option<String>,
    pub limit: Option<String>,
}

/// How a chat's messages are read and serialized.
#[derive(Debug)]
pub struct ChatMessagesPlan {
    /// The query checking that the chat exists.
    pub chat_check: ChatQueryParams,
    pub params: MessageQueryParams,
    pub config: MessageSerializerConfig,
}

/// The query that finds one chat by GUID, archived ones too.
pub open spec fn finds_chat(q: ChatQueryParams, guid: Seq<char>, with_participants: bool) -> bool {
    &&& q.chat_guid matches Some(g) && g@ == guid
    &&& !q.glob_guid
    &&& q.with_participants == with_participants
    &&& !q.with_last_message
    &&& q.with_archived
    &&& q.offset == 0
    &&& q.limit is None
    &&& q.order_by@ == "chat.ROWID"@
}

fn chat_lookup(guid: &String, with_participants: bool) -> (r: ChatQueryParams)
    ensures
        finds_chat(r, guid@, with_participants),
{
    let mut q = ChatQueryParams::default();
    q.chat_guid = Some(guid.clone());
    q.with_participants = with_participants;
    q.with_archived = true;
    q
}

pub open spec fn attachment_names() -> Seq<Seq<char>> {
    seq!["attachment"@, "attachments"@]
}

pub open spec fn attributed_names() -> Seq<Seq<char>> {
    seq!["message.attributedbody"@, "message.attributed-body"@, "attributedbody"@, "attributed-body"@]
}

pub open spec fn summary_names() -> Seq<Seq<char>> {
    seq![
        "message.messagesummaryinfo"@, "message.message-summary-info"@, "messagesummaryinfo"@,
        "message-summary-info"@,
    ]
}

pub open spec fn payload_names() -> Seq<Seq<char>> {
    seq!["message.payloaddata"@, "message.payload-data"@, "payloaddata"@, "payload-data"@]
}

/// Plans reading a chat's messages: the chat GUID in the form the macOS
/// version stores, the page (offset 0 and limit 100 unless given, the
/// limit at most 1000), the order (`ASC` or else descending), the date
/// bounds that parse, and what the `with` list asks to decode.
pub fn plan_chat_messages(guid: &str, q: &ChatMessagesParams, v: MacOsVersion) -> (r: ChatMessagesPlan)
    ensures
        ({
            let g = tahoe_guid(guid@, v);
            let w = with_param(q.with_query);
            &&& finds_chat(r.chat_check, g, false)
            &&& r.params.chat_guid matches Some(c) && c@ == g
            &&& r.params.offset == (match param_i64(q.offset) {
                Some(n) => n,
                None => 0,
            })
            &&& r.params.limit == (match param_i64(q.limit) {
                Some(n) => if n < 1000 {
                    n
                } else {
                    1000
                },
                None => 100,
            })
            &&& r.params.sort == (if q.sort matches Some(s) && s@ == "ASC"@ {
                SortOrder::Asc
            } else {
                SortOrder::Desc
            })
            &&& opt_i64(r.params.before) == param_i64(q.before)
            &&& opt_i64(r.params.after) == param_i64(q.after)
            &&& r.params.with_attachments == has_any(w, attachment_names())
            &&& !r.params.with_chats
            &&& !r.params.with_chat_participants
            &&& r.params.order_by@ == "message.date"@
            &&& r.params.where_clauses@.len() == 0
            &&& r.config.parse_attributed_body == has_any(w, attributed_names())
            &&& r.config.parse_message_summary == has_any(w, summary_names())
            &&& r.config.parse_payload_data == has_any(w, payload_names())
            &&& r.config.include_chats
            &&& !r.config.load_chat_participants
        }),
{
    let g = normalize_chat_guid(guid, v);
    let w = with_list_of(&q.with_query);
    let att: [&str; 2] = ["attachment", "attachments"];
    let with_attachments = list_has_any(&w, &att);
    proof {
        assert(att@.map_values(|n: &str| n@) =~= attachment_names());
    }
    let ab: [&str; 4] = [
        "message.attributedbody",
        "message.attributed-body",
        "attributedbody",
        "attributed-body",
    ];
    let attributed = list_has_any(&w, &ab);
    proof {
        assert(ab@.map_values(|n: &str| n@) =~= attributed_names());
    }
    let sm: [&str; 4] = [
        "message.messagesummaryinfo",
        "message.message-summary-info",
        "messagesummaryinfo",
        "message-summary-info",
    ];
    let summary = list_has_any(&w, &sm);
    proof {
        assert(sm@.map_values(|n: &str| n@) =~= summary_names());
    }
    let pd: [&str; 4] = ["message.payloaddata", "message.payload-data", "payloaddata", "payload-data"];
    let payload = list_has_any(&w, &pd);
    proof {
        assert(pd@.map_values(|n: &str| n@) =~= payload_names());
    }
    let offset = match read_i64(&q.offset) {
        Some(n) => n,
        None => 0,
    };
    let limit0 = match read_i64(&q.limit) {
        Some(n) => n,
        None => 100,
    };
    let limit = if limit0 < 1000 {
        limit0
    } else {
        1000
    };
    let sort = match &q.sort {
        Some(s) => if chars_equal(&chars_of(s.as_str()), &chars_of("ASC")) {
            SortOrder::Asc
        } else {
            SortOrder::Desc
        },
        None => SortOrder::Desc,
    };
    let chat_check = chat_lookup(&g, false);
    let mut params = MessageQueryParams::default();
    params.chat_guid = Some(g);
    params.with_attachments = with_attachments;
    params.offset = offset;
    params.limit = limit;
    params.sort = sort;
    params.before = read_i64(&q.before);
    params.after = read_i64(&q.after);
    let mut config = MessageSerializerConfig::default();
    config.parse_attributed_body = attributed;
    config.parse_message_summary = summary;
    config.parse_payload_data = payload;
    config.load_chat_participants = false;
    ChatMessagesPlan { chat_check, params, config }
}

/// The metadata of a page of messages.
pub open spec fn page_metadata(offset: i64, limit: i64, total: i64, count: usize) -> JsonModel {
    JsonModel::Object(
        seq![
            ("offset"@, JsonModel::Int(offset as int)),
            ("limit"@, JsonModel::Int(limit as int)),
            ("total"@, JsonModel::Int(total as int)),
            ("count"@, JsonModel::Int(count as int)),
        ],
    )
}

/// Metadata of a page of messages: its offset and limit, the total and the
/// number returned.
pub fn messages_metadata(offset: i64, limit: i64, total: i64, count: usize) -> (r: Json)
    ensures
        json_view(r) == page_metadata(offset, limit, total, count),
{
    let mut f: Vec<(String, Json)> = Vec::new();
    put_field(&mut f, "offset", Json::Int(offset));
    put_field(&mut f, "limit", Json::Int(limit));
    put_field(&mut f, "total", Json::Int(total));
    put_field(&mut f, "count", Json::Uint(count as u64));
    assert(crate::json::entry_views(f@) =~= seq![
        ("offset"@, JsonModel::Int(offset as int)),
        ("limit"@, JsonModel::Int(limit as int)),
        ("total"@, JsonModel::Int(total as int)),
        ("count"@, JsonModel::Int(count as int)),
    ]);
    Json::Object(f)
}

/// How a chat is looked up: its query, and whether its last message is
/// added.
pub fn plan_chat_find(guid: &str, with_query: &Option<String>, v: MacOsVersion) -> (r: (ChatQueryParams, bool))
    ensures
        ({
            let w = with_param(*with_query);
            &&& finds_chat(r.0, tahoe_guid(guid@, v), w.contains("participants"@))
            &&& r.1 == w.contains("lastmessage"@)
        }),
{
    let g = normalize_chat_guid(guid, v);
    let w = with_list_of(with_query);
    let p: [&str; 1] = ["participants"];
    let l: [&str; 1] = ["lastmessage"];
    let with_participants = list_has_any(&w, &p);
    let with_last = list_has_any(&w, &l);
    proof {
        let items = w@.map_values(|s: String| s@);
        assert(p@.map_values(|n: &str| n@) =~= seq!["participants"@]);
        assert(l@.map_values(|n: &str| n@) =~= seq!["lastmessage"@]);
        if with_participants {
            let (i, j) = choose|i: int, j: int|
                0 <= i < items.len() && 0 <= j < 1 && items[i] == seq!["participants"@][j];
            assert(items[i] == "participants"@);
        }
        if items.contains("participants"@) {
            let i = choose|i: int| 0 <= i < items.len() && items[i] == "participants"@;
            assert(items[i] == seq!["participants"@][0]);
        }
        if with_last {
            let (i, j) = choose|i: int, j: int|
                0 <= i < items.len() && 0 <= j < 1 && items[i] == seq!["lastmessage"@][j];
            assert(items[i] == "lastmessage"@);
        }
        if items.contains("lastmessage"@) {
            let i = choose|i: int| 0 <= i < items.len() && items[i] == "lastmessage"@;
            assert(items[i] == seq!["lastmessage"@][0]);
        }
    }
    (chat_lookup(&g, with_participants), with_last)
}

// ---------------------------------------------------------------------------
// Group chats
// ---------------------------------------------------------------------------

/// What renaming a chat comes to before the helper is asked.
#[derive(Debug)]
pub enum RenameStep {
    /// Nothing is sent; the chat is returned with this message.
    Unchanged(&'static str),
    /// Renaming is refused with this message.
    Refused(&'static str),
    /// The helper is asked to give the chat this name.
    Rename(String),
}

/// The display name a chat has (empty when it has none).
pub open spec fn name_of(c: Chat) -> Seq<char> {
    match c.display_name {
        Some(n) => n@,
        None => Seq::empty(),
    }
}

/// Decides a rename: no name (or an empty one) changes nothing; a chat of
/// one participant cannot be renamed; a chat already so named is left as
/// it is.
pub open spec fn rename_decision(c: Chat, name: Option<String>) -> Result<Option<Seq<char>>, Seq<char>> {
    match name {
        Some(n) if n@.len() > 0 => if c.participants@.len() <= 1 {
            Err("Cannot rename a non-group chat!"@)
        } else if name_of(c) == n@ {
            Ok(None)
        } else {
            Ok(Some(n@))
        },
        _ => Ok(None),
    }
}

/// Decides what renaming a chat to `display_name` comes to.
pub fn rename_step(chat: &Chat, display_name: &Option<String>) -> (r: RenameStep)
    ensures
        match rename_decision(*chat, *display_name) {
            Ok(None) => r matches RenameStep::Unchanged(m) && m@ == (if display_name matches Some(
                n,
            ) && n@.len() > 0 {
                "Successfully updated the following fields: displayName"@
            } else {
                "Chat not updated! No update information provided!"@
            }),
            Ok(Some(n)) => r matches RenameStep::Rename(s) && s@ == n,
            Err(e) => r matches RenameStep::Refused(m) && m@ == e,
        },
{
    let name = match display_name {
        Some(n) => {
            if n.as_str().is_empty() {
                return RenameStep::Unchanged("Chat not updated! No update information provided!");
            }
            n
        },
        None => {
            return RenameStep::Unchanged("Chat not updated! No update information provided!");
        },
    };
    if chat.participants.len() <= 1 {
        return RenameStep::Refused("Cannot rename a non-group chat!");
    }
    let prev = match &chat.display_name {
        Some(p) => chars_of(p.as_str()),
        None => Vec::new(),
    };
    if chars_equal(&prev, &chars_of(name.as_str())) {
        RenameStep::Unchanged("Successfully updated the following fields: displayName")
    } else {
        RenameStep::Rename(name.clone())
    }
}

/// Whether a chat read back after a rename has a name other than `prev`.
pub fn name_changed(chat: &Chat, prev: &str) -> (r: bool)
    ensures
        r == (name_of(*chat) != prev@),
{
    let cur = match &chat.display_name {
        Some(p) => chars_of(p.as_str()),
        None => Vec::new(),
    };
    !chars_equal(&cur, &chars_of(prev))
}

/// The participant count of a group chat; a chat of one participant is no
/// group.
pub fn group_participant_count(chat: &Chat) -> (r: Result<usize, &'static str>)
    ensures
        chat.participants@.len() > 1 ==> r == Ok::<usize, &'static str>(chat.participants@.len() as usize),
        chat.participants@.len() <= 1 ==> (r matches Err(m) && m@ == "Chat is not a group chat!"@),
{
    let n = chat.participants.len();
    if n <= 1 {
        Err("Chat is not a group chat!")
    } else {
        Ok(n)
    }
}

/// Whether a chat read back after a membership change has another number
/// of participants than before.
pub fn participants_changed(chat: &Chat, prev_count: usize) -> (r: bool)
    ensures
        r == (chat.participants@.len() != prev_count),
{
    chat.participants.len() != prev_count
}

// ---------------------------------------------------------------------------
// Uploads and icons
// ---------------------------------------------------------------------------

/// A field of a multipart upload: its name, its file name, and its bytes.
#[derive(Debug)]
pub struct UploadField {
    pub name: Option<String>,
    pub file_name: Option<String>,
    pub data: Vec<u8>,
}

/// The icon of an icon upload: the last field named `icon` or `file`, with
/// the last file name such a field gave (`icon.png` when none did).
pub open spec fn icon_upload(fields: Seq<UploadField>) -> (Option<Seq<u8>>, Seq<char>)
    decreases fields.len(),
{
    if fields.len() == 0 {
        (None, "icon.png"@)
    } else {
        let prev = icon_upload(fields.drop_last());
        let f = fields.last();
        if f.name matches Some(n) && (n@ == "icon"@ || n@ == "file"@) {
            (
                Some(f.data@),
                match f.file_name {
                    Some(fname) => fname@,
                    None => prev.1,
                },
            )
        } else {
            prev
        }
    }
}

fn field_named(f: &UploadField, a: &str, b: &str) -> (r: bool)
    ensures
        r == (f.name matches Some(n) && (n@ == a@ || n@ == b@)),
{
    match &f.name {
        Some(n) => {
            let c = chars_of(n.as_str());
            chars_equal(&c, &chars_of(a)) || chars_equal(&c, &chars_of(b))
        },
        None => false,
    }
}

fn copy_bytes(v: &Vec<u8>) -> (r: Vec<u8>)
    ensures
        r@ == v@,
{
    let mut out: Vec<u8> = Vec::new();
    let mut i: usize = 0;
    while i < v.len()
        invariant
            i <= v.len(),
            out@ == v@.take(i as int),
        decreases v.len() - i,
    {
        out.push(v[i]);
        i = i + 1;
        assert(out@ =~= v@.take(i as int));
    }
    assert(v@.take(v@.len() as int) =~= v@);
    out
}

/// Picks the icon out of an icon upload: its file name (made safe) and its
/// bytes.
pub fn pick_icon_upload(fields: &Vec<UploadField>) -> (r: Result<(String, Vec<u8>), &'static str>)
    ensures
        match icon_upload(fields@) {
            (Some(data), name) => r matches Ok((n, d)) && n@ == sanitized_filename(name, "icon.png"@)
                && d@ == data,
            (None, _) => r matches Err(m) && m@ == "icon file is required"@,
        },
{
    let mut data: Option<Vec<u8>> = None;
    let mut name = chars_of("icon.png");
    let mut k: usize = 0;
    while k < fields.len()
        invariant
            k <= fields@.len(),
            icon_upload(fields@.take(k as int)).1 == name@,
            match icon_upload(fields@.take(k as int)).0 {
                Some(d) => data matches Some(v) && v@ == d,
                None => data is None,
            },
        decreases fields.len() - k,
    {
        assert(fields@.take(k + 1).drop_last() =~= fields@.take(k as int));
        assert(fields@.take(k + 1).last() == fields@[k as int]);
        let f = &fields[k];
        if field_named(f, "icon", "file") {
            match &f.file_name {
                Some(n) => {
                    name = chars_of(n.as_str());
                },
                None => {},
            }
            data = Some(copy_bytes(&f.data));
        }
        k = k + 1;
    }
    assert(fields@.take(fields@.len() as int) =~= fields@);
    match data {
        Some(d) => Ok((sanitize_filename(string_of(&name).as_str(), "icon.png"), d)),
        None => Err("icon file is required"),
    }
}

/// The file of an attachment upload: the last field named `attachment`,
/// with its file name (none when it gave none).
pub open spec fn attachment_upload(fields: Seq<UploadField>) -> Option<(Option<Seq<char>>, Seq<u8>)>
    decreases fields.len(),
{
    if fields.len() == 0 {
        None
    } else {
        let f = fields.last();
        if f.name matches Some(n) && n@ == "attachment"@ {
            Some(
                (
                    match f.file_name {
                        Some(x) => Some(x@),
                        None => None,
                    },
                    f.data@,
                ),
            )
        } else {
            attachment_upload(fields.drop_last())
        }
    }
}

/// What an attachment upload comes to: the safe file name (`upload` when
/// none is given) and the bytes, or the message of the bad request.
pub open spec fn upload_outcome(fields: Seq<UploadField>) -> Result<(Seq<char>, Seq<u8>), Seq<char>> {
    match attachment_upload(fields) {
        None => Err("No attachment file provided"@),
        Some((name, data)) => if data.len() == 0 {
            Err("Attachment file is empty"@)
        } else {
            Ok(
                (
                    sanitized_filename(
                        match name {
                            Some(n) => n,
                            None => "upload"@,
                        },
                        "upload"@,
                    ),
                    data,
                ),
            )
        },
    }
}

/// Picks the file out of an attachment upload.
pub fn pick_attachment_upload(fields: &Vec<UploadField>) -> (r: Result<(String, Vec<u8>), &'static str>)
    ensures
        match upload_outcome(fields@) {
            Ok((n, d)) => r matches Ok((a, b)) && a@ == n && b@ == d,
            Err(m) => r matches Err(e) && e@ == m,
        },
{
    let mut i = fields.len();
    assert(fields@.take(fields@.len() as int) =~= fields@);
    while i > 0
        invariant
            i <= fields@.len(),
            attachment_upload(fields@) == attachment_upload(fields@.take(i as int)),
        decreases i,
    {
        assert(fields@.take(i as int).drop_last() =~= fields@.take(i - 1));
        assert(fields@.take(i as int).last() == fields@[i - 1]);
        let f = &fields[i - 1];
        if field_named(f, "attachment", "attachment") {
            if f.data.len() == 0 {
                return Err("Attachment file is empty");
            }
            let raw: String = match &f.file_name {
                Some(n) => n.clone(),
                None => "upload".to_owned(),
            };
            return Ok((sanitize_filename(raw.as_str(), "upload"), copy_bytes(&f.data)));
        }
        i = i - 1;
    }
    Err("No attachment file provided")
}

/// The MIME type a chat icon is served as: the attachment's, else
/// `image/jfif`.
pub fn icon_mime(a: &Attachment) -> (r: String)
    ensures
        r@ == (match a.mime_type {
            Some(m) => m@,
            None => "image/jfif"@,
        }),
{
    match &a.mime_type {
        Some(m) => m.clone(),
        None => "image/jfif".to_owned(),
    }
}

/// Whether contact sharing is offered, as the helper's reply data says.
pub fn contact_share_flag(data: Option<&Json>) -> (r: Result<bool, &'static str>)
    ensures
        match data {
            Some(d) => match field(json_view(*d), "share"@) {
                Some(JsonModel::Bool(b)) => r == Ok::<bool, &'static str>(b),
                _ => r matches Err(m) && m@ == "Failed to check if contact sharing is available!"@,
            },
            None => r matches Err(m) && m@ == "Failed to check if contact sharing is available!"@,
        },
{
    match data {
        Some(d) => match crate::findmy::get_field(d, "share") {
            Some(Json::Bool(b)) => Ok(*b),
            _ => Err("Failed to check if contact sharing is available!"),
        },
        None => Err("Failed to check if contact sharing is available!"),
    }
}

// ---------------------------------------------------------------------------
// Group photo
// ---------------------------------------------------------------------------

/// The group photo GUID a chat's properties hold as a property list: a
/// non-empty `groupPhotoGuid` string.
pub open spec fn plist_photo_guid(parsed: Option<PlistValue>) -> Option<Seq<char>> {
    match parsed {
        Some(PlistValue::Dictionary(d)) => match dict_entry(d@, "groupPhotoGuid"@, 0) {
            Some(PlistValue::String(s)) => if s@.len() > 0 {
                Some(s@)
            } else {
                None
            },
            _ => None,
        },
        _ => None,
    }
}

/// Index of the first control byte (below 0x20) at or after `i`, else the
/// length.
pub open spec fn ctrl_end(b: Seq<u8>, i: int) -> int
    decreases b.len() - i,
{
    if i < 0 || i >= b.len() {
        b.len() as int
    } else if b[i] < 0x20 {
        i
    } else {
        ctrl_end(b, i + 1)
    }
}

/// The bytes at `i` begin with `at_`.
pub open spec fn at_prefix(b: Seq<u8>, i: int) -> bool {
    0 <= i && i + 3 <= b.len() && b[i] == 0x61 && b[i + 1] == 0x74 && b[i + 2] == 0x5F
}

/// The attachment GUID that starts at `i`: the run up to the next control
/// byte, when it is valid UTF-8 longer than 10 bytes, cut at its first `/`.
pub open spec fn guid_at(b: Seq<u8>, i: int) -> Option<Seq<char>> {
    if at_prefix(b, i) {
        let e = ctrl_end(b, i);
        match utf8_decoded(b.subrange(i, e)) {
            Some(s) => if e - i > 10 {
                Some(split_on(s, '/')[0])
            } else {
                None
            },
            None => None,
        }
    } else {
        None
    }
}

/// The last GUID found starting before `n`.
pub open spec fn last_guid(b: Seq<u8>, n: int) -> Option<Seq<char>>
    decreases n,
{
    if n <= 0 {
        None
    } else {
        match guid_at(b, n - 1) {
            Some(g) => Some(g),
            None => last_guid(b, n - 1),
        }
    }
}

/// Where a chat's group photo GUID is found: in the properties read as a
/// property list, else by scanning their bytes for `at_` GUIDs (the last
/// one found, among those starting before the last three bytes).
pub open spec fn photo_guid(parsed: Option<PlistValue>, b: Seq<u8>) -> Option<Seq<char>> {
    match plist_photo_guid(parsed) {
        Some(g) => Some(g),
        None => last_guid(b, if b.len() >= 3 { b.len() - 3 } else { 0 }),
    }
}

proof fn lemma_ctrl_end_bounds(b: Seq<u8>, i: int)
    requires
        0 <= i <= b.len(),
    ensures
        i <= ctrl_end(b, i) <= b.len(),
        forall|j: int| i <= j < ctrl_end(b, i) ==> b[j] >= 0x20,
    decreases b.len() - i,
{
    if i < b.len() && b[i] >= 0x20 {
        lemma_ctrl_end_bounds(b, i + 1);
    }
}

fn guid_at_exec(b: &[u8], i: usize) -> (r: Option<String>)
    requires
        i < b@.len(),
    ensures
        match guid_at(b@, i as int) {
            Some(g) => r matches Some(s) && s@ == g,
            None => r is None,
        },
{
    if !(b.len() - i >= 3 && b[i] == 0x61 && b[i + 1] == 0x74 && b[i + 2] == 0x5F) {
        return None;
    }
    proof {
        lemma_ctrl_end_bounds(b@, i as int);
    }
    let mut e = i;
    while e < b.len() && b[e] >= 0x20
        invariant
            i <= e <= b@.len(),
            ctrl_end(b@, e as int) == ctrl_end(b@, i as int),
        decreases b.len() - e,
    {
        e = e + 1;
    }
    let mut run: Vec<u8> = Vec::new();
    let mut k = i;
    while k < e
        invariant
            i <= k <= e <= b@.len(),
            run@ == b@.subrange(i as int, k as int),
        decreases e - k,
    {
        run.push(b[k]);
        k = k + 1;
        assert(run@ =~= b@.subrange(i as int, k as int));
    }
    match utf8_text(run.as_slice()) {
        Some(s) => {
            if e - i > 10 {
                let parts = split_chars(&chars_of(s.as_str()), '/');
                proof {
                    lemma_split_on_nonempty(s@, '/');
                }
                Some(string_of(&parts[0]))
            } else {
                None
            }
        },
        None => None,
    }
}

fn plist_photo_guid_of(parsed: &Option<PlistValue>) -> (r: Option<String>)
    ensures
        match plist_photo_guid(*parsed) {
            Some(g) => r matches Some(s) && s@ == g,
            None => r is None,
        },
{
    match parsed {
        Some(PlistValue::Dictionary(d)) => {
            let key = "groupPhotoGuid".to_owned();
            let mut i: usize = 0;
            while i < d.len()
                invariant
                    i <= d@.len(),
                    key@ == "groupPhotoGuid"@,
                    *parsed == Some(PlistValue::Dictionary(*d)),
                    dict_entry(d@, "groupPhotoGuid"@, i as int) == dict_entry(d@, "groupPhotoGuid"@, 0),
                decreases d.len() - i,
            {
                if d[i].0 == key {
                    assert(d@[i as int].0@ == "groupPhotoGuid"@);
                    assert(dict_entry(d@, "groupPhotoGuid"@, i as int) == Some(d@[i as int].1));
                    let v = &d[i].1;
                    assert(plist_photo_guid(*parsed) == match *v {
                        PlistValue::String(t) => if t@.len() > 0 {
                            Some(t@)
                        } else {
                            None
                        },
                        _ => None,
                    });
                    return match v {
                        PlistValue::String(t) => if t.as_str().is_empty() {
                            None
                        } else {
                            Some(t.clone())
                        },
                        _ => None,
                    };
                }
                i = i + 1;
            }
            None
        },
        _ => None,
    }
}

fn scan_last_guid(blob: &[u8]) -> (r: Option<String>)
    ensures
        match last_guid(blob@, if blob@.len() >= 3 { blob@.len() - 3 } else { 0 }) {
            Some(g) => r matches Some(s) && s@ == g,
            None => r is None,
        },
{
    let n: usize = if blob.len() >= 3 { blob.len() - 3 } else { 0 };
    let mut i = n;
    while i > 0
        invariant
            i <= n,
            n <= blob@.len(),
            n as int == (if blob@.len() >= 3 { blob@.len() - 3 } else { 0 }),
            last_guid(blob@, n as int) == last_guid(blob@, i as int),
        decreases i,
    {
        match guid_at_exec(blob, i - 1) {
            Some(g) => {
                return Some(g);
            },
            None => {},
        }
        i = i - 1;
    }
    None
}

/// Finds a chat's group photo GUID in its properties blob, read with
/// the property-list reader first.
pub fn extract_group_photo_guid(blob: &[u8]) -> (r: Option<
    String,
>)
    ensures
        exists|p: Option<PlistValue>|
            #[trigger] plist_parse_ok(blob@, p) && match photo_guid(p, blob@) {
                Some(g) => r matches Some(s) && s@ == g,
                None => r is None,
            },
{
    let parsed = read_plist(blob);
    assert(plist_parse_ok(blob@, parsed));
    let r = match plist_photo_guid_of(&parsed) {
        Some(g) => Some(g),
        None => scan_last_guid(blob),
    };
    assert(plist_parse_ok(blob@, parsed));
    r
}

} // verus!

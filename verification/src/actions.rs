//! The actions sent to the Messages helper: each an action name, a JSON
//! payload, and the kind of transaction its reply completes (none for
//! actions that get no reply).
use vstd::prelude::*;
use crate::json::{copy_json, entry_views, json_text, json_view, json_views, lemma_json_views, put_field, Json, JsonModel};
use crate::private_api::TransactionType;
use crate::text::{chars_of, contains_char};

verus! {

/// An action to send to the helper.
pub struct Action {
    pub name: &'static str,
    pub data: Json,
    pub transaction_type: Option<TransactionType>,
}

/// The action has this name, transaction kind and payload.
pub open spec fn action_is(
    a: Action,
    name: Seq<char>,
    tt: Option<TransactionType>,
    data: JsonModel,
) -> bool {
    a.name@ == name && a.transaction_type == tt && json_view(a.data) == data
}

/// Optional fields shared by the send actions (text, multipart,
/// attachment).
#[derive(Debug, Default)]
pub struct SendOptions<'a> {
    pub subject: Option<&'a str>,
    pub effect_id: Option<&'a str>,
    pub selected_message_guid: Option<&'a str>,
    pub part_index: Option<i64>,
    pub attributed_body: Option<&'a Json>,
}

pub open spec fn opt_text(o: Option<&str>) -> JsonModel {
    match o {
        Some(s) => JsonModel::Str(s@),
        None => JsonModel::Null,
    }
}

pub open spec fn opt_value(o: Option<&Json>) -> JsonModel {
    match o {
        Some(j) => json_view(*j),
        None => JsonModel::Null,
    }
}

/// The optional send fields as values: subject, effect id, selected
/// message GUID, part index, attributed body.
pub type SendModel = (
    Option<Seq<char>>,
    Option<Seq<char>>,
    Option<Seq<char>>,
    Option<int>,
    Option<JsonModel>,
);

pub open spec fn text_model(o: Option<&str>) -> Option<Seq<char>> {
    match o {
        Some(s) => Some(s@),
        None => None,
    }
}

pub open spec fn value_model(o: Option<&Json>) -> Option<JsonModel> {
    match o {
        Some(j) => Some(json_view(*j)),
        None => None,
    }
}

pub open spec fn send_model(o: SendOptions) -> SendModel {
    (
        text_model(o.subject),
        text_model(o.effect_id),
        text_model(o.selected_message_guid),
        match o.part_index {
            Some(n) => Some(n as int),
            None => None,
        },
        value_model(o.attributed_body),
    )
}

pub open spec fn text_or_null(o: Option<Seq<char>>) -> JsonModel {
    match o {
        Some(s) => JsonModel::Str(s),
        None => JsonModel::Null,
    }
}

pub open spec fn value_or_null(o: Option<JsonModel>) -> JsonModel {
    match o {
        Some(j) => j,
        None => JsonModel::Null,
    }
}

/// A part index, 0 when none is given.
pub open spec fn part_model(o: Option<int>) -> JsonModel {
    JsonModel::Int(
        match o {
            Some(n) => n,
            None => 0,
        },
    )
}

/// A part index, 0 when none is given.
pub open spec fn part_json(o: Option<i64>) -> JsonModel {
    JsonModel::Int(
        match o {
            Some(n) => n as int,
            None => 0,
        },
    )
}

/// A flag as the helper reads it: 1 or 0.
pub open spec fn bit_json(b: bool) -> JsonModel {
    JsonModel::Int(if b { 1 } else { 0 })
}

fn opt_text_json(o: Option<&str>) -> (r: Json)
    ensures
        json_view(r) == opt_text(o),
{
    match o {
        Some(s) => json_text(s),
        None => Json::Null,
    }
}

fn opt_value_json(o: Option<&Json>) -> (r: Json)
    ensures
        json_view(r) == opt_value(o),
{
    match o {
        Some(j) => copy_json(j),
        None => Json::Null,
    }
}

fn part_value(o: Option<i64>) -> (r: Json)
    ensures
        json_view(r) == part_json(o),
{
    Json::Int(
        match o {
            Some(n) => n,
            None => 0,
        },
    )
}

fn bit_value(b: bool) -> (r: Json)
    ensures
        json_view(r) == bit_json(b),
{
    Json::Int(if b { 1 } else { 0 })
}

// ---------------------------------------------------------------------------
// Message actions
// ---------------------------------------------------------------------------

/// The payload of a text message: every field present (null when unset,
/// part index 0 by default), `ddScan` only when asked for.
pub open spec fn send_message_fields(
    chat_guid: Seq<char>,
    message: Seq<char>,
    opts: SendModel,
    text_formatting: Option<JsonModel>,
    dd_scan: Option<bool>,
) -> Seq<(Seq<char>, JsonModel)> {
    seq![
        ("chatGuid"@, JsonModel::Str(chat_guid)),
        ("message"@, JsonModel::Str(message)),
        ("subject"@, text_or_null(opts.0)),
        ("attributedBody"@, value_or_null(opts.4)),
        ("effectId"@, text_or_null(opts.1)),
        ("selectedMessageGuid"@, text_or_null(opts.2)),
        ("partIndex"@, part_model(opts.3)),
        ("textFormatting"@, value_or_null(text_formatting)),
    ] + match dd_scan {
        Some(b) => seq![("ddScan"@, bit_json(b))],
        None => Seq::empty(),
    }
}

pub fn send_message(
    chat_guid: &str,
    message: &str,
    opts: &SendOptions,
    text_formatting: Option<&Json>,
    dd_scan: Option<bool>,
) -> (r: Action)
    ensures
        action_is(
            r,
            "send-message"@,
            Some(TransactionType::Message),
            JsonModel::Object(
                send_message_fields(
                    chat_guid@,
                    message@,
                    send_model(*opts),
                    value_model(text_formatting),
                    dd_scan,
                ),
            ),
        ),
{
    let mut f: Vec<(String, Json)> = Vec::new();
    put_field(&mut f, "chatGuid", json_text(chat_guid));
    put_field(&mut f, "message", json_text(message));
    put_field(&mut f, "subject", opt_text_json(opts.subject));
    put_field(&mut f, "attributedBody", opt_value_json(opts.attributed_body));
    put_field(&mut f, "effectId", opt_text_json(opts.effect_id));
    put_field(&mut f, "selectedMessageGuid", opt_text_json(opts.selected_message_guid));
    put_field(&mut f, "partIndex", part_value(opts.part_index));
    put_field(&mut f, "textFormatting", opt_value_json(text_formatting));
    match dd_scan {
        Some(b) => put_field(&mut f, "ddScan", bit_value(b)),
        None => {},
    }
    assert(entry_views(f@) =~= send_message_fields(
        chat_guid@,
        message@,
        send_model(*opts),
        value_model(text_formatting),
        dd_scan,
    ));
    Action {
        name: "send-message",
        data: Json::Object(f),
        transaction_type: Some(TransactionType::Message),
    }
}

pub open spec fn send_multipart_fields(
    chat_guid: Seq<char>,
    parts: JsonModel,
    opts: SendModel,
    dd_scan: Option<bool>,
) -> Seq<(Seq<char>, JsonModel)> {
    seq![
        ("chatGuid"@, JsonModel::Str(chat_guid)),
        ("parts"@, parts),
        ("subject"@, text_or_null(opts.0)),
        ("effectId"@, text_or_null(opts.1)),
        ("selectedMessageGuid"@, text_or_null(opts.2)),
        ("partIndex"@, part_model(opts.3)),
        ("attributedBody"@, value_or_null(opts.4)),
    ] + match dd_scan {
        Some(b) => seq![("ddScan"@, bit_json(b))],
        None => Seq::empty(),
    }
}

pub fn send_multipart(chat_guid: &str, parts: &Json, opts: &SendOptions, dd_scan: Option<bool>) -> (r: Action)
    ensures
        action_is(
            r,
            "send-multipart"@,
            Some(TransactionType::Message),
            JsonModel::Object(send_multipart_fields(chat_guid@, json_view(*parts), send_model(*opts), dd_scan)),
        ),
{
    let mut f: Vec<(String, Json)> = Vec::new();
    put_field(&mut f, "chatGuid", json_text(chat_guid));
    put_field(&mut f, "parts", copy_json(parts));
    put_field(&mut f, "subject", opt_text_json(opts.subject));
    put_field(&mut f, "effectId", opt_text_json(opts.effect_id));
    put_field(&mut f, "selectedMessageGuid", opt_text_json(opts.selected_message_guid));
    put_field(&mut f, "partIndex", part_value(opts.part_index));
    put_field(&mut f, "attributedBody", opt_value_json(opts.attributed_body));
    match dd_scan {
        Some(b) => put_field(&mut f, "ddScan", bit_value(b)),
        None => {},
    }
    assert(entry_views(f@) =~= send_multipart_fields(chat_guid@, json_view(*parts), send_model(*opts), dd_scan));
    Action {
        name: "send-multipart",
        data: Json::Object(f),
        transaction_type: Some(TransactionType::Message),
    }
}

pub open spec fn send_reaction_fields(
    chat_guid: Seq<char>,
    selected_message_guid: Seq<char>,
    reaction_type: Seq<char>,
    part_index: Option<i64>,
    emoji: Option<&str>,
    sticker_path: Option<&str>,
) -> Seq<(Seq<char>, JsonModel)> {
    seq![
        ("chatGuid"@, JsonModel::Str(chat_guid)),
        ("selectedMessageGuid"@, JsonModel::Str(selected_message_guid)),
        ("reactionType"@, JsonModel::Str(reaction_type)),
        ("partIndex"@, part_json(part_index)),
    ] + (match emoji {
        Some(e) => seq![("emoji"@, JsonModel::Str(e@))],
        None => Seq::empty(),
    }) + match sticker_path {
        Some(p) => seq![("stickerPath"@, JsonModel::Str(p@))],
        None => Seq::empty(),
    }
}

pub fn send_reaction(
    chat_guid: &str,
    selected_message_guid: &str,
    reaction_type: &str,
    part_index: Option<i64>,
    emoji: Option<&str>,
    sticker_path: Option<&str>,
) -> (r: Action)
    ensures
        action_is(
            r,
            "send-reaction"@,
            Some(TransactionType::Message),
            JsonModel::Object(
                send_reaction_fields(
                    chat_guid@,
                    selected_message_guid@,
                    reaction_type@,
                    part_index,
                    emoji,
                    sticker_path,
                ),
            ),
        ),
{
    let mut f: Vec<(String, Json)> = Vec::new();
    put_field(&mut f, "chatGuid", json_text(chat_guid));
    put_field(&mut f, "selectedMessageGuid", json_text(selected_message_guid));
    put_field(&mut f, "reactionType", json_text(reaction_type));
    put_field(&mut f, "partIndex", part_value(part_index));
    match emoji {
        Some(e) => put_field(&mut f, "emoji", json_text(e)),
        None => {},
    }
    match sticker_path {
        Some(p) => put_field(&mut f, "stickerPath", json_text(p)),
        None => {},
    }
    assert(entry_views(f@) =~= send_reaction_fields(
        chat_guid@,
        selected_message_guid@,
        reaction_type@,
        part_index,
        emoji,
        sticker_path,
    ));
    Action {
        name: "send-reaction",
        data: Json::Object(f),
        transaction_type: Some(TransactionType::Message),
    }
}

pub fn edit_message(
    chat_guid: &str,
    message_guid: &str,
    edited_message: &str,
    backwards_compat_message: &str,
    part_index: Option<i64>,
) -> (r: Action)
    ensures
        action_is(
            r,
            "edit-message"@,
            Some(TransactionType::Message),
            JsonModel::Object(
                seq![
                    ("chatGuid"@, JsonModel::Str(chat_guid@)),
                    ("messageGuid"@, JsonModel::Str(message_guid@)),
                    ("editedMessage"@, JsonModel::Str(edited_message@)),
                    ("backwardsCompatibilityMessage"@, JsonModel::Str(backwards_compat_message@)),
                    ("partIndex"@, part_json(part_index)),
                ],
            ),
        ),
{
    let mut f: Vec<(String, Json)> = Vec::new();
    put_field(&mut f, "chatGuid", json_text(chat_guid));
    put_field(&mut f, "messageGuid", json_text(message_guid));
    put_field(&mut f, "editedMessage", json_text(edited_message));
    put_field(&mut f, "backwardsCompatibilityMessage", json_text(backwards_compat_message));
    put_field(&mut f, "partIndex", part_value(part_index));
    assert(entry_views(f@) =~= seq![
        ("chatGuid"@, JsonModel::Str(chat_guid@)),
        ("messageGuid"@, JsonModel::Str(message_guid@)),
        ("editedMessage"@, JsonModel::Str(edited_message@)),
        ("backwardsCompatibilityMessage"@, JsonModel::Str(backwards_compat_message@)),
        ("partIndex"@, part_json(part_index)),
    ]);
    Action {
        name: "edit-message",
        data: Json::Object(f),
        transaction_type: Some(TransactionType::Message),
    }
}

pub fn unsend_message(chat_guid: &str, message_guid: &str, part_index: Option<i64>) -> (r: Action)
    ensures
        action_is(
            r,
            "unsend-message"@,
            Some(TransactionType::Message),
            JsonModel::Object(
                seq![
                    ("chatGuid"@, JsonModel::Str(chat_guid@)),
                    ("messageGuid"@, JsonModel::Str(message_guid@)),
                    ("partIndex"@, part_json(part_index)),
                ],
            ),
        ),
{
    let mut f: Vec<(String, Json)> = Vec::new();
    put_field(&mut f, "chatGuid", json_text(chat_guid));
    put_field(&mut f, "messageGuid", json_text(message_guid));
    put_field(&mut f, "partIndex", part_value(part_index));
    assert(entry_views(f@) =~= seq![
        ("chatGuid"@, JsonModel::Str(chat_guid@)),
        ("messageGuid"@, JsonModel::Str(message_guid@)),
        ("partIndex"@, part_json(part_index)),
    ]);
    Action {
        name: "unsend-message",
        data: Json::Object(f),
        transaction_type: Some(TransactionType::Message),
    }
}

// ---------------------------------------------------------------------------
// Chat actions
// ---------------------------------------------------------------------------

pub open spec fn texts_json(s: Seq<String>) -> Seq<JsonModel> {
    s.map_values(|x: String| JsonModel::Str(x@))
}

pub open spec fn create_chat_fields(
    addresses: Seq<Seq<char>>,
    message: Seq<char>,
    service: Seq<char>,
    attributed_body: Option<JsonModel>,
    effect_id: Option<Seq<char>>,
    subject: Option<Seq<char>>,
) -> Seq<(Seq<char>, JsonModel)> {
    seq![
        ("addresses"@, JsonModel::Array(addresses.map_values(|a: Seq<char>| JsonModel::Str(a)))),
        ("message"@, JsonModel::Str(message)),
        ("service"@, JsonModel::Str(service)),
    ] + (match attributed_body {
        Some(j) => seq![("attributedBody"@, j)],
        None => Seq::empty(),
    }) + (match effect_id {
        Some(e) => seq![("effectId"@, JsonModel::Str(e))],
        None => Seq::empty(),
    }) + match subject {
        Some(s) => seq![("subject"@, JsonModel::Str(s))],
        None => Seq::empty(),
    }
}

fn texts_value(s: &[String]) -> (r: Json)
    ensures
        json_view(r) == JsonModel::Array(texts_json(s@)),
{
    let mut out: Vec<Json> = Vec::new();
    let mut k: usize = 0;
    while k < s.len()
        invariant
            k <= s.len(),
            out@.len() == k,
            json_views(out@) == texts_json(s@.subrange(0, k as int)),
        decreases s.len() - k,
    {
        let ghost o0 = out@;
        out.push(Json::Str(s[k].clone()));
        proof {
            assert(out@.subrange(0, out@.len() - 1) =~= o0);
            assert(json_views(out@) == json_views(o0).push(json_view(out@[k as int])));
            assert(texts_json(s@.subrange(0, k + 1)) =~= texts_json(s@.subrange(0, k as int)).push(
                JsonModel::Str(s@[k as int]@),
            ));
        }
        k = k + 1;
    }
    assert(s@.subrange(0, s@.len() as int) =~= s@);
    Json::Array(out)
}

pub fn create_chat(
    addresses: &[String],
    message: &str,
    service: &str,
    attributed_body: Option<&Json>,
    effect_id: Option<&str>,
    subject: Option<&str>,
) -> (r: Action)
    ensures
        action_is(
            r,
            "create-chat"@,
            Some(TransactionType::Message),
            JsonModel::Object(
                create_chat_fields(
                    addresses@.map_values(|a: String| a@),
                    message@,
                    service@,
                    value_model(attributed_body),
                    text_model(effect_id),
                    text_model(subject),
                ),
            ),
        ),
{
    let mut f: Vec<(String, Json)> = Vec::new();
    put_field(&mut f, "addresses", texts_value(addresses));
    put_field(&mut f, "message", json_text(message));
    put_field(&mut f, "service", json_text(service));
    match attributed_body {
        Some(j) => put_field(&mut f, "attributedBody", copy_json(j)),
        None => {},
    }
    match effect_id {
        Some(e) => put_field(&mut f, "effectId", json_text(e)),
        None => {},
    }
    match subject {
        Some(s) => put_field(&mut f, "subject", json_text(s)),
        None => {},
    }
    assert(texts_json(addresses@) =~= addresses@.map_values(|a: String| a@).map_values(
        |a: Seq<char>| JsonModel::Str(a),
    ));
    assert(entry_views(f@) =~= create_chat_fields(
        addresses@.map_values(|a: String| a@),
        message@,
        service@,
        value_model(attributed_body),
        text_model(effect_id),
        text_model(subject),
    ));
    Action {
        name: "create-chat",
        data: Json::Object(f),
        transaction_type: Some(TransactionType::Message),
    }
}

/// The group photo to set, or null to remove it.
pub fn set_group_chat_icon(chat_guid: &str, file_path: Option<&str>) -> (r: Action)
    ensures
        action_is(
            r,
            "update-group-photo"@,
            Some(TransactionType::Chat),
            JsonModel::Object(
                seq![("chatGuid"@, JsonModel::Str(chat_guid@)), ("filePath"@, opt_text(file_path))],
            ),
        ),
{
    let mut f: Vec<(String, Json)> = Vec::new();
    put_field(&mut f, "chatGuid", json_text(chat_guid));
    put_field(&mut f, "filePath", opt_text_json(file_path));
    assert(entry_views(f@) =~= seq![
        ("chatGuid"@, JsonModel::Str(chat_guid@)),
        ("filePath"@, opt_text(file_path)),
    ]);
    Action {
        name: "update-group-photo",
        data: Json::Object(f),
        transaction_type: Some(TransactionType::Chat),
    }
}

// ---------------------------------------------------------------------------
// Handle actions
// ---------------------------------------------------------------------------

/// `"email"` for an address with `@`, `"phone"` otherwise.
pub open spec fn alias_type(address: Seq<char>) -> Seq<char> {
    if address.contains('@') {
        "email"@
    } else {
        "phone"@
    }
}

fn alias_type_of(address: &str) -> (r: &'static str)
    ensures
        r@ == alias_type(address@),
{
    if contains_char(&chars_of(address), '@') {
        "email"
    } else {
        "phone"
    }
}

pub fn get_imessage_availability(address: &str) -> (r: Action)
    ensures
        action_is(
            r,
            "check-imessage-availability"@,
            Some(TransactionType::Handle),
            JsonModel::Object(
                seq![
                    ("aliasType"@, JsonModel::Str(alias_type(address@))),
                    ("address"@, JsonModel::Str(address@)),
                ],
            ),
        ),
{
    let mut f: Vec<(String, Json)> = Vec::new();
    put_field(&mut f, "aliasType", json_text(alias_type_of(address)));
    put_field(&mut f, "address", json_text(address));
    assert(entry_views(f@) =~= seq![
        ("aliasType"@, JsonModel::Str(alias_type(address@))),
        ("address"@, JsonModel::Str(address@)),
    ]);
    Action {
        name: "check-imessage-availability",
        data: Json::Object(f),
        transaction_type: Some(TransactionType::Handle),
    }
}

pub fn get_facetime_availability(address: &str) -> (r: Action)
    ensures
        action_is(
            r,
            "check-facetime-availability"@,
            Some(TransactionType::Handle),
            JsonModel::Object(
                seq![
                    ("aliasType"@, JsonModel::Str(alias_type(address@))),
                    ("address"@, JsonModel::Str(address@)),
                ],
            ),
        ),
{
    let mut f: Vec<(String, Json)> = Vec::new();
    put_field(&mut f, "aliasType", json_text(alias_type_of(address)));
    put_field(&mut f, "address", json_text(address));
    assert(entry_views(f@) =~= seq![
        ("aliasType"@, JsonModel::Str(alias_type(address@))),
        ("address"@, JsonModel::Str(address@)),
    ]);
    Action {
        name: "check-facetime-availability",
        data: Json::Object(f),
        transaction_type: Some(TransactionType::Handle),
    }
}

// ---------------------------------------------------------------------------
// Attachment actions
// ---------------------------------------------------------------------------

pub open spec fn send_attachment_fields(
    chat_guid: Seq<char>,
    file_path: Seq<char>,
    is_audio_message: bool,
    opts: SendModel,
) -> Seq<(Seq<char>, JsonModel)> {
    seq![
        ("chatGuid"@, JsonModel::Str(chat_guid)),
        ("filePath"@, JsonModel::Str(file_path)),
        ("isAudioMessage"@, bit_json(is_audio_message)),
        ("partIndex"@, part_model(opts.3)),
        ("attributedBody"@, value_or_null(opts.4)),
        ("subject"@, text_or_null(opts.0)),
        ("effectId"@, text_or_null(opts.1)),
        ("selectedMessageGuid"@, text_or_null(opts.2)),
    ]
}

pub fn send_attachment(chat_guid: &str, file_path: &str, is_audio_message: bool, opts: &SendOptions) -> (r: Action)
    ensures
        action_is(
            r,
            "send-attachment"@,
            Some(TransactionType::Attachment),
            JsonModel::Object(send_attachment_fields(chat_guid@, file_path@, is_audio_message, send_model(*opts))),
        ),
{
    let mut f: Vec<(String, Json)> = Vec::new();
    put_field(&mut f, "chatGuid", json_text(chat_guid));
    put_field(&mut f, "filePath", json_text(file_path));
    put_field(&mut f, "isAudioMessage", bit_value(is_audio_message));
    put_field(&mut f, "partIndex", part_value(opts.part_index));
    put_field(&mut f, "attributedBody", opt_value_json(opts.attributed_body));
    put_field(&mut f, "subject", opt_text_json(opts.subject));
    put_field(&mut f, "effectId", opt_text_json(opts.effect_id));
    put_field(&mut f, "selectedMessageGuid", opt_text_json(opts.selected_message_guid));
    assert(entry_views(f@) =~= send_attachment_fields(chat_guid@, file_path@, is_audio_message, send_model(*opts)));
    Action {
        name: "send-attachment",
        data: Json::Object(f),
        transaction_type: Some(TransactionType::Attachment),
    }
}

// ---------------------------------------------------------------------------
// FaceTime actions
// ---------------------------------------------------------------------------

/// A FaceTime link: for an existing call by its id, or with a null id for
/// a new one.
pub fn generate_facetime_link(call_uuid: Option<&str>) -> (r: Action)
    ensures
        action_is(
            r,
            "generate-link"@,
            Some(TransactionType::Other),
            JsonModel::Object(seq![("callUUID"@, opt_text(call_uuid))]),
        ),
{
    let mut f: Vec<(String, Json)> = Vec::new();
    put_field(&mut f, "callUUID", opt_text_json(call_uuid));
    assert(entry_views(f@) =~= seq![("callUUID"@, opt_text(call_uuid))]);
    Action {
        name: "generate-link",
        data: Json::Object(f),
        transaction_type: Some(TransactionType::Other),
    }
}

// ---------------------------------------------------------------------------
// Actions with text fields only
// ---------------------------------------------------------------------------

pub fn get_embedded_media(chat_guid: &str, message_guid: &str) -> (r: Action)
    ensures
        action_is(
            r,
            "balloon-bundle-media-path"@,
            Some(TransactionType::Message),
            JsonModel::Object(seq![
                ("chatGuid"@, JsonModel::Str(chat_guid@)),
                ("messageGuid"@, JsonModel::Str(message_guid@)),
            ]),
        ),
{
    let mut f: Vec<(String, Json)> = Vec::new();
    put_field(&mut f, "chatGuid", json_text(chat_guid));
    put_field(&mut f, "messageGuid", json_text(message_guid));
    assert(entry_views(f@) =~= seq![
        ("chatGuid"@, JsonModel::Str(chat_guid@)),
        ("messageGuid"@, JsonModel::Str(message_guid@)),
    ]);
    Action { name: "balloon-bundle-media-path", data: Json::Object(f), transaction_type: Some(TransactionType::Message) }
}

pub fn notify_silenced(chat_guid: &str, message_guid: &str) -> (r: Action)
    ensures
        action_is(
            r,
            "notify-anyways"@,
            Some(TransactionType::Message),
            JsonModel::Object(seq![
                ("chatGuid"@, JsonModel::Str(chat_guid@)),
                ("messageGuid"@, JsonModel::Str(message_guid@)),
            ]),
        ),
{
    let mut f: Vec<(String, Json)> = Vec::new();
    put_field(&mut f, "chatGuid", json_text(chat_guid));
    put_field(&mut f, "messageGuid", json_text(message_guid));
    assert(entry_views(f@) =~= seq![
        ("chatGuid"@, JsonModel::Str(chat_guid@)),
        ("messageGuid"@, JsonModel::Str(message_guid@)),
    ]);
    Action { name: "notify-anyways", data: Json::Object(f), transaction_type: Some(TransactionType::Message) }
}

pub fn search_messages(query: &str, match_type: &str) -> (r: Action)
    ensures
        action_is(
            r,
            "search-messages"@,
            Some(TransactionType::Message),
            JsonModel::Object(seq![
                ("query"@, JsonModel::Str(query@)),
                ("matchType"@, JsonModel::Str(match_type@)),
            ]),
        ),
{
    let mut f: Vec<(String, Json)> = Vec::new();
    put_field(&mut f, "query", json_text(query));
    put_field(&mut f, "matchType", json_text(match_type));
    assert(entry_views(f@) =~= seq![
        ("query"@, JsonModel::Str(query@)),
        ("matchType"@, JsonModel::Str(match_type@)),
    ]);
    Action { name: "search-messages", data: Json::Object(f), transaction_type: Some(TransactionType::Message) }
}

pub fn delete_message(chat_guid: &str, message_guid: &str) -> (r: Action)
    ensures
        action_is(
            r,
            "delete-message"@,
            Some(TransactionType::Chat),
            JsonModel::Object(seq![
                ("chatGuid"@, JsonModel::Str(chat_guid@)),
                ("messageGuid"@, JsonModel::Str(message_guid@)),
            ]),
        ),
{
    let mut f: Vec<(String, Json)> = Vec::new();
    put_field(&mut f, "chatGuid", json_text(chat_guid));
    put_field(&mut f, "messageGuid", json_text(message_guid));
    assert(entry_views(f@) =~= seq![
        ("chatGuid"@, JsonModel::Str(chat_guid@)),
        ("messageGuid"@, JsonModel::Str(message_guid@)),
    ]);
    Action { name: "delete-message", data: Json::Object(f), transaction_type: Some(TransactionType::Chat) }
}

pub fn start_typing(chat_guid: &str) -> (r: Action)
    ensures
        action_is(
            r,
            "start-typing"@,
            None,
            JsonModel::Object(seq![
                ("chatGuid"@, JsonModel::Str(chat_guid@)),
            ]),
        ),
{
    let mut f: Vec<(String, Json)> = Vec::new();
    put_field(&mut f, "chatGuid", json_text(chat_guid));
    assert(entry_views(f@) =~= seq![
        ("chatGuid"@, JsonModel::Str(chat_guid@)),
    ]);
    Action { name: "start-typing", data: Json::Object(f), transaction_type: None }
}

pub fn stop_typing(chat_guid: &str) -> (r: Action)
    ensures
        action_is(
            r,
            "stop-typing"@,
            None,
            JsonModel::Object(seq![
                ("chatGuid"@, JsonModel::Str(chat_guid@)),
            ]),
        ),
{
    let mut f: Vec<(String, Json)> = Vec::new();
    put_field(&mut f, "chatGuid", json_text(chat_guid));
    assert(entry_views(f@) =~= seq![
        ("chatGuid"@, JsonModel::Str(chat_guid@)),
    ]);
    Action { name: "stop-typing", data: Json::Object(f), transaction_type: None }
}

pub fn mark_chat_read(chat_guid: &str) -> (r: Action)
    ensures
        action_is(
            r,
            "mark-chat-read"@,
            None,
            JsonModel::Object(seq![
                ("chatGuid"@, JsonModel::Str(chat_guid@)),
            ]),
        ),
{
    let mut f: Vec<(String, Json)> = Vec::new();
    put_field(&mut f, "chatGuid", json_text(chat_guid));
    assert(entry_views(f@) =~= seq![
        ("chatGuid"@, JsonModel::Str(chat_guid@)),
    ]);
    Action { name: "mark-chat-read", data: Json::Object(f), transaction_type: None }
}

pub fn mark_chat_unread(chat_guid: &str) -> (r: Action)
    ensures
        action_is(
            r,
            "mark-chat-unread"@,
            None,
            JsonModel::Object(seq![
                ("chatGuid"@, JsonModel::Str(chat_guid@)),
            ]),
        ),
{
    let mut f: Vec<(String, Json)> = Vec::new();
    put_field(&mut f, "chatGuid", json_text(chat_guid));
    assert(entry_views(f@) =~= seq![
        ("chatGuid"@, JsonModel::Str(chat_guid@)),
    ]);
    Action { name: "mark-chat-unread", data: Json::Object(f), transaction_type: None }
}

pub fn add_participant(chat_guid: &str, address: &str) -> (r: Action)
    ensures
        action_is(
            r,
            "add-participant"@,
            Some(TransactionType::Chat),
            JsonModel::Object(seq![
                ("chatGuid"@, JsonModel::Str(chat_guid@)),
                ("address"@, JsonModel::Str(address@)),
            ]),
        ),
{
    let mut f: Vec<(String, Json)> = Vec::new();
    put_field(&mut f, "chatGuid", json_text(chat_guid));
    put_field(&mut f, "address", json_text(address));
    assert(entry_views(f@) =~= seq![
        ("chatGuid"@, JsonModel::Str(chat_guid@)),
        ("address"@, JsonModel::Str(address@)),
    ]);
    Action { name: "add-participant", data: Json::Object(f), transaction_type: Some(TransactionType::Chat) }
}

pub fn remove_participant(chat_guid: &str, address: &str) -> (r: Action)
    ensures
        action_is(
            r,
            "remove-participant"@,
            Some(TransactionType::Chat),
            JsonModel::Object(seq![
                ("chatGuid"@, JsonModel::Str(chat_guid@)),
                ("address"@, JsonModel::Str(address@)),
            ]),
        ),
{
    let mut f: Vec<(String, Json)> = Vec::new();
    put_field(&mut f, "chatGuid", json_text(chat_guid));
    put_field(&mut f, "address", json_text(address));
    assert(entry_views(f@) =~= seq![
        ("chatGuid"@, JsonModel::Str(chat_guid@)),
        ("address"@, JsonModel::Str(address@)),
    ]);
    Action { name: "remove-participant", data: Json::Object(f), transaction_type: Some(TransactionType::Chat) }
}

pub fn set_display_name(chat_guid: &str, new_name: &str) -> (r: Action)
    ensures
        action_is(
            r,
            "set-display-name"@,
            Some(TransactionType::Chat),
            JsonModel::Object(seq![
                ("chatGuid"@, JsonModel::Str(chat_guid@)),
                ("newName"@, JsonModel::Str(new_name@)),
            ]),
        ),
{
    let mut f: Vec<(String, Json)> = Vec::new();
    put_field(&mut f, "chatGuid", json_text(chat_guid));
    put_field(&mut f, "newName", json_text(new_name));
    assert(entry_views(f@) =~= seq![
        ("chatGuid"@, JsonModel::Str(chat_guid@)),
        ("newName"@, JsonModel::Str(new_name@)),
    ]);
    Action { name: "set-display-name", data: Json::Object(f), transaction_type: Some(TransactionType::Chat) }
}

pub fn should_offer_contact_sharing(chat_guid: &str) -> (r: Action)
    ensures
        action_is(
            r,
            "should-offer-nickname-sharing"@,
            Some(TransactionType::Other),
            JsonModel::Object(seq![
                ("chatGuid"@, JsonModel::Str(chat_guid@)),
            ]),
        ),
{
    let mut f: Vec<(String, Json)> = Vec::new();
    put_field(&mut f, "chatGuid", json_text(chat_guid));
    assert(entry_views(f@) =~= seq![
        ("chatGuid"@, JsonModel::Str(chat_guid@)),
    ]);
    Action { name: "should-offer-nickname-sharing", data: Json::Object(f), transaction_type: Some(TransactionType::Other) }
}

pub fn share_contact_card(chat_guid: &str) -> (r: Action)
    ensures
        action_is(
            r,
            "share-nickname"@,
            None,
            JsonModel::Object(seq![
                ("chatGuid"@, JsonModel::Str(chat_guid@)),
            ]),
        ),
{
    let mut f: Vec<(String, Json)> = Vec::new();
    put_field(&mut f, "chatGuid", json_text(chat_guid));
    assert(entry_views(f@) =~= seq![
        ("chatGuid"@, JsonModel::Str(chat_guid@)),
    ]);
    Action { name: "share-nickname", data: Json::Object(f), transaction_type: None }
}

pub fn leave_chat(chat_guid: &str) -> (r: Action)
    ensures
        action_is(
            r,
            "leave-chat"@,
            Some(TransactionType::Chat),
            JsonModel::Object(seq![
                ("chatGuid"@, JsonModel::Str(chat_guid@)),
            ]),
        ),
{
    let mut f: Vec<(String, Json)> = Vec::new();
    put_field(&mut f, "chatGuid", json_text(chat_guid));
    assert(entry_views(f@) =~= seq![
        ("chatGuid"@, JsonModel::Str(chat_guid@)),
    ]);
    Action { name: "leave-chat", data: Json::Object(f), transaction_type: Some(TransactionType::Chat) }
}

pub fn delete_chat(chat_guid: &str) -> (r: Action)
    ensures
        action_is(
            r,
            "delete-chat"@,
            Some(TransactionType::Chat),
            JsonModel::Object(seq![
                ("chatGuid"@, JsonModel::Str(chat_guid@)),
            ]),
        ),
{
    let mut f: Vec<(String, Json)> = Vec::new();
    put_field(&mut f, "chatGuid", json_text(chat_guid));
    assert(entry_views(f@) =~= seq![
        ("chatGuid"@, JsonModel::Str(chat_guid@)),
    ]);
    Action { name: "delete-chat", data: Json::Object(f), transaction_type: Some(TransactionType::Chat) }
}

pub fn get_focus_status(address: &str) -> (r: Action)
    ensures
        action_is(
            r,
            "check-focus-status"@,
            Some(TransactionType::Handle),
            JsonModel::Object(seq![
                ("address"@, JsonModel::Str(address@)),
            ]),
        ),
{
    let mut f: Vec<(String, Json)> = Vec::new();
    put_field(&mut f, "address", json_text(address));
    assert(entry_views(f@) =~= seq![
        ("address"@, JsonModel::Str(address@)),
    ]);
    Action { name: "check-focus-status", data: Json::Object(f), transaction_type: Some(TransactionType::Handle) }
}

pub fn download_purged_attachment(attachment_guid: &str) -> (r: Action)
    ensures
        action_is(
            r,
            "download-purged-attachment"@,
            None,
            JsonModel::Object(seq![
                ("attachmentGuid"@, JsonModel::Str(attachment_guid@)),
            ]),
        ),
{
    let mut f: Vec<(String, Json)> = Vec::new();
    put_field(&mut f, "attachmentGuid", json_text(attachment_guid));
    assert(entry_views(f@) =~= seq![
        ("attachmentGuid"@, JsonModel::Str(attachment_guid@)),
    ]);
    Action { name: "download-purged-attachment", data: Json::Object(f), transaction_type: None }
}

pub fn get_contact_card(address: &str) -> (r: Action)
    ensures
        action_is(
            r,
            "get-nickname-info"@,
            Some(TransactionType::Other),
            JsonModel::Object(seq![
                ("address"@, JsonModel::Str(address@)),
            ]),
        ),
{
    let mut f: Vec<(String, Json)> = Vec::new();
    put_field(&mut f, "address", json_text(address));
    assert(entry_views(f@) =~= seq![
        ("address"@, JsonModel::Str(address@)),
    ]);
    Action { name: "get-nickname-info", data: Json::Object(f), transaction_type: Some(TransactionType::Other) }
}

pub fn modify_active_alias(alias: &str) -> (r: Action)
    ensures
        action_is(
            r,
            "modify-active-alias"@,
            Some(TransactionType::Other),
            JsonModel::Object(seq![
                ("alias"@, JsonModel::Str(alias@)),
            ]),
        ),
{
    let mut f: Vec<(String, Json)> = Vec::new();
    put_field(&mut f, "alias", json_text(alias));
    assert(entry_views(f@) =~= seq![
        ("alias"@, JsonModel::Str(alias@)),
    ]);
    Action { name: "modify-active-alias", data: Json::Object(f), transaction_type: Some(TransactionType::Other) }
}

pub fn answer_call(call_uuid: &str) -> (r: Action)
    ensures
        action_is(
            r,
            "answer-call"@,
            Some(TransactionType::Other),
            JsonModel::Object(seq![
                ("callUUID"@, JsonModel::Str(call_uuid@)),
            ]),
        ),
{
    let mut f: Vec<(String, Json)> = Vec::new();
    put_field(&mut f, "callUUID", json_text(call_uuid));
    assert(entry_views(f@) =~= seq![
        ("callUUID"@, JsonModel::Str(call_uuid@)),
    ]);
    Action { name: "answer-call", data: Json::Object(f), transaction_type: Some(TransactionType::Other) }
}

pub fn leave_call(call_uuid: &str) -> (r: Action)
    ensures
        action_is(
            r,
            "leave-call"@,
            None,
            JsonModel::Object(seq![
                ("callUUID"@, JsonModel::Str(call_uuid@)),
            ]),
        ),
{
    let mut f: Vec<(String, Json)> = Vec::new();
    put_field(&mut f, "callUUID", json_text(call_uuid));
    assert(entry_views(f@) =~= seq![
        ("callUUID"@, JsonModel::Str(call_uuid@)),
    ]);
    Action { name: "leave-call", data: Json::Object(f), transaction_type: None }
}

pub fn check_typing_status(chat_guid: &str) -> (r: Action)
    ensures
        action_is(
            r,
            "check-typing-status"@,
            Some(TransactionType::Chat),
            JsonModel::Object(seq![
                ("chatGuid"@, JsonModel::Str(chat_guid@)),
            ]),
        ),
{
    let mut f: Vec<(String, Json)> = Vec::new();
    put_field(&mut f, "chatGuid", json_text(chat_guid));
    assert(entry_views(f@) =~= seq![
        ("chatGuid"@, JsonModel::Str(chat_guid@)),
    ]);
    Action { name: "check-typing-status", data: Json::Object(f), transaction_type: Some(TransactionType::Chat) }
}

pub fn admit_participant(conversation_uuid: &str, handle_uuid: &str) -> (r: Action)
    ensures
        action_is(
            r,
            "admit-pending-member"@,
            Some(TransactionType::Other),
            JsonModel::Object(seq![
                ("conversationUUID"@, JsonModel::Str(conversation_uuid@)),
                ("handleUUID"@, JsonModel::Str(handle_uuid@)),
            ]),
        ),
{
    let mut f: Vec<(String, Json)> = Vec::new();
    put_field(&mut f, "conversationUUID", json_text(conversation_uuid));
    put_field(&mut f, "handleUUID", json_text(handle_uuid));
    assert(entry_views(f@) =~= seq![
        ("conversationUUID"@, JsonModel::Str(conversation_uuid@)),
        ("handleUUID"@, JsonModel::Str(handle_uuid@)),
    ]);
    Action { name: "admit-pending-member", data: Json::Object(f), transaction_type: Some(TransactionType::Other) }
}

pub fn refresh_findmy_friends() -> (r: Action)
    ensures
        action_is(r, "refresh-findmy-friends"@, Some(TransactionType::FindMy), JsonModel::Null),
{
    Action { name: "refresh-findmy-friends", data: Json::Null, transaction_type: Some(TransactionType::FindMy) }
}

pub fn get_findmy_key() -> (r: Action)
    ensures
        action_is(r, "get-findmy-key"@, Some(TransactionType::FindMy), JsonModel::Null),
{
    Action { name: "get-findmy-key", data: Json::Null, transaction_type: Some(TransactionType::FindMy) }
}

pub fn get_account_info() -> (r: Action)
    ensures
        action_is(r, "get-account-info"@, Some(TransactionType::Other), JsonModel::Null),
{
    Action { name: "get-account-info", data: Json::Null, transaction_type: Some(TransactionType::Other) }
}

} // verus!

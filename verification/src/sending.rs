//! Deciding how a message is sent: the checks on a send request, markdown
//! turned into formatting, the choice between the Private API and
//! AppleScript, and the Private API action to send.
use vstd::prelude::*;
use crate::actions::{
    action_is, create_chat, create_chat_fields, send_attachment, send_attachment_fields,
    send_message, send_message_fields, send_model, text_model, value_model, Action, SendModel,
    SendOptions,
};
use crate::phone::{library_e164, normalize_address, normalized, region_or_default};
use crate::formatting::{range_json, styles_json, TextFormattingRange};
use crate::decimal::{dec_digits, i64_text_value, parse_i64, parse_u32, u32_text_value, u64_digits};
use crate::http::{
    invalid_method_message, path_component_check, resolve_send_method, sanitize_filename,
    sanitize_path_component, sanitized_filename,
};
use crate::json::{
    copy_json, entry_views, field_of, json_text, json_view, json_views, lemma_json_views, model_get,
    object_insert, object_set, put_field, Json, JsonModel,
};
use crate::markdown::{
    markdown_parse, parse_markdown_formatting, pattern_styles, range_is, replace_all, replaced,
    working_copy_fits, Found,
};
use crate::private_api::TransactionType;
use crate::text::{
    chars_equal, chars_of, ends_with_chars, has_suffix, lemma_split_on_nonempty, push_all, push_str,
    split_chars, split_on, string_of, trim,
};

verus! {

/// The body of a text send request.
#[derive(Debug)]
pub struct SendTextBody {
    pub chat_guid: String,
    pub temp_guid: Option<String>,
    pub message: Option<String>,
    pub method: Option<String>,
    pub effect_id: Option<String>,
    pub subject: Option<String>,
    pub selected_message_guid: Option<String>,
    pub part_index: Option<u32>,
    pub dd_scan: Option<bool>,
    pub attributed_body: Option<Json>,
    pub text_formatting: Option<Json>,
}

/// How a message is to be sent.
pub enum SendPlan {
    /// Send this action through the Private API.
    PrivateApi(Action),
    /// Send this text with AppleScript.
    AppleScript(String),
}

pub open spec fn str_model(o: Option<String>) -> Option<Seq<char>> {
    match o {
        Some(s) => Some(s@),
        None => None,
    }
}

pub open spec fn json_model(o: Option<Json>) -> Option<JsonModel> {
    match o {
        Some(j) => Some(json_view(j)),
        None => None,
    }
}

/// The request's message text, empty when absent.
pub open spec fn body_message(b: SendTextBody) -> Seq<char> {
    match b.message {
        Some(s) => s@,
        None => Seq::empty(),
    }
}

/// The optional send fields of the request.
pub open spec fn body_send_model(b: SendTextBody) -> SendModel {
    (
        str_model(b.subject),
        str_model(b.effect_id),
        str_model(b.selected_message_guid),
        match b.part_index {
            Some(n) => Some(n as int),
            None => None,
        },
        json_model(b.attributed_body),
    )
}

// ---------------------------------------------------------------------------
// Checks before sending
// ---------------------------------------------------------------------------

/// Why a text send request is refused before anything is sent: no chat, or
/// nothing to send.
pub open spec fn send_text_body_error(b: SendTextBody) -> Option<Seq<char>> {
    if b.chat_guid@.len() == 0 {
        Some("chatGuid is required"@)
    } else if body_message(b).len() == 0 && b.subject is None && b.attributed_body is None {
        Some("message, subject, or attributedBody is required"@)
    } else {
        None
    }
}

/// Checks that a text send request names a chat and has something to send.
pub fn check_send_text_body(body: &SendTextBody) -> (r: Result<(), String>)
    ensures
        match send_text_body_error(*body) {
            Some(m) => r matches Err(e) && e@ == m,
            None => r is Ok,
        },
{
    if body.chat_guid.as_str().is_empty() {
        return Err("chatGuid is required".to_owned());
    }
    let empty = match &body.message {
        Some(m) => m.as_str().is_empty(),
        None => true,
    };
    if empty && body.subject.is_none() && body.attributed_body.is_none() {
        return Err("message, subject, or attributedBody is required".to_owned());
    }
    Ok(())
}

// ---------------------------------------------------------------------------
// Markdown
// ---------------------------------------------------------------------------

/// A found range as the formatting JSON the helper reads.
pub open spec fn found_json(f: Found) -> JsonModel {
    JsonModel::Object(
        seq![
            ("start"@, JsonModel::Int(f.0)),
            ("length"@, JsonModel::Int(f.1)),
            ("styles"@, JsonModel::Array(styles_json(pattern_styles(f.2)))),
        ],
    )
}

/// The request carries formatting: a non-empty array.
pub open spec fn has_formatting(o: Option<JsonModel>) -> bool {
    o matches Some(JsonModel::Array(a)) && a.len() > 0
}

/// Markdown is turned into formatting when the Private API and the option
/// are on, there is text, and the request brings no formatting and no
/// attributed body of its own.
pub open spec fn markdown_applies(b: SendTextBody, private_api: bool, markdown: bool) -> bool {
    private_api && markdown && body_message(b).len() > 0 && !has_formatting(
        json_model(b.text_formatting),
    ) && b.attributed_body is None
}

/// The text and formatting to send, markdown applied where it applies.
pub open spec fn text_to_send(b: SendTextBody, private_api: bool, markdown: bool) -> (
    Seq<char>,
    Option<JsonModel>,
) {
    let m = body_message(b);
    let tf = json_model(b.text_formatting);
    if markdown_applies(b, private_api, markdown) {
        match markdown_parse(m) {
            Some((clean, found)) => (
                clean,
                if found.len() > 0 {
                    Some(JsonModel::Array(found.map_values(|f: Found| found_json(f))))
                } else {
                    tf
                },
            ),
            None => (m, tf),
        }
    } else {
        (m, tf)
    }
}

// ---------------------------------------------------------------------------
// Choosing how to send
// ---------------------------------------------------------------------------

/// The send method asked for, resolved: `private-api` or `apple-script`
/// as given, else by whether the Private API is on; another name is
/// refused.
pub open spec fn send_method(explicit: Option<Seq<char>>, private_api: bool) -> Result<
    bool,
    Seq<char>,
> {
    match explicit {
        Some(m) => if m == "private-api"@ {
            Ok(true)
        } else if m == "apple-script"@ {
            Ok(false)
        } else {
            Err(invalid_method_message(m))
        },
        None => Ok(private_api),
    }
}

/// Sending needs the Private API whatever method is asked for.
pub open spec fn needs_private_api(b: SendTextBody, formatting: Option<JsonModel>) -> bool {
    b.effect_id is Some || b.subject is Some || b.selected_message_guid is Some
        || b.attributed_body is Some || formatting is Some || b.dd_scan is Some
}

/// What a text send request comes to: the Private API action's payload,
/// or the text to send with AppleScript, or the reason it is refused.
pub open spec fn send_text_outcome(b: SendTextBody, private_api: bool, markdown: bool) -> Result<
    (bool, Seq<char>, Option<JsonModel>),
    Seq<char>,
> {
    if b.text_formatting is Some && b.attributed_body is Some {
        Err("Cannot provide both textFormatting and attributedBody"@)
    } else {
        let (m, tf) = text_to_send(b, private_api, markdown);
        let method = if needs_private_api(b, tf) {
            Ok(true)
        } else {
            send_method(str_model(b.method), private_api)
        };
        match method {
            Err(e) => Err(e),
            Ok(true) => Ok((true, m, tf)),
            Ok(false) => if b.temp_guid is None || b.temp_guid->0@.len() == 0 {
                Err("A 'tempGuid' is required when sending via AppleScript"@)
            } else if m.len() == 0 {
                Err("A 'message' is required when sending via AppleScript"@)
            } else {
                Ok((false, m, tf))
            },
        }
    }
}

/// The plan carries out the outcome: the `send-message` action with the
/// request's fields, or the AppleScript text.
pub open spec fn plan_is(p: SendPlan, b: SendTextBody, o: (bool, Seq<char>, Option<JsonModel>)) -> bool {
    if o.0 {
        p matches SendPlan::PrivateApi(a) && action_is(
            a,
            "send-message"@,
            Some(TransactionType::Message),
            JsonModel::Object(
                send_message_fields(b.chat_guid@, o.1, body_send_model(b), o.2, b.dd_scan),
            ),
        )
    } else {
        p matches SendPlan::AppleScript(t) && t@ == o.1
    }
}

/// A reply (a request naming the message it answers) always goes through
/// the Private API, whatever method is asked for and whether or not the
/// Private API is switched on: the request is accepted (unless it brings
/// both formatting and an attributed body), and the plan is the
/// `send-message` action whose `selectedMessageGuid` is the message
/// replied to.
pub proof fn law_reply_sent_by_private_api(
    b: SendTextBody,
    private_api: bool,
    markdown: bool,
    p: SendPlan,
)
    requires
        b.selected_message_guid is Some,
        !(b.text_formatting is Some && b.attributed_body is Some),
    ensures
        send_text_outcome(b, private_api, markdown) is Ok,
        send_text_outcome(b, private_api, markdown) matches Ok(o) && (plan_is(p, b, o) ==> (
        p matches SendPlan::PrivateApi(a) && a.name@ == "send-message"@ && (json_view(a.data) matches JsonModel::Object(f)
            && f.len() >= 8 && f[5] == ("selectedMessageGuid"@, JsonModel::Str(
            b.selected_message_guid->0@,
        ))))),
{
    assert(needs_private_api(b, text_to_send(b, private_api, markdown).1));
}

proof fn lemma_found_json(rs: Seq<TextFormattingRange>, found: Seq<Found>)
    requires
        rs.len() == found.len(),
        forall|i: int| 0 <= i < found.len() ==> range_is(#[trigger] rs[i], found[i]),
    ensures
        rs.map_values(|x: TextFormattingRange| range_json(x)) == found.map_values(
            |f: Found| found_json(f),
        ),
{
    let a = rs.map_values(|x: TextFormattingRange| range_json(x));
    let b = found.map_values(|f: Found| found_json(f));
    assert forall|i: int| 0 <= i < found.len() implies a[i] == b[i] by {
        assert(range_is(rs[i], found[i]));
    }
    assert(a =~= b);
}

fn opt_ref(o: &Option<String>) -> (r: Option<&str>)
    ensures
        text_model(r) == str_model(*o),
{
    match o {
        Some(s) => Some(s.as_str()),
        None => None,
    }
}

fn opt_json_ref(o: &Option<Json>) -> (r: Option<&Json>)
    ensures
        value_model(r) == json_model(*o),
{
    match o {
        Some(j) => Some(j),
        None => None,
    }
}

/// Decides how to send a text message, after the request has passed
/// [`check_send_text_body`] and the duplicate-send check: refuses
/// conflicting styling, turns markdown into formatting where it applies,
/// chooses the Private API or AppleScript, and builds the action.
pub fn plan_send_text(body: &SendTextBody, private_api: bool, markdown: bool) -> (r: Result<
    SendPlan,
    String,
>)
    requires
        working_copy_fits(body_message(*body)),
    ensures
        match send_text_outcome(*body, private_api, markdown) {
            Ok(o) => r matches Ok(p) && plan_is(p, *body, o),
            Err(m) => r matches Err(e) && e@ == m,
        },
{
    if body.text_formatting.is_some() && body.attributed_body.is_some() {
        return Err("Cannot provide both textFormatting and attributedBody".to_owned());
    }
    let mut message: String = match &body.message {
        Some(m) => m.clone(),
        None => string_of(&Vec::new()),
    };
    let mut formatting: Option<Json> = match &body.text_formatting {
        Some(j) => Some(copy_json(j)),
        None => None,
    };
    let given = match &body.text_formatting {
        Some(Json::Array(a)) => {
            proof {
                lemma_json_views(a@);
            }
            a.len() > 0
        },
        _ => false,
    };
    proof {
        assert(given == has_formatting(json_model(body.text_formatting)));
    }
    if private_api && markdown && !message.as_str().is_empty() && !given
        && body.attributed_body.is_none() {
        match parse_markdown_formatting(message.as_str()) {
            Some(parsed) => {
                let ghost found = (markdown_parse(body_message(*body))->0).1;
                if parsed.formatting.len() > 0 {
                    let fj = parsed.formatting_json();
                    proof {
                        lemma_found_json(parsed.formatting@, found);
                    }
                    formatting = Some(fj);
                }
                message = parsed.clean_text;
            },
            None => {},
        }
    }
    let ghost sent = text_to_send(*body, private_api, markdown);
    assert(message@ == sent.0);
    assert(json_model(formatting) == sent.1);
    let needs = body.effect_id.is_some() || body.subject.is_some()
        || body.selected_message_guid.is_some() || body.attributed_body.is_some()
        || formatting.is_some() || body.dd_scan.is_some();
    assert(needs == needs_private_api(*body, sent.1));
    let use_private = if needs {
        true
    } else {
        let explicit = opt_ref(&body.method);
        match resolve_send_method(explicit, private_api) {
            Ok(m) => {
                proof {
                    reveal_strlit("private-api");
                    reveal_strlit("apple-script");
                }
                let p = chars_equal(&chars_of(m), &chars_of("private-api"));
                proof {
                    let sm = send_method(str_model(body.method), private_api);
                    assert("private-api"@[0] != "apple-script"@[0]);
                    match explicit {
                        Some(x) => {
                            assert(str_model(body.method) == Some(x@));
                        },
                        None => {
                            assert(str_model(body.method) is None);
                        },
                    }
                    if p {
                        assert(sm == Ok::<bool, Seq<char>>(true));
                    } else {
                        assert(sm == Ok::<bool, Seq<char>>(false));
                    }
                }
                p
            },
            Err(e) => {
                return Err(e);
            },
        }
    };
    if use_private {
        let opts = SendOptions {
            subject: opt_ref(&body.subject),
            effect_id: opt_ref(&body.effect_id),
            selected_message_guid: opt_ref(&body.selected_message_guid),
            part_index: match body.part_index {
                Some(p) => Some(p as i64),
                None => None,
            },
            attributed_body: opt_json_ref(&body.attributed_body),
        };
        let tf = match &formatting {
            Some(j) => Some(j),
            None => None,
        };
        assert(value_model(tf) == json_model(formatting));
        assert(send_text_outcome(*body, private_api, markdown) == Ok::<
            (bool, Seq<char>, Option<JsonModel>),
            Seq<char>,
        >((true, message@, json_model(formatting))));
        let action = send_message(body.chat_guid.as_str(), message.as_str(), &opts, tf, body.dd_scan);
        assert(send_model(opts) == body_send_model(*body));
        return Ok(SendPlan::PrivateApi(action));
    }
    let no_temp = match &body.temp_guid {
        Some(t) => t.as_str().is_empty(),
        None => true,
    };
    if no_temp {
        return Err("A 'tempGuid' is required when sending via AppleScript".to_owned());
    }
    if message.as_str().is_empty() {
        return Err("A 'message' is required when sending via AppleScript".to_owned());
    }
    Ok(SendPlan::AppleScript(message))
}

// ---------------------------------------------------------------------------
// After sending
// ---------------------------------------------------------------------------

/// A field of a JSON object.
pub open spec fn object_field(j: JsonModel, k: Seq<char>) -> Option<JsonModel> {
    match j {
        JsonModel::Object(f) => model_get(f, k),
        _ => None,
    }
}

/// The `error` code of a sent message's data, 0 when it has none that
/// fits in `i64`.
pub open spec fn error_code(data: JsonModel) -> int {
    match object_field(data, "error"@) {
        Some(JsonModel::Int(n)) => if i64::MIN <= n <= i64::MAX {
            n
        } else {
            0
        },
        _ => 0,
    }
}

/// The `error` code of a sent message's data.
pub fn message_error_code(data: &Json) -> (r: i64)
    ensures
        r == error_code(json_view(*data)),
{
    match data {
        Json::Object(f) => match field_of(f, "error") {
            Some(Json::Int(n)) => *n,
            Some(Json::Uint(n)) => if *n <= i64::MAX as u64 {
                *n as i64
            } else {
                0
            },
            _ => 0,
        },
        _ => 0,
    }
}

/// The data with `tempGuid` set, when a temporary GUID was given and the
/// data is an object; otherwise unchanged.
pub open spec fn with_temp_guid(data: JsonModel, temp_guid: Option<Seq<char>>) -> JsonModel {
    match (temp_guid, data) {
        (Some(t), JsonModel::Object(f)) => JsonModel::Object(
            object_insert(f, "tempGuid"@, JsonModel::Str(t)),
        ),
        _ => data,
    }
}

/// Inject `tempGuid` into serialized message data.
pub fn inject_temp_guid(data: &mut Json, temp_guid: Option<&str>)
    ensures
        json_view(*final(data)) == with_temp_guid(json_view(*old(data)), text_model(temp_guid)),
{
    match temp_guid {
        Some(tg) => match data {
            Json::Object(f) => {
                object_set(f, tg_key(), json_text(tg));
            },
            _ => {},
        },
        None => {},
    }
}

fn tg_key() -> (r: String)
    ensures
        r@ == "tempGuid"@,
{
    "tempGuid".to_owned()
}

// ---------------------------------------------------------------------------
// Form fields
// ---------------------------------------------------------------------------

/// A form flag is set by `true` or `1`.
pub open spec fn form_flag(v: Seq<char>) -> bool {
    v == "true"@ || v == "1"@
}

pub fn read_form_flag(v: &str) -> (r: bool)
    ensures
        r == form_flag(v@),
{
    let c = chars_of(v);
    chars_equal(&c, &chars_of("true")) || chars_equal(&c, &chars_of("1"))
}

/// A part index field: its number when it reads as an `i64`.
pub fn read_part_index(v: &str) -> (r: Option<i64>)
    ensures
        match i64_text_value(v@) {
            Some(n) => r == Some(n as i64),
            None => r is None,
        },
{
    parse_i64(&chars_of(v))
}

/// A chunk number field: refused unless it reads as a `u32`.
pub fn read_chunk_number(v: &str, field: &str) -> (r: Result<u32, String>)
    ensures
        match u32_text_value(v@) {
            Some(n) => r == Ok::<u32, String>(n as u32),
            None => r matches Err(e) && e@ == field@ + " must be a number"@,
        },
{
    match parse_u32(&chars_of(v)) {
        Some(n) => Ok(n),
        None => {
            let mut m = chars_of(field);
            push_str(&mut m, " must be a number");
            Err(string_of(&m))
        },
    }
}

// ---------------------------------------------------------------------------
// Attachments
// ---------------------------------------------------------------------------

/// The fields of an attachment send request.
#[derive(Debug)]
pub struct AttachmentForm {
    pub chat_guid: Option<String>,
    pub temp_guid: Option<String>,
    pub file_name: Option<String>,
    pub file_data: Option<Vec<u8>>,
    pub method: Option<String>,
    pub is_audio_message: bool,
    pub subject: Option<String>,
    pub effect_id: Option<String>,
    pub selected_message_guid: Option<String>,
    pub part_index: Option<i64>,
    pub attributed_body: Option<Json>,
}

/// Why an attachment request is refused before anything is written, or
/// the file name it is saved under.
pub open spec fn attachment_form_check(f: AttachmentForm) -> Result<Seq<char>, Seq<char>> {
    if f.chat_guid is None {
        Err("chatGuid is required"@)
    } else if f.file_data is None {
        Err("attachment file is required"@)
    } else if f.file_data->0@.len() == 0 {
        Err("Attachment file is empty"@)
    } else {
        Ok(
            sanitized_filename(
                match f.file_name {
                    Some(n) => n@,
                    None => "attachment"@,
                },
                "attachment"@,
            ),
        )
    }
}

/// Checks an attachment request: a chat and a non-empty file; gives the
/// safe file name to save it under.
pub fn check_attachment_form(form: &AttachmentForm) -> (r: Result<String, String>)
    ensures
        match attachment_form_check(*form) {
            Ok(n) => r matches Ok(s) && s@ == n,
            Err(m) => r matches Err(e) && e@ == m,
        },
{
    if form.chat_guid.is_none() {
        return Err("chatGuid is required".to_owned());
    }
    match &form.file_data {
        None => {
            return Err("attachment file is required".to_owned());
        },
        Some(d) => {
            if d.len() == 0 {
                return Err("Attachment file is empty".to_owned());
            }
        },
    }
    match &form.file_name {
        Some(n) => Ok(sanitize_filename(n.as_str(), "attachment")),
        None => Ok(sanitize_filename("attachment", "attachment")),
    }
}

/// Whether an attachment goes through the Private API: forced by a
/// subject, effect, reply target or attributed body, else the method asked
/// for.
pub open spec fn attachment_method(f: AttachmentForm, private_api: bool) -> Result<bool, Seq<char>> {
    if f.subject is Some || f.effect_id is Some || f.selected_message_guid is Some
        || f.attributed_body is Some {
        Ok(true)
    } else {
        send_method(str_model(f.method), private_api)
    }
}

fn resolve_private(method: &Option<String>, private_api: bool) -> (r: Result<bool, String>)
    ensures
        match send_method(str_model(*method), private_api) {
            Ok(b) => r == Ok::<bool, String>(b),
            Err(m) => r matches Err(e) && e@ == m,
        },
{
    let explicit = opt_ref(method);
    match resolve_send_method(explicit, private_api) {
        Ok(m) => {
            proof {
                reveal_strlit("private-api");
                reveal_strlit("apple-script");
            }
            let p = chars_equal(&chars_of(m), &chars_of("private-api"));
            proof {
                let sm = send_method(str_model(*method), private_api);
                assert("private-api"@[0] != "apple-script"@[0]);
                match explicit {
                    Some(x) => {
                        assert(str_model(*method) == Some(x@));
                    },
                    None => {},
                }
                if p {
                    assert(sm == Ok::<bool, Seq<char>>(true));
                } else {
                    assert(sm == Ok::<bool, Seq<char>>(false));
                }
            }
            Ok(p)
        },
        Err(e) => Err(e),
    }
}

/// Decides whether an attachment is sent through the Private API.
pub fn choose_attachment_method(form: &AttachmentForm, private_api: bool) -> (r: Result<bool, String>)
    ensures
        match attachment_method(*form, private_api) {
            Ok(b) => r == Ok::<bool, String>(b),
            Err(m) => r matches Err(e) && e@ == m,
        },
{
    if form.subject.is_some() || form.effect_id.is_some() || form.selected_message_guid.is_some()
        || form.attributed_body.is_some() {
        return Ok(true);
    }
    resolve_private(&form.method, private_api)
}

/// Where an audio message in MP3 is converted to CAF: the path with
/// `.mp3` replaced by `.caf`.
pub open spec fn caf_target(path: Seq<char>, is_audio: bool) -> Option<Seq<char>> {
    if is_audio && has_suffix(path, ".mp3"@) {
        Some(replaced(path, ".mp3"@, ".caf"@))
    } else {
        None
    }
}

/// The path an MP3 audio message is converted to, if it is one.
pub fn caf_path(path: &str, is_audio: bool) -> (r: Option<String>)
    ensures
        match caf_target(path@, is_audio) {
            Some(t) => r matches Some(s) && s@ == t,
            None => r is None,
        },
{
    if !is_audio {
        return None;
    }
    let p = chars_of(path);
    let mp3 = chars_of(".mp3");
    if !ends_with_chars(&p, &mp3) {
        return None;
    }
    proof {
        reveal_strlit(".mp3");
    }
    let caf = chars_of(".caf");
    Some(string_of(&replace_all(&p, &mp3, &caf)))
}

/// The send options of an attachment request.
pub open spec fn form_send_model(f: AttachmentForm) -> SendModel {
    (
        str_model(f.subject),
        str_model(f.effect_id),
        str_model(f.selected_message_guid),
        match f.part_index {
            Some(n) => Some(n as int),
            None => None,
        },
        json_model(f.attributed_body),
    )
}

/// The Private API action sending an attachment request's file, saved at
/// `file_path`.
pub fn attachment_action(form: &AttachmentForm, chat_guid: &str, file_path: &str) -> (r: Action)
    ensures
        action_is(
            r,
            "send-attachment"@,
            Some(TransactionType::Attachment),
            JsonModel::Object(
                send_attachment_fields(
                    chat_guid@,
                    file_path@,
                    form.is_audio_message,
                    form_send_model(*form),
                ),
            ),
        ),
{
    let opts = SendOptions {
        subject: opt_ref(&form.subject),
        effect_id: opt_ref(&form.effect_id),
        selected_message_guid: opt_ref(&form.selected_message_guid),
        part_index: form.part_index,
        attributed_body: opt_json_ref(&form.attributed_body),
    };
    assert(send_model(opts) == form_send_model(*form));
    send_attachment(chat_guid, file_path, form.is_audio_message, &opts)
}

/// An AppleScript send needs a non-empty temporary GUID.
pub fn require_temp_guid(temp_guid: &Option<String>) -> (r: Result<(), String>)
    ensures
        r is Ok <==> (temp_guid matches Some(t) && t@.len() > 0),
        r matches Err(e) ==> e@ == "A 'tempGuid' is required when sending via AppleScript"@,
{
    match temp_guid {
        Some(t) => if t.as_str().is_empty() {
            Err("A 'tempGuid' is required when sending via AppleScript".to_owned())
        } else {
            Ok(())
        },
        None => Err("A 'tempGuid' is required when sending via AppleScript".to_owned()),
    }
}

// ---------------------------------------------------------------------------
// Chunked uploads
// ---------------------------------------------------------------------------

/// The fields of a chunk upload request.
#[derive(Debug)]
pub struct ChunkForm {
    pub chat_guid: Option<String>,
    pub attachment_guid: Option<String>,
    pub file_name: Option<String>,
    pub chunk_index: Option<u32>,
    pub total_chunks: Option<u32>,
    pub is_complete: bool,
    pub chunk_data: Option<Vec<u8>>,
    pub method: Option<String>,
    pub is_audio_message: bool,
    pub subject: Option<String>,
    pub effect_id: Option<String>,
    pub selected_message_guid: Option<String>,
    pub part_index: Option<i64>,
}

/// A checked chunk: its chat, upload GUID and file name made safe, and
/// its place among the chunks.
#[derive(Debug)]
pub struct ChunkUpload {
    pub chat_guid: String,
    pub attachment_guid: String,
    pub name: String,
    pub index: u32,
    pub total: u32,
}

/// Why a chunk is refused, in the order the checks are made, or what it
/// checks out as: (chat, upload GUID, name, index, total).
pub open spec fn chunk_check(f: ChunkForm) -> Result<
    (Seq<char>, Seq<char>, Seq<char>, u32, u32),
    Seq<char>,
> {
    if f.chat_guid is None {
        Err("chatGuid is required"@)
    } else if f.attachment_guid is None {
        Err("attachmentGuid is required"@)
    } else {
        match path_component_check(f.attachment_guid->0@, "attachmentGuid"@) {
            Err(e) => Err(e),
            Ok(guid) => if f.file_name is None {
                Err("name is required"@)
            } else if f.chunk_index is None {
                Err("chunkIndex is required"@)
            } else if f.total_chunks is None {
                Err("totalChunks is required"@)
            } else if f.chunk_data is None {
                Err("chunk data is required"@)
            } else if f.chunk_data->0@.len() == 0 {
                Err("Chunk data is empty"@)
            } else if f.chunk_index->0 >= f.total_chunks->0 {
                Err("chunkIndex must be less than totalChunks"@)
            } else {
                Ok(
                    (
                        f.chat_guid->0@,
                        guid,
                        sanitized_filename(f.file_name->0@, "attachment"@),
                        f.chunk_index->0,
                        f.total_chunks->0,
                    ),
                )
            },
        }
    }
}

/// Checks a chunk upload request.
pub fn check_chunk_form(form: &ChunkForm) -> (r: Result<ChunkUpload, String>)
    ensures
        match chunk_check(*form) {
            Ok(c) => r matches Ok(u) && u.chat_guid@ == c.0 && u.attachment_guid@ == c.1
                && u.name@ == c.2 && u.index == c.3 && u.total == c.4,
            Err(m) => r matches Err(e) && e@ == m,
        },
{
    let chat_guid = match &form.chat_guid {
        Some(c) => c.clone(),
        None => return Err("chatGuid is required".to_owned()),
    };
    let raw = match &form.attachment_guid {
        Some(a) => a,
        None => return Err("attachmentGuid is required".to_owned()),
    };
    let attachment_guid = match sanitize_path_component(raw.as_str(), "attachmentGuid") {
        Ok(g) => g,
        Err(e) => return Err(e.error_message),
    };
    let name = match &form.file_name {
        Some(n) => sanitize_filename(n.as_str(), "attachment"),
        None => return Err("name is required".to_owned()),
    };
    let index = match form.chunk_index {
        Some(i) => i,
        None => return Err("chunkIndex is required".to_owned()),
    };
    let total = match form.total_chunks {
        Some(t) => t,
        None => return Err("totalChunks is required".to_owned()),
    };
    match &form.chunk_data {
        None => {
            return Err("chunk data is required".to_owned());
        },
        Some(d) => {
            if d.len() == 0 {
                return Err("Chunk data is empty".to_owned());
            }
        },
    }
    if index >= total {
        return Err("chunkIndex must be less than totalChunks".to_owned());
    }
    Ok(ChunkUpload { chat_guid, attachment_guid, name, index, total })
}

/// The file a chunk is stored in: `{index}-{name}`.
pub open spec fn chunk_file(index: u32, name: Seq<char>) -> Seq<char> {
    dec_digits(index as nat) + seq!['-'] + name
}

pub fn chunk_file_name(index: u32, name: &str) -> (r: String)
    ensures
        r@ == chunk_file(index, name@),
{
    let mut c = u64_digits(index as u64);
    c.push('-');
    let n = chars_of(name);
    push_all(&mut c, &n);
    string_of(&c)
}

/// The progress reply to a chunk that does not complete the upload: its
/// message, and data with the chunks still to come.
pub open spec fn chunk_progress_message(u: ChunkUpload) -> Seq<char> {
    "Chunk "@ + dec_digits(u.index as nat) + "/"@ + dec_digits(u.total as nat)
        + " uploaded successfully."@
}

pub open spec fn chunk_progress_data(u: ChunkUpload) -> JsonModel {
    JsonModel::Object(
        seq![
            ("attachmentGuid"@, JsonModel::Str(u.attachment_guid@)),
            ("chunkIndex"@, JsonModel::Int(u.index as int)),
            ("totalChunks"@, JsonModel::Int(u.total as int)),
            ("remainingChunks"@, JsonModel::Int(
                if u.total > u.index + 1 {
                    u.total - (u.index + 1)
                } else {
                    0
                },
            )),
        ],
    )
}

pub fn chunk_progress(u: &ChunkUpload) -> (r: (String, Json))
    requires
        u.index < u.total,
    ensures
        r.0@ == chunk_progress_message(*u),
        json_view(r.1) == chunk_progress_data(*u),
{
    let mut m = chars_of("Chunk ");
    let i = u64_digits(u.index as u64);
    push_all(&mut m, &i);
    push_str(&mut m, "/");
    let t = u64_digits(u.total as u64);
    push_all(&mut m, &t);
    push_str(&mut m, " uploaded successfully.");
    let remaining: u32 = u.total.saturating_sub(u.index + 1);
    let mut f: Vec<(String, Json)> = Vec::new();
    put_field(&mut f, "attachmentGuid", Json::Str(u.attachment_guid.clone()));
    put_field(&mut f, "chunkIndex", Json::Uint(u.index as u64));
    put_field(&mut f, "totalChunks", Json::Uint(u.total as u64));
    put_field(&mut f, "remainingChunks", Json::Uint(remaining as u64));
    assert(entry_views(f@) =~= seq![
        ("attachmentGuid"@, JsonModel::Str(u.attachment_guid@)),
        ("chunkIndex"@, JsonModel::Int(u.index as int)),
        ("totalChunks"@, JsonModel::Int(u.total as int)),
        ("remainingChunks"@, JsonModel::Int(
            if u.total > u.index + 1 {
                u.total - (u.index + 1)
            } else {
                0
            },
        )),
    ]);
    (string_of(&m), Json::Object(f))
}

/// The chunk index a stored chunk's file name gives: the text before its
/// first `-`, read as a `u32`.
pub open spec fn chunk_index_value(name: Seq<char>) -> Option<nat> {
    u32_text_value(split_on(name, '-')[0])
}

pub fn chunk_index_of(file_name: &str) -> (r: Option<u32>)
    ensures
        match chunk_index_value(file_name@) {
            Some(n) => r == Some(n as u32),
            None => r is None,
        },
{
    let c = chars_of(file_name);
    let parts = split_chars(&c, '-');
    proof {
        lemma_split_on_nonempty(c@, '-');
    }
    parse_u32(&parts[0])
}

/// The stored chunks in order of their index (those with the same index
/// in the order found), or the reason assembly is refused: not as many as
/// the upload has.
pub open spec fn chunk_order(found: Seq<(u32, Seq<char>)>, total: u32) -> Result<Seq<Seq<char>>, Seq<char>> {
    if found.len() != total {
        Err("Expected "@ + dec_digits(total as nat) + " chunks but only found "@ + dec_digits(
            found.len(),
        ))
    } else {
        Ok(sort_by_index(found).map_values(|x: (u32, Seq<char>)| x.1))
    }
}

/// `x` placed after every entry whose index is no greater.
pub open spec fn insert_by_index(s: Seq<(u32, Seq<char>)>, x: (u32, Seq<char>)) -> Seq<(u32, Seq<char>)>
    decreases s.len(),
{
    if s.len() == 0 {
        seq![x]
    } else if s.last().0 <= x.0 {
        s.push(x)
    } else {
        insert_by_index(s.drop_last(), x).push(s.last())
    }
}

/// The entries in order of their index, equal indexes in the order given
/// (a stable sort).
pub open spec fn sort_by_index(s: Seq<(u32, Seq<char>)>) -> Seq<(u32, Seq<char>)>
    decreases s.len(),
{
    if s.len() == 0 {
        s
    } else {
        insert_by_index(sort_by_index(s.drop_last()), s.last())
    }
}

pub open spec fn sorted_by_index(s: Seq<(u32, Seq<char>)>) -> bool {
    forall|i: int, j: int| 0 <= i < j < s.len() ==> s[i].0 <= s[j].0
}

proof fn lemma_insert_by_index(s: Seq<(u32, Seq<char>)>, x: (u32, Seq<char>), pos: int)
    requires
        sorted_by_index(s),
        0 <= pos <= s.len(),
        forall|i: int| 0 <= i < pos ==> s[i].0 <= x.0,
        forall|i: int| pos <= i < s.len() ==> s[i].0 > x.0,
    ensures
        insert_by_index(s, x) == s.insert(pos, x),
        sorted_by_index(s.insert(pos, x)),
    decreases s.len(),
{
    if s.len() > 0 {
        if s.last().0 <= x.0 {
            assert(s.push(x) =~= s.insert(pos, x));
        } else {
            let s2 = s.drop_last();
            lemma_insert_by_index(s2, x, pos);
            assert(s2.insert(pos, x).push(s.last()) =~= s.insert(pos, x));
        }
    }
    let t = s.insert(pos, x);
    assert forall|i: int, j: int| 0 <= i < j < t.len() implies t[i].0 <= t[j].0 by {
        if i < pos && j < pos {
        } else if i < pos && j == pos {
        } else if i < pos {
            assert(t[j] == s[j - 1]);
        } else if i == pos {
            assert(t[j] == s[j - 1]);
        } else {
            assert(t[i] == s[i - 1]);
            assert(t[j] == s[j - 1]);
        }
    }
}

pub open spec fn chunk_views(v: Seq<(u32, String)>) -> Seq<(u32, Seq<char>)> {
    v.map_values(|x: (u32, String)| (x.0, x.1@))
}

/// Orders the stored chunks for assembly: all of them must be there.
pub fn order_chunks(found: Vec<(u32, String)>, total: u32) -> (r: Result<Vec<String>, String>)
    ensures
        match chunk_order(chunk_views(found@), total) {
            Ok(paths) => r matches Ok(v) && v@.map_values(|s: String| s@) == paths,
            Err(m) => r matches Err(e) && e@ == m,
        },
{
    if found.len() != total as usize {
        let mut m = chars_of("Expected ");
        push_all(&mut m, &u64_digits(total as u64));
        push_str(&mut m, " chunks but only found ");
        push_all(&mut m, &u64_digits(found.len() as u64));
        proof {
            reveal_strlit("Expected ");
            reveal_strlit(" chunks but only found ");
        }
        assert(m@ =~= "Expected "@ + dec_digits(total as nat) + " chunks but only found "@
            + dec_digits(chunk_views(found@).len()));
        return Err(string_of(&m));
    }
    let mut out: Vec<(u32, String)> = Vec::new();
    let mut k: usize = 0;
    let n = found.len();
    assert(chunk_views(found@.subrange(0, 0)) =~= Seq::<(u32, Seq<char>)>::empty());
    while k < n
        invariant
            k <= n,
            n == found@.len(),
            chunk_views(out@) == sort_by_index(chunk_views(found@.subrange(0, k as int))),
            sorted_by_index(chunk_views(out@)),
        decreases n - k,
    {
        let x = (found[k].0, found[k].1.clone());
        let ghost xv = (x.0, x.1@);
        proof {
            let fv = chunk_views(found@.subrange(0, k + 1));
            assert(fv.drop_last() =~= chunk_views(found@.subrange(0, k as int)));
            assert(fv.last() == xv);
        }
        let mut pos: usize = 0;
        while pos < out.len() && out[pos].0 <= x.0
            invariant
                pos <= out.len(),
                forall|i: int| 0 <= i < pos ==> out@[i].0 <= x.0,
            decreases out.len() - pos,
        {
            pos = pos + 1;
        }
        proof {
            let s = chunk_views(out@);
            assert forall|i: int| pos <= i < s.len() implies s[i].0 > x.0 by {
                assert(s[pos as int].0 <= s[i].0);
            }
            lemma_insert_by_index(s, xv, pos as int);
        }
        let ghost o0 = out@;
        out.insert(pos, x);
        assert(chunk_views(out@) =~= chunk_views(o0).insert(pos as int, xv));
        k = k + 1;
    }
    assert(found@.subrange(0, n as int) =~= found@);
    let mut paths: Vec<String> = Vec::new();
    let mut j: usize = 0;
    while j < out.len()
        invariant
            j <= out.len(),
            paths@.len() == j,
            paths@.map_values(|s: String| s@) == chunk_views(out@).subrange(0, j as int).map_values(
                |x: (u32, Seq<char>)| x.1,
            ),
        decreases out.len() - j,
    {
        let ghost p0 = paths@;
        let item = out[j].1.clone();
        assert(item@ == chunk_views(out@)[j as int].1);
        paths.push(item);
        assert(paths@.map_values(|s: String| s@) =~= p0.map_values(|s: String| s@).push(item@));
        assert(chunk_views(out@).subrange(0, j + 1).map_values(|x: (u32, Seq<char>)| x.1)
            =~= chunk_views(out@).subrange(0, j as int).map_values(|x: (u32, Seq<char>)| x.1).push(
            item@,
        ));
        j = j + 1;
    }
    assert(chunk_views(out@).subrange(0, out@.len() as int) =~= chunk_views(out@));
    Ok(paths)
}

/// Whether the assembled upload goes through the Private API: forced by a
/// subject, effect or reply target, else the method asked for.
pub open spec fn chunk_method(f: ChunkForm, private_api: bool) -> Result<bool, Seq<char>> {
    if f.effect_id is Some || f.subject is Some || f.selected_message_guid is Some {
        Ok(true)
    } else {
        send_method(str_model(f.method), private_api)
    }
}

pub fn choose_chunk_method(form: &ChunkForm, private_api: bool) -> (r: Result<bool, String>)
    ensures
        match chunk_method(*form, private_api) {
            Ok(b) => r == Ok::<bool, String>(b),
            Err(m) => r matches Err(e) && e@ == m,
        },
{
    if form.effect_id.is_some() || form.subject.is_some() || form.selected_message_guid.is_some() {
        return Ok(true);
    }
    resolve_private(&form.method, private_api)
}

/// The send options of an assembled upload (it has no attributed body).
pub open spec fn chunk_send_model(f: ChunkForm) -> SendModel {
    (
        str_model(f.subject),
        str_model(f.effect_id),
        str_model(f.selected_message_guid),
        match f.part_index {
            Some(n) => Some(n as int),
            None => None,
        },
        None,
    )
}

/// The Private API action sending an assembled upload saved at
/// `file_path`.
pub fn chunk_action(form: &ChunkForm, chat_guid: &str, file_path: &str) -> (r: Action)
    ensures
        action_is(
            r,
            "send-attachment"@,
            Some(TransactionType::Attachment),
            JsonModel::Object(
                send_attachment_fields(
                    chat_guid@,
                    file_path@,
                    form.is_audio_message,
                    chunk_send_model(*form),
                ),
            ),
        ),
{
    let opts = SendOptions {
        subject: opt_ref(&form.subject),
        effect_id: opt_ref(&form.effect_id),
        selected_message_guid: opt_ref(&form.selected_message_guid),
        part_index: form.part_index,
        attributed_body: None,
    };
    assert(send_model(opts) == chunk_send_model(*form));
    send_attachment(chat_guid, file_path, form.is_audio_message, &opts)
}

// ---------------------------------------------------------------------------
// Creating chats
// ---------------------------------------------------------------------------

/// A refused request: a bad request, or one Messages cannot carry out.
#[derive(Debug, PartialEq, Eq)]
pub enum RequestError {
    BadRequest(String),
    IMessage(String),
}

/// The body of a chat creation request.
#[derive(Debug)]
pub struct CreateChatBody {
    pub addresses: Vec<String>,
    pub message: Option<String>,
    pub method: Option<String>,
    pub service: Option<String>,
    pub temp_guid: Option<String>,
    pub subject: Option<String>,
    pub effect_id: Option<String>,
    pub attributed_body: Option<Json>,
}

/// How a chat is to be created.
pub enum ChatCreatePlan {
    /// Send this action through the Private API.
    PrivateApi(Action),
    /// Create the chat with AppleScript, sending the message.
    AppleScript { addresses: Vec<String>, service: String, message: String },
}

/// An address is the one given, normalized for the region code `region`.
pub open spec fn is_normalized(a: Seq<char>, given: Seq<char>, region: Seq<char>) -> bool {
    a == normalized(given, library_e164(region_or_default(region), trim(given)))
}

/// Each address is the one given, normalized for the region code `region`.
pub open spec fn all_normalized(given: Seq<String>, addrs: Seq<Seq<char>>, region: Seq<char>) -> bool {
    addrs.len() == given.len() && forall|i: int|
        0 <= i < given.len() ==> #[trigger] is_normalized(addrs[i], given[i]@, region)
}

/// The service asked for, `iMessage` by default.
pub open spec fn chat_service(b: CreateChatBody) -> Seq<char> {
    match b.service {
        Some(s) => s@,
        None => "iMessage"@,
    }
}

/// The chat's first message is missing or empty.
pub open spec fn no_message(b: CreateChatBody) -> bool {
    b.message is None || b.message->0@.len() == 0
}

/// A chat is created through the Private API only when `private-api` is
/// asked for (AppleScript by default).
pub open spec fn creates_with_private_api(b: CreateChatBody) -> bool {
    b.method matches Some(m) && m@ == "private-api"@
}

fn normalize_all(addresses: &Vec<String>, region: &str) -> (r: Vec<String>)
    ensures
        all_normalized(addresses@, r@.map_values(|a: String| a@), region@),
{
    let mut out: Vec<String> = Vec::new();
    let mut k: usize = 0;
    while k < addresses.len()
        invariant
            k <= addresses.len(),
            out@.len() == k,
            forall|i: int| 0 <= i < k ==> #[trigger] is_normalized(out@[i]@, addresses@[i]@, region@),
        decreases addresses.len() - k,
    {
        let a = normalize_address(addresses[k].as_str(), region);
        assert(is_normalized(a@, addresses@[k as int]@, region@));
        out.push(a);
        k = k + 1;
    }
    let ghost v = out@.map_values(|a: String| a@);
    assert forall|i: int| 0 <= i < addresses@.len() implies #[trigger] is_normalized(
        v[i],
        addresses@[i]@,
        region@,
    ) by {
        assert(v[i] == out@[i]@);
    }
    out
}

/// Decides how to create a chat, the addresses normalized for `region`:
/// through the Private API with a message when `private-api` is asked
/// for, else with AppleScript for a single address and a message.
pub fn plan_create_chat(body: &CreateChatBody, region: &str) -> (r: Result<ChatCreatePlan, RequestError>)
    ensures
        body.addresses@.len() == 0 ==> (r matches Err(RequestError::BadRequest(e)) && e@
            == "addresses is required"@),
        body.addresses@.len() > 0 && creates_with_private_api(*body) && no_message(*body) ==> (r matches Err(
            RequestError::BadRequest(e),
        ) && e@ == "A message is required when creating chats with the Private API!"@),
        body.addresses@.len() > 0 && creates_with_private_api(*body) && !no_message(*body) ==> (r matches Ok(
            ChatCreatePlan::PrivateApi(a),
        ) && exists|addrs: Seq<Seq<char>>|
            all_normalized(body.addresses@, addrs, region@) && #[trigger] action_is(
                a,
                "create-chat"@,
                Some(TransactionType::Message),
                JsonModel::Object(
                    create_chat_fields(
                        addrs,
                        body.message->0@,
                        chat_service(*body),
                        json_model(body.attributed_body),
                        str_model(body.effect_id),
                        str_model(body.subject),
                    ),
                ),
            )),
        body.addresses@.len() > 1 && !creates_with_private_api(*body) ==> (r matches Err(
            RequestError::IMessage(e),
        ) && e@ == "Cannot create group chats via AppleScript!"@),
        body.addresses@.len() == 1 && !creates_with_private_api(*body) && no_message(*body) ==> (r matches Err(
            RequestError::IMessage(e),
        ) && e@ == "A message is required when creating chats!"@),
        body.addresses@.len() == 1 && !creates_with_private_api(*body) && !no_message(*body) ==> (r matches Ok(
            ChatCreatePlan::AppleScript { addresses, service, message },
        ) && all_normalized(body.addresses@, addresses@.map_values(|a: String| a@), region@) && service@
            == chat_service(*body) && message@ == body.message->0@),
{
    if body.addresses.len() == 0 {
        return Err(RequestError::BadRequest("addresses is required".to_owned()));
    }
    let addresses = normalize_all(&body.addresses, region);
    let service: String = match &body.service {
        Some(s) => s.clone(),
        None => "iMessage".to_owned(),
    };
    let private = match &body.method {
        Some(m) => {
            proof {
                reveal_strlit("private-api");
            }
            chars_equal(&chars_of(m.as_str()), &chars_of("private-api"))
        },
        None => false,
    };
    let missing = match &body.message {
        Some(m) => m.as_str().is_empty(),
        None => true,
    };
    if private {
        if missing {
            return Err(
                RequestError::BadRequest(
                    "A message is required when creating chats with the Private API!".to_owned(),
                ),
            );
        }
        let message: &str = match &body.message {
            Some(m) => m.as_str(),
            None => "",
        };
        let action = create_chat(
            addresses.as_slice(),
            message,
            service.as_str(),
            opt_json_ref(&body.attributed_body),
            opt_ref(&body.effect_id),
            opt_ref(&body.subject),
        );
        proof {
            let addrs = addresses@.map_values(|a: String| a@);
            assert(all_normalized(body.addresses@, addrs, region@));
            assert(message@ == body.message->0@);
            assert(action_is(
                action,
                "create-chat"@,
                Some(TransactionType::Message),
                JsonModel::Object(
                    create_chat_fields(
                        addrs,
                        body.message->0@,
                        chat_service(*body),
                        json_model(body.attributed_body),
                        str_model(body.effect_id),
                        str_model(body.subject),
                    ),
                ),
            ));
        }
        return Ok(ChatCreatePlan::PrivateApi(action));
    }
    if addresses.len() > 1 {
        return Err(RequestError::IMessage("Cannot create group chats via AppleScript!".to_owned()));
    }
    if missing {
        return Err(RequestError::IMessage("A message is required when creating chats!".to_owned()));
    }
    let message = match &body.message {
        Some(m) => m.clone(),
        None => string_of(&Vec::new()),
    };
    Ok(ChatCreatePlan::AppleScript { addresses, service, message })
}

/// A created chat's data with the message sent in it: the message gets
/// `tempGuid` when one was given, and the chat a `messages` array holding
/// it.
pub open spec fn chat_with_message(chat: JsonModel, message: JsonModel, temp_guid: Option<Seq<char>>) -> JsonModel {
    match chat {
        JsonModel::Object(f) => JsonModel::Object(
            object_insert(f, "messages"@, JsonModel::Array(seq![with_temp_guid(message, temp_guid)])),
        ),
        _ => chat,
    }
}

pub fn add_sent_message(chat: &mut Json, message: Json, temp_guid: Option<&str>)
    ensures
        json_view(*final(chat)) == chat_with_message(
            json_view(*old(chat)),
            json_view(message),
            text_model(temp_guid),
        ),
{
    let mut m = message;
    inject_temp_guid(&mut m, temp_guid);
    match chat {
        Json::Object(f) => {
            let ghost mv = json_view(m);
            let v = vec![m];
            proof {
                lemma_json_views(v@);
                assert(json_views(v@) =~= seq![mv]);
            }
            let arr = Json::Array(v);
            object_set(f, "messages".to_owned(), arr);
        },
        _ => {},
    }
}

} // verus!

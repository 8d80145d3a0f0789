//! AppleScript templates for driving Messages.app, and the cleanup of
//! `osascript` error text.
use vstd::prelude::*;
use crate::macos::{at_least, MacOsVersion};
use crate::text::{
    chars_of, contains_char, find_from, has_prefix, occurs_at, push_all, push_str, rfind,
    slice_of, split_chars, split_on, starts_with_chars, string_of, trim, lemma_split_on_nonempty,
};
use crate::utils::{escape_osa_chars, is_not_empty, osa_escaped};
use crate::decimal::{dec_digits, u64_digits};

verus! {

// ---------------------------------------------------------------------------
// Specifications of the templates
// ---------------------------------------------------------------------------

pub open spec fn service_script(service: Seq<char>) -> Seq<char> {
    "set targetService to 1st account whose service type = "@ + service
}

pub open spec fn message_script(message: Seq<char>, target: Seq<char>) -> Seq<char> {
    if trim(message).len() > 0 {
        "send \""@ + osa_escaped(message) + "\" to "@ + target
    } else {
        Seq::empty()
    }
}

pub open spec fn attachment_script(attachment: Seq<char>, variable: Seq<char>, target: Seq<char>) -> Seq<
    char,
> {
    if trim(attachment).len() > 0 {
        "set "@ + variable + " to \""@ + osa_escaped(attachment)
            + "\" as POSIX file\n            send theAttachment to "@ + target
            + "\n            delay 1"@
    } else {
        Seq::empty()
    }
}

/// The last `;`-separated segment of a chat GUID.
pub open spec fn address_of(value: Seq<char>) -> Seq<char> {
    split_on(value, ';').last()
}

/// The first `;`-separated segment of a chat GUID, with `any` read as
/// `iMessage`; `iMessage` when there is no `;` at all.
pub open spec fn service_of(value: Seq<char>) -> Seq<char> {
    if !value.contains(';') {
        "iMessage"@
    } else if split_on(value, ';')[0] == "any"@ {
        "iMessage"@
    } else {
        split_on(value, ';')[0]
    }
}

pub open spec fn start_app_script(app_name: Seq<char>) -> Seq<char> {
    "set appName to \""@ + app_name
        + "\"\nif application appName is running then\nreturn 0\nelse\ntell application appName to reopen\nend if"@
}

pub open spec fn restart_script(delay: nat) -> Seq<char> {
    "tell application \"Messages\"\nquit\ndelay "@ + dec_digits(delay) + "\nreopen\nend tell"@
}

pub open spec fn chat_send_script(guid: Seq<char>, attachment_scpt: Seq<char>, message_scpt: Seq<char>) -> Seq<
    char,
> {
    "tell application \"Messages\"\nset targetChat to a reference to chat id \""@ + guid
        + "\"\n\n"@ + attachment_scpt + "\n"@ + message_scpt + "\nend tell"@
}

pub open spec fn buddy_send_script(
    service_scpt: Seq<char>,
    address: Seq<char>,
    attachment_scpt: Seq<char>,
    message_scpt: Seq<char>,
) -> Seq<char> {
    "tell application \"Messages\"\n"@ + service_scpt + "\nset targetBuddy to participant \""@
        + address + "\" of targetService\n\n"@ + attachment_scpt + "\n"@ + message_scpt
        + "\nend tell"@
}

/// `buddy "<b>" of targetService` for each participant, joined by `, `.
pub open spec fn buddies_list(ps: Seq<Seq<char>>) -> Seq<char>
    decreases ps.len(),
{
    if ps.len() == 0 {
        Seq::empty()
    } else if ps.len() == 1 {
        "buddy \""@ + ps[0] + "\" of targetService"@
    } else {
        buddies_list(ps.drop_last()) + ", "@ + "buddy \""@ + ps.last() + "\" of targetService"@
    }
}

pub open spec fn start_chat_script(service_scpt: Seq<char>, buddies: Seq<char>, message_scpt: Seq<char>) -> Seq<
    char,
> {
    "tell application \"Messages\"\n"@ + service_scpt
        + "\n\n(* Start the new chat with all the recipients *)\nset thisChat to make new chat with properties {participants: {"@
        + buddies + "}}\nlog thisChat\n"@ + message_scpt
        + "\nend tell\n\ntry\ntell application \"System Events\" to tell process \"Messages\" to set visible to false\nend try"@
}

/// A DM GUID `service;-;address` with its address replaced by `formatted`.
pub open spec fn with_formatted_address(guid: Seq<char>, i: int, formatted: Seq<char>) -> Seq<char> {
    guid.subrange(0, i) + ";-;"@ + formatted
}

/// On Tahoe, an `iMessage;` or `SMS;` prefix becomes `any;`.
pub open spec fn tahoe_guid(guid: Seq<char>, v: MacOsVersion) -> Seq<char> {
    if at_least(v, 26, 0) && has_prefix(guid, "iMessage;"@) {
        "any;"@ + guid.skip(9)
    } else if at_least(v, 26, 0) && has_prefix(guid, "SMS;"@) {
        "any;"@ + guid.skip(4)
    } else {
        guid
    }
}

/// On Tahoe a normalized chat GUID has neither an `iMessage;` nor an `SMS;`
/// prefix, and normalizing it again changes nothing; before Tahoe every GUID
/// is kept as it is, and so is an `any;` GUID on every version.
pub proof fn law_tahoe_guid(guid: Seq<char>, v: MacOsVersion)
    ensures
        !at_least(v, 26, 0) ==> tahoe_guid(guid, v) == guid,
        has_prefix(guid, "any;"@) ==> tahoe_guid(guid, v) == guid,
        at_least(v, 26, 0) ==> !has_prefix(tahoe_guid(guid, v), "iMessage;"@) && !has_prefix(
            tahoe_guid(guid, v),
            "SMS;"@,
        ),
        tahoe_guid(tahoe_guid(guid, v), v) == tahoe_guid(guid, v),
{
    reveal_strlit("iMessage;");
    reveal_strlit("SMS;");
    reveal_strlit("any;");
    let r = tahoe_guid(guid, v);
    if has_prefix(guid, "any;"@) {
        assert(guid.subrange(0, 4)[0] == guid[0]);
        assert(guid[0] == 'a');
        if has_prefix(guid, "iMessage;"@) {
            assert(guid.subrange(0, 9)[0] == guid[0]);
        }
        if has_prefix(guid, "SMS;"@) {
            assert(guid.subrange(0, 4)[0] == guid[0]);
        }
    }
    if at_least(v, 26, 0) {
        if has_prefix(r, "iMessage;"@) {
            assert(r.subrange(0, 9)[0] == r[0]);
            assert(r.subrange(0, 9)[0] == 'i');
        }
        if has_prefix(r, "SMS;"@) {
            assert(r.subrange(0, 4)[0] == r[0]);
            assert(r.subrange(0, 4)[1] == r[1]);
        }
        if has_prefix(guid, "iMessage;"@) || has_prefix(guid, "SMS;"@) {
            assert(r[0] == 'a');
            assert(r[1] == 'n');
        }
    }
}

// ---------------------------------------------------------------------------
// Builders
// ---------------------------------------------------------------------------

/// Build the `set targetService to ...` fragment.
fn service_script_chars(input_service: &Vec<char>) -> (r: Vec<char>)
    ensures
        r@ == service_script(input_service@),
{
    let mut r = chars_of("set targetService to 1st account whose service type = ");
    push_all(&mut r, input_service);
    r
}

/// Build `send "message" to <target>`.
fn message_script_chars(message: &str, target: &str) -> (r: Vec<char>)
    ensures
        r@ == message_script(message@, target@),
{
    if is_not_empty(message) {
        let mut r = chars_of("send \"");
        let m = chars_of(message);
        let e = escape_osa_chars(&m);
        push_all(&mut r, &e);
        push_str(&mut r, "\" to ");
        push_str(&mut r, target);
        r
    } else {
        Vec::new()
    }
}

/// Build the attachment-send fragment.
fn attachment_script_chars(attachment: &str, variable: &str, target: &str) -> (r: Vec<char>)
    ensures
        r@ == attachment_script(attachment@, variable@, target@),
{
    if is_not_empty(attachment) {
        let mut r = chars_of("set ");
        push_str(&mut r, variable);
        push_str(&mut r, " to \"");
        let a = chars_of(attachment);
        let e = escape_osa_chars(&a);
        push_all(&mut r, &e);
        push_str(&mut r, "\" as POSIX file\n            send theAttachment to ");
        push_str(&mut r, target);
        push_str(&mut r, "\n            delay 1");
        r
    } else {
        Vec::new()
    }
}

/// Build the `set targetService to ...` fragment.
pub fn build_service_script(input_service: &str) -> (r: String)
    ensures
        r@ == service_script(input_service@),
{
    let v = chars_of(input_service);
    string_of(&service_script_chars(&v))
}

/// Build `send "message" to <target>` (empty for a blank message).
pub fn build_message_script(message: &str, target: &str) -> (r: String)
    ensures
        r@ == message_script(message@, target@),
{
    string_of(&message_script_chars(message, target))
}

/// Build the attachment-send fragment (empty for a blank attachment path).
pub fn build_attachment_script(attachment: &str, variable: &str, target: &str) -> (r: String)
    ensures
        r@ == attachment_script(attachment@, variable@, target@),
{
    string_of(&attachment_script_chars(attachment, variable, target))
}

fn address_chars(value: &Vec<char>) -> (r: Vec<char>)
    ensures
        r@ == address_of(value@),
{
    let parts = split_chars(value, ';');
    proof {
        lemma_split_on_nonempty(value@, ';');
    }
    let n = parts.len();
    slice_of(&parts[n - 1], 0, parts[n - 1].len())
}

fn service_chars(value: &Vec<char>) -> (r: Vec<char>)
    ensures
        r@ == service_of(value@),
{
    if !contains_char(value, ';') {
        return chars_of("iMessage");
    }
    let parts = split_chars(value, ';');
    proof {
        lemma_split_on_nonempty(value@, ';');
    }
    let any = chars_of("any");
    if crate::text::chars_equal(&parts[0], &any) {
        chars_of("iMessage")
    } else {
        slice_of(&parts[0], 0, parts[0].len())
    }
}

/// Extract the address portion of a chat GUID (last segment after `;`).
pub fn get_address_from_input(value: &str) -> (r: String)
    ensures
        r@ == address_of(value@),
{
    let v = chars_of(value);
    let a = address_chars(&v);
    string_of(&a)
}

/// Extract the service portion of a chat GUID (first segment before `;`).
/// Maps `"any"` to `"iMessage"` for Tahoe compatibility.
pub fn get_service_from_input(value: &str) -> (r: String)
    ensures
        r@ == service_of(value@),
{
    let v = chars_of(value);
    let s = service_chars(&v);
    string_of(&s)
}

pub fn start_app(app_name: &str) -> (r: String)
    ensures
        r@ == start_app_script(app_name@),
{
    let mut r = chars_of("set appName to \"");
    push_str(&mut r, app_name);
    push_str(
        &mut r,
        "\"\nif application appName is running then\nreturn 0\nelse\ntell application appName to reopen\nend if",
    );
    string_of(&r)
}

/// Script that starts Messages unless it is already running.
pub fn start_messages() -> (r: String)
    ensures
        r@ == start_app_script("Messages"@),
{
    start_app("Messages")
}

/// Send a message and/or attachment to a chat by GUID.
///
/// The address of a DM GUID (`service;-;address`) goes through
/// `format_address`; on Tahoe an `iMessage;`/`SMS;` prefix becomes `any;`.
pub fn send_message<F: Fn(&str) -> String>(
    chat_guid: &str,
    message: &str,
    attachment: &str,
    v: MacOsVersion,
    format_address: &F,
) -> (r: Option<String>)
    requires
        forall|a: &str| format_address.requires((a,)),
    ensures
        r is None <==> (chat_guid@.len() == 0 || (message@.len() == 0 && attachment@.len() == 0)
            || !chat_guid@.contains(';')),
        r matches Some(script) ==> {
            let att = attachment_script(attachment@, "theAttachment"@, "targetChat"@);
            let msg = message_script(message@, "targetChat"@);
            ||| (!contains_seq_spec(chat_guid@, ";-;"@) && script@ == chat_send_script(
                tahoe_guid(chat_guid@, v),
                att,
                msg,
            ))
            ||| (exists|i: int, a: &str, f: String|
                {
                    &&& first_occurrence(chat_guid@, ";-;"@, i)
                    &&& a@ == chat_guid@.skip(i + 3)
                    &&& format_address.ensures((a,), f)
                    &&& script@ == chat_send_script(
                        tahoe_guid(with_formatted_address(chat_guid@, i, f@), v),
                        att,
                        msg,
                    )
                })
        },
{
    if chat_guid.is_empty() || (message.is_empty() && attachment.is_empty()) {
        return None;
    }
    let attachment_scpt = attachment_script_chars(attachment, "theAttachment", "targetChat");
    let message_scpt = message_script_chars(message, "targetChat");

    let g = chars_of(chat_guid);
    if !contains_char(&g, ';') {
        return None;
    }
    let sep = chars_of(";-;");
    match find_from(&g, &sep, 0) {
        Some(i) => {
            proof {
                reveal_strlit(";-;");
                assert(sep@.len() == 3);
                assert(occurs_at(g@, sep@, i as int));
            }
            let service = slice_of(&g, 0, i);
            let addr = slice_of(&g, i + 3, g.len());
            let addr_s = string_of(&addr);
            let a = addr_s.as_str();
            let formatted = format_address(a);
            let mut ng = service;
            push_str(&mut ng, ";-;");
            let fc = chars_of(formatted.as_str());
            push_all(&mut ng, &fc);
            assert(a@ =~= chat_guid@.skip(i + 3));
            assert(ng@ =~= with_formatted_address(chat_guid@, i as int, formatted@));
            let r = finish_chat_script(&ng, v, &attachment_scpt, &message_scpt);
            assert(first_occurrence(chat_guid@, ";-;"@, i as int));
            Some(string_of(&r))
        },
        None => {
            let r = finish_chat_script(&g, v, &attachment_scpt, &message_scpt);
            Some(string_of(&r))
        },
    }
}

fn finish_chat_script(
    guid0: &Vec<char>,
    v: MacOsVersion,
    attachment_scpt: &Vec<char>,
    message_scpt: &Vec<char>,
) -> (r: Vec<char>)
    ensures
        r@ == chat_send_script(tahoe_guid(guid0@, v), attachment_scpt@, message_scpt@),
{
    let mut guid = slice_of(guid0, 0, guid0.len());
    assert(guid@ =~= guid0@);
    if v.is_min_tahoe() {
        let im = chars_of("iMessage;");
        let sms = chars_of("SMS;");
        proof {
            reveal_strlit("iMessage;");
            reveal_strlit("SMS;");
        }
        if starts_with_chars(&guid, &im) {
            let mut ng = chars_of("any;");
            let rest = slice_of(&guid, 9, guid.len());
            push_all(&mut ng, &rest);
            guid = ng;
        } else if starts_with_chars(&guid, &sms) {
            let mut ng = chars_of("any;");
            let rest = slice_of(&guid, 4, guid.len());
            push_all(&mut ng, &rest);
            guid = ng;
        }
    }
    assert(guid@ =~= tahoe_guid(guid0@, v));
    let mut r = chars_of("tell application \"Messages\"\nset targetChat to a reference to chat id \"");
    push_all(&mut r, &guid);
    push_str(&mut r, "\"\n\n");
    push_all(&mut r, attachment_scpt);
    push_str(&mut r, "\n");
    push_all(&mut r, message_scpt);
    push_str(&mut r, "\nend tell");
    r
}

pub open spec fn contains_seq_spec(s: Seq<char>, p: Seq<char>) -> bool {
    exists|i: int| occurs_at(s, p, i)
}

/// `p` first occurs in `s` at `i`.
pub open spec fn first_occurrence(s: Seq<char>, p: Seq<char>, i: int) -> bool {
    occurs_at(s, p, i) && forall|j: int| 0 <= j < i ==> !occurs_at(s, p, j)
}

/// The message given when the fallback script is asked to text a group chat.
pub open spec fn group_fallback_error() -> Seq<char> {
    "Can't use the send message (fallback) script to text a group chat!"@
}

/// Fallback send for DMs only: uses participant + service approach.
pub fn send_message_fallback(chat_guid: &str, message: &str, attachment: &str) -> (r: Result<
    Option<String>,
    String,
>)
    ensures
        (chat_guid@.len() == 0 || (message@.len() == 0 && attachment@.len() == 0)) ==> r
            == Ok::<Option<String>, String>(None),
        !(chat_guid@.len() == 0 || (message@.len() == 0 && attachment@.len() == 0)) ==> {
            &&& (r is Err <==> has_prefix(address_of(chat_guid@), "chat"@))
            &&& (r matches Err(e) ==> e@ == group_fallback_error())
            &&& (r matches Ok(o) ==> o matches Some(script) && script@ == buddy_send_script(
                service_script(service_of(chat_guid@)),
                address_of(chat_guid@),
                attachment_script(attachment@, "theAttachment"@, "targetBuddy"@),
                message_script(message@, "targetBuddy"@),
            ))
        },
{
    if chat_guid.is_empty() || (message.is_empty() && attachment.is_empty()) {
        return Ok(None);
    }
    let attachment_scpt = attachment_script_chars(attachment, "theAttachment", "targetBuddy");
    let message_scpt = message_script_chars(message, "targetBuddy");
    let g = chars_of(chat_guid);
    let address = address_chars(&g);
    let service = service_chars(&g);
    let chat = chars_of("chat");
    if starts_with_chars(&address, &chat) {
        let e = chars_of("Can't use the send message (fallback) script to text a group chat!");
        return Err(string_of(&e));
    }
    let service_scpt = service_script_chars(&service);
    let mut r = chars_of("tell application \"Messages\"\n");
    push_all(&mut r, &service_scpt);
    push_str(&mut r, "\nset targetBuddy to participant \"");
    push_all(&mut r, &address);
    push_str(&mut r, "\" of targetService\n\n");
    push_all(&mut r, &attachment_scpt);
    push_str(&mut r, "\n");
    push_all(&mut r, &message_scpt);
    push_str(&mut r, "\nend tell");
    Ok(Some(string_of(&r)))
}

/// Restart Messages app with a configurable delay.
pub fn restart_messages(delay_seconds: u32) -> (r: String)
    ensures
        r@ == restart_script(delay_seconds as nat),
{
    let mut r = chars_of("tell application \"Messages\"\nquit\ndelay ");
    let d = u64_digits(delay_seconds as u64);
    push_all(&mut r, &d);
    push_str(&mut r, "\nreopen\nend tell");
    string_of(&r)
}

/// Create a new chat with given participants and optional initial message.
pub fn start_chat(participants: &[String], service: &str, message: Option<&str>) -> (r: String)
    ensures
        r@ == start_chat_script(
            service_script(service@),
            buddies_list(participants@.map_values(|p: String| p@)),
            match message {
                Some(m) => message_script(m@, "thisChat"@),
                None => Seq::empty(),
            },
        ),
{
    let sv = chars_of(service);
    let service_scpt = service_script_chars(&sv);
    let ghost ps = participants@.map_values(|p: String| p@);
    let mut buddies: Vec<char> = Vec::new();
    let mut i: usize = 0;
    while i < participants.len()
        invariant
            i <= participants.len(),
            ps == participants@.map_values(|p: String| p@),
            buddies@ == buddies_list(ps.subrange(0, i as int)),
        decreases participants.len() - i,
    {
        assert(ps.subrange(0, i + 1).drop_last() =~= ps.subrange(0, i as int));
        if i > 0 {
            push_str(&mut buddies, ", ");
        }
        push_str(&mut buddies, "buddy \"");
        push_str(&mut buddies, participants[i].as_str());
        push_str(&mut buddies, "\" of targetService");
        assert(ps.subrange(0, i + 1).last() == participants@[i as int]@);
        assert(buddies@ =~= buddies_list(ps.subrange(0, i + 1)));
        i = i + 1;
    }
    assert(ps.subrange(0, participants.len() as int) =~= ps);
    let message_scpt: Vec<char> = match message {
        Some(msg) => message_script_chars(msg, "thisChat"),
        None => Vec::new(),
    };
    let mut r = chars_of("tell application \"Messages\"\n");
    push_all(&mut r, &service_scpt);
    push_str(
        &mut r,
        "\n\n(* Start the new chat with all the recipients *)\nset thisChat to make new chat with properties {participants: {",
    );
    push_all(&mut r, &buddies);
    push_str(&mut r, "}}\nlog thisChat\n");
    push_all(&mut r, &message_scpt);
    push_str(
        &mut r,
        "\nend tell\n\ntry\ntell application \"System Events\" to tell process \"Messages\" to set visible to false\nend try",
    );
    string_of(&r)
}

// ---------------------------------------------------------------------------
// osascript error text
// ---------------------------------------------------------------------------

/// The message of an `osascript` failure: without an `execution error: `
/// prefix, and cut at the last `. (` that follows it.
pub open spec fn osa_error_text(stderr: Seq<char>) -> Seq<char> {
    if has_prefix(stderr, "execution error: "@) {
        let rest = stderr.skip(17);
        if contains_seq_spec(rest, ". ("@) {
            rest.take(last_occurrence(rest, ". ("@))
        } else {
            rest
        }
    } else {
        stderr
    }
}

/// Index of the last occurrence of `p` in `s` (meaningful when there is one).
pub open spec fn last_occurrence(s: Seq<char>, p: Seq<char>) -> int {
    choose|i: int| occurs_at(s, p, i) && forall|j: int| i < j ==> !occurs_at(s, p, j)
}

/// Extract a clean error message from osascript stderr.
pub fn extract_osa_error(stderr: &str) -> (r: String)
    ensures
        r@ == osa_error_text(stderr@),
{
    let s = chars_of(stderr);
    let pre = chars_of("execution error: ");
    if starts_with_chars(&s, &pre) {
        proof {
            reveal_strlit("execution error: ");
        }
        let rest = slice_of(&s, 17, s.len());
        let pat = chars_of(". (");
        match rfind(&rest, &pat) {
            Some(idx) => {
                let cut = slice_of(&rest, 0, idx);
                assert(contains_seq_spec(rest@, pat@));
                let ghost k = last_occurrence(rest@, pat@);
                proof {
                    if k != idx as int {
                        if k < idx as int {
                        } else {
                        }
                    }
                }
                assert(cut@ =~= rest@.take(idx as int));
                return string_of(&cut);
            },
            None => {
                return string_of(&rest);
            },
        }
    }
    string_of(&s)
}

} // verus!

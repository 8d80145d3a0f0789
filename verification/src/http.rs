//! Request-side logic of the HTTP API: request parameter types, query
//! parsing, path and filename safety, and small decisions of the routes.
use vstd::prelude::*;
use crate::decimal::{i64_text_value, parse_i64};
use crate::config::{home_dir_text, opt_text};
use crate::live_photo::{live_photo_candidate, probe_live_photo, probe_outcome};
use crate::macos::MacOsVersion;
use crate::responses::{error_is, AppError};
use crate::utils::{expand_tilde_in, tilde_expanded};
use crate::scripts::tahoe_guid;
use crate::text::{
    chars_equal, chars_of, contains_char, has_prefix, is_ascii_alnum, is_control,
    is_control_char, lowercase_of, occurs_at, push_all, push_str, slice_of, split_chars,
    split_on, starts_with_chars, string_of, to_lowercase_text, trim, trim_chars,
    lemma_split_on_nonempty, trim_end, trim_start,
};

verus! {

// ---------------------------------------------------------------------------
// Error types and request parameters
// ---------------------------------------------------------------------------

/// Error type names of the API's error envelope.
pub struct ErrorTypes;

impl ErrorTypes {
    pub const SERVER_ERROR: &'static str = "Server Error";
    pub const DATABASE_ERROR: &'static str = "Database Error";
    pub const IMESSAGE_ERROR: &'static str = "iMessage Error";
    pub const VALIDATION_ERROR: &'static str = "Validation Error";
    pub const AUTHENTICATION_ERROR: &'static str = "Authentication Error";
}

/// A JSON request body or response value.
pub struct AppJson<T>(pub T);

/// Credentials accepted in the query string.
#[derive(Debug, Default)]
pub struct AuthParams {
    pub password: Option<String>,
    pub guid: Option<String>,
    pub token: Option<String>,
}

/// Download query params
#[derive(Debug, Default)]
pub struct DownloadParams {
    pub height: Option<String>,
    pub width: Option<String>,
    pub original: Option<String>,
}

/// GET /api/v1/chat/count query params
#[derive(Debug, Default)]
pub struct ChatCountParams {
    pub include_archived: Option<String>,
}

/// POST /api/v1/chat/query body
#[derive(Debug, Default)]
pub struct ChatQueryBody {
    pub guid: Option<String>,
    pub with_query: Option<Vec<String>>,
    pub sort: Option<String>,
    pub offset: Option<i64>,
    pub limit: Option<i64>,
}

/// GET /api/v1/chat/:guid query params
#[derive(Debug, Default)]
pub struct ChatFindParams {
    pub with_query: Option<String>,
}

/// GET /api/v1/chat/:guid/message query params
#[derive(Debug, Default)]
pub struct ChatMessagesParams {
    pub with_query: Option<String>,
    pub sort: Option<String>,
    pub before: Option<String>,
    pub after: Option<String>,
    pub offset: Option<String>,
    pub limit: Option<String>,
}

/// PUT /api/v1/chat/:guid body
#[derive(Debug)]
pub struct UpdateChatBody {
    pub display_name: Option<String>,
}

/// POST /api/v1/chat/:guid/participant body
#[derive(Debug)]
pub struct ParticipantBody {
    pub address: String,
}

/// Handle count query params
#[derive(Debug, Default)]
pub struct HandleCountParams {
    pub address: Option<String>,
}

/// POST /api/v1/handle/query body
#[derive(Debug, Default)]
pub struct HandleQueryBody {
    pub address: Option<String>,
    pub with_query: Option<Vec<String>>,
    pub offset: Option<i64>,
    pub limit: Option<i64>,
}

/// GET /api/v1/handle/availability/imessage query params
#[derive(Debug)]
pub struct AvailabilityParams {
    pub address: String,
}

/// POST /api/v1/icloud/account/alias body
#[derive(Debug)]
pub struct ChangeAliasBody {
    pub alias: String,
}

/// GET /api/v1/icloud/contact query params
#[derive(Debug, Default)]
pub struct ContactCardParams {
    pub address: Option<String>,
}

/// Query params shared by count/count_updated/count_me
#[derive(Debug, Default)]
pub struct CountParams {
    pub after: Option<String>,
    pub before: Option<String>,
    pub chat_guid: Option<String>,
    pub min_row_id: Option<String>,
    pub max_row_id: Option<String>,
}

/// GET /api/v1/message/:guid query params
#[derive(Debug, Default)]
pub struct MessageFindParams {
    pub with_query: Option<String>,
}

/// POST /api/v1/message/react body
#[derive(Debug)]
pub struct SendReactionBody {
    pub chat_guid: String,
    pub selected_message_guid: String,
    pub reaction: String,
    pub part_index: Option<u32>,
    /// Data URL for sticker reactions (e.g. "data:image/png;base64,iVBOR...")
    pub sticker: Option<String>,
}

/// POST /api/v1/message/:guid/edit body
#[derive(Debug)]
pub struct EditMessageBody {
    pub edited_message: String,
    pub backwards_compatibility_message: String,
    pub part_index: Option<u32>,
}

/// POST /api/v1/message/:guid/unsend body
#[derive(Debug)]
pub struct UnsendMessageBody {
    pub part_index: Option<u32>,
}

/// GET /api/v1/server/statistics/totals query params
#[derive(Debug, Default)]
pub struct StatTotalsParams {
    pub only: Option<String>,
}

/// GET /api/v1/server/statistics/media query params
#[derive(Debug, Default)]
pub struct StatMediaParams {
    pub only: Option<String>,
}

/// GET /api/v1/server/statistics/media/chat query params
#[derive(Debug, Default)]
pub struct StatMediaByChatParams {
    pub chat_guid: Option<String>,
    pub only: Option<String>,
}

/// GET /api/v1/server/logs query params
#[derive(Debug, Default)]
pub struct LogsParams {
    pub count: Option<String>,
}

/// Webhook lookup query params
#[derive(Debug, Default)]
pub struct WebhookQueryParams {
    pub url: Option<String>,
}

// ---------------------------------------------------------------------------
// Query parsing
// ---------------------------------------------------------------------------

/// The entries of a comma-separated `with` list: each piece trimmed and
/// lowercased, empty ones dropped.
pub open spec fn with_items(pieces: Seq<Seq<char>>) -> Seq<Seq<char>>
    decreases pieces.len(),
{
    if pieces.len() == 0 {
        Seq::empty()
    } else {
        let r = with_items(pieces.drop_last());
        let l = lowercase_of(trim(pieces.last()));
        if l.len() > 0 {
            r.push(l)
        } else {
            r
        }
    }
}

/// Parse the `with` query parameter (comma-separated string).
/// All values are lowercased for case-insensitive matching.
pub fn parse_with_query(query: Option<&str>) -> (r: Vec<String>)
    ensures
        r@.map_values(|s: String| s@) == (match query {
            None => Seq::empty(),
            Some(s) => with_items(split_on(s@, ',')),
        }),
{
    match query {
        None => {
            let r: Vec<String> = Vec::new();
            assert(r@.map_values(|s: String| s@) =~= Seq::<Seq<char>>::empty());
            r
        },
        Some(s) => {
            let c = chars_of(s);
            let pieces = split_chars(&c, ',');
            let ghost ps = split_on(s@, ',');
            let mut r: Vec<String> = Vec::new();
            let mut i: usize = 0;
            while i < pieces.len()
                invariant
                    i <= pieces.len(),
                    pieces@.len() == ps.len(),
                    forall|k: int| 0 <= k < pieces@.len() ==> #[trigger] pieces@[k]@ == ps[k],
                    r@.map_values(|s: String| s@) == with_items(ps.take(i as int)),
                decreases pieces.len() - i,
            {
                assert(ps.take(i + 1).drop_last() =~= ps.take(i as int));
                assert(ps.take(i + 1).last() == pieces@[i as int]@);
                let t = trim_chars(&pieces[i]);
                let ts = string_of(&t);
                let l = to_lowercase_text(ts.as_str());
                let lc = chars_of(l.as_str());
                if lc.len() > 0 {
                    let ghost before = r@;
                    r.push(l);
                    assert(r@.map_values(|s: String| s@) =~= before.map_values(|s: String| s@).push(l@));
                }
                i = i + 1;
            }
            assert(ps.take(ps.len() as int) =~= ps);
            r
        },
    }
}

/// Check if a `with` query list contains any of the given values.
pub fn with_has(query: &[String], values: &[&str]) -> (r: bool)
    ensures
        r == exists|i: int, j: int|
            0 <= i < query@.len() && 0 <= j < values@.len() && #[trigger] query@[i]@
                == #[trigger] values@[j]@,
{
    let mut j: usize = 0;
    while j < values.len()
        invariant
            j <= values.len(),
            forall|a: int, b: int|
                0 <= a < query@.len() && 0 <= b < j ==> #[trigger] query@[a]@ != #[trigger] values@[b]@,
        decreases values.len() - j,
    {
        let v = chars_of(values[j]);
        let mut i: usize = 0;
        while i < query.len()
            invariant
                i <= query.len(),
                j < values.len(),
                v@ == values@[j as int]@,
                forall|a: int, b: int|
                    0 <= a < query@.len() && 0 <= b < j ==> #[trigger] query@[a]@ != #[trigger] values@[b]@,
                forall|a: int| 0 <= a < i ==> #[trigger] query@[a]@ != values@[j as int]@,
            decreases query.len() - i,
        {
            let q = chars_of(query[i].as_str());
            if chars_equal(&q, &v) {
                assert(query@[i as int]@ == values@[j as int]@);
                return true;
            }
            i = i + 1;
        }
        j = j + 1;
    }
    false
}

/// Parse an optional numeric query parameter.
pub fn parse_opt_i64(value: Option<&str>) -> (r: Option<i64>)
    ensures
        r matches Some(v) ==> value matches Some(s) && i64_text_value(s@) == Some(v as int),
        r is None ==> (value is None || (value matches Some(s) && i64_text_value(s@) is None)),
{
    match value {
        None => None,
        Some(s) => {
            let c = chars_of(s);
            parse_i64(&c)
        },
    }
}

/// Normalize a user-supplied chat GUID to what chat.db holds on the given
/// macOS version: on Tahoe (macOS 26+) the `iMessage;`/`SMS;` prefix is `any;`.
pub fn normalize_chat_guid(guid: &str, v: MacOsVersion) -> (r: String)
    ensures
        r@ == tahoe_guid(guid@, v),
{
    let g = chars_of(guid);
    if v.is_min_tahoe() {
        let im = chars_of("iMessage;");
        let sms = chars_of("SMS;");
        proof {
            reveal_strlit("iMessage;");
            reveal_strlit("SMS;");
        }
        if starts_with_chars(&g, &im) {
            let mut r = chars_of("any;");
            let rest = slice_of(&g, 9, g.len());
            push_all(&mut r, &rest);
            assert(r@ =~= tahoe_guid(guid@, v));
            return string_of(&r);
        }
        if starts_with_chars(&g, &sms) {
            let mut r = chars_of("any;");
            let rest = slice_of(&g, 4, g.len());
            push_all(&mut r, &rest);
            assert(r@ =~= tahoe_guid(guid@, v));
            return string_of(&r);
        }
    }
    string_of(&g)
}

/// `true`, `1` or `yes`, in any letter case.
pub open spec fn truthy(s: Seq<char>) -> bool {
    let l = lowercase_of(s);
    l == "true"@ || l == "1"@ || l == "yes"@
}

pub fn is_truthy_bool(s: &str) -> (r: bool)
    ensures
        r == truthy(s@),
{
    let l = to_lowercase_text(s);
    let c = chars_of(l.as_str());
    let t = chars_of("true");
    let one = chars_of("1");
    let yes = chars_of("yes");
    chars_equal(&c, &t) || chars_equal(&c, &one) || chars_equal(&c, &yes)
}

/// The message for an unrecognized send method.
pub open spec fn invalid_method_message(other: Seq<char>) -> Seq<char> {
    "Invalid method '"@ + other + "'. Must be 'apple-script' or 'private-api'."@
}

/// Resolve which send method to use: an explicit `apple-script` or
/// `private-api` is kept, another value is refused, and without one the
/// Private API is used when it is enabled.
pub fn resolve_send_method(explicit: Option<&str>, private_api_enabled: bool) -> (r: Result<
    &'static str,
    String,
>)
    ensures
        match explicit {
            Some(m) => if m@ == "private-api"@ {
                r matches Ok(x) && x@ == "private-api"@
            } else if m@ == "apple-script"@ {
                r matches Ok(x) && x@ == "apple-script"@
            } else {
                r matches Err(e) && e@ == invalid_method_message(m@)
            },
            None => r matches Ok(x) && x@ == (if private_api_enabled {
                "private-api"@
            } else {
                "apple-script"@
            }),
        },
{
    match explicit {
        Some(m) => {
            let c = chars_of(m);
            let pa = chars_of("private-api");
            let asc = chars_of("apple-script");
            if chars_equal(&c, &pa) {
                Ok("private-api")
            } else if chars_equal(&c, &asc) {
                Ok("apple-script")
            } else {
                let mut e = chars_of("Invalid method '");
                push_all(&mut e, &c);
                push_str(&mut e, "'. Must be 'apple-script' or 'private-api'.");
                Err(string_of(&e))
            }
        },
        None => {
            if private_api_enabled {
                Ok("private-api")
            } else {
                Ok("apple-script")
            }
        },
    }
}

/// Validate that a FaceTime link is non-empty and starts with
/// `https://facetime.apple.com/`.
pub fn validate_facetime_link(url: &str) -> (r: Result<(), String>)
    ensures
        url@.len() == 0 ==> (r matches Err(e) && e@ == "Generated FaceTime link is empty!"@),
        url@.len() > 0 && !has_prefix(url@, "https://facetime.apple.com/"@) ==> (r matches Err(e)
            && e@ == "Generated link doesn't look like a FaceTime URL: "@ + url@),
        url@.len() > 0 && has_prefix(url@, "https://facetime.apple.com/"@) ==> r is Ok,
{
    let u = chars_of(url);
    if u.len() == 0 {
        let e = chars_of("Generated FaceTime link is empty!");
        return Err(string_of(&e));
    }
    let p = chars_of("https://facetime.apple.com/");
    if !starts_with_chars(&u, &p) {
        let mut e = chars_of("Generated link doesn't look like a FaceTime URL: ");
        push_all(&mut e, &u);
        return Err(string_of(&e));
    }
    Ok(())
}

// ---------------------------------------------------------------------------
// Paths (Unix semantics: `/` separates components)
// ---------------------------------------------------------------------------

/// The last `/`-separated segment that is neither empty nor `.`.
pub open spec fn last_named(segs: Seq<Seq<char>>) -> Option<Seq<char>>
    decreases segs.len(),
{
    if segs.len() == 0 {
        None
    } else if segs.last().len() > 0 && segs.last() != "."@ {
        Some(segs.last())
    } else {
        last_named(segs.drop_last())
    }
}

/// `Path::file_name`: the final component when it is a normal one.
pub open spec fn file_name(p: Seq<char>) -> Option<Seq<char>> {
    match last_named(split_on(p, '/')) {
        Some(s) => if s == ".."@ {
            None
        } else {
            Some(s)
        },
        None => None,
    }
}

fn file_name_chars(p: &Vec<char>) -> (r: Option<Vec<char>>)
    ensures
        r is None <==> file_name(p@) is None,
        r matches Some(n) ==> file_name(p@) == Some(n@),
{
    let segs = split_chars(p, '/');
    let ghost ss = split_on(p@, '/');
    let dot = chars_of(".");
    let dotdot = chars_of("..");
    let mut i = segs.len();
    assert(ss.take(ss.len() as int) =~= ss);
    while i > 0
        invariant
            i <= segs.len(),
            ss == split_on(p@, '/'),
            segs@.len() == ss.len(),
            forall|k: int| 0 <= k < segs@.len() ==> #[trigger] segs@[k]@ == ss[k],
            dot@ == "."@,
            dotdot@ == ".."@,
            last_named(ss) == last_named(ss.take(i as int)),
        decreases i,
    {
        assert(ss.take(i as int).last() == segs@[i - 1]@);
        assert(ss.take(i as int).drop_last() =~= ss.take(i - 1));
        if segs[i - 1].len() > 0 && !chars_equal(&segs[i - 1], &dot) {
            assert(last_named(ss.take(i as int)) == Some(segs@[i - 1]@));
            if chars_equal(&segs[i - 1], &dotdot) {
                assert(file_name(p@) is None);
                return None;
            }
            let r = slice_of(&segs[i - 1], 0, segs[i - 1].len());
            assert(r@ =~= segs@[i - 1]@);
            return Some(r);
        }
        i = i - 1;
    }
    None
}

/// Each backslash of `s` turned into a forward slash.
pub open spec fn slashes(s: Seq<char>) -> Seq<char> {
    s.map_values(|c: char| if c == '\\' { '/' } else { c })
}

/// `s` without its control characters.
pub open spec fn without_controls(s: Seq<char>) -> Seq<char>
    decreases s.len(),
{
    if s.len() == 0 {
        s
    } else if is_control(s.last()) {
        without_controls(s.drop_last())
    } else {
        without_controls(s.drop_last()).push(s.last())
    }
}

/// The base name `sanitize_filename` keeps, before the fallback applies.
pub open spec fn filename_candidate(raw: Seq<char>) -> Seq<char> {
    let name = match file_name(slashes(trim(raw))) {
        Some(n) => n,
        None => Seq::empty(),
    };
    without_controls(trim(name))
}

pub open spec fn sanitized_filename(raw: Seq<char>, fallback: Seq<char>) -> Seq<char> {
    let c = filename_candidate(raw);
    if c.len() == 0 || c == "."@ || c == ".."@ {
        fallback
    } else {
        c
    }
}

fn drop_controls(s: &Vec<char>) -> (r: Vec<char>)
    ensures
        r@ == without_controls(s@),
{
    let mut r: Vec<char> = Vec::new();
    let mut i: usize = 0;
    while i < s.len()
        invariant
            i <= s.len(),
            r@ == without_controls(s@.take(i as int)),
        decreases s.len() - i,
    {
        assert(s@.take(i + 1).drop_last() =~= s@.take(i as int));
        if !is_control_char(s[i]) {
            r.push(s[i]);
        }
        i = i + 1;
    }
    assert(s@.take(s@.len() as int) =~= s@);
    r
}

fn to_slashes(s: &Vec<char>) -> (r: Vec<char>)
    ensures
        r@ == slashes(s@),
{
    let mut r: Vec<char> = Vec::new();
    let mut i: usize = 0;
    while i < s.len()
        invariant
            i <= s.len(),
            r@ == slashes(s@.take(i as int)),
        decreases s.len() - i,
    {
        if s[i] == '\\' {
            r.push('/');
        } else {
            r.push(s[i]);
        }
        assert(r@ =~= slashes(s@.take(i + 1)));
        i = i + 1;
    }
    assert(s@.take(s@.len() as int) =~= s@);
    r
}

fn sanitize_filename_chars(raw: &str, fallback: &str) -> (r: Vec<char>)
    ensures
        r@ == sanitized_filename(raw@, fallback@),
{
    let rc = chars_of(raw);
    let t = trim_chars(&rc);
    let normalized = to_slashes(&t);
    let name: Vec<char> = match file_name_chars(&normalized) {
        Some(n) => n,
        None => Vec::new(),
    };
    let nt = trim_chars(&name);
    let cleaned = drop_controls(&nt);
    let dot = chars_of(".");
    let dotdot = chars_of("..");
    if cleaned.len() == 0 || chars_equal(&cleaned, &dot) || chars_equal(&cleaned, &dotdot) {
        chars_of(fallback)
    } else {
        cleaned
    }
}

/// Keep only a safe basename for filesystem writes.
pub fn sanitize_filename(raw: &str, fallback: &str) -> (r: String)
    ensures
        r@ == sanitized_filename(raw@, fallback@),
{
    let c = sanitize_filename_chars(raw, fallback);
    string_of(&c)
}

/// A character allowed in a Content-Disposition token filename.
pub open spec fn header_safe(c: char) -> bool {
    is_ascii_alnum(c) || c == '.' || c == '_' || c == '-'
}

pub open spec fn header_mapped(s: Seq<char>) -> Seq<char> {
    s.map_values(|c: char| if header_safe(c) { c } else { '_' })
}

pub open spec fn sanitized_header_filename(raw: Seq<char>, fallback: Seq<char>) -> Seq<char> {
    let m = header_mapped(sanitized_filename(raw, fallback));
    if m.len() == 0 || (forall|i: int| 0 <= i < m.len() ==> m[i] == '_') {
        fallback
    } else {
        m
    }
}

proof fn lemma_trim_keeps(s: Seq<char>, p: spec_fn(char) -> bool)
    requires
        forall|i: int| 0 <= i < s.len() ==> p(#[trigger] s[i]),
    ensures
        forall|i: int| 0 <= i < trim(s).len() ==> p(#[trigger] trim(s)[i]),
{
    lemma_trim_start_keeps(s, p);
    lemma_trim_end_keeps(trim_start(s), p);
}

proof fn lemma_trim_start_keeps(s: Seq<char>, p: spec_fn(char) -> bool)
    requires
        forall|i: int| 0 <= i < s.len() ==> p(#[trigger] s[i]),
    ensures
        forall|i: int| 0 <= i < trim_start(s).len() ==> p(#[trigger] trim_start(s)[i]),
    decreases s.len(),
{
    if s.len() > 0 && crate::text::is_ws(s[0]) {
        let t = s.drop_first();
        assert forall|i: int| 0 <= i < t.len() implies p(#[trigger] t[i]) by {
            assert(t[i] == s[i + 1]);
        }
        lemma_trim_start_keeps(t, p);
        assert(trim_start(s) == trim_start(t));
    } else {
        assert(trim_start(s) == s);
    }
}

proof fn lemma_trim_end_keeps(s: Seq<char>, p: spec_fn(char) -> bool)
    requires
        forall|i: int| 0 <= i < s.len() ==> p(#[trigger] s[i]),
    ensures
        forall|i: int| 0 <= i < trim_end(s).len() ==> p(#[trigger] trim_end(s)[i]),
    decreases s.len(),
{
    if s.len() > 0 && crate::text::is_ws(s.last()) {
        let t = s.drop_last();
        assert forall|i: int| 0 <= i < t.len() implies p(#[trigger] t[i]) by {
            assert(t[i] == s[i]);
        }
        lemma_trim_end_keeps(t, p);
        assert(trim_end(s) == trim_end(t));
    } else {
        assert(trim_end(s) == s);
    }
}

proof fn lemma_without_controls_keeps(s: Seq<char>, p: spec_fn(char) -> bool)
    requires
        forall|i: int| 0 <= i < s.len() ==> p(#[trigger] s[i]),
    ensures
        forall|i: int|
            0 <= i < without_controls(s).len() ==> p(#[trigger] without_controls(s)[i])
                && !is_control(without_controls(s)[i]),
    decreases s.len(),
{
    if s.len() > 0 {
        let t = s.drop_last();
        assert forall|i: int| 0 <= i < t.len() implies p(#[trigger] t[i]) by {
            assert(t[i] == s[i]);
        }
        lemma_without_controls_keeps(t, p);
        let w = without_controls(t);
        if !is_control(s.last()) {
            assert forall|i: int| 0 <= i < w.push(s.last()).len() implies p(
                #[trigger] w.push(s.last())[i],
            ) && !is_control(w.push(s.last())[i]) by {
                if i < w.len() {
                    assert(w.push(s.last())[i] == w[i]);
                }
            }
        }
    }
}

proof fn lemma_split_keeps(s: Seq<char>, c: char, p: spec_fn(char) -> bool)
    requires
        forall|i: int| 0 <= i < s.len() ==> p(#[trigger] s[i]),
    ensures
        forall|k: int, i: int|
            0 <= k < split_on(s, c).len() && 0 <= i < split_on(s, c)[k].len() ==> p(
                #[trigger] split_on(s, c)[k][i],
            ) && split_on(s, c)[k][i] != c,
    decreases s.len(),
{
    lemma_split_on_nonempty(s, c);
    if s.len() > 0 {
        let t = s.drop_last();
        assert forall|i: int| 0 <= i < t.len() implies p(#[trigger] t[i]) by {
            assert(t[i] == s[i]);
        }
        lemma_split_keeps(t, c, p);
        lemma_split_on_nonempty(t, c);
        let q = split_on(t, c);
        if s.last() != c {
            let last = q.last().push(s.last());
            assert forall|k: int, i: int|
                0 <= k < split_on(s, c).len() && 0 <= i < split_on(s, c)[k].len() implies p(
                #[trigger] split_on(s, c)[k][i],
            ) && split_on(s, c)[k][i] != c by {
                if k == q.len() - 1 {
                    if i < q.last().len() {
                        assert(split_on(s, c)[k][i] == q[k][i]);
                    }
                } else {
                    assert(split_on(s, c)[k] == q[k]);
                }
            }
        } else {
            assert forall|k: int, i: int|
                0 <= k < split_on(s, c).len() && 0 <= i < split_on(s, c)[k].len() implies p(
                #[trigger] split_on(s, c)[k][i],
            ) && split_on(s, c)[k][i] != c by {
                if k < q.len() {
                    assert(split_on(s, c)[k] == q[k]);
                }
            }
        }
    }
}

proof fn lemma_last_named_in(segs: Seq<Seq<char>>)
    ensures
        last_named(segs) matches Some(x) ==> exists|k: int| 0 <= k < segs.len() && segs[k] == x,
    decreases segs.len(),
{
    if segs.len() > 0 {
        lemma_last_named_in(segs.drop_last());
        if let Some(x) = last_named(segs.drop_last()) {
            if !(segs.last().len() > 0 && segs.last() != "."@) {
                let k = choose|k: int| 0 <= k < segs.drop_last().len() && segs.drop_last()[k] == x;
                assert(segs[k] == x);
            }
        }
        if segs.last().len() > 0 && segs.last() != "."@ {
            assert(segs[segs.len() - 1] == segs.last());
        }
    }
}

/// A filename that `sanitize_filename` keeps is a single safe component:
/// not empty, not `.` or `..`, without slashes, backslashes or control
/// characters; anything else gives the fallback.
pub proof fn law_sanitized_filename_safe(raw: Seq<char>, fallback: Seq<char>)
    ensures
        ({
            let r = sanitized_filename(raw, fallback);
            r == fallback || (r.len() > 0 && r != "."@ && r != ".."@ && !r.contains('/')
                && !r.contains('\\') && forall|i: int| 0 <= i < r.len() ==> !is_control(
                #[trigger] r[i],
            ))
        }),
{
    let p = |c: char| c != '\\' && c != '/';
    let sl = slashes(trim(raw));
    let q = |c: char| c != '\\';
    assert forall|i: int| 0 <= i < sl.len() implies q(#[trigger] sl[i]) by {}
    lemma_split_keeps(sl, '/', q);
    lemma_last_named_in(split_on(sl, '/'));
    match file_name(sl) {
        Some(n) => {
            let k = choose|k: int| 0 <= k < split_on(sl, '/').len() && split_on(sl, '/')[k] == n;
            assert forall|i: int| 0 <= i < n.len() implies p(#[trigger] n[i]) by {
                assert(n[i] == split_on(sl, '/')[k][i]);
            }
            lemma_trim_keeps(n, p);
            lemma_without_controls_keeps(trim(n), p);
        },
        None => {
            assert(without_controls(trim(Seq::<char>::empty())).len() == 0);
        },
    }
    let c = filename_candidate(raw);
    assert(forall|i: int| 0 <= i < c.len() ==> p(#[trigger] c[i]) && !is_control(c[i]));
}

/// A header filename is the fallback, or a non-empty text of ASCII letters,
/// digits, `.`, `_` and `-` that is not all underscores.
pub proof fn law_header_filename_safe(raw: Seq<char>, fallback: Seq<char>)
    ensures
        ({
            let r = sanitized_header_filename(raw, fallback);
            r == fallback || (r.len() > 0 && (forall|i: int|
                0 <= i < r.len() ==> header_safe(#[trigger] r[i])) && exists|i: int|
                0 <= i < r.len() && #[trigger] r[i] != '_')
        }),
{
}

/// Build a Content-Disposition-safe filename (ASCII token chars only).
pub fn sanitize_header_filename(raw: &str, fallback: &str) -> (r: String)
    ensures
        r@ == sanitized_header_filename(raw@, fallback@),
{
    let base = sanitize_filename_chars(raw, fallback);
    let mut m: Vec<char> = Vec::new();
    let mut all_under = true;
    let mut i: usize = 0;
    while i < base.len()
        invariant
            i <= base.len(),
            m@ == header_mapped(base@.take(i as int)),
            all_under == (forall|k: int| 0 <= k < i ==> m@[k] == '_'),
        decreases base.len() - i,
    {
        let c = base[i];
        let ok = ('0' <= c && c <= '9') || ('a' <= c && c <= 'z') || ('A' <= c && c <= 'Z')
            || c == '.' || c == '_' || c == '-';
        let d = if ok { c } else { '_' };
        let ghost m0 = m@;
        m.push(d);
        assert(m@ == m0.push(d));
        if d != '_' {
            all_under = false;
            assert(m@[i as int] != '_');
        } else {
            proof {
                if !all_under {
                    let k = choose|k: int| 0 <= k < i && m0[k] != '_';
                    assert(m@[k] != '_');
                }
            }
        }
        assert(m@ =~= header_mapped(base@.take(i + 1)));
        i = i + 1;
    }
    assert(base@.take(base@.len() as int) =~= base@);
    if m.len() == 0 || all_under {
        string_of(&chars_of(fallback))
    } else {
        string_of(&m)
    }
}

/// The verdict of `sanitize_path_component` on a value: the value itself, or
/// the message of the first rule it breaks.
pub open spec fn path_component_check(raw: Seq<char>, field: Seq<char>) -> Result<Seq<char>, Seq<char>> {
    let v = trim(raw);
    if v.len() == 0 {
        Err(field + " is required"@)
    } else if exists|i: int| 0 <= i < v.len() && is_control(#[trigger] v[i]) {
        Err(field + " contains invalid control characters"@)
    } else if v.contains('/') || v.contains('\\') {
        Err(field + " must not contain path separators"@)
    } else if v == ".."@ {
        Err(field + " must not contain path traversal segments"@)
    } else if v == "."@ {
        Err(field + " must be a single path component"@)
    } else {
        Ok(v)
    }
}

/// The 400 `Validation Error` that a rule about a request field breaks.
pub open spec fn field_rejected(e: AppError, detail: Seq<char>) -> bool {
    error_is(
        e,
        400,
        "You've made a bad request! Please check your request params & body"@,
        "Validation Error"@,
        detail,
    )
}

fn field_error(field: &str, msg: &str) -> (r: AppError)
    ensures
        field_rejected(r, field@ + msg@),
{
    let mut e = chars_of(field);
    push_str(&mut e, msg);
    AppError::bad_request(string_of(&e).as_str())
}

/// `sanitize_path_component` accepts a value exactly when its trimmed text
/// is not empty, holds no control character, slash or backslash, and is
/// neither `.` nor `..`; it then gives that trimmed text, and otherwise a
/// message that begins with the field's name.
pub proof fn law_path_component(raw: Seq<char>, field: Seq<char>)
    ensures
        ({
            let t = trim(raw);
            &&& path_component_check(raw, field) is Ok <==> (t.len() > 0 && (forall|i: int|
                0 <= i < t.len() ==> !is_control(#[trigger] t[i])) && !t.contains('/')
                && !t.contains('\\') && t != "."@ && t != ".."@)
            &&& path_component_check(raw, field) matches Ok(v) ==> v == t
            &&& path_component_check(raw, field) matches Err(m) ==> (field.len() <= m.len()
                && m.take(field.len() as int) == field)
        }),
{
    let t = trim(raw);
    match path_component_check(raw, field) {
        Err(m) => {
            assert(m.take(field.len() as int) =~= field);
        },
        Ok(_) => {},
    }
}

/// Validate that a user-supplied value is a single safe path component.
pub fn sanitize_path_component(raw: &str, field_name: &str) -> (r: Result<String, AppError>)
    ensures
        match path_component_check(raw@, field_name@) {
            Ok(v) => r matches Ok(s) && s@ == v,
            Err(m) => r matches Err(e) && field_rejected(e, m),
        },
{
    let rc = chars_of(raw);
    let v = trim_chars(&rc);
    if v.len() == 0 {
        return Err(field_error(field_name, " is required"));
    }
    let mut i: usize = 0;
    while i < v.len()
        invariant
            i <= v.len(),
            v@ == trim(raw@),
            forall|k: int| 0 <= k < i ==> !is_control(#[trigger] v@[k]),
        decreases v.len() - i,
    {
        if is_control_char(v[i]) {
            assert(is_control(trim(raw@)[i as int]));
            return Err(field_error(field_name, " contains invalid control characters"));
        }
        i = i + 1;
    }
    if contains_char(&v, '/') || contains_char(&v, '\\') {
        return Err(field_error(field_name, " must not contain path separators"));
    }
    let dot = chars_of(".");
    let dotdot = chars_of("..");
    if chars_equal(&v, &dotdot) {
        return Err(field_error(field_name, " must not contain path traversal segments"));
    }
    if chars_equal(&v, &dot) {
        return Err(field_error(field_name, " must be a single path component"));
    }
    Ok(string_of(&v))
}

/// `PathBuf::push` of a relative segment: joined with `/` unless the path is
/// empty or already ends with one.
pub open spec fn path_push(base: Seq<char>, seg: Seq<char>) -> Seq<char> {
    if base.len() == 0 {
        seg
    } else if base.last() == '/' {
        base + seg
    } else {
        base + seq!['/'] + seg
    }
}

/// `base` with every normal segment of `segs` pushed (empty and `.` skipped).
pub open spec fn push_segments(base: Seq<char>, segs: Seq<Seq<char>>) -> Seq<char>
    decreases segs.len(),
{
    if segs.len() == 0 {
        base
    } else {
        let acc = push_segments(base, segs.drop_last());
        let s = segs.last();
        if s.len() == 0 || s == "."@ {
            acc
        } else {
            path_push(acc, s)
        }
    }
}

/// Some segment of `segs` is neither empty nor `.`.
pub open spec fn has_named(segs: Seq<Seq<char>>) -> bool {
    exists|i: int| 0 <= i < segs.len() && (#[trigger] segs[i]).len() > 0 && segs[i] != "."@
}

/// The verdict of `resolve_relative_path_in_base`.
pub open spec fn relative_resolution(base: Seq<char>, relative: Seq<char>, field: Seq<char>) -> Result<
    Seq<char>,
    Seq<char>,
> {
    let rel = trim(relative);
    let segs = split_on(rel, '/');
    if rel.len() == 0 {
        Err(field + " is required"@)
    } else if rel[0] == '/' {
        Err(field + " must be a relative path"@)
    } else if segs.contains(".."@) {
        Err(field + " must not contain path traversal segments"@)
    } else if !has_named(segs) {
        Err(field + " must contain at least one path segment"@)
    } else {
        Ok(push_segments(base, segs))
    }
}

proof fn lemma_push_segments_prefix(base: Seq<char>, segs: Seq<Seq<char>>)
    ensures
        base.len() <= push_segments(base, segs).len(),
        push_segments(base, segs).take(base.len() as int) == base,
    decreases segs.len(),
{
    if segs.len() > 0 {
        lemma_push_segments_prefix(base, segs.drop_last());
        let acc = push_segments(base, segs.drop_last());
        let s = segs.last();
        if !(s.len() == 0 || s == "."@) {
            let r = path_push(acc, s);
            assert(r.take(acc.len() as int) =~= acc || acc.len() == 0);
            assert(r.take(base.len() as int) =~= acc.take(base.len() as int));
        }
    }
}

/// `resolve_relative_path_in_base` accepts a relative path exactly when its
/// trimmed text is not empty, does not start with `/`, has no `..` segment
/// and has a segment other than an empty one or `.`; the path it gives then
/// lies under the base (starts with it).
pub proof fn law_relative_path(base: Seq<char>, relative: Seq<char>, field: Seq<char>)
    ensures
        ({
            let t = trim(relative);
            let segs = split_on(t, '/');
            &&& relative_resolution(base, relative, field) is Ok <==> (t.len() > 0 && t[0] != '/'
                && !segs.contains(".."@) && has_named(segs))
            &&& relative_resolution(base, relative, field) matches Ok(p) ==> (p == push_segments(
                base,
                segs,
            ) && base.len() <= p.len() && p.take(base.len() as int) == base)
        }),
{
    lemma_push_segments_prefix(base, split_on(trim(relative), '/'));
}

/// Resolve a relative path under a base directory while rejecting traversal.
pub fn resolve_relative_path_in_base(base: &str, relative: &str, field_name: &str) -> (r: Result<
    String,
    AppError,
>)
    ensures
        match relative_resolution(base@, relative@, field_name@) {
            Ok(p) => r matches Ok(s) && s@ == p,
            Err(m) => r matches Err(e) && field_rejected(e, m),
        },
{
    let rc = chars_of(relative);
    let rel = trim_chars(&rc);
    if rel.len() == 0 {
        return Err(field_error(field_name, " is required"));
    }
    if rel[0] == '/' {
        return Err(field_error(field_name, " must be a relative path"));
    }
    let segs = split_chars(&rel, '/');
    let ghost ss = split_on(rel@, '/');
    let dot = chars_of(".");
    let dotdot = chars_of("..");
    let mut resolved = chars_of(base);
    let mut named = false;
    let mut i: usize = 0;
    while i < segs.len()
        invariant
            i <= segs.len(),
            ss == split_on(rel@, '/'),
            rel@ == trim(relative@),
            rel@.len() > 0,
            rel@[0] != '/',
            segs@.len() == ss.len(),
            forall|k: int| 0 <= k < segs@.len() ==> #[trigger] segs@[k]@ == ss[k],
            dot@ == "."@,
            dotdot@ == ".."@,
            forall|k: int| 0 <= k < i ==> #[trigger] ss[k] != ".."@,
            resolved@ == push_segments(base@, ss.take(i as int)),
            named == has_named(ss.take(i as int)),
        decreases segs.len() - i,
    {
        assert(ss.take(i + 1).drop_last() =~= ss.take(i as int));
        assert(ss.take(i + 1).last() == segs@[i as int]@);
        if chars_equal(&segs[i], &dotdot) {
            assert(ss[i as int] == ".."@);
            assert(ss.contains(".."@));
            assert(relative_resolution(base@, relative@, field_name@) == Err::<Seq<char>, Seq<char>>(field_name@ + " must not contain path traversal segments"@));
            return Err(field_error(field_name, " must not contain path traversal segments"));
        }
        if segs[i].len() > 0 && !chars_equal(&segs[i], &dot) {
            if resolved.len() == 0 {
                resolved = slice_of(&segs[i], 0, segs[i].len());
            } else if resolved[resolved.len() - 1] == '/' {
                push_all(&mut resolved, &segs[i]);
            } else {
                resolved.push('/');
                push_all(&mut resolved, &segs[i]);
            }
            named = true;
            assert(ss.take(i + 1)[i as int] == ss[i as int]);
        }
        proof {
            if has_named(ss.take(i + 1)) && !has_named(ss.take(i as int)) {
                let k = choose|k: int| 0 <= k < ss.take(i + 1).len() && (#[trigger] ss.take(i + 1)[k]).len() > 0 && ss.take(i + 1)[k] != "."@;
                if k < i {
                    assert(ss.take(i as int)[k] == ss.take(i + 1)[k]);
                }
            }
            if has_named(ss.take(i as int)) {
                let k = choose|k: int| 0 <= k < ss.take(i as int).len() && (#[trigger] ss.take(i as int)[k]).len() > 0 && ss.take(i as int)[k] != "."@;
                assert(ss.take(i + 1)[k] == ss.take(i as int)[k]);
            }
        }
        i = i + 1;
    }
    assert(ss.take(ss.len() as int) =~= ss);
    assert(!ss.contains(".."@));
    if !named {
        return Err(field_error(field_name, " must contain at least one path segment"));
    }
    Ok(string_of(&resolved))
}

// ---------------------------------------------------------------------------
// Live photos
// ---------------------------------------------------------------------------

/// The `.mov` companion of a live photo at `file_path` (with `~` expanded
/// against `home`), if `mov_exists` reports it on disk.
pub fn get_live_photo_path_in<F: Fn(&str) -> bool>(
    file_path: &str,
    home: &Option<String>,
    mov_exists: &F,
) -> (r: Option<String>)
    requires
        forall|a: &str| mov_exists.requires((a,)),
    ensures
        probe_outcome(
            *mov_exists,
            live_photo_candidate(tilde_expanded(file_path@, opt_text(*home))),
            opt_text(r),
        ),
{
    let expanded = expand_tilde_in(file_path, home);
    probe_live_photo(expanded.as_str(), mov_exists)
}

/// For a path without a leading `~` the home directory plays no part: the
/// companion looked for is that of the path itself, it ends in `.mov`, and
/// it is reported exactly when the probe finds it.
pub proof fn law_live_photo_path<F: Fn(&str) -> bool>(
    probe: F,
    p: Seq<char>,
    home: Option<Seq<char>>,
    found: Option<Seq<char>>,
)
    requires
        !(p.len() > 0 && p[0] == '~'),
        probe_outcome(probe, live_photo_candidate(tilde_expanded(p, home)), found),
    ensures
        tilde_expanded(p, home) == p,
        live_photo_candidate(p) is None ==> found is None,
        live_photo_candidate(p) matches Some(c) ==> (c.len() >= 4 && c.subrange(
            c.len() - 4,
            c.len() as int,
        ) == ".mov"@ && exists|a: &str, b: bool|
            a@ == c && #[trigger] probe.ensures((a,), b) && (found == if b {
                Some(c)
            } else {
                None
            })),
{
    reveal_strlit(".mov");
    if let Some(c) = live_photo_candidate(p) {
        assert(c.subrange(c.len() - 4, c.len() as int) =~= ".mov"@);
    }
}

/// Get the .mov companion path for a live photo, if it exists on disk (as
/// `mov_exists` reports).
pub fn get_live_photo_path<F: Fn(&str) -> bool>(file_path: &str, mov_exists: &F) -> (r: Option<
    String,
>)
    requires
        forall|a: &str| mov_exists.requires((a,)),
    ensures
        exists|h: Option<String>|
            probe_outcome(
                *mov_exists,
                live_photo_candidate(tilde_expanded(file_path@, opt_text(h))),
                opt_text(r),
            ),
{
    let h = home_dir_text();
    get_live_photo_path_in(file_path, &h, mov_exists)
}

} // verus!

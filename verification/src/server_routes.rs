//! What the server routes compute around their probes of the machine:
//! the statistics a request asks for, the server information and
//! permissions reported, and how many log lines are read.
use vstd::prelude::*;
use crate::decimal::{parse_u32, u32_text_value, u64_digits, dec_digits};
use crate::json::{entry_views, json_view, put_field, Json, JsonModel};
use crate::macos::{version_text, MacOsVersion};
use crate::text::{
    chars_equal, chars_of, lowercase_of, push_all, push_str, split_chars, split_on, string_of,
    to_lowercase_text, trim, trim_chars,
};

verus! {

// ---------------------------------------------------------------------------
// Statistics
// ---------------------------------------------------------------------------

/// A name without one trailing `s`.
pub open spec fn singular(s: Seq<char>) -> Seq<char> {
    if s.len() > 0 && s.last() == 's' {
        s.drop_last()
    } else {
        s
    }
}

/// The names an `only` parameter lists: each comma-separated piece
/// trimmed, lowercased, and without one trailing `s`.
pub open spec fn only_names(only: Option<String>) -> Option<Seq<Seq<char>>> {
    match only {
        Some(s) => Some(split_on(s@, ',').map_values(|p: Seq<char>| singular(lowercase_of(trim(p))))),
        None => None,
    }
}

fn singular_of(v: &Vec<char>) -> (r: Vec<char>)
    ensures
        r@ == singular(v@),
{
    if v.len() > 0 && v[v.len() - 1] == 's' {
        let r = crate::text::slice_of(v, 0, v.len() - 1);
        assert(r@ =~= v@.drop_last());
        r
    } else {
        crate::text::slice_of(v, 0, v.len())
    }
}

/// Reads an `only` parameter.
pub fn parse_only(only: &Option<String>) -> (r: Option<Vec<String>>)
    ensures
        match only_names(*only) {
            Some(names) => r matches Some(v) && v@.map_values(|s: String| s@) == names,
            None => r is None,
        },
{
    let s = match only {
        Some(s) => s,
        None => return None,
    };
    let pieces = split_chars(&chars_of(s.as_str()), ',');
    let ghost ps = split_on(s@, ',');
    let mut out: Vec<String> = Vec::new();
    let mut i: usize = 0;
    while i < pieces.len()
        invariant
            i <= pieces@.len(),
            pieces@.len() == ps.len(),
            forall|k: int| 0 <= k < pieces@.len() ==> #[trigger] pieces@[k]@ == ps[k],
            out@.map_values(|s: String| s@) == ps.take(i as int).map_values(
                |p: Seq<char>| singular(lowercase_of(trim(p))),
            ),
        decreases pieces.len() - i,
    {
        let t = trim_chars(&pieces[i]);
        let l = to_lowercase_text(string_of(&t).as_str());
        let name = string_of(&singular_of(&chars_of(l.as_str())));
        let ghost o0 = out@.map_values(|s: String| s@);
        out.push(name);
        proof {
            assert(ps.take(i + 1) =~= ps.take(i as int).push(ps[i as int]));
            assert(out@.map_values(|s: String| s@) =~= o0.push(singular(lowercase_of(trim(ps[i as int])))));
            assert(ps.take(i + 1).map_values(|p: Seq<char>| singular(lowercase_of(trim(p)))) =~= ps.take(
                i as int,
            ).map_values(|p: Seq<char>| singular(lowercase_of(trim(p)))).push(
                singular(lowercase_of(trim(ps[i as int]))),
            ));
        }
        i = i + 1;
    }
    assert(ps.take(ps.len() as int) =~= ps);
    Some(out)
}

/// A statistic is included when no `only` list is given, or the list
/// names it.
pub open spec fn included(names: Option<Seq<Seq<char>>>, key: Seq<char>) -> bool {
    match names {
        Some(n) => n.contains(key),
        None => true,
    }
}

fn includes(names: &Option<Vec<String>>, key: &str) -> (r: bool)
    ensures
        r == included(
            match *names {
                Some(v) => Some(v@.map_values(|s: String| s@)),
                None => None,
            },
            key@,
        ),
{
    match names {
        Some(v) => {
            let k = chars_of(key);
            let mut i: usize = 0;
            while i < v.len()
                invariant
                    i <= v@.len(),
                    k@ == key@,
                    *names == Some(*v),
                    forall|j: int| 0 <= j < i ==> v@[j]@ != key@,
                decreases v.len() - i,
            {
                if chars_equal(&chars_of(v[i].as_str()), &k) {
                    assert(v@.map_values(|s: String| s@)[i as int] == key@);
                    return true;
                }
                i = i + 1;
            }
            proof {
                let m = v@.map_values(|s: String| s@);
                if m.contains(key@) {
                    let j = choose|j: int| 0 <= j < m.len() && m[j] == key@;
                    assert(v@[j]@ == key@);
                }
            }
            false
        },
        None => true,
    }
}

/// Which totals a request asks for: handles, messages, chats, attachments.
pub open spec fn totals_wanted(only: Option<String>) -> (bool, bool, bool, bool) {
    let n = only_names(only);
    (
        included(n, "handle"@),
        included(n, "message"@),
        included(n, "chat"@),
        included(n, "attachment"@),
    )
}

/// Which totals are asked for (handles, messages, chats, attachments).
pub fn wanted_totals(only: &Option<String>) -> (r: (bool, bool, bool, bool))
    ensures
        r == totals_wanted(*only),
{
    let names = parse_only(only);
    (includes(&names, "handle"), includes(&names, "message"), includes(&names, "chat"), includes(&names, "attachment"))
}

/// Which media counts are asked for (images, videos, locations).
pub open spec fn media_wanted(only: Option<String>) -> (bool, bool, bool) {
    let n = only_names(only);
    (included(n, "image"@), included(n, "video"@), included(n, "location"@))
}

/// Which media counts are asked for (images, videos, locations).
pub fn wanted_media(only: &Option<String>) -> (r: (bool, bool, bool))
    ensures
        r == media_wanted(*only),
{
    let names = parse_only(only);
    (includes(&names, "image"), includes(&names, "video"), includes(&names, "location"))
}

/// The chat a per-chat media count is for; it must be given.
pub fn stat_chat_guid(chat_guid: &Option<String>) -> (r: Result<String, &'static str>)
    ensures
        match chat_guid {
            Some(g) if g@.len() > 0 => r matches Ok(s) && s@ == g@,
            _ => r matches Err(m) && m@ == "A chatGuid is required!"@,
        },
{
    match chat_guid {
        Some(g) => if g.as_str().is_empty() {
            Err("A chatGuid is required!")
        } else {
            Ok(g.clone())
        },
        None => Err("A chatGuid is required!"),
    }
}

/// The counts that were asked for, as an object: each present count under
/// its key, in the given order.
pub open spec fn counts_object(counts: Seq<(&'static str, Option<i64>)>) -> Seq<(Seq<char>, JsonModel)>
    decreases counts.len(),
{
    if counts.len() == 0 {
        Seq::empty()
    } else {
        let rest = counts_object(counts.drop_last());
        match counts.last().1 {
            Some(n) => rest.push((counts.last().0@, JsonModel::Int(n as int))),
            None => rest,
        }
    }
}

/// Renders the counts that were asked for.
pub fn stats_json(counts: &Vec<(&'static str, Option<i64>)>) -> (r: Json)
    ensures
        json_view(r) == JsonModel::Object(counts_object(counts@)),
{
    let mut f: Vec<(String, Json)> = Vec::new();
    assert(entry_views(f@) =~= Seq::<(Seq<char>, JsonModel)>::empty());
    let mut i: usize = 0;
    while i < counts.len()
        invariant
            i <= counts@.len(),
            entry_views(f@) == counts_object(counts@.take(i as int)),
        decreases counts.len() - i,
    {
        assert(counts@.take(i + 1).drop_last() =~= counts@.take(i as int));
        assert(counts@.take(i + 1).last() == counts@[i as int]);
        match counts[i].1 {
            Some(n) => put_field(&mut f, counts[i].0, Json::Int(n)),
            None => {},
        }
        i = i + 1;
    }
    assert(counts@.take(counts@.len() as int) =~= counts@);
    Json::Object(f)
}

// ---------------------------------------------------------------------------
// Server information
// ---------------------------------------------------------------------------

/// What the server reports of itself, as probed.
#[derive(Debug)]
pub struct ServerFacts {
    pub username: String,
    pub hostname: String,
    pub os_version: MacOsVersion,
    pub server_version: String,
    pub private_api_enabled: bool,
    pub helper_connected: bool,
    pub private_api_ready: bool,
    pub facetime_private_api_ready: bool,
    pub findmy_private_api_ready: bool,
    pub detected_icloud: String,
    pub detected_imessage: String,
    /// The clock offset reported by time sync, already as JSON (a number
    /// or null).
    pub time_sync: Json,
    pub ipv4s: Vec<String>,
    pub ipv6s: Vec<String>,
}

pub open spec fn strings_json(v: Seq<String>) -> JsonModel {
    JsonModel::Array(v.map_values(|s: String| JsonModel::Str(s@)))
}

/// The server information object.
pub open spec fn server_info(f: ServerFacts) -> JsonModel {
    JsonModel::Object(
        seq![
            ("computer_id"@, JsonModel::Str(f.username@ + "@"@ + f.hostname@)),
            ("os_version"@, JsonModel::Str(version_text(f.os_version))),
            ("server_version"@, JsonModel::Str(f.server_version@)),
            ("private_api"@, JsonModel::Bool(f.private_api_enabled)),
            ("helper_connected"@, JsonModel::Bool(f.helper_connected)),
            ("private_api_ready"@, JsonModel::Bool(f.private_api_ready)),
            ("facetime_private_api_ready"@, JsonModel::Bool(f.facetime_private_api_ready)),
            ("findmy_private_api_ready"@, JsonModel::Bool(f.findmy_private_api_ready)),
            ("detected_icloud"@, JsonModel::Str(f.detected_icloud@)),
            ("detected_imessage"@, JsonModel::Str(f.detected_imessage@)),
            ("macos_time_sync"@, json_view(f.time_sync)),
            ("local_ipv4s"@, strings_json(f.ipv4s@)),
            ("local_ipv6s"@, strings_json(f.ipv6s@)),
        ],
    )
}

fn push_json(v: &mut Vec<Json>, x: Json)
    ensures
        crate::json::json_views(final(v)@) == crate::json::json_views(old(v)@).push(json_view(x)),
{
    let ghost v0 = v@;
    v.push(x);
    assert(v@.subrange(0, v@.len() - 1) =~= v0);
}

fn strings_to_json(v: &Vec<String>) -> (r: Json)
    ensures
        json_view(r) == strings_json(v@),
{
    let mut out: Vec<Json> = Vec::new();
    let mut i: usize = 0;
    while i < v.len()
        invariant
            i <= v@.len(),
            crate::json::json_views(out@) == v@.take(i as int).map_values(|s: String| JsonModel::Str(s@)),
        decreases v.len() - i,
    {
        let c = v[i].clone();
        assert(c@ == v@[i as int]@);
        push_json(&mut out, Json::Str(c));
        proof {
            assert(v@.take(i + 1).map_values(|s: String| JsonModel::Str(s@)) =~= v@.take(i as int).map_values(
                |s: String| JsonModel::Str(s@),
            ).push(JsonModel::Str(v@[i as int]@)));
        }
        i = i + 1;
    }
    assert(v@.take(v@.len() as int) =~= v@);
    Json::Array(out)
}

/// Renders the server information.
pub fn server_info_json(f: &ServerFacts) -> (r: Json)
    ensures
        json_view(r) == server_info(*f),
{
    let mut id = chars_of(f.username.as_str());
    push_str(&mut id, "@");
    push_str(&mut id, f.hostname.as_str());
    let mut e: Vec<(String, Json)> = Vec::new();
    put_field(&mut e, "computer_id", Json::Str(string_of(&id)));
    put_field(&mut e, "os_version", Json::Str(f.os_version.to_version_string()));
    put_field(&mut e, "server_version", Json::Str(f.server_version.clone()));
    put_field(&mut e, "private_api", Json::Bool(f.private_api_enabled));
    put_field(&mut e, "helper_connected", Json::Bool(f.helper_connected));
    put_field(&mut e, "private_api_ready", Json::Bool(f.private_api_ready));
    put_field(&mut e, "facetime_private_api_ready", Json::Bool(f.facetime_private_api_ready));
    put_field(&mut e, "findmy_private_api_ready", Json::Bool(f.findmy_private_api_ready));
    put_field(&mut e, "detected_icloud", Json::Str(f.detected_icloud.clone()));
    put_field(&mut e, "detected_imessage", Json::Str(f.detected_imessage.clone()));
    put_field(&mut e, "macos_time_sync", crate::json::copy_json(&f.time_sync));
    put_field(&mut e, "local_ipv4s", strings_to_json(&f.ipv4s));
    put_field(&mut e, "local_ipv6s", strings_to_json(&f.ipv6s));
    let ghost expected = match server_info(*f) {
        JsonModel::Object(s) => s,
        _ => Seq::empty(),
    };
    assert(entry_views(e@) =~= expected);
    Json::Object(e)
}

/// One permission check as reported.
pub open spec fn permission(
    name: Seq<char>,
    pass: bool,
    pane: Option<Seq<char>>,
    optional: Option<bool>,
    solution: Seq<char>,
) -> JsonModel {
    JsonModel::Object(
        seq![("name"@, JsonModel::Str(name)), ("pass"@, JsonModel::Bool(pass))] + (match pane {
            Some(p) => seq![("pane"@, JsonModel::Str(p))],
            None => Seq::empty(),
        }) + (match optional {
            Some(o) => seq![("optional"@, JsonModel::Bool(o))],
            None => Seq::empty(),
        }) + seq![("solution"@, JsonModel::Str(solution))],
    )
}

/// The permissions the server reports: full disk access (always, since
/// the database opened), accessibility, SIP disabled and the Private API
/// (the last two optional unless the Private API is enabled).
pub open spec fn permissions(
    accessibility: bool,
    sip_disabled: bool,
    private_api_ready: bool,
    private_api_enabled: bool,
) -> JsonModel {
    JsonModel::Array(
        seq![
            permission(
                "Full Disk Access"@,
                true,
                Some("FullDiskAccess"@),
                None,
                "Ensure that the server has Full Disk Access in System Settings > Privacy & Security"@,
            ),
            permission(
                "Accessibility"@,
                accessibility,
                Some("Accessibility"@),
                Some(true),
                "Ensure that the server has Accessibility access in System Settings > Privacy & Security"@,
            ),
            permission(
                "SIP Disabled"@,
                sip_disabled,
                None,
                Some(!private_api_enabled),
                "SIP must be disabled for the Private API to work. Restart into Recovery Mode and run: csrutil disable"@,
            ),
            permission(
                "Private API"@,
                private_api_ready,
                None,
                Some(!private_api_enabled),
                "The Private API helper must be connected for Private API features to work"@,
            ),
        ],
    )
}

fn permission_json(name: &str, pass: bool, pane: Option<&str>, optional: Option<bool>, solution: &str) -> (r: Json)
    ensures
        json_view(r) == permission(
            name@,
            pass,
            match pane {
                Some(p) => Some(p@),
                None => None,
            },
            optional,
            solution@,
        ),
{
    let mut e: Vec<(String, Json)> = Vec::new();
    put_field(&mut e, "name", Json::Str(name.to_owned()));
    put_field(&mut e, "pass", Json::Bool(pass));
    match pane {
        Some(p) => put_field(&mut e, "pane", Json::Str(p.to_owned())),
        None => {},
    }
    match optional {
        Some(o) => put_field(&mut e, "optional", Json::Bool(o)),
        None => {},
    }
    put_field(&mut e, "solution", Json::Str(solution.to_owned()));
    let ghost expected = match permission(
        name@,
        pass,
        match pane {
            Some(p) => Some(p@),
            None => None,
        },
        optional,
        solution@,
    ) {
        JsonModel::Object(s) => s,
        _ => Seq::empty(),
    };
    assert(entry_views(e@) =~= expected);
    Json::Object(e)
}

/// Renders the permission checks.
pub fn permissions_json(
    accessibility: bool,
    sip_disabled: bool,
    private_api_ready: bool,
    private_api_enabled: bool,
) -> (r: Json)
    ensures
        json_view(r) == permissions(accessibility, sip_disabled, private_api_ready, private_api_enabled),
{
    let a = permission_json(
        "Full Disk Access",
        true,
        Some("FullDiskAccess"),
        None,
        "Ensure that the server has Full Disk Access in System Settings > Privacy & Security",
    );
    let b = permission_json(
        "Accessibility",
        accessibility,
        Some("Accessibility"),
        Some(true),
        "Ensure that the server has Accessibility access in System Settings > Privacy & Security",
    );
    let c = permission_json(
        "SIP Disabled",
        sip_disabled,
        None,
        Some(!private_api_enabled),
        "SIP must be disabled for the Private API to work. Restart into Recovery Mode and run: csrutil disable",
    );
    let d = permission_json(
        "Private API",
        private_api_ready,
        None,
        Some(!private_api_enabled),
        "The Private API helper must be connected for Private API features to work",
    );
    let ghost va = json_view(a);
    let ghost vb = json_view(b);
    let ghost vc = json_view(c);
    let ghost vd = json_view(d);
    let v = vec![a, b, c, d];
    proof {
        crate::json::lemma_json_views(v@);
        assert(crate::json::json_views(v@) =~= seq![va, vb, vc, vd]);
    }
    Json::Array(v)
}

/// How many log lines are read: the `count` parameter when it is a `u32`,
/// else 100.
pub fn log_line_count(count: &Option<String>) -> (r: u32)
    ensures
        r as nat == match *count {
            Some(s) => match u32_text_value(s@) {
                Some(n) => n,
                None => 100,
            },
            None => 100,
        },
{
    match count {
        Some(s) => match parse_u32(&chars_of(s.as_str())) {
            Some(n) => n,
            None => 100,
        },
        None => 100,
    }
}

/// The shell command reading the last `count` lines of the log file.
pub fn tail_command(count: u32, path: &str) -> (r: String)
    ensures
        r@ == "tail -n "@ + dec_digits(count as nat) + " \""@ + path@ + "\""@,
{
    let mut c = chars_of("tail -n ");
    push_all(&mut c, &u64_digits(count as u64));
    push_str(&mut c, " \"");
    push_str(&mut c, path);
    push_str(&mut c, "\"");
    string_of(&c)
}

} // verus!

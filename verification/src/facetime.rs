//! FaceTime links: reading the link the helper generated, and a failed
//! answer, out of its replies.
use vstd::prelude::*;
use crate::findmy::get_field;
use crate::http::validate_facetime_link;
use crate::text::has_prefix;
use crate::json::{json_view, put_field, Json, JsonModel};
use crate::private_api::{as_text, field};
use crate::text::{chars_of, push_str, string_of};

verus! {

/// The link in a reply's data: its `url` entry when there is one (else its
/// `link` entry), when that is text.
pub open spec fn reply_link(data: Option<JsonModel>) -> Option<Seq<char>> {
    match data {
        Some(d) => match field(d, "url"@) {
            Some(u) => as_text(Some(u)),
            None => as_text(field(d, "link"@)),
        },
        None => None,
    }
}

/// What is wrong with a generated link, if anything: it is empty, or it
/// does not start with `https://facetime.apple.com/`.
pub open spec fn link_problem(l: Seq<char>) -> Option<Seq<char>> {
    if l.len() == 0 {
        Some("Generated FaceTime link is empty!"@)
    } else if !has_prefix(l, "https://facetime.apple.com/"@) {
        Some("Generated link doesn't look like a FaceTime URL: "@ + l)
    } else {
        None
    }
}

/// Reads the link the helper generated: missing, it fails with
/// `missing`; present, it must look like a FaceTime link.
pub fn link_from_reply(data: Option<&Json>, missing: &str) -> (r: Result<String, String>)
    ensures
        match reply_link(
            match data {
                Some(d) => Some(json_view(*d)),
                None => None,
            },
        ) {
            None => r matches Err(e) && e@ == missing@,
            Some(l) => match link_problem(l) {
                None => r matches Ok(s) && s@ == l,
                Some(m) => r matches Err(e) && e@ == m,
            },
        },
{
    let d = match data {
        Some(d) => d,
        None => return Err(missing.to_owned()),
    };
    let v = match get_field(d, "url") {
        Some(u) => Some(u),
        None => get_field(d, "link"),
    };
    let url = match v {
        Some(Json::Str(s)) => s,
        _ => return Err(missing.to_owned()),
    };
    match validate_facetime_link(url.as_str()) {
        Ok(()) => Ok(url.clone()),
        Err(e) => Err(e),
    }
}

/// The failure an answer reply reports: the text of its data's `error`.
pub fn answer_failure(data: Option<&Json>) -> (r: Option<String>)
    ensures
        match data {
            Some(d) => match as_text(field(json_view(*d), "error"@)) {
                Some(e) => r matches Some(m) && m@ == "Failed to answer FaceTime call: "@ + e,
                None => r is None,
            },
            None => r is None,
        },
{
    match data {
        Some(d) => match get_field(d, "error") {
            Some(Json::Str(e)) => {
                let mut m = chars_of("Failed to answer FaceTime call: ");
                push_str(&mut m, e.as_str());
                Some(string_of(&m))
            },
            _ => None,
        },
        None => None,
    }
}

/// The reply to leaving a call: status 201, no data.
pub fn left_call_reply() -> (r: Json)
    ensures
        json_view(r) == JsonModel::Object(
            seq![("status"@, JsonModel::Int(201)), ("message"@, JsonModel::Str("No Data"@))],
        ),
{
    let mut f: Vec<(String, Json)> = Vec::new();
    put_field(&mut f, "status", Json::Int(201));
    put_field(&mut f, "message", Json::Str("No Data".to_owned()));
    assert(crate::json::entry_views(f@) =~= seq![
        ("status"@, JsonModel::Int(201)),
        ("message"@, JsonModel::Str("No Data"@)),
    ]);
    Json::Object(f)
}

} // verus!

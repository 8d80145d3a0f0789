//! The response envelopes of the HTTP API: success bodies with their
//! status, message, data and metadata, and errors with their status, kind
//! and message.
use vstd::prelude::*;
use crate::json::{copy_json, entry_views, json_text, json_view, put_field, Json, JsonModel};
use crate::text::{chars_equal, chars_of, contains_seq, contains_seq_exec, trim, trim_chars};

verus! {

/// Application error that converts to a JSON response envelope.
#[derive(Debug)]
pub struct AppError {
    pub status: u16,
    pub message: String,
    pub error_type: &'static str,
    pub error_message: String,
    pub data: Option<Json>,
}

/// The error has this status, message, kind and detail, and no data.
pub open spec fn error_is(
    e: AppError,
    status: u16,
    message: Seq<char>,
    kind: Seq<char>,
    detail: Seq<char>,
) -> bool {
    e.status == status && e.message@ == message && e.error_type@ == kind && e.error_message@
        == detail && e.data is None
}

impl AppError {
    /// 401: not authorized, with the reason given (`Unauthorized` by
    /// default).
    pub fn unauthorized(error: Option<&str>) -> (r: Self)
        ensures
            error_is(
                r,
                401,
                "You are not authorized to access this resource"@,
                "Authentication Error"@,
                match error {
                    Some(e) => e@,
                    None => "Unauthorized"@,
                },
            ),
    {
        Self {
            status: 401,
            message: "You are not authorized to access this resource".to_owned(),
            error_type: "Authentication Error",
            error_message: match error {
                Some(e) => e.to_owned(),
                None => "Unauthorized".to_owned(),
            },
            data: None,
        }
    }

    /// 400: a bad request.
    pub fn bad_request(error: &str) -> (r: Self)
        ensures
            error_is(
                r,
                400,
                "You've made a bad request! Please check your request params & body"@,
                "Validation Error"@,
                error@,
            ),
    {
        Self {
            status: 400,
            message: "You've made a bad request! Please check your request params & body".to_owned(),
            error_type: "Validation Error",
            error_message: error.to_owned(),
            data: None,
        }
    }

    /// 404: what was asked for is not there.
    pub fn not_found(error: &str) -> (r: Self)
        ensures
            error_is(r, 404, "The requested resource was not found"@, "Database Error"@, error@),
    {
        Self {
            status: 404,
            message: "The requested resource was not found".to_owned(),
            error_type: "Database Error",
            error_message: error.to_owned(),
            data: None,
        }
    }

    /// 500: the server failed.
    pub fn server_error(error: &str) -> (r: Self)
        ensures
            error_is(r, 500, "The server has encountered an error"@, "Server Error"@, error@),
    {
        Self {
            status: 500,
            message: "The server has encountered an error".to_owned(),
            error_type: "Server Error",
            error_message: error.to_owned(),
            data: None,
        }
    }

    /// 500: Messages failed.
    pub fn imessage_error(error: &str) -> (r: Self)
        ensures
            error_is(r, 500, "iMessage has encountered an error"@, "iMessage Error"@, error@),
    {
        Self {
            status: 500,
            message: "iMessage has encountered an error".to_owned(),
            error_type: "iMessage Error",
            error_message: error.to_owned(),
            data: None,
        }
    }

    /// 500: a message was sent with an error; the message itself is the
    /// data.
    pub fn imessage_error_with_data(error: &str, data: Json) -> (r: Self)
        ensures
            r.status == 500 && r.message@ == error@ && r.error_type@ == "iMessage Error"@
                && r.error_message@ == "Message failed to send!"@ && (r.data matches Some(d)
                && json_view(d) == json_view(data)),
    {
        Self {
            status: 500,
            message: error.to_owned(),
            error_type: "iMessage Error",
            error_message: "Message failed to send!".to_owned(),
            data: Some(data),
        }
    }

    /// The body of the error response: status, message, the error's kind
    /// and detail, and the data when there is some.
    pub fn body(&self) -> (r: Json)
        ensures
            json_view(r) == JsonModel::Object(error_fields(*self)),
    {
        let mut inner: Vec<(String, Json)> = Vec::new();
        put_field(&mut inner, "type", json_text(self.error_type));
        put_field(&mut inner, "message", Json::Str(self.error_message.clone()));
        assert(entry_views(inner@) =~= seq![
            ("type"@, JsonModel::Str(self.error_type@)),
            ("message"@, JsonModel::Str(self.error_message@)),
        ]);
        let mut f: Vec<(String, Json)> = Vec::new();
        put_field(&mut f, "status", Json::Uint(self.status as u64));
        put_field(&mut f, "message", Json::Str(self.message.clone()));
        put_field(&mut f, "error", Json::Object(inner));
        match &self.data {
            Some(d) => put_field(&mut f, "data", copy_json(d)),
            None => {},
        }
        assert(entry_views(f@) =~= error_fields(*self));
        Json::Object(f)
    }
}

pub open spec fn error_fields(e: AppError) -> Seq<(Seq<char>, JsonModel)> {
    seq![
        ("status"@, JsonModel::Int(e.status as int)),
        ("message"@, JsonModel::Str(e.message@)),
        ("error"@, JsonModel::Object(
            seq![("type"@, JsonModel::Str(e.error_type@)), ("message"@, JsonModel::Str(e.error_message@))],
        )),
    ] + match e.data {
        Some(d) => seq![("data"@, json_view(d))],
        None => Seq::empty(),
    }
}

/// A success body: status 200, the message, the data, and the metadata
/// when there is some.
pub open spec fn success_fields(
    message: Seq<char>,
    data: JsonModel,
    metadata: Option<JsonModel>,
) -> Seq<(Seq<char>, JsonModel)> {
    seq![
        ("status"@, JsonModel::Int(200)),
        ("message"@, JsonModel::Str(message)),
        ("data"@, data),
    ] + match metadata {
        Some(m) => seq![("metadata"@, m)],
        None => Seq::empty(),
    }
}

fn success_body(message: &str, data: Json, metadata: Option<Json>) -> (r: Json)
    ensures
        json_view(r) == JsonModel::Object(
            success_fields(
                message@,
                json_view(data),
                match metadata {
                    Some(m) => Some(json_view(m)),
                    None => None,
                },
            ),
        ),
{
    let ghost dv = json_view(data);
    let ghost mv = match &metadata {
        Some(m) => Some(json_view(*m)),
        None => None,
    };
    let mut f: Vec<(String, Json)> = Vec::new();
    put_field(&mut f, "status", Json::Int(200));
    put_field(&mut f, "message", json_text(message));
    put_field(&mut f, "data", data);
    match metadata {
        Some(m) => put_field(&mut f, "metadata", m),
        None => {},
    }
    assert(entry_views(f@) =~= success_fields(message@, dv, mv));
    Json::Object(f)
}

/// Build a success response envelope.
pub fn success_response(data: Json) -> (r: Json)
    ensures
        json_view(r) == JsonModel::Object(success_fields("Success"@, json_view(data), None)),
{
    success_body("Success", data, None)
}

/// Build a success response with a custom message.
pub fn success_response_with_message(message: &str, data: Json) -> (r: Json)
    ensures
        json_view(r) == JsonModel::Object(success_fields(message@, json_view(data), None)),
{
    success_body(message, data, None)
}

/// Build a success response with metadata.
pub fn success_response_with_metadata(data: Json, metadata: Json) -> (r: Json)
    ensures
        json_view(r) == JsonModel::Object(
            success_fields("Success"@, json_view(data), Some(json_view(metadata))),
        ),
{
    success_body("Success", data, Some(metadata))
}

/// Build a success response with a custom message and metadata.
pub fn success_with_message_and_metadata(message: &str, data: Json, metadata: Json) -> (r: Json)
    ensures
        json_view(r) == JsonModel::Object(
            success_fields(message@, json_view(data), Some(json_view(metadata))),
        ),
{
    success_body(message, data, Some(metadata))
}

// ---------------------------------------------------------------------------
// Authentication and pretty output
// ---------------------------------------------------------------------------

/// The token a request authenticates with: its `guid`, else `password`,
/// else `token` parameter.
pub open spec fn request_token(guid: Option<String>, password: Option<String>, token: Option<String>) -> Option<Seq<char>> {
    match guid {
        Some(g) => Some(g@),
        None => match password {
            Some(p) => Some(p@),
            None => match token {
                Some(t) => Some(t@),
                None => None,
            },
        },
    }
}

/// How a request's authentication ends: without a token it is refused as
/// missing the password; with no password configured the server fails;
/// a token that differs from the password (both trimmed) is refused.
pub open spec fn auth_outcome(
    guid: Option<String>,
    password: Option<String>,
    token: Option<String>,
    configured: Seq<char>,
) -> Option<(u16, Seq<char>)> {
    match request_token(guid, password, token) {
        None => Some((401, "Missing server password!"@)),
        Some(t) => if configured.len() == 0 {
            Some((500, "No password configured. Set one via --password or in config.yml"@))
        } else if trim(configured) != trim(t) {
            Some((401, "Unauthorized"@))
        } else {
            None
        },
    }
}

/// Checks a request's password against the configured one.
pub fn check_auth(
    guid: &Option<String>,
    password: &Option<String>,
    token: &Option<String>,
    configured: &str,
) -> (r: Result<(), AppError>)
    ensures
        match auth_outcome(*guid, *password, *token, configured@) {
            None => r is Ok,
            Some((401, m)) => r matches Err(e) && error_is(
                e,
                401,
                "You are not authorized to access this resource"@,
                "Authentication Error"@,
                m,
            ),
            Some((_, m)) => r matches Err(e) && error_is(
                e,
                500,
                "The server has encountered an error"@,
                "Server Error"@,
                m,
            ),
        },
{
    let t: &String = match guid {
        Some(g) => g,
        None => match password {
            Some(p) => p,
            None => match token {
                Some(t) => t,
                None => {
                    return Err(AppError::unauthorized(Some("Missing server password!")));
                },
            },
        },
    };
    if configured.is_empty() {
        return Err(AppError::server_error("No password configured. Set one via --password or in config.yml"));
    }
    if !chars_equal(&trim_chars(&chars_of(configured)), &trim_chars(&chars_of(t.as_str()))) {
        return Err(AppError::unauthorized(None));
    }
    Ok(())
}

/// A response is pretty-printed when the query mentions `pretty`.
pub fn wants_pretty(query: Option<&str>) -> (r: bool)
    ensures
        r == (query matches Some(q) && contains_seq(q@, "pretty"@)),
{
    match query {
        Some(q) => contains_seq_exec(&chars_of(q), &chars_of("pretty")),
        None => false,
    }
}

/// Only JSON responses are pretty-printed.
pub fn is_json_content(content_type: Option<&str>) -> (r: bool)
    ensures
        r == (content_type matches Some(c) && contains_seq(c@, "json"@)),
{
    match content_type {
        Some(c) => contains_seq_exec(&chars_of(c), &chars_of("json")),
        None => false,
    }
}

/// A request carrying the configured password (in any of its parameters)
/// is let through.
pub proof fn law_configured_password_accepted(sent: String, configured: Seq<char>)
    requires
        configured.len() > 0,
        sent@ == configured,
    ensures
        auth_outcome(None, Some(sent), None, configured) is None,
        auth_outcome(Some(sent), None, None, configured) is None,
        auth_outcome(None, None, Some(sent), configured) is None,
{
}

} // verus!

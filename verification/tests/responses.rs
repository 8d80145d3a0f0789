use imessage_rs::json::Json;
use imessage_rs::macos::{version_from_sw_vers, MacOsVersion};
use imessage_rs::responses::{
    success_response, success_response_with_message, success_response_with_metadata,
    success_with_message_and_metadata, AppError,
};

fn obj(pairs: Vec<(&str, Json)>) -> Json {
    Json::Object(pairs.into_iter().map(|(k, v)| (k.to_string(), v)).collect())
}

fn s(v: &str) -> Json {
    Json::Str(v.to_string())
}

#[test]
fn success_envelopes() {
    assert_eq!(
        success_response(Json::Int(1)),
        obj(vec![("status", Json::Int(200)), ("message", s("Success")), ("data", Json::Int(1))])
    );
    assert_eq!(
        success_response_with_message("Message sent!", Json::Null),
        obj(vec![("status", Json::Int(200)), ("message", s("Message sent!")), ("data", Json::Null)])
    );
    assert_eq!(
        success_response_with_metadata(Json::Array(vec![]), obj(vec![("total", Json::Int(0))])),
        obj(vec![
            ("status", Json::Int(200)),
            ("message", s("Success")),
            ("data", Json::Array(vec![])),
            ("metadata", obj(vec![("total", Json::Int(0))])),
        ])
    );
    assert_eq!(
        success_with_message_and_metadata("Done", Json::Null, Json::Null),
        obj(vec![
            ("status", Json::Int(200)),
            ("message", s("Done")),
            ("data", Json::Null),
            ("metadata", Json::Null),
        ])
    );
}

#[test]
fn error_bodies() {
    let e = AppError::bad_request("chatGuid is required");
    assert_eq!(e.status, 400);
    assert_eq!(
        e.body(),
        obj(vec![
            ("status", Json::Uint(400)),
            ("message", s("You've made a bad request! Please check your request params & body")),
            (
                "error",
                obj(vec![("type", s("Validation Error")), ("message", s("chatGuid is required"))]),
            ),
        ])
    );
    let u = AppError::unauthorized(None);
    assert_eq!(u.status, 401);
    assert_eq!(u.error_message, "Unauthorized");
    assert_eq!(AppError::not_found("x").error_type, "Database Error");
    assert_eq!(AppError::server_error("x").message, "The server has encountered an error");
    let d = AppError::imessage_error_with_data("Sent with an error", obj(vec![("error", Json::Int(4))]));
    assert_eq!(d.error_message, "Message failed to send!");
    match d.body() {
        Json::Object(f) => assert_eq!(f.last().unwrap().0, "data"),
        _ => panic!(),
    }
}

#[test]
fn version_read_from_sw_vers() {
    assert_eq!(version_from_sw_vers(true, b"26.3.1\n"), MacOsVersion::new(26, 3, 1));
    assert_eq!(version_from_sw_vers(true, b"garbage"), MacOsVersion::new(0, 0, 0));
    assert_eq!(version_from_sw_vers(false, b"15.0"), MacOsVersion::new(0, 0, 0));
}

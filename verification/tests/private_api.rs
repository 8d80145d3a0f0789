use imessage_rs::actions::{
    create_chat, get_imessage_availability, mark_chat_read, send_attachment, send_message,
    start_typing, stop_typing, SendOptions,
};
use imessage_rs::json::Json;
use imessage_rs::transactions::TransactionTable;
use imessage_rs::private_api::{
    event_action, event_lines, helper_kind, parse_facetime_event, parse_findmy_locations,
    parse_typing_event,
    EventAction, FaceTimeStatus, HelperKind, HelperReadiness, RawEvent, TransactionType,
};

fn get<'a>(j: &'a Json, key: &str) -> Option<&'a Json> {
    match j {
        Json::Object(fields) => fields.iter().find(|(k, _)| k == key).map(|(_, v)| v),
        _ => None,
    }
}

fn s(v: &str) -> Json {
    Json::Str(v.to_string())
}

fn obj(pairs: Vec<(&str, Json)>) -> Json {
    Json::Object(pairs.into_iter().map(|(k, v)| (k.to_string(), v)).collect())
}

fn raw_event(overrides: impl FnOnce(&mut RawEvent)) -> RawEvent {
    let mut e = RawEvent {
        event: None,
        transaction_id: None,
        identifier: None,
        guid: None,
        data: None,
        error: None,
        process: None,
        extra: Vec::new(),
    };
    overrides(&mut e);
    e
}

fn to_json(v: &serde_json::Value) -> Json {
    match v {
        serde_json::Value::Null => Json::Null,
        serde_json::Value::Bool(b) => Json::Bool(*b),
        serde_json::Value::Number(n) => match (n.as_i64(), n.as_u64()) {
            (Some(i), _) => Json::Int(i),
            (None, Some(u)) => Json::Uint(u),
            _ => Json::Real(imessage_rs::json::RealValue::Double(n.as_f64().unwrap().to_bits())),
        },
        serde_json::Value::String(s) => Json::Str(s.clone()),
        serde_json::Value::Array(a) => Json::Array(a.iter().map(to_json).collect()),
        serde_json::Value::Object(m) => {
            Json::Object(m.iter().map(|(k, v)| (k.clone(), to_json(v))).collect())
        }
    }
}

// ---------------------------------------------------------------------------
// Actions
// ---------------------------------------------------------------------------

#[test]
fn send_message_action_shape() {
    let action = send_message("iMessage;-;+1555", "hello", &SendOptions::default(), None, None);
    assert_eq!(action.name, "send-message");
    assert_eq!(get(&action.data, "chatGuid"), Some(&s("iMessage;-;+1555")));
    assert_eq!(get(&action.data, "message"), Some(&s("hello")));
    assert_eq!(action.transaction_type, Some(TransactionType::Message));
}

#[test]
fn create_chat_uses_message_transaction() {
    let action = create_chat(&["addr".to_string()], "hi", "iMessage", None, None, None);
    assert_eq!(action.name, "create-chat");
    assert_eq!(action.transaction_type, Some(TransactionType::Message));
}

#[test]
fn fire_and_forget_actions_have_no_transaction() {
    let a = start_typing("guid");
    assert!(a.transaction_type.is_none());
    let b = stop_typing("guid");
    assert!(b.transaction_type.is_none());
    let c = mark_chat_read("guid");
    assert!(c.transaction_type.is_none());
}

#[test]
fn imessage_availability_detects_email() {
    let a = get_imessage_availability("user@icloud.com");
    assert_eq!(get(&a.data, "aliasType"), Some(&s("email")));
    let b = get_imessage_availability("+15551234567");
    assert_eq!(get(&b.data, "aliasType"), Some(&s("phone")));
}

#[test]
fn send_attachment_encodes_audio_as_int() {
    let a = send_attachment("guid", "/path", true, &SendOptions::default());
    assert_eq!(get(&a.data, "isAudioMessage"), Some(&Json::Int(1)));
    assert_eq!(get(&a.data, "partIndex"), Some(&Json::Int(0)));
    let b = send_attachment("guid", "/path", false, &SendOptions::default());
    assert_eq!(get(&b.data, "isAudioMessage"), Some(&Json::Int(0)));
}

#[test]
fn dd_scan_encodes_as_int() {
    let a = send_message("g", "m", &SendOptions::default(), None, Some(true));
    assert_eq!(get(&a.data, "ddScan"), Some(&Json::Int(1)));
}

#[test]
fn send_message_payload_in_order_with_options() {
    let ab = obj(vec![("x", Json::Int(1))]);
    let tf = Json::Array(vec![]);
    let opts = SendOptions {
        subject: Some("subj"),
        effect_id: None,
        selected_message_guid: Some("sel"),
        part_index: Some(2),
        attributed_body: Some(&ab),
    };
    let a = send_message("c", "m", &opts, Some(&tf), None);
    let expected = obj(vec![
        ("chatGuid", s("c")),
        ("message", s("m")),
        ("subject", s("subj")),
        ("attributedBody", obj(vec![("x", Json::Int(1))])),
        ("effectId", Json::Null),
        ("selectedMessageGuid", s("sel")),
        ("partIndex", Json::Int(2)),
        ("textFormatting", Json::Array(vec![])),
    ]);
    assert_eq!(a.data, expected);
}

// ---------------------------------------------------------------------------
// Events
// ---------------------------------------------------------------------------

#[test]
fn parse_typing_dm() {
    let raw = raw_event(|e| {
        e.event = Some("started-typing".into());
        e.guid = Some("iMessage;-;+15551234567".into());
    });
    let result = parse_typing_event(&raw).unwrap();
    assert!(result.is_typing);
    assert_eq!(result.guid, "iMessage;-;+15551234567");
}

#[test]
fn parse_typing_skips_group() {
    let raw = raw_event(|e| {
        e.event = Some("started-typing".into());
        e.guid = Some("iMessage;+;chat123456".into());
    });
    assert!(parse_typing_event(&raw).is_none());
}

#[test]
fn parse_stopped_typing() {
    let raw = raw_event(|e| {
        e.event = Some("stopped-typing".into());
        e.guid = Some("iMessage;-;+15551234567".into());
    });
    let result = parse_typing_event(&raw).unwrap();
    assert!(!result.is_typing);
}

#[test]
fn parse_facetime_incoming() {
    let raw = raw_event(|e| {
        e.event = Some("facetime-call-status-changed".into());
        e.data = Some(obj(vec![
            ("call_status", Json::Int(4)),
            ("call_uuid", s("abc-123")),
            ("handle", obj(vec![("value", s("+15551234567"))])),
            ("is_outgoing", Json::Bool(false)),
            ("is_sending_audio", Json::Bool(true)),
            ("is_sending_video", Json::Bool(false)),
        ]));
    });
    let facetime_event = parse_facetime_event(&raw).unwrap();
    assert_eq!(facetime_event.status, FaceTimeStatus::Incoming);
    assert_eq!(facetime_event.call_uuid, "abc-123");
    assert_eq!(facetime_event.address, "+15551234567");
    assert!(facetime_event.is_audio);
    assert!(!facetime_event.is_video);
}

#[test]
fn facetime_event_needs_integer_status() {
    let raw = raw_event(|e| {
        e.data = Some(obj(vec![("call_status", s("4"))]));
    });
    assert!(parse_facetime_event(&raw).is_none());
    let raw = raw_event(|e| {
        e.data = Some(obj(vec![("call_status", Json::Int(6))]));
    });
    let ev = parse_facetime_event(&raw).unwrap();
    assert_eq!(ev.status, FaceTimeStatus::Disconnected);
    assert_eq!(ev.address, "");
    assert_eq!(ev.ended_error, None);
}

#[test]
fn extract_data_prefers_explicit_data_field() {
    let raw = raw_event(|e| {
        e.data = Some(obj(vec![("links", Json::Array(vec![]))]));
        e.extra.push(("stray".into(), s("ignored")));
    });
    assert_eq!(raw.extract_data(), Some(obj(vec![("links", Json::Array(vec![]))])));
}

#[test]
fn extract_data_falls_back_to_extra_fields() {
    let raw = raw_event(|e| {
        e.extra.push(("url".into(), s("https://facetime.apple.com/join#v=1&abc")));
    });
    let data = raw.extract_data().unwrap();
    assert_eq!(get(&data, "url"), Some(&s("https://facetime.apple.com/join#v=1&abc")));
}

#[test]
fn extract_data_returns_none_when_empty() {
    let raw = raw_event(|_| {});
    assert!(raw.extract_data().is_none());
}

#[test]
fn extract_data_from_deserialized_json() {
    // A reply as the helper sends it, read into its fields.
    let json_str = r#"{"transactionId":"abc","silenced":true}"#;
    let v: serde_json::Value = serde_json::from_str(json_str).unwrap();
    let raw = raw_event(|e| {
        for (k, val) in v.as_object().unwrap() {
            match k.as_str() {
                "transactionId" => e.transaction_id = val.as_str().map(|x| x.to_string()),
                "data" => e.data = Some(to_json(val)),
                _ => e.extra.push((k.clone(), to_json(val))),
            }
        }
    });
    assert!(raw.transaction_id.as_deref() == Some("abc"));
    assert!(raw.data.is_none());
    assert!(raw.is_transaction_response());
    let data = raw.extract_data().unwrap();
    assert_eq!(get(&data, "silenced"), Some(&Json::Bool(true)));
}

// ---------------------------------------------------------------------------
// Handling what the helper sends
// ---------------------------------------------------------------------------

#[test]
fn helper_kind_by_bundle_id() {
    assert_eq!(helper_kind("com.apple.MobileSMS"), Some(HelperKind::Messages));
    assert_eq!(helper_kind("com.apple.Messages"), Some(HelperKind::Messages));
    assert_eq!(helper_kind("com.apple.FaceTime"), Some(HelperKind::FaceTime));
    assert_eq!(helper_kind("com.apple.TelephonyUtilities"), Some(HelperKind::FaceTime));
    assert_eq!(helper_kind("com.apple.findmy"), Some(HelperKind::FindMy));
    assert_eq!(helper_kind("com.apple.Safari"), None);
}

#[test]
fn ready_marks_only_its_helper() {
    let mut r = HelperReadiness::default();
    r.set_process_ready("com.apple.FaceTime", true);
    assert!(r.facetime && !r.messages && !r.findmy);
    r.set_process_ready("com.apple.Safari", true);
    assert!(r.facetime && !r.messages && !r.findmy);
    r.set_process_ready("com.apple.FaceTime", false);
    assert!(!r.facetime);
}

#[test]
fn reply_with_error_rejects() {
    let e = raw_event(|e| {
        e.transaction_id = Some("t1".into());
        e.error = Some("boom".into());
    });
    match event_action(&e) {
        EventAction::Reject { transaction_id, error } => {
            assert_eq!(transaction_id, "t1");
            assert_eq!(error, "boom");
        }
        other => panic!("unexpected {:?}", other),
    }
}

#[test]
fn reply_with_empty_error_resolves() {
    let e = raw_event(|e| {
        e.transaction_id = Some("t2".into());
        e.error = Some(String::new());
        e.identifier = Some("guid-1".into());
        e.extra.push(("ok".into(), Json::Bool(true)));
    });
    match event_action(&e) {
        EventAction::Resolve { transaction_id, identifier, data } => {
            assert_eq!(transaction_id, "t2");
            assert_eq!(identifier, "guid-1");
            assert_eq!(get(&data.unwrap(), "ok"), Some(&Json::Bool(true)));
        }
        other => panic!("unexpected {:?}", other),
    }
}

#[test]
fn ping_registers_and_ready_marks() {
    let ping = raw_event(|e| {
        e.event = Some("ping".into());
        e.process = Some("com.apple.MobileSMS".into());
    });
    match event_action(&ping) {
        EventAction::Broadcast { registers, ready } => {
            assert_eq!(registers.as_deref(), Some("com.apple.MobileSMS"));
            assert_eq!(ready, None);
        }
        other => panic!("unexpected {:?}", other),
    }
    let ready = raw_event(|e| {
        e.event = Some("ready".into());
        e.process = Some("com.apple.findmy".into());
    });
    match event_action(&ready) {
        EventAction::Broadcast { registers, ready } => {
            assert_eq!(registers, None);
            assert_eq!(ready, Some(HelperKind::FindMy));
        }
        other => panic!("unexpected {:?}", other),
    }
}

#[test]
fn event_lines_split_dedup_and_trim() {
    let lines = event_lines("  {\"a\":1}\n\n{\"b\":2}\n {\"a\":1}\n  ");
    assert_eq!(lines, vec!["{\"a\":1}".to_string(), "{\"b\":2}".to_string(), "{\"a\":1}".to_string()]);
    assert!(event_lines("   ").is_empty());
}

#[test]
fn parse_findmy_locations_multiple() {
    let data: serde_json::Value = serde_json::from_str(
        r#"[
            {"handle": "+15551234567", "coordinates": [37.7749, -122.4194],
             "long_address": "San Francisco, CA", "status": "live"},
            {"handle": "user@icloud.com", "coordinates": [40.7128, -74.0060], "status": "legacy"}
        ]"#,
    )
    .unwrap();
    let raw = raw_event(|e| {
        e.event = Some("new-findmy-location".into());
        e.data = Some(to_json(&data));
    });
    let locations = parse_findmy_locations(&raw);
    assert_eq!(locations.len(), 2);
    assert_eq!(locations[0].handle, "+15551234567");
    assert_eq!(locations[0].status, "live");
    assert_eq!(locations[1].handle, "user@icloud.com");
}

#[test]
fn findmy_locations_skip_incomplete_items() {
    let items = Json::Array(vec![
        obj(vec![("handle", s("a")), ("coordinates", Json::Array(vec![Json::Int(1)]))]),
        obj(vec![("coordinates", Json::Array(vec![Json::Int(1), Json::Int(2)]))]),
        obj(vec![
            ("handle", s("b")),
            ("coordinates", Json::Array(vec![Json::Int(1), Json::Int(2)])),
            ("is_locating_in_progress", Json::Int(1)),
            ("last_updated", Json::Int(99)),
        ]),
    ]);
    let raw = raw_event(|e| e.data = Some(items));
    let l = parse_findmy_locations(&raw);
    assert_eq!(l.len(), 1);
    assert_eq!(l[0].handle, "b");
    assert_eq!(l[0].status, "unknown");
    assert!(l[0].is_locating_in_progress);
    assert_eq!(l[0].last_updated, Some(99));
    assert!(parse_findmy_locations(&raw_event(|e| e.data = Some(s("x")))).is_empty());
}

#[test]
fn transaction_settled_once() {
    let mut table = TransactionTable::new();
    table.create("t1", TransactionType::Message);
    table.create("t2", TransactionType::Chat);
    assert_eq!(table.pending_count(), 2);
    assert!(table.is_pending("t1"));
    let r = table.resolve("t1", "guid-1", Some(Json::Bool(true))).unwrap();
    assert_eq!(r.transaction_type, TransactionType::Message);
    assert_eq!(r.identifier, "guid-1");
    assert_eq!(r.data, Some(Json::Bool(true)));
    assert!(!table.is_pending("t1"));
    assert!(table.resolve("t1", "again", None).is_none());
    assert_eq!(table.expire("t1"), None);
    assert_eq!(table.pending_count(), 1);
}

#[test]
fn transaction_rejected_and_expired() {
    let mut table = TransactionTable::new();
    table.create("a", TransactionType::Attachment);
    table.create("b", TransactionType::FindMy);
    table.create("b", TransactionType::Handle);
    assert_eq!(table.pending_count(), 2);
    assert_eq!(table.reject("a", "boom"), Some("boom".to_string()));
    assert_eq!(table.take("b"), Some(TransactionType::Handle));
    table.create("c", TransactionType::Other);
    assert_eq!(table.expire("c"), Some("Transaction timeout".to_string()));
    assert_eq!(table.pending_count(), 0);
}

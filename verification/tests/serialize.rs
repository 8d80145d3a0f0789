use imessage_rs::db::{Attachment, Chat, Handle, Message};
use imessage_rs::json::Json;
use imessage_rs::plist::{decode_message_plist, PlistValue};
use imessage_rs::serialize::{
    serialize_attachment, serialize_chat, serialize_handle, serialize_message,
};
use imessage_rs::serializers::{
    AttachmentSerializerConfig, ChatSerializerConfig, MessageSerializerConfig, StringMap,
};

// ---------------------------------------------------------------------------
// Helpers
// ---------------------------------------------------------------------------

fn get<'a>(j: &'a Json, key: &str) -> Option<&'a Json> {
    match j {
        Json::Object(fields) => fields.iter().find(|(k, _)| k == key).map(|(_, v)| v),
        _ => None,
    }
}

fn at<'a>(j: &'a Json, key: &str) -> &'a Json {
    get(j, key).unwrap_or_else(|| panic!("missing key {key}"))
}

fn key_pos(j: &Json, key: &str) -> usize {
    match j {
        Json::Object(fields) => fields.iter().position(|(k, _)| k == key).unwrap(),
        _ => panic!("not an object"),
    }
}

fn s(v: &str) -> Json {
    Json::Str(v.to_string())
}

fn to_plist_value(v: &plist::Value) -> PlistValue {
    match v {
        plist::Value::Array(a) => PlistValue::Array(a.iter().map(to_plist_value).collect()),
        plist::Value::Dictionary(d) => PlistValue::Dictionary(
            d.iter().map(|(k, v)| (k.clone(), to_plist_value(v))).collect(),
        ),
        plist::Value::Boolean(b) => PlistValue::Boolean(*b),
        plist::Value::Data(b) => PlistValue::Data(
            b.clone(),
            plist::from_bytes::<plist::Value>(b)
                .ok()
                .map(|x| Box::new(to_plist_value(&x))),
        ),
        plist::Value::Date(d) => PlistValue::Date(d.to_xml_format()),
        plist::Value::Real(f) => PlistValue::Real(f.to_bits()),
        plist::Value::Integer(i) => match i.as_signed() {
            Some(n) => PlistValue::Integer(n as i128),
            None => match i.as_unsigned() {
                Some(n) => PlistValue::Integer(n as i128),
                None => PlistValue::Other,
            },
        },
        plist::Value::String(s) => PlistValue::String(s.clone()),
        plist::Value::Uid(u) => PlistValue::Uid(u.get()),
        _ => PlistValue::Other,
    }
}

fn binary_plist(val: &plist::Value) -> Vec<u8> {
    let mut buf = Vec::new();
    plist::to_writer_binary(&mut buf, val).unwrap();
    buf
}

fn no_mov(_: &str) -> bool {
    false
}

fn no_tool(_: &str) -> Option<String> {
    None
}

fn no_metadata(_: &StringMap, _: &str) -> Json {
    Json::Null
}

fn serialize_msg(msg: &Message, config: &MessageSerializerConfig, notification: bool) -> Json {
    let att_config = AttachmentSerializerConfig::default();
    serialize_message(
        msg,
        config,
        &att_config,
        notification,
        &no_mov,
        &no_tool,
        &no_tool,
        &no_metadata,
    )
}

fn serialize_att(a: &Attachment, config: &AttachmentSerializerConfig, notification: bool) -> Json {
    serialize_attachment(
        a,
        config,
        notification,
        &no_mov,
        &no_tool,
        &no_tool,
        &no_metadata,
    )
}

// ---------------------------------------------------------------------------
// Handles
// ---------------------------------------------------------------------------

fn test_handle() -> Handle {
    Handle {
        rowid: 42,
        id: "+15551234567".to_string(),
        country: Some("us".to_string()),
        service: "iMessage".to_string(),
        uncanonicalized_id: Some("+15551234567".to_string()),
    }
}

#[test]
fn serialize_full() {
    let json = serialize_handle(&test_handle(), false);
    assert_eq!(*at(&json, "originalROWID"), Json::Int(42));
    assert_eq!(*at(&json, "address"), s("+15551234567"));
    assert_eq!(*at(&json, "service"), s("iMessage"));
    assert_eq!(*at(&json, "uncanonicalizedId"), s("+15551234567"));
    assert_eq!(*at(&json, "country"), s("us"));
}

#[test]
fn serialize_notification() {
    let json = serialize_handle(&test_handle(), true);
    assert_eq!(*at(&json, "originalROWID"), Json::Int(42));
    assert_eq!(*at(&json, "address"), s("+15551234567"));
    assert!(get(&json, "country").is_none());
    assert!(get(&json, "uncanonicalizedId").is_none());
}

#[test]
fn field_order_matches_nodejs() {
    let json = serialize_handle(&test_handle(), false);
    let rowid_pos = key_pos(&json, "originalROWID");
    let address_pos = key_pos(&json, "address");
    let service_pos = key_pos(&json, "service");
    assert!(rowid_pos < address_pos);
    assert!(address_pos < service_pos);
}

// ---------------------------------------------------------------------------
// Chats
// ---------------------------------------------------------------------------

fn test_chat() -> Chat {
    Chat {
        rowid: 1,
        guid: "iMessage;-;+15551234567".to_string(),
        style: 45,
        chat_identifier: Some("+15551234567".to_string()),
        is_archived: false,
        display_name: None,
        is_filtered: false,
        group_id: None,
        last_addressed_handle: None,
        ..Default::default()
    }
}

#[test]
fn serialize_full_chat() {
    let config = ChatSerializerConfig::default();
    let json = serialize_chat(&test_chat(), &config, false);
    assert_eq!(*at(&json, "originalROWID"), Json::Int(1));
    assert_eq!(*at(&json, "guid"), s("iMessage;-;+15551234567"));
    assert_eq!(*at(&json, "style"), Json::Int(45));
    assert_eq!(*at(&json, "isArchived"), Json::Bool(false));
    assert!(get(&json, "isFiltered").is_some());
    assert!(get(&json, "groupId").is_some());
    assert!(get(&json, "properties").is_some());
    assert!(get(&json, "lastAddressedHandle").is_some());
}

#[test]
fn serialize_notification_chat() {
    let config = ChatSerializerConfig::default();
    let json = serialize_chat(&test_chat(), &config, true);
    assert_eq!(*at(&json, "originalROWID"), Json::Int(1));
    assert!(get(&json, "isFiltered").is_none());
    assert!(get(&json, "groupId").is_none());
}

#[test]
fn participants_included_by_default() {
    let config = ChatSerializerConfig::default();
    let json = serialize_chat(&test_chat(), &config, false);
    assert!(get(&json, "participants").is_some());
    assert!(matches!(at(&json, "participants"), Json::Array(_)));
}

#[test]
fn participants_excluded_when_configured() {
    let config = ChatSerializerConfig {
        include_participants: false,
        ..Default::default()
    };
    let json = serialize_chat(&test_chat(), &config, false);
    assert!(get(&json, "participants").is_none());
}

#[test]
fn chat_properties_blob_is_read() {
    let mut dict = plist::Dictionary::new();
    dict.insert("rp".to_string(), plist::Value::Boolean(true));
    let mut chat = test_chat();
    chat.properties = Some(binary_plist(&plist::Value::Dictionary(dict)));
    let json = serialize_chat(&chat, &ChatSerializerConfig::default(), false);
    // Chat properties keep their keys as they are.
    let props = at(&json, "properties");
    assert_eq!(*at(props, "rp"), Json::Bool(true));
}

// ---------------------------------------------------------------------------
// Attachments
// ---------------------------------------------------------------------------

fn test_attachment() -> Attachment {
    Attachment {
        rowid: 10,
        guid: "att-guid-1234".to_string(),
        uti: Some("public.jpeg".to_string()),
        mime_type: Some("image/jpeg".to_string()),
        transfer_name: Some("photo.jpg".to_string()),
        total_bytes: 123456,
        transfer_state: 5,
        is_outgoing: false,
        hide_attachment: Some(false),
        is_sticker: Some(false),
        original_guid: Some("original-guid-1234".to_string()),
        ..Default::default()
    }
}

#[test]
fn serialize_full_attachment() {
    let config = AttachmentSerializerConfig::default();
    let json = serialize_att(&test_attachment(), &config, false);
    assert_eq!(*at(&json, "originalROWID"), Json::Int(10));
    assert_eq!(*at(&json, "guid"), s("att-guid-1234"));
    assert_eq!(*at(&json, "uti"), s("public.jpeg"));
    assert_eq!(*at(&json, "mimeType"), s("image/jpeg"));
    assert_eq!(*at(&json, "transferName"), s("photo.jpg"));
    assert_eq!(*at(&json, "totalBytes"), Json::Int(123456));
    assert_eq!(*at(&json, "transferState"), Json::Int(5));
    assert_eq!(*at(&json, "isOutgoing"), Json::Bool(false));
    assert_eq!(*at(&json, "isSticker"), Json::Bool(false));
    assert_eq!(*at(&json, "hasLivePhoto"), Json::Bool(false));
}

#[test]
fn serialize_notification_attachment() {
    let config = AttachmentSerializerConfig::default();
    let json = serialize_att(&test_attachment(), &config, true);
    assert_eq!(*at(&json, "originalROWID"), Json::Int(10));
    assert!(get(&json, "transferState").is_none());
    assert!(get(&json, "isOutgoing").is_none());
    assert!(get(&json, "hasLivePhoto").is_none());
}

#[test]
fn metadata_included_by_default() {
    let config = AttachmentSerializerConfig::default();
    let json = serialize_att(&test_attachment(), &config, false);
    assert!(get(&json, "height").is_some());
    assert!(get(&json, "width").is_some());
}

#[test]
fn data_excluded_by_default() {
    let config = AttachmentSerializerConfig::default();
    let json = serialize_att(&test_attachment(), &config, false);
    assert!(get(&json, "data").is_none());
}

#[test]
fn attachment_dimensions_come_from_mdls() {
    let mut a = test_attachment();
    a.filename = Some("/tmp/photo.jpg".to_string());
    let mdls = |_: &str| -> Option<String> {
        Some("kMDItemPixelHeight = 1920\nkMDItemPixelWidth  = 1080\n".to_string())
    };
    let sips = |_: &str| -> Option<String> { Some("  pixelWidth: 7\n  pixelHeight: 9\n".to_string()) };
    let metadata = |m: &StringMap, _: &str| -> Json { Json::Int(m.len() as i64) };
    let json = serialize_attachment(
        &a,
        &AttachmentSerializerConfig::default(),
        false,
        &no_mov,
        &mdls,
        &sips,
        &metadata,
    );
    assert_eq!(*at(&json, "width"), Json::Uint(1080));
    assert_eq!(*at(&json, "height"), Json::Uint(1920));
    assert_eq!(*at(&json, "metadata"), Json::Int(2));
}

#[test]
fn attachment_dimensions_fall_back_to_sips() {
    let mut a = test_attachment();
    a.filename = Some("/tmp/photo.jpg".to_string());
    let sips = |_: &str| -> Option<String> {
        Some("/tmp/photo.jpg\n  pixelWidth: 640\n  pixelHeight: 480\n".to_string())
    };
    let json = serialize_attachment(
        &a,
        &AttachmentSerializerConfig::default(),
        false,
        &no_mov,
        &no_tool,
        &sips,
        &no_metadata,
    );
    assert_eq!(*at(&json, "width"), Json::Uint(640));
    assert_eq!(*at(&json, "height"), Json::Uint(480));
    assert_eq!(*at(&json, "metadata"), Json::Null);
}

#[test]
fn live_photo_reported_when_companion_exists() {
    let mut a = test_attachment();
    a.filename = Some("/tmp/IMG_1.HEIC".to_string());
    let mov = |p: &str| p == "/tmp/IMG_1.mov";
    let json = serialize_attachment(
        &a,
        &AttachmentSerializerConfig::default(),
        false,
        &mov,
        &no_tool,
        &no_tool,
        &no_metadata,
    );
    assert_eq!(*at(&json, "hasLivePhoto"), Json::Bool(true));
}

// ---------------------------------------------------------------------------
// Messages
// ---------------------------------------------------------------------------

fn test_message() -> Message {
    Message {
        rowid: 100,
        guid: "MSG-GUID-1234".to_string(),
        text: Some("Hello, world!".to_string()),
        handle_id: 1,
        handle: Some(Handle {
            rowid: 1,
            id: "+15551234567".to_string(),
            country: Some("us".to_string()),
            service: "iMessage".to_string(),
            uncanonicalized_id: None,
        }),
        date: Some(1700000000000),
        date_read: None,
        date_delivered: Some(1700000001000),
        is_from_me: false,
        is_delivered: true,
        is_archive: false,
        item_type: 0,
        group_action_type: 0,
        has_dd_results: false,
        error: 0,
        ..Default::default()
    }
}

#[test]
fn serialize_basic_message() {
    let config = MessageSerializerConfig {
        include_chats: false,
        ..Default::default()
    };
    let json = serialize_msg(&test_message(), &config, false);
    assert_eq!(*at(&json, "originalROWID"), Json::Int(100));
    assert_eq!(*at(&json, "guid"), s("MSG-GUID-1234"));
    assert_eq!(*at(&json, "text"), s("Hello, world!"));
    assert_eq!(*at(&json, "handleId"), Json::Int(1));
    assert_eq!(*at(&json, "isFromMe"), Json::Bool(false));
    assert_eq!(*at(&json, "isDelivered"), Json::Bool(true));
    assert_eq!(*at(&json, "dateCreated"), Json::Int(1700000000000));
    assert_eq!(*at(&json, "dateDelivered"), Json::Int(1700000001000));
    assert_eq!(*at(&json, "dateRead"), Json::Null);
}

#[test]
fn handle_serialized_inline() {
    let json = serialize_msg(&test_message(), &MessageSerializerConfig::default(), false);
    let handle = at(&json, "handle");
    assert!(matches!(handle, Json::Object(_)));
    assert_eq!(*at(handle, "address"), s("+15551234567"));
    assert_eq!(*at(handle, "service"), s("iMessage"));
}

#[test]
fn null_handle_when_missing() {
    let mut msg = test_message();
    msg.handle = None;
    let json = serialize_msg(&msg, &MessageSerializerConfig::default(), false);
    assert_eq!(*at(&json, "handle"), Json::Null);
}

#[test]
fn notification_excludes_non_essential_fields() {
    let json = serialize_msg(&test_message(), &MessageSerializerConfig::default(), true);
    assert!(get(&json, "originalROWID").is_some());
    assert!(get(&json, "guid").is_some());
    assert!(get(&json, "text").is_some());
    assert!(get(&json, "country").is_none());
    assert!(get(&json, "isDelayed").is_none());
    assert!(get(&json, "isAutoReply").is_none());
    assert!(get(&json, "shareStatus").is_none());
}

#[test]
fn is_expired_maps_to_is_expirable() {
    let mut msg = test_message();
    msg.is_expirable = true;
    let json = serialize_msg(&msg, &MessageSerializerConfig::default(), false);
    assert_eq!(*at(&json, "isExpired"), Json::Bool(true));
}

#[test]
fn has_payload_data_flag() {
    let mut msg = test_message();
    msg.payload_data = Some(vec![1, 2, 3]);
    let config = MessageSerializerConfig::default();
    let json = serialize_msg(&msg, &config, false);
    assert_eq!(*at(&json, "hasPayloadData"), Json::Bool(true));

    msg.payload_data = None;
    let json = serialize_msg(&msg, &config, false);
    assert_eq!(*at(&json, "hasPayloadData"), Json::Bool(false));
}

#[test]
fn empty_attachments_array() {
    let json = serialize_msg(&test_message(), &MessageSerializerConfig::default(), false);
    match at(&json, "attachments") {
        Json::Array(v) => assert_eq!(v.len(), 0),
        other => panic!("not an array: {other:?}"),
    }
}

#[test]
fn field_order_core() {
    let config = MessageSerializerConfig {
        include_chats: false,
        ..Default::default()
    };
    let json = serialize_msg(&test_message(), &config, true);
    let rowid_pos = key_pos(&json, "originalROWID");
    let guid_pos = key_pos(&json, "guid");
    let text_pos = key_pos(&json, "text");
    let handle_pos = key_pos(&json, "handle");
    let date_pos = key_pos(&json, "dateCreated");
    assert!(rowid_pos < guid_pos);
    assert!(guid_pos < text_pos);
    assert!(text_pos < handle_pos);
    assert!(handle_pos < date_pos);
}

#[test]
fn payload_decoded_when_configured() {
    let mut dict = plist::Dictionary::new();
    dict.insert("t".to_string(), plist::Value::String("hi".to_string()));
    let mut msg = test_message();
    msg.payload_data = Some(binary_plist(&plist::Value::Dictionary(dict)));
    let config = MessageSerializerConfig::for_sent_message();
    let json = serialize_msg(&msg, &config, false);
    let payload = at(&json, "payloadData");
    assert_eq!(*at(payload, "text"), s("hi"));
}

// ---------------------------------------------------------------------------
// Message property lists
// ---------------------------------------------------------------------------

#[test]
fn plist_decode_empty_data_returns_none() {
    assert!(decode_message_plist(&[]).is_none());
}

#[test]
fn plist_decode_invalid_data_returns_none() {
    assert!(decode_message_plist(b"not a plist").is_none());
}

#[test]
fn decode_simple_plist() {
    let mut dict = plist::Dictionary::new();
    dict.insert(
        "rp".to_string(),
        plist::Value::Array(vec![plist::Value::Integer(0.into())]),
    );
    let buf = binary_plist(&plist::Value::Dictionary(dict));
    let result = decode_message_plist(&buf).unwrap();
    assert!(get(&result, "retractedParts").is_some());
    assert_eq!(*at(&result, "retractedParts"), Json::Array(vec![Json::Int(0)]));
}

#[test]
fn single_element_dict_unwrap() {
    let mut dict = plist::Dictionary::new();
    dict.insert("0".to_string(), plist::Value::String("hello".to_string()));
    let buf = binary_plist(&plist::Value::Dictionary(dict));
    let result = decode_message_plist(&buf).unwrap();
    assert_eq!(result, s("hello"));
}

#[test]
fn range_object_conversion() {
    let mut dict = plist::Dictionary::new();
    dict.insert("lo".to_string(), plist::Value::Integer(5.into()));
    dict.insert("le".to_string(), plist::Value::Integer(10.into()));
    let buf = binary_plist(&plist::Value::Dictionary(dict));
    let result = decode_message_plist(&buf).unwrap();
    assert_eq!(result, Json::Array(vec![Json::Int(5), Json::Int(10)]));
}

#[test]
fn nested_plist_blob_is_decoded() {
    let mut inner = plist::Dictionary::new();
    inner.insert("d".to_string(), plist::Value::Integer(7.into()));
    let inner_buf = binary_plist(&plist::Value::Dictionary(inner));
    let mut outer = plist::Dictionary::new();
    outer.insert("ec".to_string(), plist::Value::Data(inner_buf));
    outer.insert("x".to_string(), plist::Value::Boolean(true));
    let buf = binary_plist(&plist::Value::Dictionary(outer));
    let result = decode_message_plist(&buf).unwrap();
    let edited = at(&result, "editedContent");
    assert_eq!(*at(edited, "date"), Json::Int(7));
    assert_eq!(*at(&result, "x"), Json::Bool(true));
}

use imessage_rs::json::Json;
use imessage_rs::sending::{
    caf_path, check_attachment_form, check_chunk_form, check_send_text_body, choose_attachment_method,
    choose_chunk_method, chunk_file_name, chunk_index_of, chunk_progress, inject_temp_guid,
    message_error_code, order_chunks, plan_send_text, read_chunk_number, read_form_flag,
    read_part_index, require_temp_guid, AttachmentForm, ChunkForm, SendPlan, SendTextBody,
};

fn get<'a>(j: &'a Json, key: &str) -> Option<&'a Json> {
    match j {
        Json::Object(fields) => fields.iter().find(|(k, _)| k == key).map(|(_, v)| v),
        _ => None,
    }
}

fn s(v: &str) -> Json {
    Json::Str(v.to_string())
}

fn body(message: &str) -> SendTextBody {
    SendTextBody {
        chat_guid: "iMessage;-;+1555".to_string(),
        temp_guid: Some("temp-1".to_string()),
        message: Some(message.to_string()),
        method: None,
        effect_id: None,
        subject: None,
        selected_message_guid: None,
        part_index: None,
        dd_scan: None,
        attributed_body: None,
        text_formatting: None,
    }
}

fn attachment_form() -> AttachmentForm {
    AttachmentForm {
        chat_guid: Some("chat".to_string()),
        temp_guid: None,
        file_name: Some("../photo.jpg".to_string()),
        file_data: Some(vec![1, 2, 3]),
        method: None,
        is_audio_message: false,
        subject: None,
        effect_id: None,
        selected_message_guid: None,
        part_index: None,
        attributed_body: None,
    }
}

fn chunk_form() -> ChunkForm {
    ChunkForm {
        chat_guid: Some("chat".to_string()),
        attachment_guid: Some("upload-1".to_string()),
        file_name: Some("video.mov".to_string()),
        chunk_index: Some(1),
        total_chunks: Some(3),
        is_complete: false,
        chunk_data: Some(vec![9]),
        method: None,
        is_audio_message: false,
        subject: None,
        effect_id: None,
        selected_message_guid: None,
        part_index: None,
    }
}

#[test]
fn text_body_needs_chat_and_content() {
    let mut b = body("hi");
    assert!(check_send_text_body(&b).is_ok());
    b.message = None;
    assert_eq!(
        check_send_text_body(&b).unwrap_err(),
        "message, subject, or attributedBody is required"
    );
    b.subject = Some("s".to_string());
    assert!(check_send_text_body(&b).is_ok());
    b.chat_guid = String::new();
    assert_eq!(check_send_text_body(&b).unwrap_err(), "chatGuid is required");
}

#[test]
fn markdown_becomes_formatting_for_private_api() {
    let b = body("**hi** there");
    match plan_send_text(&b, true, true).unwrap() {
        SendPlan::PrivateApi(a) => {
            assert_eq!(a.name, "send-message");
            assert_eq!(get(&a.data, "message"), Some(&s("hi there")));
            let expected = Json::Array(vec![Json::Object(vec![
                ("start".to_string(), Json::Uint(0)),
                ("length".to_string(), Json::Uint(2)),
                ("styles".to_string(), Json::Array(vec![s("bold")])),
            ])]);
            assert_eq!(get(&a.data, "textFormatting"), Some(&expected));
            assert_eq!(get(&a.data, "partIndex"), Some(&Json::Int(0)));
        }
        SendPlan::AppleScript(_) => panic!("expected the Private API"),
    }
}

#[test]
fn markdown_left_alone_when_option_off() {
    let b = body("**hi**");
    match plan_send_text(&b, true, false).unwrap() {
        SendPlan::PrivateApi(a) => {
            assert_eq!(get(&a.data, "message"), Some(&s("**hi**")));
            assert_eq!(get(&a.data, "textFormatting"), Some(&Json::Null));
        }
        SendPlan::AppleScript(_) => panic!("expected the Private API"),
    }
}

#[test]
fn applescript_when_private_api_off() {
    let b = body("hello");
    match plan_send_text(&b, false, true).unwrap() {
        SendPlan::AppleScript(t) => assert_eq!(t, "hello"),
        SendPlan::PrivateApi(_) => panic!("expected AppleScript"),
    }
    let mut b2 = body("hello");
    b2.temp_guid = Some(String::new());
    assert_eq!(
        plan_send_text(&b2, false, true).err().unwrap(),
        "A 'tempGuid' is required when sending via AppleScript"
    );
    let mut b3 = body("");
    b3.subject = None;
    b3.method = Some("apple-script".to_string());
    assert_eq!(
        plan_send_text(&b3, true, true).err().unwrap(),
        "A 'message' is required when sending via AppleScript"
    );
}

#[test]
fn features_force_private_api() {
    let mut b = body("hello");
    b.method = Some("apple-script".to_string());
    b.effect_id = Some("com.apple.MobileSMS.expressivesend.loud".to_string());
    match plan_send_text(&b, false, false).unwrap() {
        SendPlan::PrivateApi(a) => {
            assert_eq!(get(&a.data, "effectId"), Some(&s("com.apple.MobileSMS.expressivesend.loud")))
        }
        SendPlan::AppleScript(_) => panic!("expected the Private API"),
    }
}

#[test]
fn conflicting_styles_and_bad_method_refused() {
    let mut b = body("x");
    b.text_formatting = Some(Json::Array(vec![]));
    b.attributed_body = Some(Json::Null);
    assert_eq!(
        plan_send_text(&b, true, true).err().unwrap(),
        "Cannot provide both textFormatting and attributedBody"
    );
    let mut b2 = body("x");
    b2.method = Some("carrier-pigeon".to_string());
    assert_eq!(
        plan_send_text(&b2, true, false).err().unwrap(),
        "Invalid method 'carrier-pigeon'. Must be 'apple-script' or 'private-api'."
    );
}

#[test]
fn temp_guid_injected_into_objects_only() {
    let mut data = Json::Object(vec![("guid".to_string(), s("g"))]);
    inject_temp_guid(&mut data, Some("t1"));
    assert_eq!(get(&data, "tempGuid"), Some(&s("t1")));
    inject_temp_guid(&mut data, Some("t2"));
    assert_eq!(get(&data, "tempGuid"), Some(&s("t2")));
    match &data {
        Json::Object(f) => assert_eq!(f.len(), 2),
        _ => panic!(),
    }
    let mut arr = Json::Array(vec![]);
    inject_temp_guid(&mut arr, Some("t"));
    assert_eq!(arr, Json::Array(vec![]));
}

#[test]
fn error_code_of_sent_message() {
    let ok = Json::Object(vec![("error".to_string(), Json::Int(0))]);
    assert_eq!(message_error_code(&ok), 0);
    let bad = Json::Object(vec![("error".to_string(), Json::Int(22))]);
    assert_eq!(message_error_code(&bad), 22);
    assert_eq!(message_error_code(&Json::Null), 0);
}

#[test]
fn form_fields_read() {
    assert!(read_form_flag("true"));
    assert!(read_form_flag("1"));
    assert!(!read_form_flag("yes"));
    assert_eq!(read_part_index("-3"), Some(-3));
    assert_eq!(read_part_index("x"), None);
    assert_eq!(read_chunk_number("+7", "chunkIndex"), Ok(7));
    assert_eq!(
        read_chunk_number("-1", "totalChunks").unwrap_err(),
        "totalChunks must be a number"
    );
}

#[test]
fn attachment_form_checks() {
    assert_eq!(check_attachment_form(&attachment_form()).unwrap(), "photo.jpg");
    let mut f = attachment_form();
    f.file_data = Some(vec![]);
    assert_eq!(check_attachment_form(&f).unwrap_err(), "Attachment file is empty");
    f.file_data = None;
    assert_eq!(check_attachment_form(&f).unwrap_err(), "attachment file is required");
    f.chat_guid = None;
    assert_eq!(check_attachment_form(&f).unwrap_err(), "chatGuid is required");
    let mut g = attachment_form();
    g.file_name = None;
    assert_eq!(check_attachment_form(&g).unwrap(), "attachment");
}

#[test]
fn attachment_method_and_audio_path() {
    let mut f = attachment_form();
    assert_eq!(choose_attachment_method(&f, false), Ok(false));
    assert_eq!(choose_attachment_method(&f, true), Ok(true));
    f.subject = Some("s".to_string());
    assert_eq!(choose_attachment_method(&f, false), Ok(true));
    assert_eq!(caf_path("/a/voice.mp3", true), Some("/a/voice.caf".to_string()));
    assert_eq!(caf_path("/a/voice.mp3", false), None);
    assert_eq!(caf_path("/a/voice.m4a", true), None);
    assert!(require_temp_guid(&Some("t".to_string())).is_ok());
    assert!(require_temp_guid(&None).is_err());
}

#[test]
fn chunk_checks_in_order() {
    let u = check_chunk_form(&chunk_form()).unwrap();
    assert_eq!(u.attachment_guid, "upload-1");
    assert_eq!(u.name, "video.mov");
    let mut f = chunk_form();
    f.chunk_index = Some(3);
    assert_eq!(
        check_chunk_form(&f).unwrap_err(),
        "chunkIndex must be less than totalChunks"
    );
    f.chunk_data = Some(vec![]);
    assert_eq!(check_chunk_form(&f).unwrap_err(), "Chunk data is empty");
    f.file_name = None;
    assert_eq!(check_chunk_form(&f).unwrap_err(), "name is required");
    f.attachment_guid = None;
    assert_eq!(check_chunk_form(&f).unwrap_err(), "attachmentGuid is required");
    assert!(choose_chunk_method(&chunk_form(), true).unwrap());
}

#[test]
fn chunk_progress_reply() {
    let u = check_chunk_form(&chunk_form()).unwrap();
    let (message, data) = chunk_progress(&u);
    assert_eq!(message, "Chunk 1/3 uploaded successfully.");
    assert_eq!(get(&data, "remainingChunks"), Some(&Json::Uint(1)));
    assert_eq!(get(&data, "attachmentGuid"), Some(&s("upload-1")));
    assert_eq!(chunk_file_name(12, "video.mov"), "12-video.mov");
}

#[test]
fn chunks_assembled_in_index_order() {
    assert_eq!(chunk_index_of("12-video.mov"), Some(12));
    assert_eq!(chunk_index_of("x-video.mov"), None);
    assert_eq!(chunk_index_of("7"), Some(7));
    let found = vec![
        (2, "c".to_string()),
        (0, "a".to_string()),
        (1, "b".to_string()),
    ];
    assert_eq!(order_chunks(found, 3).unwrap(), vec!["a", "b", "c"]);
    let short = vec![(0, "a".to_string())];
    assert_eq!(
        order_chunks(short, 3).unwrap_err(),
        "Expected 3 chunks but only found 1"
    );
}

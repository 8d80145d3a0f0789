use imessage_rs::chat_routes::{
    contact_share_flag, extract_group_photo_guid, group_participant_count, icon_mime,
    messages_metadata, name_changed, participants_changed, pick_attachment_upload,
    pick_icon_upload, plan_chat_find, plan_chat_messages, rename_step, ChatMessagesParams,
    RenameStep, UploadField,
};
use imessage_rs::db::{Attachment, Chat, Handle, SortOrder};
use imessage_rs::json::Json;
use imessage_rs::macos::MacOsVersion;

fn sequoia() -> MacOsVersion {
    MacOsVersion { major: 15, minor: 0, patch: 0 }
}

fn handle(id: &str) -> Handle {
    Handle { rowid: 1, id: id.into(), country: None, service: "iMessage".into(), uncanonicalized_id: None }
}

#[test]
fn chat_messages_plan_defaults_and_caps() {
    let q = ChatMessagesParams {
        with_query: Some("Attachments, attributedBody".into()),
        limit: Some("5000".into()),
        offset: Some("x".into()),
        sort: Some("ASC".into()),
        before: Some("123".into()),
        ..Default::default()
    };
    let p = plan_chat_messages("iMessage;-;+1555", &q, sequoia());
    assert_eq!(p.params.chat_guid.as_deref(), Some("iMessage;-;+1555"));
    assert_eq!(p.params.limit, 1000);
    assert_eq!(p.params.offset, 0);
    assert_eq!(p.params.sort, SortOrder::Asc);
    assert_eq!(p.params.before, Some(123));
    assert_eq!(p.params.after, None);
    assert!(p.params.with_attachments);
    assert!(p.config.parse_attributed_body);
    assert!(!p.config.parse_payload_data);
    assert!(!p.config.load_chat_participants);
    assert!(!p.chat_check.with_participants);
    let p = plan_chat_messages("g", &ChatMessagesParams::default(), sequoia());
    assert_eq!(p.params.limit, 100);
    assert_eq!(p.params.sort, SortOrder::Desc);
    assert!(!p.params.with_attachments);
}

#[test]
fn chat_find_plan() {
    let (q, last) = plan_chat_find("g", &Some("participants,lastMessage".into()), sequoia());
    assert!(q.with_participants && last);
    assert_eq!(q.chat_guid.as_deref(), Some("g"));
    let (q, last) = plan_chat_find("g", &None, sequoia());
    assert!(!q.with_participants && !last);
}

#[test]
fn metadata_of_a_page() {
    let m = messages_metadata(0, 100, 42, 3);
    match m {
        Json::Object(f) => {
            let keys: Vec<&str> = f.iter().map(|(k, _)| k.as_str()).collect();
            assert_eq!(keys, vec!["offset", "limit", "total", "count"]);
            assert_eq!(f[2].1, Json::Int(42));
        }
        _ => panic!("not an object"),
    }
}

#[test]
fn rename_decisions() {
    let mut c = Chat { guid: "g".into(), display_name: Some("Old".into()), ..Default::default() };
    assert!(matches!(rename_step(&c, &None), RenameStep::Unchanged("Chat not updated! No update information provided!")));
    assert!(matches!(rename_step(&c, &Some(String::new())), RenameStep::Unchanged(_)));
    assert!(matches!(rename_step(&c, &Some("New".into())), RenameStep::Refused("Cannot rename a non-group chat!")));
    c.participants = vec![handle("a"), handle("b")];
    assert!(matches!(rename_step(&c, &Some("Old".into())), RenameStep::Unchanged("Successfully updated the following fields: displayName")));
    match rename_step(&c, &Some("New".into())) {
        RenameStep::Rename(n) => assert_eq!(n, "New"),
        other => panic!("unexpected {:?}", other),
    }
    assert!(!name_changed(&c, "Old"));
    assert!(name_changed(&c, "New"));
}

#[test]
fn participant_checks() {
    let mut c = Chat { participants: vec![handle("a")], ..Default::default() };
    assert_eq!(group_participant_count(&c), Err("Chat is not a group chat!"));
    c.participants.push(handle("b"));
    assert_eq!(group_participant_count(&c), Ok(2));
    assert!(!participants_changed(&c, 2));
    assert!(participants_changed(&c, 3));
}

fn field(name: Option<&str>, file: Option<&str>, data: &[u8]) -> UploadField {
    UploadField { name: name.map(|s| s.to_string()), file_name: file.map(|s| s.to_string()), data: data.to_vec() }
}

#[test]
fn icon_upload_picks_last_icon_field() {
    let fields = vec![
        field(Some("icon"), Some("a.png"), b"1"),
        field(Some("other"), Some("x.png"), b"2"),
        field(Some("file"), None, b"3"),
    ];
    let (name, data) = pick_icon_upload(&fields).unwrap();
    assert_eq!(name, "a.png");
    assert_eq!(data, b"3".to_vec());
    assert_eq!(pick_icon_upload(&vec![field(Some("x"), None, b"1")]).unwrap_err(), "icon file is required");
}

#[test]
fn attachment_upload_checks() {
    let (name, data) = pick_attachment_upload(&vec![field(Some("attachment"), None, b"abc")]).unwrap();
    assert_eq!(name, "upload");
    assert_eq!(data, b"abc".to_vec());
    assert_eq!(pick_attachment_upload(&vec![]).unwrap_err(), "No attachment file provided");
    assert_eq!(
        pick_attachment_upload(&vec![field(Some("attachment"), Some("a"), b"")]).unwrap_err(),
        "Attachment file is empty"
    );
}

#[test]
fn group_photo_from_bytes() {
    let mut blob = b"\x00\x01at_0_ABCDEF12-3456/extra\x00more at_1_ZZZZZZZZZZZZ\x01xyz".to_vec();
    assert_eq!(extract_group_photo_guid(&blob), Some("at_1_ZZZZZZZZZZZZ".to_string()));
    blob.truncate(28);
    assert_eq!(extract_group_photo_guid(&blob), Some("at_0_ABCDEF12-3456".to_string()));
    assert_eq!(extract_group_photo_guid(b"at_short\x00"), None);
}

#[test]
fn group_photo_from_plist() {
    let mut dict = plist::Dictionary::new();
    dict.insert("groupPhotoGuid".to_string(), plist::Value::String("UUID-1".to_string()));
    let mut blob = Vec::new();
    plist::to_writer_binary(&mut blob, &plist::Value::Dictionary(dict)).unwrap();
    assert_eq!(extract_group_photo_guid(&blob), Some("UUID-1".to_string()));
}

#[test]
fn icon_and_share_helpers() {
    let mut a = Attachment::default();
    assert_eq!(icon_mime(&a), "image/jfif");
    a.mime_type = Some("image/png".into());
    assert_eq!(icon_mime(&a), "image/png");
    let d = Json::Object(vec![("share".into(), Json::Bool(true))]);
    assert_eq!(contact_share_flag(Some(&d)), Ok(true));
    assert!(contact_share_flag(Some(&Json::Null)).is_err());
    assert!(contact_share_flag(None).is_err());
}

use imessage_rs::reactions::{check_reaction, decode_sticker_data_url, ReactionBody, StickerPart};

fn body(reaction: &str, sticker: Option<&str>) -> ReactionBody {
    ReactionBody {
        chat_guid: "iMessage;-;+1555".into(),
        selected_message_guid: "m1".into(),
        reaction: reaction.into(),
        part_index: None,
        sticker: sticker.map(|s| s.to_string()),
    }
}

#[test]
fn sticker_data_url_decodes() {
    let d = decode_sticker_data_url("data:image/jpeg;base64,AAEC").unwrap();
    assert_eq!(d.ext, "jpg");
    assert_eq!(d.bytes, vec![0u8, 1, 2]);
    let d = decode_sticker_data_url("data:image/bmp;base64,AAEC").unwrap();
    assert_eq!(d.ext, "png");
}

#[test]
fn sticker_data_url_errors() {
    assert_eq!(
        decode_sticker_data_url("image/png;base64,AAEC").unwrap_err(),
        "Invalid sticker data URL: must start with 'data:'"
    );
    assert_eq!(
        decode_sticker_data_url("data:image/png,AAEC").unwrap_err(),
        "Invalid sticker data URL: expected ';base64,' separator"
    );
    assert!(decode_sticker_data_url("data:image/png;base64,!!!").unwrap_err().starts_with("Invalid sticker base64 data: "));
    assert_eq!(decode_sticker_data_url("data:image/png;base64,").unwrap_err(), "Sticker data is empty");
    assert_eq!(
        decode_sticker_data_url("data:text/plain;base64,AAEC").unwrap_err(),
        "Invalid sticker MIME type: \"text/plain\". Must be an image type (e.g. image/png, image/jpeg)."
    );
}

#[test]
fn reaction_kinds() {
    let p = check_reaction(&body("love", None)).unwrap();
    assert!(p.emoji.is_none() && matches!(p.sticker, StickerPart::NoSticker));
    let p = check_reaction(&body("-sticker", None)).unwrap();
    assert!(matches!(p.sticker, StickerPart::Remove));
    let p = check_reaction(&body("sticker", Some("data:image/png;base64,AAEC"))).unwrap();
    assert!(matches!(p.sticker, StickerPart::Add(_)));
    let p = check_reaction(&body("-👍", None)).unwrap();
    assert_eq!(p.emoji.as_deref(), Some("👍"));
}

#[test]
fn reaction_errors() {
    let mut b = body("love", None);
    b.chat_guid = String::new();
    assert_eq!(check_reaction(&b).unwrap_err(), "chatGuid is required");
    let mut b = body("love", None);
    b.selected_message_guid = String::new();
    assert_eq!(check_reaction(&b).unwrap_err(), "selectedMessageGuid is required");
    assert_eq!(check_reaction(&body("", None)).unwrap_err(), "reaction is required");
    assert_eq!(
        check_reaction(&body("sticker", None)).unwrap_err(),
        "sticker data URL is required for sticker reactions"
    );
    assert_eq!(
        check_reaction(&body("wow", None)).unwrap_err(),
        "Invalid reaction: \"wow\". Must be a classic reaction (love, like, dislike, laugh, emphasize, question), \"sticker\", or a single emoji."
    );
}

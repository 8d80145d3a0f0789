use imessage_rs::db::Attachment;
use imessage_rs::downloads::{
    cache_guid, check_blurhash_source, conversion_for, converted_file, is_jpeg_source, resize_plan,
    served_mime, wants_original, Conversion,
};

fn att() -> Attachment {
    Attachment { guid: "att-1".into(), ..Default::default() }
}

#[test]
fn served_mime_prefers_own_type() {
    let mut a = att();
    a.mime_type = Some("image/png".into());
    a.transfer_name = Some("x.jpg".into());
    assert_eq!(served_mime(&a), "image/png");
}

#[test]
fn served_mime_guesses_from_transfer_name() {
    let mut a = att();
    a.mime_type = Some(String::new());
    a.transfer_name = Some("photo.jpg".into());
    assert_eq!(served_mime(&a), "image/jpeg");
    a.transfer_name = Some("noext".into());
    assert_eq!(served_mime(&a), "application/octet-stream");
    a.transfer_name = None;
    assert_eq!(served_mime(&a), "application/octet-stream");
}

#[test]
fn original_flag_values() {
    assert!(wants_original(&Some("TRUE".into())));
    assert!(wants_original(&Some("1".into())));
    assert!(!wants_original(&Some("yes".into())));
    assert!(!wants_original(&None));
}

#[test]
fn conversions_by_type() {
    assert_eq!(conversion_for(&Some("public.heic".into()), "application/octet-stream"), Some(Conversion::Jpeg));
    assert_eq!(conversion_for(&None, "image/tiff"), Some(Conversion::Jpeg));
    assert_eq!(conversion_for(&Some("com.apple.coreaudio-format".into()), "x"), Some(Conversion::M4a));
    assert_eq!(conversion_for(&None, "audio/x-caf"), Some(Conversion::M4a));
    assert_eq!(conversion_for(&None, "image/png"), None);
    assert!(is_jpeg_source("public.heif", ""));
    assert!(!is_jpeg_source("public.png", "image/png"));
}

#[test]
fn converted_names() {
    assert_eq!(converted_file(&Some("IMG_1.HEIC".into()), Conversion::Jpeg), ("IMG_1.HEIC.jpeg".to_string(), "image/jpeg".to_string()));
    assert_eq!(converted_file(&None, Conversion::Jpeg).0, "converted.jpeg");
    assert_eq!(converted_file(&None, Conversion::M4a), ("audio.m4a".to_string(), "audio/mp4".to_string()));
}

#[test]
fn cache_dir_uses_original_guid() {
    let mut a = att();
    assert_eq!(cache_guid(&a), "att-1");
    a.original_guid = Some("orig".into());
    assert_eq!(cache_guid(&a), "orig");
}

#[test]
fn resize_only_images_with_dimensions() {
    let p = resize_plan("image/png", &Some("a.png".into()), &Some("100".into()), &Some("50".into())).unwrap();
    assert_eq!(p.cache_name, "a.png.50.100");
    assert_eq!((p.width, p.height), (Some(100), Some(50)));
    let p = resize_plan("image/jpeg", &None, &Some("+7".into()), &Some("x".into())).unwrap();
    assert_eq!(p.cache_name, "attachment.7");
    assert!(resize_plan("image/gif", &None, &Some("10".into()), &None).is_none());
    assert!(resize_plan("video/mp4", &None, &Some("10".into()), &None).is_none());
    assert!(resize_plan("image/png", &None, &Some("-1".into()), &None).is_none());
}

#[test]
fn blurhash_needs_an_image() {
    let mut a = att();
    a.mime_type = Some("image/png".into());
    assert_eq!(check_blurhash_source(&a), Ok("image/png".to_string()));
    a.mime_type = Some(String::new());
    a.uti = Some("public.jpeg".into());
    assert_eq!(check_blurhash_source(&a), Ok("public.jpeg".to_string()));
    a.uti = Some("com.adobe.pdf".into());
    assert_eq!(
        check_blurhash_source(&a),
        Err("Blurhash can only be generated for image attachments".to_string())
    );
}

use imessage_rs::http::{
    get_live_photo_path_in, is_truthy_bool, normalize_chat_guid, parse_opt_i64,
    parse_with_query, resolve_relative_path_in_base, resolve_send_method,
    sanitize_filename, sanitize_header_filename, sanitize_path_component,
    validate_facetime_link, with_has,
};
use imessage_rs::macos::MacOsVersion;

#[test]
fn sanitize_filename_strips_path_parts() {
    assert_eq!(sanitize_filename("../a/b.txt", "fallback"), "b.txt");
    assert_eq!(sanitize_filename("C:\\tmp\\x.png", "fallback"), "x.png");
    assert_eq!(sanitize_filename("..", "fallback"), "fallback");
}

#[test]
fn sanitize_path_component_rejects_traversal() {
    assert!(sanitize_path_component("../x", "attachmentGuid").is_err());
    assert!(sanitize_path_component("a/b", "attachmentGuid").is_err());
    assert!(sanitize_path_component("/tmp/x", "attachmentGuid").is_err());
}

#[test]
fn resolve_relative_path_rejects_parent() {
    let base = "/tmp/base";
    assert!(resolve_relative_path_in_base(base, "../x", "attachment").is_err());
    assert!(resolve_relative_path_in_base(base, "/tmp/x", "attachment").is_err());
}

#[test]
fn parse_with_query_none() {
    assert!(parse_with_query(None).is_empty());
}

#[test]
fn parse_with_query_single() {
    let result = parse_with_query(Some("chat"));
    assert_eq!(result, vec!["chat"]);
}

#[test]
fn parse_with_query_multiple() {
    let result = parse_with_query(Some("chat,attachment,chat.participants"));
    assert_eq!(result, vec!["chat", "attachment", "chat.participants"]);
}

#[test]
fn parse_with_query_whitespace() {
    let result = parse_with_query(Some(" chat , attachment "));
    assert_eq!(result, vec!["chat", "attachment"]);
}

#[test]
fn parse_with_query_lowercased() {
    let result = parse_with_query(Some("Chat,ATTACHMENT"));
    assert_eq!(result, vec!["chat", "attachment"]);
}

#[test]
fn with_has_match() {
    let query = parse_with_query(Some("chat,attachment"));
    assert!(with_has(&query, &["chat", "chats"]));
    assert!(with_has(&query, &["attachment", "attachments"]));
    assert!(!with_has(&query, &["participants"]));
}

#[test]
fn normalize_chat_guid_on_tahoe() {
    for v in [MacOsVersion::new(26, 3, 0), MacOsVersion::new(15, 0, 0)] {
        let result = normalize_chat_guid("iMessage;-;+15551234567", v);
        if v.is_min_tahoe() {
            assert_eq!(result, "any;-;+15551234567");
        } else {
            assert_eq!(result, "iMessage;-;+15551234567");
        }
    }
}

#[test]
fn normalize_chat_guid_already_any() {
    let result = normalize_chat_guid("any;-;+15551234567", MacOsVersion::new(26, 3, 0));
    assert_eq!(result, "any;-;+15551234567");
}

// --- further cases -------------------------------------------------------------

#[test]
fn normalize_chat_guid_sms_on_tahoe() {
    assert_eq!(normalize_chat_guid("SMS;-;+1555", MacOsVersion::new(26, 0, 0)), "any;-;+1555");
    assert_eq!(normalize_chat_guid("SMS;-;+1555", MacOsVersion::new(25, 9, 9)), "SMS;-;+1555");
}

#[test]
fn parse_with_query_drops_empty_items() {
    assert_eq!(parse_with_query(Some(",, a ,,")), vec!["a"]);
    assert!(parse_with_query(Some("")).is_empty());
}

#[test]
fn parse_opt_i64_cases() {
    assert_eq!(parse_opt_i64(None), None);
    assert_eq!(parse_opt_i64(Some("42")), Some(42));
    assert_eq!(parse_opt_i64(Some("-7")), Some(-7));
    assert_eq!(parse_opt_i64(Some("+7")), Some(7));
    assert_eq!(parse_opt_i64(Some("x")), None);
    assert_eq!(parse_opt_i64(Some("9223372036854775808")), None);
}

#[test]
fn truthy_values() {
    assert!(is_truthy_bool("TRUE"));
    assert!(is_truthy_bool("1"));
    assert!(is_truthy_bool("Yes"));
    assert!(!is_truthy_bool("no"));
    assert!(!is_truthy_bool(""));
}

#[test]
fn send_method_resolution() {
    assert_eq!(resolve_send_method(Some("private-api"), false), Ok("private-api"));
    assert_eq!(resolve_send_method(Some("apple-script"), true), Ok("apple-script"));
    assert_eq!(resolve_send_method(None, true), Ok("private-api"));
    assert_eq!(resolve_send_method(None, false), Ok("apple-script"));
    assert_eq!(
        resolve_send_method(Some("smoke"), true),
        Err("Invalid method 'smoke'. Must be 'apple-script' or 'private-api'.".to_string())
    );
}

#[test]
fn facetime_link_validation() {
    assert_eq!(
        validate_facetime_link(""),
        Err("Generated FaceTime link is empty!".to_string())
    );
    assert!(validate_facetime_link("https://facetime.apple.com/join#v=1").is_ok());
    assert_eq!(
        validate_facetime_link("http://x"),
        Err("Generated link doesn't look like a FaceTime URL: http://x".to_string())
    );
}

#[test]
fn sanitize_path_component_messages() {
    let e = sanitize_path_component("  ", "f").unwrap_err();
    assert_eq!(e.status, 400);
    assert_eq!(e.error_type, "Validation Error");
    assert_eq!(e.error_message, "f is required");
    assert_eq!(
        sanitize_path_component("..", "f").unwrap_err().error_message,
        "f must not contain path traversal segments"
    );
    assert_eq!(
        sanitize_path_component(".", "f").unwrap_err().error_message,
        "f must be a single path component"
    );
    assert_eq!(sanitize_path_component(" ok ", "f").unwrap(), "ok".to_string());
}

#[test]
fn header_filename_replaces_unsafe_chars() {
    assert_eq!(sanitize_header_filename("a b\"c.txt", "f"), "a_b_c.txt");
    assert_eq!(sanitize_header_filename("\"\"", "f"), "f");
}

#[test]
fn relative_path_inside_base() {
    assert_eq!(
        resolve_relative_path_in_base("/tmp/base", "sub/./x.png", "attachment").unwrap(),
        "/tmp/base/sub/x.png".to_string()
    );
    let e = resolve_relative_path_in_base("/tmp/base", "../x", "attachment").unwrap_err();
    assert_eq!(e.status, 400);
    assert_eq!(e.error_message, "attachment must not contain path traversal segments");
}

#[test]
fn live_photo_companion_found_only_when_present() {
    let home = Some("/Users/me".to_string());
    let present = |p: &str| p == "/Users/me/Pictures/IMG_1.mov";
    assert_eq!(
        get_live_photo_path_in("~/Pictures/IMG_1.HEIC", &home, &present),
        Some("/Users/me/Pictures/IMG_1.mov".to_string())
    );
    assert_eq!(get_live_photo_path_in("~/Pictures/IMG_2.HEIC", &home, &present), None);
    let any = |_p: &str| true;
    assert_eq!(
        get_live_photo_path_in("/a/b.heic.jpeg", &home, &any),
        Some("/a/b.mov".to_string())
    );
    assert_eq!(get_live_photo_path_in("/a/b.gif", &home, &any), None);
    assert_eq!(get_live_photo_path_in("/a/.png", &home, &any), None);
    assert_eq!(get_live_photo_path_in("/a/b.png/", &home, &any), Some("/a/b.mov".to_string()));
}

#[test]
fn normalize_chat_guid_twice_on_tahoe() {
    let v = MacOsVersion::new(26, 0, 0);
    let once = normalize_chat_guid("SMS;-;+15551234567", v);
    assert_eq!(once, "any;-;+15551234567");
    assert_eq!(normalize_chat_guid(&once, v), once);
    assert_eq!(normalize_chat_guid("any;+;chat42", v), "any;+;chat42");
}

#[test]
fn live_photo_only_for_image_extensions() {
    let home = None;
    let any = |_p: &str| true;
    assert_eq!(get_live_photo_path_in("/a/b.txt", &home, &any), None);
    assert_eq!(get_live_photo_path_in("/a/b", &home, &any), None);
    assert_eq!(
        get_live_photo_path_in("/a/b.JPG", &home, &any),
        Some("/a/b.mov".to_string())
    );
    assert_eq!(
        get_live_photo_path_in("/a/b.tiff", &home, &any),
        Some("/a/b.mov".to_string())
    );
}

use imessage_rs::macos::MacOsVersion;
use imessage_rs::scripts::{
    build_attachment_script, build_message_script, build_service_script, extract_osa_error,
    get_address_from_input, get_service_from_input, restart_messages, send_message,
    send_message_fallback, start_chat, start_messages,
};

fn tahoe() -> MacOsVersion {
    MacOsVersion::new(26, 3, 0)
}

fn sequoia() -> MacOsVersion {
    MacOsVersion::new(15, 0, 0)
}

fn identity(s: &str) -> String {
    s.to_string()
}

#[test]
fn extract_osa_error_strips_prefix() {
    let e = extract_osa_error("execution error: Group chat does not exist. (-2700)");
    assert_eq!(e, "Group chat does not exist");
}

#[test]
fn extract_osa_error_passthrough() {
    let e = extract_osa_error("some other error");
    assert_eq!(e, "some other error");
}

#[test]
fn get_address_extracts_last_segment() {
    assert_eq!(get_address_from_input("iMessage;-;+15551234567"), "+15551234567");
    assert_eq!(get_address_from_input("SMS;-;+15551234567"), "+15551234567");
    assert_eq!(get_address_from_input("no-semicolons"), "no-semicolons");
}

#[test]
fn get_service_extracts_first_segment() {
    assert_eq!(get_service_from_input("iMessage;-;+15551234567"), "iMessage");
    assert_eq!(get_service_from_input("SMS;-;+15551234567"), "SMS");
    assert_eq!(get_service_from_input("any;-;+15551234567"), "iMessage");
    assert_eq!(get_service_from_input("no-semicolons"), "iMessage");
}

#[test]
fn send_message_returns_none_for_empty() {
    assert!(send_message("", "hello", "", tahoe(), &identity).is_none());
    assert!(send_message("iMessage;-;+15551234567", "", "", tahoe(), &identity).is_none());
}

#[test]
fn send_message_tahoe_uses_any_prefix() {
    let script = send_message("iMessage;-;+15551234567", "hello", "", tahoe(), &identity).unwrap();
    assert!(script.contains("any;-;+15551234567"));
    assert!(!script.contains("iMessage;-;"));
}

#[test]
fn send_message_sequoia_keeps_imessage_prefix() {
    let script =
        send_message("iMessage;-;+15551234567", "hello", "", sequoia(), &identity).unwrap();
    assert!(script.contains("iMessage;-;+15551234567"));
}

#[test]
fn build_service_uses_account() {
    let s = build_service_script("iMessage");
    assert!(s.contains("1st account whose service type"));
}

#[test]
fn restart_messages_includes_delay() {
    let s = restart_messages(5);
    assert!(s.contains("delay 5"));
}

#[test]
fn start_chat_uses_make_new_chat() {
    let s = start_chat(&["buddy1".to_string()], "iMessage", None);
    assert!(s.contains("make new chat"));
    assert!(!s.contains("text chat"));
}

#[test]
fn fallback_rejects_group_chats() {
    let result = send_message_fallback("iMessage;+;chat123456", "hello", "");
    assert!(result.is_err());
}

#[test]
fn fallback_uses_participant() {
    let script = send_message_fallback("iMessage;-;+15551234567", "hello", "").unwrap().unwrap();
    assert!(script.contains("participant"));
}

// --- further cases -------------------------------------------------------------

#[test]
fn service_script_exact_text() {
    assert_eq!(
        build_service_script("SMS"),
        "set targetService to 1st account whose service type = SMS"
    );
}

#[test]
fn message_script_escapes_quotes_and_skips_blank() {
    assert_eq!(
        build_message_script("say \"hi\"", "targetChat"),
        "send \"say \\\"hi\\\"\" to targetChat"
    );
    assert_eq!(build_message_script("   ", "targetChat"), "");
}

#[test]
fn attachment_script_blank_is_empty() {
    assert_eq!(build_attachment_script("  ", "theAttachment", "targetChat"), "");
    let s = build_attachment_script("/tmp/a.png", "theAttachment", "targetChat");
    assert!(s.starts_with("set theAttachment to \"/tmp/a.png\" as POSIX file"));
    assert!(s.ends_with("delay 1"));
}

#[test]
fn send_message_without_semicolon_is_none() {
    assert!(send_message("nosemicolon", "hello", "", tahoe(), &identity).is_none());
}

#[test]
fn send_message_formats_dm_address() {
    let upper = |s: &str| s.to_uppercase();
    let script = send_message("iMessage;-;abc@example.com", "hi", "", sequoia(), &upper).unwrap();
    assert!(script.contains("iMessage;-;ABC@EXAMPLE.COM"));
}

#[test]
fn fallback_empty_message_is_none() {
    assert_eq!(send_message_fallback("iMessage;-;+1555", "", ""), Ok(None));
}

#[test]
fn fallback_error_text() {
    assert_eq!(
        send_message_fallback("iMessage;+;chat1", "hello", ""),
        Err("Can't use the send message (fallback) script to text a group chat!".to_string())
    );
}

#[test]
fn start_messages_names_messages_app() {
    assert!(start_messages().starts_with("set appName to \"Messages\""));
}

#[test]
fn extract_osa_error_without_code() {
    assert_eq!(extract_osa_error("execution error: Broken."), "Broken.");
}

use imessage_rs::clock::{clock_ms, current_unix_ms};
use imessage_rs::private_api::{port_for_uid, FaceTimeStatus, MAX_PORT, MIN_PORT};
use imessage_rs::serializers::{has_live_photo_in, parse_mdls_output, rename_key};
use imessage_rs::watcher::{
    group_change_event, is_text_empty, ChatState, PollerState,
};
use imessage_rs::webhooks::{matches_event, plan_dispatch, EventCache, WebhookTarget, TTL_MS};

#[test]
fn facetime_status_from_i64() {
    assert_eq!(FaceTimeStatus::from_i64(0), FaceTimeStatus::Unknown);
    assert_eq!(FaceTimeStatus::from_i64(1), FaceTimeStatus::Answered);
    assert_eq!(FaceTimeStatus::from_i64(4), FaceTimeStatus::Incoming);
    assert_eq!(FaceTimeStatus::from_i64(6), FaceTimeStatus::Disconnected);
    assert_eq!(FaceTimeStatus::from_i64(99), FaceTimeStatus::Unknown);
}

#[test]
fn port_calculation_first_user() {
    assert_eq!(MIN_PORT as u32 + 501u32.saturating_sub(501), MIN_PORT as u32);
    assert_eq!(port_for_uid(501), MIN_PORT);
}

#[test]
fn port_clamped_to_max() {
    let uid = 100000u32;
    let port = MIN_PORT as u32 + uid.saturating_sub(501);
    let clamped = port.min(MAX_PORT as u32) as u16;
    assert_eq!(clamped, MAX_PORT);
    assert_eq!(port_for_uid(uid), MAX_PORT);
}

#[test]
fn parse_mdls_output_basic() {
    let output = "kMDItemPixelHeight = 1920\nkMDItemPixelWidth  = 1080\nkMDItemFSSize      = 123456\nkMDItemColorSpace  = \"sRGB\"\n";
    let map = parse_mdls_output(output);
    assert_eq!(map.get("kMDItemPixelHeight").unwrap(), "1920");
    assert_eq!(map.get("kMDItemPixelWidth").unwrap(), "1080");
    assert_eq!(map.get("kMDItemFSSize").unwrap(), "123456");
    assert_eq!(map.get("kMDItemColorSpace").unwrap(), "sRGB");
}

#[test]
fn parse_mdls_output_null_skipped() {
    let output = "kMDItemLatitude = (null)\nkMDItemPixelWidth = 500\n";
    let map = parse_mdls_output(output);
    assert!(!map.contains_key("kMDItemLatitude"));
    assert_eq!(map.get("kMDItemPixelWidth").unwrap(), "500");
}

#[test]
fn rename_known_keys() {
    assert_eq!(rename_key("rp"), "retractedParts");
    assert_eq!(rename_key("ec"), "editedContent");
    assert_eq!(rename_key("ep"), "editedParts");
    assert_eq!(rename_key("d"), "date");
    assert_eq!(rename_key("t"), "text");
    assert_eq!(rename_key("unknown"), "unknown");
}

#[test]
fn current_unix_ms_is_reasonable() {
    let ms = current_unix_ms();
    assert!(ms > 1_704_067_200_000);
}

#[test]
fn new_poller_state_is_empty() {
    let state = PollerState::new();
    assert!(state.seen_guids.is_empty());
    assert!(state.message_states.is_empty());
    assert!(state.chat_states.is_empty());
}

#[test]
fn is_text_empty_checks() {
    assert!(is_text_empty(&None));
    assert!(is_text_empty(&Some("".to_string())));
    assert!(is_text_empty(&Some("  ".to_string())));
    assert!(!is_text_empty(&Some("hello".to_string())));
}

#[test]
fn group_change_mapping() {
    assert_eq!(group_change_event(1, 0), Some("participant-added"));
}

#[test]
fn cache_trim_removes_old_entries() {
    let mut state = PollerState::new();
    state.cache_ttl_ms = 0;
    state.chat_states.push((
        "test".to_string(),
        ChatState { last_read_message_timestamp: 100, cache_time: clock_ms() - 1000 },
    ));
    state.trim_caches();
    assert!(state.chat_states.is_empty());
}

#[test]
fn new_events_are_not_duplicates() {
    let mut cache = EventCache::new();
    assert!(!cache.is_duplicate("event-1"));
    assert!(!cache.is_duplicate("event-2"));
    assert_eq!(cache.len(), 2);
}

#[test]
fn repeated_events_are_duplicates() {
    let mut cache = EventCache::new();
    assert!(!cache.is_duplicate("event-1"));
    assert!(cache.is_duplicate("event-1"));
    assert!(cache.is_duplicate("event-1"));
}

#[test]
fn different_events_are_independent() {
    let mut cache = EventCache::new();
    assert!(!cache.is_duplicate("event-1"));
    assert!(!cache.is_duplicate("event-2"));
    assert!(cache.is_duplicate("event-1"));
    assert!(cache.is_duplicate("event-2"));
}

fn test_webhook(events: Vec<String>) -> WebhookTarget {
    WebhookTarget { url: "http://example.com".to_string(), events }
}

#[test]
fn wildcard_matches_all() {
    let target = test_webhook(vec!["*".to_string()]);
    assert!(matches_event(&target, "new-message"));
    assert!(matches_event(&target, "typing-indicator"));
    assert!(matches_event(&target, "anything"));
}

#[test]
fn specific_events_filter() {
    let target = test_webhook(vec!["new-message".to_string(), "updated-message".to_string()]);
    assert!(matches_event(&target, "new-message"));
    assert!(matches_event(&target, "updated-message"));
    assert!(!matches_event(&target, "typing-indicator"));
}

#[test]
fn empty_events_matches_nothing() {
    let target = test_webhook(vec![]);
    assert!(!matches_event(&target, "new-message"));
}

// --- further cases -------------------------------------------------------------

#[test]
fn facetime_status_roundtrip_codes() {
    for s in [
        FaceTimeStatus::Answered,
        FaceTimeStatus::Outgoing,
        FaceTimeStatus::Incoming,
        FaceTimeStatus::Disconnected,
    ] {
        assert_eq!(FaceTimeStatus::from_i64(s.code()), s);
    }
    assert_eq!(FaceTimeStatus::Incoming.as_str(), "incoming");
}

#[test]
fn port_below_first_user_is_min() {
    assert_eq!(port_for_uid(0), MIN_PORT);
    assert_eq!(port_for_uid(502), MIN_PORT + 1);
}

#[test]
fn group_change_other_codes() {
    assert_eq!(group_change_event(1, 1), Some("participant-removed"));
    assert_eq!(group_change_event(2, 7), Some("group-name-change"));
    assert_eq!(group_change_event(3, 0), Some("participant-left"));
    assert_eq!(group_change_event(3, 1), Some("group-icon-changed"));
    assert_eq!(group_change_event(3, 2), Some("group-icon-removed"));
    assert_eq!(group_change_event(0, 0), None);
    assert_eq!(group_change_event(3, 3), None);
}

#[test]
fn event_cache_expiry_by_explicit_time() {
    let mut cache = EventCache::new();
    assert!(!cache.is_duplicate_at("k", 1_000));
    assert!(cache.is_duplicate_at("k", 1_000 + TTL_MS - 1));
    assert!(!cache.is_duplicate_at("k", 1_000 + TTL_MS));
    cache.cleanup_at(1_000 + 3 * TTL_MS);
    assert!(cache.is_empty());
}

#[test]
fn dispatch_plan_filters_and_dedups() {
    let targets = vec![
        WebhookTarget { url: "http://a".into(), events: vec!["*".into()] },
        WebhookTarget { url: "http://b".into(), events: vec!["typing-indicator".into()] },
        WebhookTarget { url: "http://c".into(), events: vec!["new-message".into()] },
    ];
    let mut cache = EventCache::new();
    let urls = plan_dispatch(&mut cache, &targets, "new-message", Some("m1"), 10);
    assert_eq!(urls, vec!["http://a".to_string(), "http://c".to_string()]);
    let again = plan_dispatch(&mut cache, &targets, "new-message", Some("m1"), 20);
    assert!(again.is_empty());
    let undeduped = plan_dispatch(&mut cache, &targets, "typing-indicator", None, 30);
    assert_eq!(undeduped, vec!["http://a".to_string(), "http://b".to_string()]);
}

#[test]
fn mdls_keeps_last_duplicate_and_trims_quotes() {
    let map = parse_mdls_output("  a = \"x\"  \na = y\nno separator here\n");
    assert_eq!(map.get("a").unwrap(), "y");
    assert_eq!(map.len(), 1);
}

#[test]
fn live_photo_flag_follows_probe() {
    let home = Some("/Users/me".to_string());
    let present = |p: &str| p == "/Users/me/x.mov";
    assert!(has_live_photo_in("~/x.jpg", &home, &present));
    assert!(!has_live_photo_in("~/y.jpg", &home, &present));
    assert!(!has_live_photo_in("/a/x.txt", &home, &present));
    let any = |_p: &str| true;
    assert!(has_live_photo_in("~//abs/z.png", &home, &any));
}

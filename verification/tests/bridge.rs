use imessage_rs::bridge::{
    bridge_private_api_event, location_to_json, update_friend_locations, watcher_dedup_key,
    webhook_targets,
};
use imessage_rs::config::WebhookConfigEntry;
use imessage_rs::json::{Json, RealValue};
use imessage_rs::private_api::{FindMyLocation, RawEvent};
use imessage_rs::server_state::{check_send_cache_at, ApiStatus, SendCache, TypingSet};

fn s(v: &str) -> Json {
    Json::Str(v.to_string())
}

fn obj(pairs: Vec<(&str, Json)>) -> Json {
    Json::Object(pairs.into_iter().map(|(k, v)| (k.to_string(), v)).collect())
}

fn get<'a>(j: &'a Json, key: &str) -> Option<&'a Json> {
    match j {
        Json::Object(f) => f.iter().find(|(k, _)| k == key).map(|(_, v)| v),
        _ => None,
    }
}

fn raw(event: &str) -> RawEvent {
    RawEvent {
        event: Some(event.to_string()),
        transaction_id: None,
        identifier: None,
        guid: None,
        data: None,
        error: None,
        process: None,
        extra: Vec::new(),
    }
}

fn loc(handle: &str, lat: Json, lon: Json, ts: Option<i64>) -> FindMyLocation {
    FindMyLocation {
        handle: handle.into(),
        coordinates: (lat, lon),
        long_address: None,
        short_address: None,
        subtitle: None,
        title: None,
        last_updated: ts,
        is_locating_in_progress: false,
        status: "live".into(),
    }
}

#[test]
fn targets_from_config() {
    let t = webhook_targets(&vec![
        WebhookConfigEntry::Simple("http://a".into()),
        WebhookConfigEntry::Detailed { url: "http://b".into(), events: Some(vec!["new-message".into()]) },
        WebhookConfigEntry::Detailed { url: "http://c".into(), events: None },
    ]);
    assert_eq!(t.len(), 3);
    assert_eq!(t[0].events, vec!["*".to_string()]);
    assert_eq!(t[1].events, vec!["new-message".to_string()]);
    assert_eq!(t[2].url, "http://c");
    assert_eq!(t[2].events, vec!["*".to_string()]);
}

#[test]
fn dedup_key_from_guid() {
    let d = obj(vec![("guid", s("m1"))]);
    assert_eq!(watcher_dedup_key("new-message", &d).as_deref(), Some("new-message-m1"));
    assert_eq!(watcher_dedup_key("new-message", &obj(vec![])), None);
}

#[test]
fn typing_events_become_indicator() {
    let mut e = raw("started-typing");
    e.guid = Some("iMessage;-;+1".into());
    let out = bridge_private_api_event(&e);
    assert_eq!(out.len(), 1);
    assert_eq!(out[0].0, "typing-indicator");
    assert_eq!(get(&out[0].1, "display"), Some(&Json::Bool(true)));
    e.guid = Some("iMessage;+;chat1".into());
    assert!(bridge_private_api_event(&e).is_empty());
}

#[test]
fn incoming_call_is_reported_twice() {
    let mut e = raw("facetime-call-status-changed");
    e.data = Some(obj(vec![("call_status", Json::Int(4)), ("call_uuid", s("u1"))]));
    let out = bridge_private_api_event(&e);
    assert_eq!(out.len(), 2);
    assert_eq!(out[0].0, "facetime-call-status-changed");
    assert_eq!(out[1].0, "incoming-facetime");
    assert_eq!(get(&out[0].1, "status"), Some(&s("incoming")));
    assert_eq!(get(&out[0].1, "statusId"), Some(&Json::Int(4)));
    e.data = Some(obj(vec![("call_status", Json::Int(6))]));
    assert_eq!(bridge_private_api_event(&e).len(), 1);
}

#[test]
fn aliases_and_unknown_events() {
    let mut e = raw("aliases-removed");
    e.data = Some(obj(vec![("aliases", Json::Array(vec![s("a@b")]))]));
    let out = bridge_private_api_event(&e);
    assert_eq!(out[0].0, "imessage-aliases-removed");
    assert!(bridge_private_api_event(&raw("ping")).is_empty());
}

#[test]
fn findmy_locations_bridged() {
    let mut e = raw("new-findmy-location");
    e.data = Some(Json::Array(vec![obj(vec![
        ("handle", s("h")),
        ("coordinates", Json::Array(vec![Json::Int(1), Json::Int(2)])),
    ])]));
    let out = bridge_private_api_event(&e);
    assert_eq!(out.len(), 1);
    match &out[0].1 {
        Json::Array(a) => assert_eq!(get(&a[0], "status"), Some(&s("unknown"))),
        _ => panic!("not an array"),
    }
    e.data = Some(Json::Array(vec![]));
    assert!(bridge_private_api_event(&e).is_empty());
}

#[test]
fn friend_cache_rejects_stale_updates() {
    let mut cache: Vec<(String, Json)> = Vec::new();
    update_friend_locations(&mut cache, &vec![loc("h", Json::Int(5), Json::Int(6), Some(100))]);
    assert_eq!(cache.len(), 1);
    // Older: ignored.
    update_friend_locations(&mut cache, &vec![loc("h", Json::Int(7), Json::Int(8), Some(50))]);
    assert_eq!(get(&cache[0].1, "last_updated"), Some(&Json::Int(100)));
    // Zero coordinates over real ones: ignored.
    let zero = Json::Real(RealValue::Double((-0.0f64).to_bits()));
    update_friend_locations(&mut cache, &vec![loc("h", Json::Int(0), zero, Some(200))]);
    assert_eq!(get(&cache[0].1, "last_updated"), Some(&Json::Int(100)));
    // Newer with real coordinates: taken.
    update_friend_locations(&mut cache, &vec![loc("h", Json::Int(9), Json::Int(9), Some(300))]);
    assert_eq!(get(&cache[0].1, "last_updated"), Some(&Json::Int(300)));
    assert_eq!(cache.len(), 1);
    let j = location_to_json(&loc("x", Json::Int(1), Json::Int(2), None));
    assert_eq!(get(&j, "last_updated"), Some(&Json::Null));
}

#[test]
fn api_status_checks() {
    let mut st = ApiStatus {
        available: false,
        messages_ready: false,
        facetime_enabled: true,
        facetime_ready: false,
        findmy_enabled: false,
        findmy_ready: false,
    };
    assert_eq!(st.require_private_api(), Err("Private API is not enabled"));
    st.available = true;
    assert_eq!(st.require_private_api(), Err("Private API helper is not connected"));
    st.messages_ready = true;
    assert_eq!(st.require_private_api(), Ok(()));
    assert_eq!(st.require_findmy_private_api(), Err("FindMy Private API is not enabled"));
    assert_eq!(st.require_facetime_private_api(), Err("FaceTime Private API helper is not connected"));
    st.facetime_ready = true;
    assert_eq!(st.require_facetime_private_api(), Ok(()));
}

#[test]
fn send_cache_refuses_repeats() {
    let mut c = SendCache::new();
    assert_eq!(check_send_cache_at(&mut c, Some("t1"), 0), Ok(()));
    assert_eq!(check_send_cache_at(&mut c, Some("t1"), 1), Err("This message is already queued to be sent!"));
    assert_eq!(check_send_cache_at(&mut c, Some(""), 1), Ok(()));
    assert_eq!(check_send_cache_at(&mut c, None, 1), Ok(()));
    assert!(c.is_send_cached("t1"));
    c.uncache_send("t1");
    assert!(!c.is_send_cached("t1"));
    c.cache_send_at("a".into(), 0);
    c.cache_send_at("b".into(), 250_000);
    c.purge_at(310_000);
    assert!(!c.is_send_cached("a"));
    assert!(c.is_send_cached("b"));
}

#[test]
fn typing_set_insert_remove() {
    let mut t = TypingSet::new();
    t.insert("c1".into());
    t.insert("c1".into());
    assert_eq!(t.chats.len(), 1);
    assert!(t.remove("c1"));
    assert!(!t.remove("c1"));
}

use imessage_rs::findmy::{
    findmy_key_from, friends_from_reply, friends_need_refresh, merge_findmy_devices,
    transform_findmy_item_to_device,
};
use imessage_rs::json::Json;

fn s(v: &str) -> Json {
    Json::Str(v.to_string())
}

fn obj(pairs: Vec<(&str, Json)>) -> Json {
    Json::Object(pairs.into_iter().map(|(k, v)| (k.to_string(), v)).collect())
}

fn get<'a>(j: &'a Json, key: &str) -> Option<&'a Json> {
    match j {
        Json::Object(f) => f.iter().find(|(k, _)| k == key).map(|(_, v)| v),
        _ => None,
    }
}

#[test]
fn findmy_key_must_be_32_bytes() {
    let k = findmy_key_from("AAAAAAAAAAAAAAAAAAAAAAAAAAAAAAAAAAAAAAAAAAA=").unwrap();
    assert_eq!(k.len(), 32);
    assert_eq!(findmy_key_from("AAEC").unwrap_err(), "FindMy key is 3 bytes, expected 32");
    assert!(findmy_key_from("***").unwrap_err().starts_with("Invalid base64 key: "));
}

#[test]
fn airtag_item_as_device() {
    let item = obj(vec![
        ("identifier", s("id-1")),
        ("productType", obj(vec![("type", s("b389"))])),
        ("name", s("Keys")),
        ("groupIdentifier", s("g1")),
        ("role", obj(vec![("emoji", s("🔑"))])),
    ]);
    let groups = vec![("g1".to_string(), "Home".to_string()), ("g1".to_string(), "Work".to_string())];
    let d = transform_findmy_item_to_device(&item, &groups);
    assert_eq!(get(&d, "deviceModel"), Some(&s("b389")));
    assert_eq!(get(&d, "modelDisplayName"), Some(&s("AirTag")));
    assert_eq!(get(&d, "id"), Some(&s("id-1")));
    assert_eq!(get(&d, "lostModeEnabled"), Some(&Json::Bool(false)));
    assert_eq!(get(&d, "lostModeMetadata"), Some(&Json::Null));
    assert_eq!(get(&d, "groupName"), Some(&s("Work")));
    assert_eq!(get(&d, "deviceDisplayName"), Some(&s("🔑")));
    assert_eq!(get(&d, "batteryLevel"), Some(&Json::Null));
    match &d {
        Json::Object(f) => {
            assert_eq!(f.len(), 32);
            assert_eq!(f[0].0, "deviceModel");
            assert_eq!(f[31].0, "capabilities");
        }
        _ => panic!("not an object"),
    }
}

#[test]
fn tracker_model_name_and_lost_mode() {
    let item = obj(vec![
        ("productType", obj(vec![("type", s("x1")), ("productInformation", obj(vec![("modelName", s("Chipolo"))]))])),
        ("lostModeMetadata", obj(vec![("message", s("call me"))])),
    ]);
    let d = transform_findmy_item_to_device(&item, &Vec::new());
    assert_eq!(get(&d, "modelDisplayName"), Some(&s("Chipolo")));
    assert_eq!(get(&d, "lostModeEnabled"), Some(&Json::Bool(true)));
    let d = transform_findmy_item_to_device(&obj(vec![]), &Vec::new());
    assert_eq!(get(&d, "deviceModel"), Some(&s("Unknown")));
    assert_eq!(get(&d, "modelDisplayName"), Some(&s("Unknown")));
}

#[test]
fn merge_devices_and_items() {
    let devices = Json::Array(vec![obj(vec![("name", s("Mac"))])]);
    let items = Json::Array(vec![obj(vec![("name", s("Tag")), ("groupIdentifier", s("g"))])]);
    let groups = Json::Array(vec![obj(vec![("identifier", s("g")), ("name", s("Bag"))]), s("junk")]);
    let m = merge_findmy_devices(&devices, Some(&items), Some(&groups));
    match &m {
        Json::Array(a) => {
            assert_eq!(a.len(), 2);
            assert_eq!(get(&a[1], "groupName"), Some(&s("Bag")));
        }
        _ => panic!("not an array"),
    }
    let single = merge_findmy_devices(&obj(vec![]), Some(&s("not a list")), None);
    assert_eq!(single, Json::Array(vec![obj(vec![])]));
}

#[test]
fn friends_cache_refresh_and_fill() {
    assert!(friends_need_refresh(0, Some(1)));
    assert!(friends_need_refresh(3, None));
    assert!(!friends_need_refresh(3, Some(300_000_000_000)));
    assert!(friends_need_refresh(3, Some(300_000_000_001)));
    let data = obj(vec![(
        "locations",
        Json::Array(vec![
            obj(vec![("handle", s("a")), ("v", Json::Int(1))]),
            obj(vec![("nohandle", s("x"))]),
            obj(vec![("handle", s("b"))]),
            obj(vec![("handle", s("a")), ("v", Json::Int(2))]),
        ]),
    )]);
    let f = friends_from_reply(Some(&data)).unwrap();
    assert_eq!(f.len(), 2);
    assert_eq!(f[0].0, "a");
    assert_eq!(get(&f[0].1, "v"), Some(&Json::Int(2)));
    assert!(friends_from_reply(Some(&obj(vec![]))).is_none());
    assert!(friends_from_reply(None).is_none());
}

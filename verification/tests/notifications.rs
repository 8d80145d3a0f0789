use imessage_rs::notifications::{
    extract_joins_from_embedded_plists, extract_joins_from_objects, extract_joins_from_plist,
    parse_notification_data,
};
use imessage_rs::plist::PlistValue;

fn to_plist_value(v: &plist::Value) -> PlistValue {
    match v {
        plist::Value::Array(a) => PlistValue::Array(a.iter().map(to_plist_value).collect()),
        plist::Value::Dictionary(d) => PlistValue::Dictionary(
            d.iter().map(|(k, v)| (k.clone(), to_plist_value(v))).collect(),
        ),
        plist::Value::Boolean(b) => PlistValue::Boolean(*b),
        plist::Value::Data(b) => PlistValue::Data(
            b.clone(),
            plist::from_bytes::<plist::Value>(b).ok().map(|x| Box::new(to_plist_value(&x))),
        ),
        plist::Value::Date(d) => PlistValue::Date(d.to_xml_format()),
        plist::Value::Real(f) => PlistValue::Real(f.to_bits()),
        plist::Value::Integer(i) => match i.as_signed() {
            Some(n) => PlistValue::Integer(n as i128),
            None => PlistValue::Other,
        },
        plist::Value::String(s) => PlistValue::String(s.clone()),
        plist::Value::Uid(u) => PlistValue::Uid(u.get()),
        _ => PlistValue::Other,
    }
}

fn binary_plist(val: &plist::Value) -> Vec<u8> {
    let mut buf = Vec::new();
    plist::to_writer_binary(&mut buf, val).unwrap();
    buf
}

fn join_archive() -> plist::Value {
    let mut objects: Vec<plist::Value> = (0..10).map(|i| plist::Value::String(format!("item{i}"))).collect();
    objects[2] = plist::Value::String("FaceTime JOIN request".into());
    objects[6] = plist::Value::String("user-1".into());
    objects[9] = plist::Value::String("conv-1".into());
    let mut dict = plist::Dictionary::new();
    dict.insert("$objects".to_string(), plist::Value::Array(objects));
    plist::Value::Dictionary(dict)
}

#[test]
fn notification_center_empty_data_returns_none() {
    assert!(parse_notification_data(&[]).is_none());
}

#[test]
fn notification_center_invalid_data_returns_none() {
    assert!(parse_notification_data(b"not a plist").is_none());
}

#[test]
fn objects_without_join_returns_none() {
    let mut dict = plist::Dictionary::new();
    let objects: Vec<plist::Value> = (0..10).map(|i| plist::Value::String(format!("item{i}"))).collect();
    dict.insert("$objects".to_string(), plist::Value::Array(objects));
    let value = plist::Value::Dictionary(dict);
    assert!(extract_joins_from_plist(&to_plist_value(&value)).is_none());
}

#[test]
fn join_found_in_archive_objects() {
    let j = extract_joins_from_plist(&to_plist_value(&join_archive())).unwrap();
    assert_eq!(j.len(), 1);
    assert_eq!(j[0].user_id, "user-1");
    assert_eq!(j[0].conversation_id, "conv-1");
    let objs: Vec<PlistValue> = (0..9).map(|_| PlistValue::String("join".into())).collect();
    assert!(extract_joins_from_objects(&objs).is_none());
}

#[test]
fn join_found_in_nested_data() {
    let inner = binary_plist(&join_archive());
    let mut dict = plist::Dictionary::new();
    dict.insert("other".into(), plist::Value::Integer(1.into()));
    dict.insert("payload".into(), plist::Value::Data(inner));
    let outer = binary_plist(&plist::Value::Dictionary(dict));
    let j = parse_notification_data(&outer).unwrap();
    assert_eq!(j[0].conversation_id, "conv-1");
}

#[test]
fn join_found_in_embedded_plist() {
    let mut blob = b"typedstream-ish header".to_vec();
    blob.extend(binary_plist(&join_archive()));
    let j = parse_notification_data(&blob).unwrap();
    assert_eq!(j[0].user_id, "user-1");
    assert!(extract_joins_from_embedded_plists(b"no magic here at all").is_none());
}

use imessage_rs::db::{
    bool_from_db, date_from_db, date_to_db, reaction_type_from_db, DetectedSchema, SortOrder,
    TableColumns, COCOA_EPOCH_OFFSET_SECS,
};

#[test]
fn table_columns_has() {
    let tc = TableColumns::from_names(vec!["guid".to_string(), "text".to_string()]);
    assert!(tc.has("guid"));
    assert!(tc.has("text"));
    assert!(!tc.has("nonexistent"));
}

#[test]
fn column_counts() {
    let empty = TableColumns { columns: Vec::new() };
    let schema = DetectedSchema {
        message: empty.clone(),
        chat: empty.clone(),
        handle: empty.clone(),
        attachment: empty,
    };
    assert_eq!(schema.message_select_columns().len(), 71);
    assert_eq!(schema.chat_select_columns().len(), 17);
    assert_eq!(schema.attachment_select_columns().len(), 17);
}

#[test]
fn bool_from_db_values() {
    assert!(!bool_from_db(0));
    assert!(bool_from_db(1));
    assert!(bool_from_db(42));
}

#[test]
fn date_transform_zero_is_none() {
    assert_eq!(date_from_db(0), None);
}

#[test]
fn date_transform_positive_value() {
    let raw = 1000 * 1_000_000;
    let result = date_from_db(raw);
    assert_eq!(result, Some(978_307_200_000 + 1000));
}

#[test]
fn reaction_type_known_values() {
    assert_eq!(reaction_type_from_db(0), None);
    assert_eq!(reaction_type_from_db(2000), Some("love".to_string()));
    assert_eq!(reaction_type_from_db(2001), Some("like".to_string()));
    assert_eq!(reaction_type_from_db(3000), Some("-love".to_string()));
}

#[test]
fn reaction_type_emoji_and_sticker() {
    assert_eq!(reaction_type_from_db(2006), Some("emoji".to_string()));
    assert_eq!(reaction_type_from_db(2007), Some("sticker-tapback".to_string()));
    assert_eq!(reaction_type_from_db(3006), Some("-emoji".to_string()));
    assert_eq!(reaction_type_from_db(3007), Some("-sticker-tapback".to_string()));
}

#[test]
fn reaction_type_unknown_passthrough() {
    assert_eq!(reaction_type_from_db(9999), Some("9999".to_string()));
}

#[test]
fn cocoa_epoch_is_correct() {
    assert_eq!(COCOA_EPOCH_OFFSET_SECS as f64, 978307200.0);
}

// --- further cases -------------------------------------------------------------

#[test]
fn reaction_type_negative_passthrough() {
    assert_eq!(reaction_type_from_db(-5), Some("-5".to_string()));
    assert_eq!(reaction_type_from_db(1000), Some("sticker".to_string()));
}

#[test]
fn date_to_db_inverts_date_from_db() {
    let ms = 1_771_445_536_352i64;
    assert_eq!(date_from_db(date_to_db(ms)), Some(ms));
}

#[test]
fn duplicate_column_names_kept_once() {
    let tc = TableColumns::from_names(vec!["a".into(), "b".into(), "a".into()]);
    assert_eq!(tc.all().len(), 2);
    assert!(tc.has("a") && tc.has("b"));
}

#[test]
fn optional_columns_appear_when_detected() {
    let msg = TableColumns::from_names(vec!["thread_originator_guid".into()]);
    let empty = TableColumns { columns: Vec::new() };
    let schema = DetectedSchema {
        message: msg,
        chat: empty.clone(),
        handle: empty.clone(),
        attachment: empty,
    };
    let cols = schema.message_select_columns();
    assert!(cols.len() >= 71);
}

#[test]
fn sort_order_sql() {
    assert_eq!(SortOrder::Asc.as_sql(), "ASC");
    assert_eq!(SortOrder::Desc.as_sql(), "DESC");
}

use imessage_rs::db::{Handle, HandleQueryParams, SortOrder, UpdatedMessageQueryParams};
use imessage_rs::json::Json;
use imessage_rs::statements::{
    account_from_login, attachment_lookup_guids, chat_media_count_sql, handle_count_sql,
    handle_query_sql, handles_by_rowid_sql, lookup_pattern, media_count_sql, message_by_guid_sql,
    message_count_sql, order_participants, updated_messages_sql, MessageCountParams,
};

const HEAD: &str = "SELECT message.ROWID, message.guid, handle.ROWID AS h_ROWID, handle.id AS h_id, handle.country AS h_country, handle.service AS h_service, handle.uncanonicalized_id AS h_uncanonicalized_id FROM message LEFT JOIN handle ON message.handle_id = handle.ROWID";

fn handle(rowid: i64, id: &str) -> Handle {
    Handle { rowid, id: id.into(), country: None, service: "iMessage".into(), uncanonicalized_id: None }
}

#[test]
fn updated_messages_query_text() {
    let cols = vec!["message.ROWID", "message.guid"];
    let mut p = UpdatedMessageQueryParams::default();
    p.after = Some(0);
    p.with_chats = true;
    p.include_created = true;
    p.sort = SortOrder::Asc;
    p.limit = 10;
    let (sql, binds) = updated_messages_sql(&p, &cols);
    let expected = format!(
        "{HEAD} INNER JOIN chat_message_join ON message.ROWID = chat_message_join.message_id INNER JOIN chat ON chat.ROWID = chat_message_join.chat_id WHERE 1=1 AND ((1=1 AND message.date >= ?) OR (1=1 AND message.date_delivered >= ?) OR (1=1 AND message.date_read >= ?) OR (1=1 AND message.date_edited >= ?) OR (1=1 AND message.date_retracted >= ?)) ORDER BY message.date ASC LIMIT 10 OFFSET 0"
    );
    assert_eq!(sql, expected);
    assert_eq!(binds.len(), 5);
    assert_eq!(binds[0], Json::Int(-978_307_200_000_000_000));
}

#[test]
fn updated_messages_without_dates() {
    let cols = vec!["message.ROWID", "message.guid"];
    let p = UpdatedMessageQueryParams::default();
    let (sql, binds) = updated_messages_sql(&p, &cols);
    assert_eq!(sql, format!("{HEAD} WHERE 1=1 ORDER BY message.date DESC LIMIT 100 OFFSET 0"));
    assert!(binds.is_empty());
}

#[test]
fn message_count_query_text() {
    let mut p = MessageCountParams::default();
    p.chat_guid = Some("c".into());
    p.is_from_me = true;
    p.min_row_id = Some(5);
    p.before = Some(1000);
    let (sql, binds) = message_count_sql(&p);
    assert_eq!(
        sql,
        "SELECT COUNT(*) FROM message INNER JOIN chat_message_join ON message.ROWID = chat_message_join.message_id INNER JOIN chat ON chat.ROWID = chat_message_join.chat_id WHERE chat.guid = ? AND message.is_from_me = 1 AND message.ROWID >= ? AND (1=1 AND message.date <= ?)"
    );
    assert_eq!(binds.len(), 3);
    assert_eq!(binds[0], Json::Str("c".into()));
    assert_eq!(binds[1], Json::Int(5));
    p.updated = true;
    let (sql, _) = message_count_sql(&p);
    assert!(sql.ends_with("AND ((1=1 AND message.date_delivered <= ?) OR (1=1 AND message.date_read <= ?) OR (1=1 AND message.date_edited <= ?) OR (1=1 AND message.date_retracted <= ?))"));
    let (sql, binds) = message_count_sql(&MessageCountParams::default());
    assert_eq!(sql, "SELECT COUNT(*) FROM message WHERE 1=1");
    assert!(binds.is_empty());
}

#[test]
fn handle_queries_strip_plus() {
    let p = HandleQueryParams { address: Some("+1 555".into()), offset: 2, limit: 3 };
    let (sql, binds) = handle_query_sql(&p);
    assert_eq!(sql, "SELECT handle.ROWID, handle.id, handle.country, handle.service, handle.uncanonicalized_id FROM handle WHERE handle.id LIKE ? LIMIT 3 OFFSET 2");
    assert_eq!(binds, vec![Json::Str("%1 555".into())]);
    let (sql, binds) = handle_count_sql(None);
    assert_eq!(sql, "SELECT COUNT(*) FROM handle");
    assert!(binds.is_empty());
    let (_, binds) = handle_count_sql(Some("++44"));
    assert_eq!(binds, vec![Json::Str("%44".into())]);
}

#[test]
fn media_counts() {
    let (sql, binds) = media_count_sql("location", None);
    assert_eq!(sql, "SELECT COUNT(attachment.ROWID) AS media_count FROM attachment WHERE attachment.mime_type LIKE ?");
    assert_eq!(binds, vec![Json::Str("text/x-vlocation%".into())]);
    let (_, binds) = media_count_sql("image", Some(0));
    assert_eq!(binds[1], Json::Str("image%".into()));
    let (_, binds) = chat_media_count_sql("c1", "video");
    assert_eq!(binds, vec![Json::Str("c1".into()), Json::Str("video%".into())]);
}

#[test]
fn single_row_lookups() {
    let cols = vec!["message.ROWID", "message.guid"];
    assert_eq!(message_by_guid_sql(&cols), format!("{HEAD} WHERE message.guid = ?"));
    assert_eq!(handles_by_rowid_sql(3), "SELECT handle.ROWID, handle.id, handle.country, handle.service, handle.uncanonicalized_id FROM handle WHERE handle.ROWID IN (?,?,?)");
    assert_eq!(lookup_pattern("abc"), "%abc");
}

#[test]
fn attachment_guid_variants() {
    let g = "at_0_12345678-1234-1234-1234-123456789012";
    let v = attachment_lookup_guids(g);
    assert_eq!(v, vec![g.to_string(), "12345678-1234-1234-1234-123456789012".to_string()]);
    assert_eq!(attachment_lookup_guids("short"), vec!["short".to_string()]);
}

#[test]
fn account_is_last_segment() {
    assert_eq!(account_from_login(Some("E:me@example.com".into())), Some("me@example.com".into()));
    assert_eq!(account_from_login(Some("plain".into())), Some("plain".into()));
    assert_eq!(account_from_login(None), None);
}

#[test]
fn participants_follow_join_order() {
    let ids = vec![3, 1, 3, 9];
    let hs = vec![handle(1, "a"), handle(3, "b"), handle(1, "a2")];
    let out = order_participants(&ids, &hs);
    let names: Vec<&str> = out.iter().map(|h| h.id.as_str()).collect();
    assert_eq!(names, vec!["b", "a2"]);
}

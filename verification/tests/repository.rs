use imessage_rs::json::Json;
use imessage_rs::repository::{apply_where_clauses, expand_named_params, WhereClause};

fn args(pairs: Vec<(&str, Json)>) -> Vec<(String, Json)> {
    pairs.into_iter().map(|(k, v)| (k.to_string(), v)).collect()
}

#[test]
fn expand_simple_named_param() {
    let mut binds: Vec<Json> = vec![];
    let a = args(vec![("term", Json::Str("%hello%".to_string()))]);
    let result = expand_named_params("message.text LIKE :term COLLATE NOCASE", &a, &mut binds);
    assert_eq!(result, "message.text LIKE ? COLLATE NOCASE");
    assert_eq!(binds.len(), 1);
}

#[test]
fn expand_spread_param() {
    let mut binds: Vec<Json> = vec![];
    let list = Json::Array(vec![
        Json::Str("g1".to_string()),
        Json::Str("g2".to_string()),
        Json::Str("g3".to_string()),
    ]);
    let a = args(vec![("guids", list)]);
    let result = expand_named_params("message.guid IN (:...guids)", &a, &mut binds);
    assert_eq!(result, "message.guid IN (?, ?, ?)");
    assert_eq!(binds.len(), 3);
}

#[test]
fn expand_multiple_params() {
    let mut binds: Vec<Json> = vec![];
    let a = args(vec![("after", Json::Int(100)), ("before", Json::Int(200))]);
    let result = expand_named_params(
        "message.date >= :after AND message.date <= :before",
        &a,
        &mut binds,
    );
    assert_eq!(result, "message.date >= ? AND message.date <= ?");
    assert_eq!(binds.len(), 2);
}

#[test]
fn expand_no_params() {
    let mut binds: Vec<Json> = vec![];
    let a = args(vec![]);
    let result = expand_named_params("message.is_from_me = 1", &a, &mut binds);
    assert_eq!(result, "message.is_from_me = 1");
    assert_eq!(binds.len(), 0);
}

#[test]
fn apply_where_clauses_empty() {
    let mut sql = "SELECT * FROM message WHERE 1=1".to_string();
    let mut binds: Vec<Json> = vec![];
    apply_where_clauses(&mut sql, &mut binds, &[]);
    assert_eq!(sql, "SELECT * FROM message WHERE 1=1");
}

#[test]
fn apply_where_clauses_adds_and() {
    let mut sql = "SELECT * FROM message WHERE 1=1".to_string();
    let mut binds: Vec<Json> = vec![];
    let clauses = vec![WhereClause {
        statement: "message.is_from_me = :val".to_string(),
        args: args(vec![("val", Json::Int(1))]),
    }];
    apply_where_clauses(&mut sql, &mut binds, &clauses);
    assert_eq!(sql, "SELECT * FROM message WHERE 1=1 AND (message.is_from_me = ?)");
    assert_eq!(binds.len(), 1);
}

#[test]
fn unknown_params_are_left_alone() {
    let mut binds: Vec<Json> = vec![];
    let a = args(vec![("x", Json::Int(1))]);
    let result = expand_named_params("a = :y AND b = ':' AND c = :x", &a, &mut binds);
    assert_eq!(result, "a = :y AND b = ':' AND c = ?");
    assert_eq!(binds, vec![Json::Int(1)]);
}

#[test]
fn spread_of_non_array_leaves_nothing() {
    let mut binds: Vec<Json> = vec![];
    let a = args(vec![("ids", Json::Int(5))]);
    let result = expand_named_params("id IN (:...ids)", &a, &mut binds);
    assert_eq!(result, "id IN ()");
    assert!(binds.is_empty());
}

#[test]
fn binds_follow_placeholder_order() {
    let mut binds: Vec<Json> = vec![Json::Null];
    let a = args(vec![
        ("b", Json::Str("B".to_string())),
        ("a", Json::Array(vec![Json::Int(1), Json::Int(2)])),
    ]);
    let result = expand_named_params(":...a, :b", &a, &mut binds);
    assert_eq!(result, "?, ?, ?");
    assert_eq!(
        binds,
        vec![Json::Null, Json::Int(1), Json::Int(2), Json::Str("B".to_string())]
    );
}

use imessage_rs::db::{ChatQueryParams, SortOrder};
use imessage_rs::queries::MessageQueryParams;
use imessage_rs::repository::{chat_count_sql, chat_query_sql, message_query_sql};

#[test]
fn message_query_text_by_chat_and_dates() {
    let params = MessageQueryParams {
        chat_guid: Some("iMessage;-;+1".to_string()),
        after: Some(978_307_200_001),
        sort: SortOrder::Asc,
        limit: 5,
        offset: 10,
        where_clauses: vec![WhereClause {
            statement: "message.is_from_me = :me".to_string(),
            args: args(vec![("me", Json::Int(1))]),
        }],
        ..Default::default()
    };
    let (sql, binds) = message_query_sql(&params, &vec!["message.ROWID", "message.guid"]);
    assert_eq!(
        sql,
        "SELECT message.ROWID, message.guid, handle.ROWID AS h_ROWID, handle.id AS h_id, \
         handle.country AS h_country, handle.service AS h_service, handle.uncanonicalized_id AS \
         h_uncanonicalized_id FROM message LEFT JOIN handle ON message.handle_id = handle.ROWID \
         INNER JOIN chat_message_join ON message.ROWID = chat_message_join.message_id INNER JOIN \
         chat ON chat.ROWID = chat_message_join.chat_id WHERE chat.guid = ? AND (1=1 AND \
         message.date >= ?) AND (message.is_from_me = ?) ORDER BY message.date ASC LIMIT 5 OFFSET 10"
    );
    assert_eq!(
        binds,
        vec![Json::Str("iMessage;-;+1".to_string()), Json::Int(1_000_000), Json::Int(1)]
    );
}

#[test]
fn message_query_text_defaults() {
    let (sql, binds) = message_query_sql(&MessageQueryParams::default(), &vec!["message.ROWID"]);
    assert!(sql.ends_with(
        "ON message.handle_id = handle.ROWID WHERE 1=1 ORDER BY message.date DESC LIMIT 100 OFFSET 0"
    ));
    assert!(binds.is_empty());
}

#[test]
fn chat_query_and_count_text() {
    let params = ChatQueryParams {
        chat_guid: Some("abc".to_string()),
        glob_guid: true,
        with_archived: false,
        limit: Some(20),
        ..Default::default()
    };
    let (sql, binds) = chat_query_sql(&params, &vec!["chat.ROWID", "chat.guid"]);
    assert_eq!(
        sql,
        "SELECT chat.ROWID, chat.guid FROM chat WHERE 1=1 AND chat.is_archived = 0 AND chat.guid \
         LIKE ? ORDER BY chat.ROWID DESC LIMIT 20 OFFSET 0"
    );
    assert_eq!(binds, vec![Json::Str("%abc%".to_string())]);
    let (count, cbinds) = chat_count_sql(&params);
    assert_eq!(
        count,
        "SELECT COUNT(*) FROM chat WHERE 1=1 AND chat.is_archived = 0 AND chat.guid LIKE ?"
    );
    assert_eq!(cbinds, binds);
    let (all, none) = chat_query_sql(&ChatQueryParams::default(), &vec!["chat.ROWID"]);
    assert_eq!(all, "SELECT chat.ROWID FROM chat WHERE 1=1 ORDER BY chat.ROWID DESC");
    assert!(none.is_empty());
}

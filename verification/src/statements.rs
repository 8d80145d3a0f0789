//! SQL statements of the repository's other queries: updated messages,
//! message counts, handles, media counts and the lookups of single rows,
//! each as its text and the values bound to it, in order.
use vstd::prelude::*;
use crate::dates::apple_raw;
use crate::db::{date_to_db, Handle, HandleQueryParams, SortOrder, UpdatedMessageQueryParams};
use crate::markdown::{
    bytes_of, char_width, lemma_utf8_len_bounds, lemma_utf8_len_concat, lemma_utf8_len_push, utf8_len,
};
use crate::decimal::{i64_text, int_text};
use crate::json::{json_views, lemma_json_views, Json, JsonModel};
use crate::repository::{
    apply_where_clauses, chat_joins, date_filter, date_filter_text, date_fits, join_columns, joined,
    message_query_head, push_text, query_head, where_suffix, WhereClause,
};
use crate::text::{chars_of, push_all, string_of};

verus! {

fn push_json(v: &mut Vec<Json>, x: Json)
    ensures
        json_views(final(v)@) == json_views(old(v)@).push(crate::json::json_view(x)),
{
    let ghost v0 = v@;
    v.push(x);
    assert(v@.subrange(0, v@.len() - 1) =~= v0);
}

fn append_binds(a: &mut Vec<Json>, b: &mut Vec<Json>)
    ensures
        json_views(final(a)@) == json_views(old(a)@) + json_views(old(b)@),
{
    let ghost a0 = a@;
    let ghost b0 = b@;
    a.append(b);
    proof {
        lemma_json_views(a0);
        lemma_json_views(b0);
        lemma_json_views(a@);
        assert(json_views(a@) =~= json_views(a0) + json_views(b0));
    }
}

/// The date bounds on one column of an "updated" filter.
#[verifier::opaque]
pub open spec fn column_dates(col: Seq<char>, after: Option<i64>, before: Option<i64>) -> (Seq<char>, Seq<JsonModel>) {
    (
        "(1=1"@ + (if after is Some {
            " AND "@ + col + " >= ?"@
        } else {
            Seq::empty()
        }) + (if before is Some {
            " AND "@ + col + " <= ?"@
        } else {
            Seq::empty()
        }) + ")"@,
        (match after {
            Some(a) => seq![JsonModel::Int(apple_raw(a as int))],
            None => Seq::empty(),
        }) + match before {
            Some(b) => seq![JsonModel::Int(apple_raw(b as int))],
            None => Seq::empty(),
        },
    )
}

/// The "updated" date filter: a message whose delivered, read, edited or
/// retracted date (and creation date, when asked) is within the bounds.
pub open spec fn update_date_filter(after: Option<i64>, before: Option<i64>, include_created: bool) -> (
    Seq<char>,
    Seq<JsonModel>,
) {
    let c = column_dates("message.date"@, after, before);
    let d = column_dates("message.date_delivered"@, after, before);
    let r = column_dates("message.date_read"@, after, before);
    let e = column_dates("message.date_edited"@, after, before);
    let x = column_dates("message.date_retracted"@, after, before);
    if include_created {
        (
            " AND ("@ + c.0 + " OR "@ + d.0 + " OR "@ + r.0 + " OR "@ + e.0 + " OR "@ + x.0 + ")"@,
            c.1 + d.1 + r.1 + e.1 + x.1,
        )
    } else {
        (
            " AND ("@ + d.0 + " OR "@ + r.0 + " OR "@ + e.0 + " OR "@ + x.0 + ")"@,
            d.1 + r.1 + e.1 + x.1,
        )
    }
}

fn column_dates_text(col: &str, after: Option<i64>, before: Option<i64>) -> (r: (Vec<char>, Vec<Json>))
    requires
        date_fits(after),
        date_fits(before),
    ensures
        r.0@ == column_dates(col@, after, before).0,
        json_views(r.1@) == column_dates(col@, after, before).1,
{
    reveal(column_dates);
    let mut sql: Vec<char> = Vec::new();
    let mut binds: Vec<Json> = Vec::new();
    assert(json_views(binds@) =~= Seq::<JsonModel>::empty());
    push_text(&mut sql, "(1=1");
    match after {
        Some(a) => {
            push_text(&mut sql, " AND ");
            push_text(&mut sql, col);
            push_text(&mut sql, " >= ?");
            push_json(&mut binds, Json::Int(date_to_db(a)));
        },
        None => {},
    }
    match before {
        Some(b) => {
            push_text(&mut sql, " AND ");
            push_text(&mut sql, col);
            push_text(&mut sql, " <= ?");
            push_json(&mut binds, Json::Int(date_to_db(b)));
        },
        None => {},
    }
    push_text(&mut sql, ")");
    assert(sql@ =~= column_dates(col@, after, before).0);
    assert(json_views(binds@) =~= column_dates(col@, after, before).1);
    (sql, binds)
}

fn add_column(
    sql: &mut Vec<char>,
    binds: &mut Vec<Json>,
    col: &str,
    after: Option<i64>,
    before: Option<i64>,
    first: bool,
)
    requires
        date_fits(after),
        date_fits(before),
    ensures
        final(sql)@ == old(sql)@ + (if first {
            Seq::empty()
        } else {
            " OR "@
        }) + column_dates(col@, after, before).0,
        json_views(final(binds)@) == json_views(old(binds)@) + column_dates(col@, after, before).1,
{
    if !first {
        push_text(sql, " OR ");
    }
    let (t, mut b) = column_dates_text(col, after, before);
    push_all(sql, &t);
    append_binds(binds, &mut b);
}

/// Appends the "updated" date filter.
#[verifier::rlimit(40)]
pub fn append_update_date_sql(
    sql: &mut Vec<char>,
    binds: &mut Vec<Json>,
    after: Option<i64>,
    before: Option<i64>,
    include_created: bool,
)
    requires
        date_fits(after),
        date_fits(before),
    ensures
        final(sql)@ == old(sql)@ + update_date_filter(after, before, include_created).0,
        json_views(final(binds)@) == json_views(old(binds)@) + update_date_filter(
            after,
            before,
            include_created,
        ).1,
{
    let ghost s0 = sql@;
    let ghost b0 = json_views(binds@);
    let ghost c = column_dates("message.date"@, after, before);
    let ghost d = column_dates("message.date_delivered"@, after, before);
    let ghost rd = column_dates("message.date_read"@, after, before);
    let ghost e = column_dates("message.date_edited"@, after, before);
    let ghost x = column_dates("message.date_retracted"@, after, before);
    proof {
        reveal_strlit("");
    }
    push_text(sql, " AND (");
    let ghost s1 = sql@;
    if include_created {
        add_column(sql, binds, "message.date", after, before, true);
        assert(sql@ =~= s1 + c.0);
    }
    let ghost s2 = sql@;
    let ghost bb2 = json_views(binds@);
    add_column(sql, binds, "message.date_delivered", after, before, !include_created);
    assert(sql@ =~= s2 + (if include_created { " OR "@ } else { Seq::empty() }) + d.0);
    let ghost s3 = sql@;
    add_column(sql, binds, "message.date_read", after, before, false);
    assert(sql@ =~= s3 + " OR "@ + rd.0);
    let ghost s4 = sql@;
    add_column(sql, binds, "message.date_edited", after, before, false);
    assert(sql@ =~= s4 + " OR "@ + e.0);
    let ghost s5 = sql@;
    add_column(sql, binds, "message.date_retracted", after, before, false);
    assert(sql@ =~= s5 + " OR "@ + x.0);
    let ghost s6 = sql@;
    push_text(sql, ")");
    proof {
        let u = update_date_filter(after, before, include_created);
        if include_created {
            assert(s2 =~= s0 + " AND ("@ + c.0);
            assert(sql@ =~= s0 + u.0);
            assert(json_views(binds@) =~= b0 + u.1);
        } else {
            assert(s2 =~= s0 + " AND ("@);
            assert(sql@ =~= s0 + u.0);
            assert(json_views(binds@) =~= b0 + u.1);
        }
    }
}

/// The chat filter of a message query: by chat GUID, or joined to chats
/// when they are loaded, or none.
pub open spec fn chat_scope(chat_guid: Option<String>, with_chats: bool) -> (Seq<char>, Seq<JsonModel>) {
    match chat_guid {
        Some(g) => (chat_joins() + " WHERE chat.guid = ?"@, seq![JsonModel::Str(g@)]),
        None => if with_chats {
            (chat_joins() + " WHERE 1=1"@, Seq::<JsonModel>::empty())
        } else {
            (" WHERE 1=1"@, Seq::<JsonModel>::empty())
        },
    }
}

fn chat_scope_text(chat_guid: &Option<String>, with_chats: bool) -> (r: (Vec<char>, Vec<Json>))
    ensures
        r.0@ == chat_scope(*chat_guid, with_chats).0,
        json_views(r.1@) == chat_scope(*chat_guid, with_chats).1,
{
    let mut sql: Vec<char> = Vec::new();
    let mut binds: Vec<Json> = Vec::new();
    assert(json_views(binds@) =~= Seq::<JsonModel>::empty());
    match chat_guid {
        Some(g) => {
            push_text(
                &mut sql,
                " INNER JOIN chat_message_join ON message.ROWID = chat_message_join.message_id INNER JOIN chat ON chat.ROWID = chat_message_join.chat_id",
            );
            push_text(&mut sql, " WHERE chat.guid = ?");
            push_json(&mut binds, Json::Str(g.clone()));
            assert(json_views(binds@) =~= seq![JsonModel::Str(g@)]);
        },
        None => {
            if with_chats {
                push_text(
                    &mut sql,
                    " INNER JOIN chat_message_join ON message.ROWID = chat_message_join.message_id INNER JOIN chat ON chat.ROWID = chat_message_join.chat_id",
                );
            }
            push_text(&mut sql, " WHERE 1=1");
        },
    }
    assert(sql@ =~= chat_scope(*chat_guid, with_chats).0);
    (sql, binds)
}

/// The SQL text of an updated-messages query selecting `select`, and its
/// values.
pub open spec fn updated_messages_text(p: UpdatedMessageQueryParams, select: Seq<char>) -> (
    Seq<char>,
    Seq<JsonModel>,
) {
    let f = chat_scope(p.chat_guid, p.with_chats);
    let d = if p.after is Some || p.before is Some {
        update_date_filter(p.after, p.before, p.include_created)
    } else {
        (Seq::empty(), Seq::empty())
    };
    (
        message_query_head(select) + f.0 + d.0 + " ORDER BY message.date "@ + (match p.sort {
            SortOrder::Asc => "ASC"@,
            SortOrder::Desc => "DESC"@,
        }) + " LIMIT "@ + int_text(p.limit as int) + " OFFSET "@ + int_text(p.offset as int),
        f.1 + d.1,
    )
}

/// Builds the SQL text of an updated-messages query and its values.
pub fn updated_messages_sql(params: &UpdatedMessageQueryParams, columns: &Vec<&str>) -> (r: (
    String,
    Vec<Json>,
))
    requires
        date_fits(params.after),
        date_fits(params.before),
    ensures
        ({
            let t = updated_messages_text(*params, joined(columns@.map_values(|c: &str| c@)));
            r.0@ == t.0 && json_views(r.1@) == t.1
        }),
{
    let mut sql = query_head(columns);
    let (f, mut binds) = chat_scope_text(&params.chat_guid, params.with_chats);
    push_all(&mut sql, &f);
    let ghost s1 = sql@;
    let ghost b1 = json_views(binds@);
    if params.after.is_some() || params.before.is_some() {
        append_update_date_sql(&mut sql, &mut binds, params.after, params.before, params.include_created);
    } else {
        assert(sql@ =~= s1 + Seq::<char>::empty());
        assert(json_views(binds@) =~= b1 + Seq::<JsonModel>::empty());
    }
    push_text(&mut sql, " ORDER BY message.date ");
    push_text(&mut sql, params.sort.as_sql());
    push_text(&mut sql, " LIMIT ");
    push_all(&mut sql, &i64_text(params.limit));
    push_text(&mut sql, " OFFSET ");
    push_all(&mut sql, &i64_text(params.offset));
    proof {
        let t = updated_messages_text(*params, joined(columns@.map_values(|c: &str| c@)));
        assert(sql@ =~= t.0);
        assert(json_views(binds@) =~= t.1);
    }
    (string_of(&sql), binds)
}

/// Parameters for counting messages.
#[derive(Debug)]
pub struct MessageCountParams {
    pub after: Option<i64>,
    pub before: Option<i64>,
    pub is_from_me: bool,
    pub chat_guid: Option<String>,
    pub updated: bool,
    pub min_row_id: Option<i64>,
    pub max_row_id: Option<i64>,
    pub where_clauses: Vec<WhereClause>,
}

impl Default for MessageCountParams {
    fn default() -> (r: Self)
        ensures
            r.after is None && r.before is None && !r.is_from_me && r.chat_guid is None && !r.updated
                && r.min_row_id is None && r.max_row_id is None && r.where_clauses@.len() == 0,
    {
        MessageCountParams {
            after: None,
            before: None,
            is_from_me: false,
            chat_guid: None,
            updated: false,
            min_row_id: None,
            max_row_id: None,
            where_clauses: Vec::new(),
        }
    }
}

/// The row-id bounds and sender filter of a message count.
pub open spec fn count_filters(p: MessageCountParams) -> (Seq<char>, Seq<JsonModel>) {
    (
        (if p.is_from_me {
            " AND message.is_from_me = 1"@
        } else {
            Seq::empty()
        }) + (if p.min_row_id is Some {
            " AND message.ROWID >= ?"@
        } else {
            Seq::empty()
        }) + (if p.max_row_id is Some {
            " AND message.ROWID <= ?"@
        } else {
            Seq::empty()
        }),
        (match p.min_row_id {
            Some(m) => seq![JsonModel::Int(m as int)],
            None => Seq::empty(),
        }) + match p.max_row_id {
            Some(m) => seq![JsonModel::Int(m as int)],
            None => Seq::empty(),
        },
    )
}

/// The date filter of a message count: on the "updated" dates when asked,
/// else on the creation date; none without bounds.
pub open spec fn count_dates(p: MessageCountParams) -> (Seq<char>, Seq<JsonModel>) {
    if p.after is None && p.before is None {
        (Seq::empty(), Seq::empty())
    } else if p.updated {
        update_date_filter(p.after, p.before, false)
    } else {
        date_filter(p.after, p.before)
    }
}

/// The SQL text counting messages, and its values.
pub open spec fn message_count_text(p: MessageCountParams) -> (Seq<char>, Seq<JsonModel>) {
    let s = chat_scope(p.chat_guid, false);
    let f = count_filters(p);
    let d = count_dates(p);
    let w = where_suffix(p.where_clauses@);
    ("SELECT COUNT(*) FROM message"@ + s.0 + f.0 + d.0 + w.0, s.1 + f.1 + d.1 + w.1)
}

fn count_filters_text(params: &MessageCountParams) -> (r: (Vec<char>, Vec<Json>))
    ensures
        r.0@ == count_filters(*params).0,
        json_views(r.1@) == count_filters(*params).1,
{
    let mut sql: Vec<char> = Vec::new();
    let mut binds: Vec<Json> = Vec::new();
    assert(json_views(binds@) =~= Seq::<JsonModel>::empty());
    if params.is_from_me {
        push_text(&mut sql, " AND message.is_from_me = 1");
    }
    match params.min_row_id {
        Some(m) => {
            push_text(&mut sql, " AND message.ROWID >= ?");
            push_json(&mut binds, Json::Int(m));
        },
        None => {},
    }
    match params.max_row_id {
        Some(m) => {
            push_text(&mut sql, " AND message.ROWID <= ?");
            push_json(&mut binds, Json::Int(m));
        },
        None => {},
    }
    assert(sql@ =~= count_filters(*params).0);
    assert(json_views(binds@) =~= count_filters(*params).1);
    (sql, binds)
}

/// Builds the SQL text counting messages and its values.
pub fn message_count_sql(params: &MessageCountParams) -> (r: (String, Vec<Json>))
    requires
        date_fits(params.after),
        date_fits(params.before),
    ensures
        r.0@ == message_count_text(*params).0,
        json_views(r.1@) == message_count_text(*params).1,
{
    let mut sql = chars_of("SELECT COUNT(*) FROM message");
    let (s, mut binds) = chat_scope_text(&params.chat_guid, false);
    push_all(&mut sql, &s);
    let (f, mut fb) = count_filters_text(params);
    push_all(&mut sql, &f);
    append_binds(&mut binds, &mut fb);
    let ghost s2 = sql@;
    let ghost b2 = json_views(binds@);
    if params.after.is_some() || params.before.is_some() {
        if params.updated {
            append_update_date_sql(&mut sql, &mut binds, params.after, params.before, false);
        } else {
            let (d, mut db) = date_filter_text(params.after, params.before);
            push_all(&mut sql, &d);
            append_binds(&mut binds, &mut db);
        }
    } else {
        assert(sql@ =~= s2 + Seq::<char>::empty());
        assert(json_views(binds@) =~= b2 + Seq::<JsonModel>::empty());
    }
    let mut text = string_of(&sql);
    apply_where_clauses(&mut text, &mut binds, params.where_clauses.as_slice());
    proof {
        let t = message_count_text(*params);
        assert(text@ =~= t.0);
        assert(json_views(binds@) =~= t.1);
    }
    (text, binds)
}

/// The number of `?` placeholders in an SQL text.
pub open spec fn qmark_count(s: Seq<char>) -> nat
    decreases s.len(),
{
    if s.len() == 0 {
        0
    } else {
        qmark_count(s.drop_last()) + if s.last() == '?' {
            1nat
        } else {
            0nat
        }
    }
}

proof fn lemma_qmarks_select()
    ensures
        qmark_count("SELECT COUNT(*) FROM message"@) == 0,
{
    reveal_strlit("SELECT COUNT(*) FROM message");
    reveal_with_fuel(qmark_count, 30);
}

proof fn lemma_qmarks_scope()
    ensures
        qmark_count(" WHERE chat.guid = ?"@) == 1,
        qmark_count(" WHERE 1=1"@) == 0,
{
    reveal_strlit(" WHERE chat.guid = ?");
    reveal_strlit(" WHERE 1=1");
    reveal_with_fuel(qmark_count, 22);
}

proof fn lemma_qmarks_filters()
    ensures
        qmark_count(" AND message.is_from_me = 1"@) == 0,
        qmark_count(" AND message.ROWID >= ?"@) == 1,
        qmark_count(" AND message.ROWID <= ?"@) == 1,
{
    reveal_strlit(" AND message.is_from_me = 1");
    reveal_strlit(" AND message.ROWID >= ?");
    reveal_strlit(" AND message.ROWID <= ?");
    reveal_with_fuel(qmark_count, 29);
}

proof fn lemma_qmarks_joins_a()
    ensures
        qmark_count(" INNER JOIN chat_message_join"@) == 0,
        qmark_count(" ON message.ROWID = "@) == 0,
{
    reveal_strlit(" INNER JOIN chat_message_join");
    reveal_strlit(" ON message.ROWID = ");
    reveal_with_fuel(qmark_count, 31);
}

proof fn lemma_qmarks_joins_b()
    ensures
        qmark_count("chat_message_join.message_id"@) == 0,
        qmark_count(" INNER JOIN chat"@) == 0,
{
    reveal_strlit("chat_message_join.message_id");
    reveal_strlit(" INNER JOIN chat");
    reveal_with_fuel(qmark_count, 30);
}

proof fn lemma_qmarks_joins_c()
    ensures
        qmark_count(" ON chat.ROWID = "@) == 0,
        qmark_count("chat_message_join.chat_id"@) == 0,
{
    reveal_strlit(" ON chat.ROWID = ");
    reveal_strlit("chat_message_join.chat_id");
    reveal_with_fuel(qmark_count, 27);
}

/// Placeholders of a concatenation add up.
proof fn lemma_qmarks_concat(a: Seq<char>, b: Seq<char>)
    ensures
        qmark_count(a + b) == qmark_count(a) + qmark_count(b),
    decreases b.len(),
{
    if b.len() > 0 {
        lemma_qmarks_concat(a, b.drop_last());
        assert((a + b).drop_last() =~= a + b.drop_last());
        assert((a + b).last() == b.last());
    } else {
        assert(a + b =~= a);
    }
}

proof fn lemma_qmarks_joins()
    ensures
        qmark_count(chat_joins()) == 0,
{
    reveal_strlit(" INNER JOIN chat_message_join");
    reveal_strlit(" ON message.ROWID = ");
    reveal_strlit("chat_message_join.message_id");
    reveal_strlit(" INNER JOIN chat");
    reveal_strlit(" ON chat.ROWID = ");
    reveal_strlit("chat_message_join.chat_id");
    reveal_strlit(" INNER JOIN chat_message_join ON message.ROWID = chat_message_join.message_id INNER JOIN chat ON chat.ROWID = chat_message_join.chat_id");
    assert(chat_joins() =~= " INNER JOIN chat_message_join"@ + " ON message.ROWID = "@ + "chat_message_join.message_id"@ + " INNER JOIN chat"@ + " ON chat.ROWID = "@ + "chat_message_join.chat_id"@);
    lemma_qmarks_joins_a();
    lemma_qmarks_joins_b();
    lemma_qmarks_joins_c();
    let p = seq![" INNER JOIN chat_message_join"@, " ON message.ROWID = "@, "chat_message_join.message_id"@, " INNER JOIN chat"@, " ON chat.ROWID = "@, "chat_message_join.chat_id"@];
    lemma_qmarks_concat(p[0], p[1]);
    lemma_qmarks_concat(p[0] + p[1], p[2]);
    lemma_qmarks_concat(p[0] + p[1] + p[2], p[3]);
    lemma_qmarks_concat(p[0] + p[1] + p[2] + p[3], p[4]);
    lemma_qmarks_concat(p[0] + p[1] + p[2] + p[3] + p[4], p[5]);
}

/// The placeholders of a chat scope are as many as its values.
proof fn lemma_qmarks_scope_binds(g: Option<String>)
    ensures
        qmark_count(chat_scope(g, false).0) == chat_scope(g, false).1.len(),
{
    lemma_qmarks_scope();
    if g is Some {
        lemma_qmarks_joins();
        lemma_qmarks_concat(chat_joins(), " WHERE chat.guid = ?"@);
    }
}

/// A message count with an upper row-id bound holds the condition
/// ` AND message.ROWID <= ?`, and the value bound to that placeholder (the
/// one whose number is the count of placeholders up to it) is the bound.
pub proof fn law_count_row_id_upper_bound(p: MessageCountParams)
    requires
        p.max_row_id is Some,
    ensures
        ({
            let t = message_count_text(p);
            exists|i: int|
                0 <= i && i + 23 <= t.0.len() && #[trigger] t.0.subrange(i, i + 23)
                    == " AND message.ROWID <= ?"@ && 1 <= qmark_count(t.0.take(i + 23)) <= t.1.len()
                    && t.1[qmark_count(t.0.take(i + 23)) - 1] == JsonModel::Int(
                    p.max_row_id->0 as int,
                )
        }),
{
    reveal_strlit("SELECT COUNT(*) FROM message");
    reveal_strlit(" AND message.ROWID <= ?");
    let t = message_count_text(p);
    let sc = chat_scope(p.chat_guid, false);
    let a: Seq<char> = if p.is_from_me {
        " AND message.is_from_me = 1"@
    } else {
        Seq::empty()
    };
    let b: Seq<char> = if p.min_row_id is Some {
        " AND message.ROWID >= ?"@
    } else {
        Seq::empty()
    };
    let c = " AND message.ROWID <= ?"@;
    let sel = "SELECT COUNT(*) FROM message"@;
    let d = count_dates(p);
    let w = where_suffix(p.where_clauses@);
    let pre = sel + sc.0 + a + b + c;
    assert(t.0 =~= pre + (d.0 + w.0));
    let i: int = (sel.len() + sc.0.len() + a.len() + b.len()) as int;
    assert(t.0.take(i + 23) =~= pre);
    assert(t.0.subrange(i, i + 23) =~= c);
    lemma_qmarks_select();
    lemma_qmarks_filters();
    lemma_qmarks_scope_binds(p.chat_guid);
    lemma_qmarks_concat(sel, sc.0);
    lemma_qmarks_concat(sel + sc.0, a);
    lemma_qmarks_concat(sel + sc.0 + a, b);
    lemma_qmarks_concat(sel + sc.0 + a + b, c);
    assert(qmark_count(Seq::<char>::empty()) == 0);
    let mins: Seq<JsonModel> = match p.min_row_id {
        Some(m) => seq![JsonModel::Int(m as int)],
        None => Seq::empty(),
    };
    assert(t.1 =~= sc.1 + (mins + seq![JsonModel::Int(p.max_row_id->0 as int)]) + d.1 + w.1);
    assert(qmark_count(pre) == sc.1.len() + mins.len() + 1);
    assert(t.1[(sc.1.len() + mins.len()) as int] == JsonModel::Int(p.max_row_id->0 as int));
}

/// A message count with a lower row-id bound holds the condition
/// ` AND message.ROWID >= ?`, and the value bound to that placeholder is the
/// bound.
pub proof fn law_count_row_id_lower_bound(p: MessageCountParams)
    requires
        p.min_row_id is Some,
    ensures
        ({
            let t = message_count_text(p);
            exists|i: int|
                0 <= i && i + 23 <= t.0.len() && #[trigger] t.0.subrange(i, i + 23)
                    == " AND message.ROWID >= ?"@ && 1 <= qmark_count(t.0.take(i + 23)) <= t.1.len()
                    && t.1[qmark_count(t.0.take(i + 23)) - 1] == JsonModel::Int(
                    p.min_row_id->0 as int,
                )
        }),
{
    reveal_strlit("SELECT COUNT(*) FROM message");
    reveal_strlit(" AND message.ROWID >= ?");
    let t = message_count_text(p);
    let sc = chat_scope(p.chat_guid, false);
    let a: Seq<char> = if p.is_from_me {
        " AND message.is_from_me = 1"@
    } else {
        Seq::empty()
    };
    let b = " AND message.ROWID >= ?"@;
    let c: Seq<char> = if p.max_row_id is Some {
        " AND message.ROWID <= ?"@
    } else {
        Seq::empty()
    };
    let sel = "SELECT COUNT(*) FROM message"@;
    let d = count_dates(p);
    let w = where_suffix(p.where_clauses@);
    let pre = sel + sc.0 + a + b;
    assert(t.0 =~= pre + (c + d.0 + w.0));
    let i: int = (sel.len() + sc.0.len() + a.len()) as int;
    assert(t.0.take(i + 23) =~= pre);
    assert(t.0.subrange(i, i + 23) =~= b);
    lemma_qmarks_select();
    lemma_qmarks_filters();
    lemma_qmarks_scope_binds(p.chat_guid);
    lemma_qmarks_concat(sel, sc.0);
    lemma_qmarks_concat(sel + sc.0, a);
    lemma_qmarks_concat(sel + sc.0 + a, b);
    assert(qmark_count(Seq::<char>::empty()) == 0);
    let maxs: Seq<JsonModel> = match p.max_row_id {
        Some(m) => seq![JsonModel::Int(m as int)],
        None => Seq::empty(),
    };
    assert(t.1 =~= sc.1 + (seq![JsonModel::Int(p.min_row_id->0 as int)] + maxs) + d.1 + w.1);
    assert(qmark_count(pre) == sc.1.len() + 1);
    assert(t.1[sc.1.len() as int] == JsonModel::Int(p.min_row_id->0 as int));
}

/// A text without its `+` characters.
pub open spec fn without_plus(s: Seq<char>) -> Seq<char>
    decreases s.len(),
{
    if s.len() == 0 {
        s
    } else if s.last() == '+' {
        without_plus(s.drop_last())
    } else {
        without_plus(s.drop_last()).push(s.last())
    }
}

fn strip_plus(s: &str) -> (r: Vec<char>)
    ensures
        r@ == without_plus(s@),
{
    let c = chars_of(s);
    let mut out: Vec<char> = Vec::new();
    let mut i: usize = 0;
    while i < c.len()
        invariant
            i <= c.len(),
            c@ == s@,
            out@ == without_plus(c@.take(i as int)),
        decreases c.len() - i,
    {
        assert(c@.take(i + 1).drop_last() =~= c@.take(i as int));
        if c[i] != '+' {
            out.push(c[i]);
        }
        i = i + 1;
    }
    assert(c@.take(c@.len() as int) =~= c@);
    out
}

/// The pattern matching handles whose id ends with the address (its `+`
/// characters left out).
pub open spec fn address_pattern(address: Seq<char>) -> Seq<char> {
    seq!['%'] + without_plus(address)
}

fn address_pattern_text(address: &str) -> (r: String)
    ensures
        r@ == address_pattern(address@),
{
    let mut p: Vec<char> = Vec::new();
    p.push('%');
    push_all(&mut p, &strip_plus(address));
    assert(p@ =~= address_pattern(address@));
    string_of(&p)
}

/// The SQL text of a handle query, and its values.
pub open spec fn handle_query_text(p: HandleQueryParams) -> (Seq<char>, Seq<JsonModel>) {
    let (w, b) = match p.address {
        Some(a) => (" WHERE handle.id LIKE ?"@, seq![JsonModel::Str(address_pattern(a@))]),
        None => (Seq::empty(), Seq::empty()),
    };
    (
        "SELECT handle.ROWID, handle.id, handle.country, handle.service, handle.uncanonicalized_id FROM handle"@
            + w + " LIMIT "@ + int_text(p.limit as int) + " OFFSET "@ + int_text(p.offset as int),
        b,
    )
}

/// Builds the SQL text of a handle query and its values.
pub fn handle_query_sql(params: &HandleQueryParams) -> (r: (String, Vec<Json>))
    ensures
        r.0@ == handle_query_text(*params).0,
        json_views(r.1@) == handle_query_text(*params).1,
{
    let mut sql = chars_of(
        "SELECT handle.ROWID, handle.id, handle.country, handle.service, handle.uncanonicalized_id FROM handle",
    );
    let mut binds: Vec<Json> = Vec::new();
    assert(json_views(binds@) =~= Seq::<JsonModel>::empty());
    match &params.address {
        Some(a) => {
            push_text(&mut sql, " WHERE handle.id LIKE ?");
            push_json(&mut binds, Json::Str(address_pattern_text(a.as_str())));
            assert(json_views(binds@) =~= seq![JsonModel::Str(address_pattern(a@))]);
        },
        None => {},
    }
    push_text(&mut sql, " LIMIT ");
    push_all(&mut sql, &i64_text(params.limit));
    push_text(&mut sql, " OFFSET ");
    push_all(&mut sql, &i64_text(params.offset));
    proof {
        reveal_strlit("");
    }
    assert(sql@ =~= handle_query_text(*params).0);
    (string_of(&sql), binds)
}

/// The SQL text counting handles (those matching an address, when given),
/// and its values.
pub open spec fn handle_count_text(address: Option<&str>) -> (Seq<char>, Seq<JsonModel>) {
    match address {
        Some(a) => (
            "SELECT COUNT(*) FROM handle WHERE handle.id LIKE ?"@,
            seq![JsonModel::Str(address_pattern(a@))],
        ),
        None => ("SELECT COUNT(*) FROM handle"@, Seq::empty()),
    }
}

/// Builds the SQL text counting handles and its values.
pub fn handle_count_sql(address: Option<&str>) -> (r: (String, Vec<Json>))
    ensures
        r.0@ == handle_count_text(address).0,
        json_views(r.1@) == handle_count_text(address).1,
{
    let mut binds: Vec<Json> = Vec::new();
    assert(json_views(binds@) =~= Seq::<JsonModel>::empty());
    match address {
        Some(a) => {
            push_json(&mut binds, Json::Str(address_pattern_text(a)));
            assert(json_views(binds@) =~= seq![JsonModel::Str(address_pattern(a@))]);
            ("SELECT COUNT(*) FROM handle WHERE handle.id LIKE ?".to_owned(), binds)
        },
        None => ("SELECT COUNT(*) FROM handle".to_owned(), binds),
    }
}

/// The MIME type prefix of a media kind: `location` stands for vCard
/// locations.
pub open spec fn mime_prefix_of(media_type: Seq<char>) -> Seq<char> {
    if media_type == "location"@ {
        "text/x-vlocation"@
    } else {
        media_type
    }
}

fn mime_like(media_type: &str) -> (r: String)
    ensures
        r@ == mime_prefix_of(media_type@) + seq!['%'],
{
    let mut p = if crate::text::chars_equal(&chars_of(media_type), &chars_of("location")) {
        chars_of("text/x-vlocation")
    } else {
        chars_of(media_type)
    };
    p.push('%');
    string_of(&p)
}

/// The SQL text counting attachments of a media kind (created after a
/// time, when given), and its values.
pub open spec fn media_count_text(media_type: Seq<char>, after: Option<i64>) -> (Seq<char>, Seq<JsonModel>) {
    let like = JsonModel::Str(mime_prefix_of(media_type) + seq!['%']);
    match after {
        Some(a) => (
            "SELECT COUNT(attachment.ROWID) AS media_count FROM attachment WHERE attachment.created_date >= ? AND attachment.mime_type LIKE ?"@,
            seq![JsonModel::Int(apple_raw(a as int)), like],
        ),
        None => (
            "SELECT COUNT(attachment.ROWID) AS media_count FROM attachment WHERE attachment.mime_type LIKE ?"@,
            seq![like],
        ),
    }
}

/// Builds the SQL text counting attachments of a media kind and its values.
pub fn media_count_sql(media_type: &str, after: Option<i64>) -> (r: (String, Vec<Json>))
    requires
        date_fits(after),
    ensures
        r.0@ == media_count_text(media_type@, after).0,
        json_views(r.1@) == media_count_text(media_type@, after).1,
{
    let like = mime_like(media_type);
    let mut binds: Vec<Json> = Vec::new();
    assert(json_views(binds@) =~= Seq::<JsonModel>::empty());
    match after {
        Some(a) => {
            push_json(&mut binds, Json::Int(date_to_db(a)));
            push_json(&mut binds, Json::Str(like));
            assert(json_views(binds@) =~= media_count_text(media_type@, after).1);
            (
                "SELECT COUNT(attachment.ROWID) AS media_count FROM attachment WHERE attachment.created_date >= ? AND attachment.mime_type LIKE ?".to_owned(),
                binds,
            )
        },
        None => {
            push_json(&mut binds, Json::Str(like));
            assert(json_views(binds@) =~= media_count_text(media_type@, after).1);
            (
                "SELECT COUNT(attachment.ROWID) AS media_count FROM attachment WHERE attachment.mime_type LIKE ?".to_owned(),
                binds,
            )
        },
    }
}

/// The SQL text counting a chat's attachments of a media kind, and its
/// values.
pub open spec fn chat_media_count_text(chat_guid: Seq<char>, media_type: Seq<char>) -> (Seq<char>, Seq<JsonModel>) {
    (
        "SELECT COUNT(attachment.ROWID) AS media_count FROM attachment INNER JOIN message_attachment_join ON attachment.ROWID = message_attachment_join.attachment_id INNER JOIN chat_message_join ON message_attachment_join.message_id = chat_message_join.message_id INNER JOIN chat ON chat.ROWID = chat_message_join.chat_id WHERE chat.guid = ? AND attachment.mime_type LIKE ?"@,
        seq![JsonModel::Str(chat_guid), JsonModel::Str(mime_prefix_of(media_type) + seq!['%'])],
    )
}

/// Builds the SQL text counting a chat's attachments of a media kind and
/// its values.
pub fn chat_media_count_sql(chat_guid: &str, media_type: &str) -> (r: (String, Vec<Json>))
    ensures
        r.0@ == chat_media_count_text(chat_guid@, media_type@).0,
        json_views(r.1@) == chat_media_count_text(chat_guid@, media_type@).1,
{
    let mut binds: Vec<Json> = Vec::new();
    assert(json_views(binds@) =~= Seq::<JsonModel>::empty());
    push_json(&mut binds, Json::Str(chat_guid.to_owned()));
    push_json(&mut binds, Json::Str(mime_like(media_type)));
    assert(json_views(binds@) =~= chat_media_count_text(chat_guid@, media_type@).1);
    (
        "SELECT COUNT(attachment.ROWID) AS media_count FROM attachment INNER JOIN message_attachment_join ON attachment.ROWID = message_attachment_join.attachment_id INNER JOIN chat_message_join ON message_attachment_join.message_id = chat_message_join.message_id INNER JOIN chat ON chat.ROWID = chat_message_join.chat_id WHERE chat.guid = ? AND attachment.mime_type LIKE ?".to_owned(),
        binds,
    )
}

// ---------------------------------------------------------------------------
// Lookups of single rows and relations
// ---------------------------------------------------------------------------

fn select_from(columns: &Vec<&str>, rest: &str) -> (r: String)
    ensures
        r@ == "SELECT "@ + joined(columns@.map_values(|c: &str| c@)) + rest@,
{
    let mut sql = chars_of("SELECT ");
    push_all(&mut sql, &join_columns(columns));
    push_text(&mut sql, rest);
    string_of(&sql)
}

/// The SQL text of a message lookup by GUID selecting `select`.
pub open spec fn message_by_guid_text(select: Seq<char>) -> Seq<char> {
    message_query_head(select) + " WHERE message.guid = ?"@
}

/// Builds the SQL text looking a message up by GUID (bound to it).
pub fn message_by_guid_sql(columns: &Vec<&str>) -> (r: String)
    ensures
        r@ == message_by_guid_text(joined(columns@.map_values(|c: &str| c@))),
{
    let mut sql = query_head(columns);
    push_text(&mut sql, " WHERE message.guid = ?");
    assert(sql@ =~= message_by_guid_text(joined(columns@.map_values(|c: &str| c@))));
    string_of(&sql)
}

/// The SQL text of a chat's last message selecting `select`.
pub open spec fn chat_last_message_text(select: Seq<char>) -> Seq<char> {
    message_query_head(select) + chat_joins() + " WHERE chat.guid = ? ORDER BY message.date DESC LIMIT 1"@
}

/// Builds the SQL text finding a chat's last message (the chat GUID is
/// bound to it).
pub fn chat_last_message_sql(columns: &Vec<&str>) -> (r: String)
    ensures
        r@ == chat_last_message_text(joined(columns@.map_values(|c: &str| c@))),
{
    let mut sql = query_head(columns);
    push_text(
        &mut sql,
        " INNER JOIN chat_message_join ON message.ROWID = chat_message_join.message_id INNER JOIN chat ON chat.ROWID = chat_message_join.chat_id",
    );
    push_text(&mut sql, " WHERE chat.guid = ? ORDER BY message.date DESC LIMIT 1");
    assert(sql@ =~= chat_last_message_text(joined(columns@.map_values(|c: &str| c@))));
    string_of(&sql)
}

/// The SQL text of a message's attachments selecting `select`.
pub open spec fn message_attachments_text(select: Seq<char>) -> Seq<char> {
    "SELECT "@ + select
        + " FROM attachment INNER JOIN message_attachment_join ON attachment.ROWID = message_attachment_join.attachment_id WHERE message_attachment_join.message_id = ?"@
}

/// Builds the SQL text finding a message's attachments (the message row id
/// is bound to it).
pub fn message_attachments_sql(columns: &Vec<&str>) -> (r: String)
    ensures
        r@ == message_attachments_text(joined(columns@.map_values(|c: &str| c@))),
{
    select_from(
        columns,
        " FROM attachment INNER JOIN message_attachment_join ON attachment.ROWID = message_attachment_join.attachment_id WHERE message_attachment_join.message_id = ?",
    )
}

/// The SQL text of a message's chats selecting `select`.
pub open spec fn message_chats_text(select: Seq<char>) -> Seq<char> {
    "SELECT "@ + select
        + " FROM chat INNER JOIN chat_message_join ON chat.ROWID = chat_message_join.chat_id WHERE chat_message_join.message_id = ?"@
}

/// Builds the SQL text finding the chats a message belongs to (the message
/// row id is bound to it).
pub fn message_chats_sql(columns: &Vec<&str>) -> (r: String)
    ensures
        r@ == message_chats_text(joined(columns@.map_values(|c: &str| c@))),
{
    select_from(
        columns,
        " FROM chat INNER JOIN chat_message_join ON chat.ROWID = chat_message_join.chat_id WHERE chat_message_join.message_id = ?",
    )
}

/// The SQL text of the chats read since a time, selecting `select`.
pub open spec fn chats_read_since_text(select: Seq<char>) -> Seq<char> {
    "SELECT "@ + select
        + " FROM chat WHERE chat.last_read_message_timestamp >= ? ORDER BY chat.last_read_message_timestamp DESC"@
}

/// Builds the SQL text finding the chats read since an Apple timestamp
/// (bound to it), latest first.
pub fn chats_read_since_sql(columns: &Vec<&str>) -> (r: String)
    ensures
        r@ == chats_read_since_text(joined(columns@.map_values(|c: &str| c@))),
{
    select_from(
        columns,
        " FROM chat WHERE chat.last_read_message_timestamp >= ? ORDER BY chat.last_read_message_timestamp DESC",
    )
}

/// The SQL text of an attachment lookup selecting `select`: by original
/// GUID or GUID ending with the bound text.
pub open spec fn attachment_lookup_text(select: Seq<char>) -> Seq<char> {
    "SELECT "@ + select
        + " FROM attachment WHERE attachment.original_guid LIKE ?1 OR attachment.guid LIKE ?1 LIMIT 1"@
}

/// Builds the SQL text of an attachment lookup (bound to `%` and a
/// lookup GUID).
pub fn attachment_lookup_sql(columns: &Vec<&str>) -> (r: String)
    ensures
        r@ == attachment_lookup_text(joined(columns@.map_values(|c: &str| c@))),
{
    select_from(
        columns,
        " FROM attachment WHERE attachment.original_guid LIKE ?1 OR attachment.guid LIKE ?1 LIMIT 1",
    )
}

/// The suffix of `s` that is `n` bytes long in UTF-8, when a character
/// starts there.
pub open spec fn byte_suffix(s: Seq<char>, n: nat) -> Option<Seq<char>> {
    if exists|k: int| 0 <= k <= s.len() && #[trigger] utf8_len(s.subrange(k, s.len() as int)) == n {
        let k = choose|k: int| 0 <= k <= s.len() && #[trigger] utf8_len(s.subrange(k, s.len() as int)) == n;
        Some(s.subrange(k, s.len() as int))
    } else {
        None
    }
}

proof fn lemma_suffix_split(s: Seq<char>, k: int, i: int)
    requires
        0 <= k <= i <= s.len(),
    ensures
        utf8_len(s.subrange(k, s.len() as int)) == utf8_len(s.subrange(k, i)) + utf8_len(
            s.subrange(i, s.len() as int),
        ),
{
    assert(s.subrange(k, s.len() as int) =~= s.subrange(k, i) + s.subrange(i, s.len() as int));
    lemma_utf8_len_concat(s.subrange(k, i), s.subrange(i, s.len() as int));
}

proof fn lemma_suffix_unique(s: Seq<char>, a: int, b: int)
    requires
        0 <= a < b <= s.len(),
    ensures
        utf8_len(s.subrange(a, s.len() as int)) > utf8_len(s.subrange(b, s.len() as int)),
{
    lemma_suffix_split(s, a, b);
    lemma_utf8_len_bounds(s.subrange(a, b));
}

/// Index where the suffix of `n` UTF-8 bytes starts, if a character starts
/// there.
fn suffix_start(v: &Vec<char>, n: usize) -> (r: Option<usize>)
    requires
        4 * v@.len() <= usize::MAX,
    ensures
        match r {
            Some(k) => k <= v@.len() && utf8_len(v@.subrange(k as int, v@.len() as int)) == n,
            None => byte_suffix(v@, n as nat) is None,
        },
{
    let len = v.len();
    let mut i = len;
    let mut bytes: usize = 0;
    assert(v@.subrange(len as int, len as int) =~= Seq::<char>::empty());
    while i > 0 && bytes < n
        invariant
            i <= len == v@.len(),
            4 * v@.len() <= usize::MAX,
            bytes == utf8_len(v@.subrange(i as int, len as int)),
            bytes <= 4 * (len - i),
            forall|k: int| i < k <= len ==> utf8_len(#[trigger] v@.subrange(k, len as int)) < n,
        decreases i,
    {
        proof {
            assert(v@.subrange(i - 1, len as int) =~= seq![v@[i - 1]] + v@.subrange(i as int, len as int));
            lemma_utf8_len_concat(seq![v@[i - 1]], v@.subrange(i as int, len as int));
            assert(seq![v@[i - 1]] =~= Seq::<char>::empty().push(v@[i - 1]));
            lemma_utf8_len_push(Seq::<char>::empty(), v@[i - 1]);
        }
        bytes = bytes + char_width(v[i - 1]);
        i = i - 1;
    }
    if bytes == n {
        Some(i)
    } else {
        proof {
            assert forall|k: int| 0 <= k <= len implies #[trigger] utf8_len(v@.subrange(k, len as int)) != n by {
                if k < i {
                    lemma_suffix_unique(v@, k, i as int);
                }
            }
        }
        None
    }
}

/// The GUIDs an attachment is looked up by: the GUID as given, then, when
/// it is longer than 36 bytes, its last 36 bytes (leaving out a prefix
/// such as `at_x_` or `p:/`).
pub open spec fn lookup_guids(guid: Seq<char>) -> Seq<Seq<char>> {
    if utf8_len(guid) > 36 {
        seq![guid, byte_suffix(guid, 36)->0]
    } else {
        seq![guid]
    }
}

/// Whether the last 36 bytes of a GUID start at a character, so that they
/// can be cut off.
pub open spec fn lookup_cut_ok(guid: Seq<char>) -> bool {
    utf8_len(guid) > 36 ==> byte_suffix(guid, 36) is Some
}

/// The GUIDs an attachment is looked up by.
pub fn attachment_lookup_guids(guid: &str) -> (r: Vec<String>)
    requires
        lookup_cut_ok(guid@),
        4 * guid@.len() <= usize::MAX,
    ensures
        r@.map_values(|g: String| g@) == lookup_guids(guid@),
{
    let c = chars_of(guid);
    let mut out: Vec<String> = Vec::new();
    out.push(guid.to_owned());
    proof {
        assert(c@.subrange(0, c@.len() as int) =~= c@);
    }
    let total = bytes_of(&c, 0, c.len());
    if total > 36 {
        match suffix_start(&c, 36) {
            Some(k) => {
                let tail = crate::text::slice_of(&c, k, c.len());
                out.push(string_of(&tail));
                proof {
                    let w = choose|j: int| 0 <= j <= c@.len() && #[trigger] utf8_len(c@.subrange(j, c@.len() as int)) == 36;
                    if w < k {
                        lemma_suffix_unique(c@, w, k as int);
                    } else if w > k {
                        lemma_suffix_unique(c@, k as int, w);
                    }
                    assert(out@.map_values(|g: String| g@) =~= lookup_guids(guid@));
                }
            },
            None => {},
        }
    } else {
        assert(out@.map_values(|g: String| g@) =~= lookup_guids(guid@));
    }
    out
}

/// The LIKE pattern an attachment is looked up with.
pub fn lookup_pattern(guid: &str) -> (r: String)
    ensures
        r@ == seq!['%'] + guid@,
{
    let mut p: Vec<char> = Vec::new();
    p.push('%');
    push_all(&mut p, &chars_of(guid));
    string_of(&p)
}

/// The account of an iMessage login (`E:name@example.com` and the like):
/// the text after its last `:`.
pub open spec fn account_of(login: Seq<char>) -> Seq<char> {
    crate::text::split_on(login, ':').last()
}

/// The iMessage account named by a chat's login, if it has one.
pub fn account_from_login(login: Option<String>) -> (r: Option<String>)
    ensures
        match login {
            Some(l) => r matches Some(a) && a@ == account_of(l@),
            None => r is None,
        },
{
    match login {
        Some(l) => {
            let parts = crate::text::split_chars(&chars_of(l.as_str()), ':');
            proof {
                crate::text::lemma_split_on_nonempty(l@, ':');
            }
            let last = &parts[parts.len() - 1];
            Some(string_of(last))
        },
        None => None,
    }
}

/// The SQL text finding handles by row id, for `n` row ids.
pub open spec fn handles_by_rowid_text(n: nat) -> Seq<char> {
    "SELECT handle.ROWID, handle.id, handle.country, handle.service, handle.uncanonicalized_id FROM handle WHERE handle.ROWID IN ("@
        + placeholders(n) + ")"@
}

/// `n` placeholders separated by commas.
pub open spec fn placeholders(n: nat) -> Seq<char>
    decreases n,
{
    if n == 0 {
        Seq::empty()
    } else if n == 1 {
        seq!['?']
    } else {
        placeholders((n - 1) as nat) + seq![',', '?']
    }
}

/// Builds the SQL text finding `n` handles by row id.
pub fn handles_by_rowid_sql(n: usize) -> (r: String)
    ensures
        r@ == handles_by_rowid_text(n as nat),
{
    let mut sql = chars_of(
        "SELECT handle.ROWID, handle.id, handle.country, handle.service, handle.uncanonicalized_id FROM handle WHERE handle.ROWID IN (",
    );
    let ghost s0 = sql@;
    let mut k: usize = 0;
    while k < n
        invariant
            k <= n,
            sql@ == s0 + placeholders(k as nat),
        decreases n - k,
    {
        if k > 0 {
            sql.push(',');
        }
        sql.push('?');
        proof {
            if k == 0 {
                assert(sql@ =~= s0 + placeholders(1));
            } else {
                assert(sql@ =~= s0 + placeholders((k + 1) as nat));
            }
        }
        k = k + 1;
    }
    push_text(&mut sql, ")");
    assert(sql@ =~= handles_by_rowid_text(n as nat));
    string_of(&sql)
}

/// A handle as plain values.
pub open spec fn handle_view(h: Handle) -> (int, Seq<char>, Option<Seq<char>>, Seq<char>, Option<Seq<char>>) {
    (
        h.rowid as int,
        h.id@,
        match h.country {
            Some(c) => Some(c@),
            None => None,
        },
        h.service@,
        match h.uncanonicalized_id {
            Some(u) => Some(u@),
            None => None,
        },
    )
}

/// The last fetched handle with a row id (a map keyed by row id keeps the
/// last).
pub open spec fn last_with_rowid(hs: Seq<Handle>, id: i64) -> Option<Handle>
    decreases hs.len(),
{
    if hs.len() == 0 {
        None
    } else if hs.last().rowid == id {
        Some(hs.last())
    } else {
        last_with_rowid(hs.drop_last(), id)
    }
}

/// A chat's participants in the order of the join table: for each row id,
/// the handle fetched with it, once.
pub open spec fn participants_in_order(ids: Seq<i64>, hs: Seq<Handle>) -> Seq<Handle>
    decreases ids.len(),
{
    if ids.len() == 0 {
        Seq::empty()
    } else {
        let prev = participants_in_order(ids.drop_last(), hs);
        let id = ids.last();
        if ids.drop_last().contains(id) {
            prev
        } else {
            match last_with_rowid(hs, id) {
                Some(h) => prev.push(h),
                None => prev,
            }
        }
    }
}

fn copy_handle(h: &Handle) -> (r: Handle)
    ensures
        handle_view(r) == handle_view(*h),
{
    Handle {
        rowid: h.rowid,
        id: h.id.clone(),
        country: match &h.country {
            Some(c) => Some(c.clone()),
            None => None,
        },
        service: h.service.clone(),
        uncanonicalized_id: match &h.uncanonicalized_id {
            Some(u) => Some(u.clone()),
            None => None,
        },
    }
}

fn find_last_rowid(hs: &Vec<Handle>, id: i64) -> (r: Option<usize>)
    ensures
        match r {
            Some(i) => i < hs@.len() && last_with_rowid(hs@, id) == Some(hs@[i as int]),
            None => last_with_rowid(hs@, id) is None,
        },
{
    let mut i = hs.len();
    assert(hs@.take(hs@.len() as int) =~= hs@);
    while i > 0
        invariant
            i <= hs@.len(),
            last_with_rowid(hs@, id) == last_with_rowid(hs@.take(i as int), id),
        decreases i,
    {
        assert(hs@.take(i as int).drop_last() =~= hs@.take(i - 1));
        assert(hs@.take(i as int).last() == hs@[i - 1]);
        if hs[i - 1].rowid == id {
            return Some(i - 1);
        }
        i = i - 1;
    }
    None
}

fn ids_contain(ids: &Vec<i64>, k: usize, id: i64) -> (r: bool)
    requires
        k <= ids@.len(),
    ensures
        r == ids@.take(k as int).contains(id),
{
    let mut j: usize = 0;
    while j < k
        invariant
            j <= k <= ids@.len(),
            forall|m: int| 0 <= m < j ==> ids@[m] != id,
        decreases k - j,
    {
        if ids[j] == id {
            assert(ids@.take(k as int)[j as int] == id);
            return true;
        }
        j = j + 1;
    }
    false
}

/// Puts the fetched handles of a chat in the order of the join table's row
/// ids, each once.
pub fn order_participants(ids: &Vec<i64>, handles: &Vec<Handle>) -> (r: Vec<Handle>)
    ensures
        r@.map_values(|h: Handle| handle_view(h)) == participants_in_order(ids@, handles@).map_values(
            |h: Handle| handle_view(h),
        ),
{
    let mut out: Vec<Handle> = Vec::new();
    let mut k: usize = 0;
    while k < ids.len()
        invariant
            k <= ids@.len(),
            out@.map_values(|h: Handle| handle_view(h)) == participants_in_order(
                ids@.take(k as int),
                handles@,
            ).map_values(|h: Handle| handle_view(h)),
        decreases ids.len() - k,
    {
        assert(ids@.take(k + 1).drop_last() =~= ids@.take(k as int));
        assert(ids@.take(k + 1).last() == ids@[k as int]);
        let id = ids[k];
        if !ids_contain(ids, k, id) {
            match find_last_rowid(handles, id) {
                Some(i) => {
                    let ghost o0 = out@.map_values(|h: Handle| handle_view(h));
                    out.push(copy_handle(&handles[i]));
                    assert(out@.map_values(|h: Handle| handle_view(h)) =~= o0.push(handle_view(handles@[i as int])));
                },
                None => {},
            }
        }
        k = k + 1;
    }
    assert(ids@.take(ids@.len() as int) =~= ids@);
    out
}

} // verus!

//! Caller-supplied `WHERE` fragments of message queries: named parameters
//! (`:name`, and `:...name` for a list) become `?` placeholders, and the
//! values to bind to them are collected in order.
use vstd::prelude::*;
use crate::json::{
    copy_json, entry_views, field_of, json_view, json_views, lemma_json_views, model_get, Json,
    JsonModel,
};
use crate::dates::apple_raw;
use crate::db::{date_to_db, ChatQueryParams, SortOrder};
use crate::decimal::{i64_text, int_text};
use crate::queries::MessageQueryParams;
use crate::text::{chars_of, is_word, is_word_char, push_all, string_of};

verus! {

/// A custom `WHERE` clause: a SQL fragment and the values of its named
/// parameters.
#[derive(Debug)]
pub struct WhereClause {
    pub statement: String,
    pub args: Vec<(String, Json)>,
}

/// Where the run of name characters starting at `i` ends.
pub open spec fn name_end(s: Seq<char>, i: int) -> int
    decreases s.len() - i,
{
    if i < 0 || i >= s.len() || !is_word(s[i]) {
        i
    } else {
        name_end(s, i + 1)
    }
}

pub proof fn lemma_name_end(s: Seq<char>, i: int)
    requires
        0 <= i <= s.len(),
    ensures
        i <= name_end(s, i) <= s.len(),
    decreases s.len() - i,
{
    if i < s.len() && is_word(s[i]) {
        lemma_name_end(s, i + 1);
    }
}

/// `n` placeholders separated by `", "`.
pub open spec fn placeholders(n: nat) -> Seq<char>
    decreases n,
{
    if n == 0 {
        Seq::empty()
    } else if n == 1 {
        seq!['?']
    } else {
        placeholders((n - 1) as nat) + seq![',', ' ', '?']
    }
}

/// `:...` stands at `i`.
pub open spec fn spread_at(s: Seq<char>, i: int) -> bool {
    i + 3 < s.len() && s[i + 1] == '.' && s[i + 2] == '.' && s[i + 3] == '.'
}

/// The statement from `i` on with its named parameters expanded, and the
/// values bound to the placeholders, in order.  A parameter whose name is
/// not among the arguments is left as it is; a list parameter whose value
/// is not an array leaves nothing.
pub open spec fn expanded(
    s: Seq<char>,
    args: Seq<(Seq<char>, JsonModel)>,
    i: int,
) -> (Seq<char>, Seq<JsonModel>)
    decreases s.len() - i,
{
    if i < 0 || i >= s.len() {
        (Seq::empty(), Seq::empty())
    } else if s[i] == ':' {
        let ns = if spread_at(s, i) {
            i + 4
        } else {
            i + 1
        };
        let ne = name_end(s, ns);
        proof {
            lemma_name_end(s, ns);
        }
        if ne > ns && model_get(args, s.subrange(ns, ne)) is Some {
            let v = model_get(args, s.subrange(ns, ne))->0;
            let rest = expanded(s, args, ne);
            if spread_at(s, i) {
                match v {
                    JsonModel::Array(items) => (placeholders(items.len()) + rest.0, items + rest.1),
                    _ => rest,
                }
            } else {
                (seq!['?'] + rest.0, seq![v] + rest.1)
            }
        } else {
            let rest = expanded(s, args, i + 1);
            (seq![':'] + rest.0, rest.1)
        }
    } else {
        let rest = expanded(s, args, i + 1);
        (seq![s[i]] + rest.0, rest.1)
    }
}

fn name_end_exec(s: &Vec<char>, i: usize) -> (r: usize)
    requires
        i <= s.len(),
    ensures
        r == name_end(s@, i as int),
{
    let mut k = i;
    while k < s.len() && is_word_char(s[k])
        invariant
            i <= k <= s.len(),
            name_end(s@, k as int) == name_end(s@, i as int),
        decreases s.len() - k,
    {
        k = k + 1;
    }
    k
}

fn push_placeholders(out: &mut Vec<char>, n: usize)
    ensures
        final(out)@ == old(out)@ + placeholders(n as nat),
{
    let ghost o0 = out@;
    let mut j: usize = 0;
    while j < n
        invariant
            j <= n,
            out@ == o0 + placeholders(j as nat),
        decreases n - j,
    {
        if j > 0 {
            out.push(',');
            out.push(' ');
        }
        out.push('?');
        j = j + 1;
        assert(out@ =~= o0 + placeholders(j as nat));
    }
}

/// Expand named parameters (`:name`, `:...name`) in a SQL fragment and
/// push the values to bind to its placeholders.
pub fn expand_named_params(
    statement: &str,
    args: &Vec<(String, Json)>,
    bind_values: &mut Vec<Json>,
) -> (r: String)
    ensures
        r@ == expanded(statement@, entry_views(args@), 0).0,
        json_views(final(bind_values)@) == json_views(old(bind_values)@) + expanded(
            statement@,
            entry_views(args@),
            0,
        ).1,
{
    let chars = chars_of(statement);
    let ghost s = chars@;
    let ghost a = entry_views(args@);
    let ghost b0 = json_views(bind_values@);
    let mut out: Vec<char> = Vec::new();
    let mut i: usize = 0;
    while i < chars.len()
        invariant
            i <= chars.len(),
            s == chars@,
            s == statement@,
            a == entry_views(args@),
            b0 == json_views(old(bind_values)@),
            out@ + expanded(s, a, i as int).0 == expanded(s, a, 0).0,
            json_views(bind_values@) + expanded(s, a, i as int).1 == b0 + expanded(s, a, 0).1,
        decreases chars.len() - i,
    {
        let ghost ex = expanded(s, a, i as int);
        if chars[i] == ':' {
            let is_spread = chars.len() - i > 3 && chars[i + 1] == '.' && chars[i + 2] == '.'
                && chars[i + 3] == '.';
            let name_start = if is_spread {
                i + 4
            } else {
                i + 1
            };
            let ne = name_end_exec(&chars, name_start);
            proof {
                lemma_name_end(s, name_start as int);
            }
            if ne > name_start {
                let name = string_of(&slice_chars(&chars, name_start, ne));
                match field_of(args, name.as_str()) {
                    Some(val) => {
                        let ghost rest = expanded(s, a, ne as int);
                        let ghost o0 = out@;
                        let ghost bv0 = json_views(bind_values@);
                        if is_spread {
                            match val {
                                Json::Array(items) => {
                                    proof {
                                        lemma_json_views(items@);
                                    }
                                    push_placeholders(&mut out, items.len());
                                    let mut j: usize = 0;
                                    while j < items.len()
                                        invariant
                                            j <= items.len(),
                                            json_views(bind_values@) == bv0 + json_views(
                                                items@,
                                            ).subrange(0, j as int),
                                        decreases items.len() - j,
                                    {
                                        proof {
                                            lemma_json_views(items@);
                                        }
                                        let ghost bj = bind_values@;
                                        bind_values.push(copy_json(&items[j]));
                                        proof {
                                            lemma_json_views(bind_values@);
                                            lemma_json_views(bj);
                                            assert(json_views(bind_values@) =~= json_views(
                                                bj,
                                            ).push(json_view(items@[j as int])));
                                        }
                                        j = j + 1;
                                        assert(json_views(bind_values@) =~= bv0 + json_views(
                                            items@,
                                        ).subrange(0, j as int));
                                    }
                                    assert(json_views(items@).subrange(
                                        0,
                                        items@.len() as int,
                                    ) =~= json_views(items@));
                                    assert(o0 + ex.0 =~= out@ + rest.0);
                                    assert(bv0 + ex.1 =~= json_views(bind_values@) + rest.1);
                                },
                                _ => {},
                            }
                        } else {
                            out.push('?');
                            let ghost bj = bind_values@;
                            bind_values.push(copy_json(val));
                            proof {
                                lemma_json_views(bind_values@);
                                lemma_json_views(bj);
                                assert(json_views(bind_values@) =~= json_views(bj).push(
                                    json_view(*val),
                                ));
                            }
                            assert(o0 + ex.0 =~= out@ + rest.0);
                            assert(bv0 + ex.1 =~= json_views(bind_values@) + rest.1);
                        }
                        i = ne;
                        continue;
                    },
                    None => {},
                }
            }
            let ghost o0 = out@;
            out.push(':');
            assert(o0 + ex.0 =~= out@ + expanded(s, a, i + 1).0);
        } else {
            let ghost o0 = out@;
            out.push(chars[i]);
            assert(o0 + ex.0 =~= out@ + expanded(s, a, i + 1).0);
        }
        i = i + 1;
    }
    assert(out@ + expanded(s, a, i as int).0 =~= out@);
    assert(json_views(bind_values@) + expanded(s, a, i as int).1 =~= json_views(bind_values@));
    string_of(&out)
}

fn slice_chars(v: &Vec<char>, lo: usize, hi: usize) -> (r: Vec<char>)
    requires
        lo <= hi <= v.len(),
    ensures
        r@ == v@.subrange(lo as int, hi as int),
{
    let mut r: Vec<char> = Vec::new();
    let mut i = lo;
    while i < hi
        invariant
            lo <= i <= hi <= v.len(),
            r@ == v@.subrange(lo as int, i as int),
        decreases hi - i,
    {
        r.push(v[i]);
        i = i + 1;
        assert(r@ =~= v@.subrange(lo as int, i as int));
    }
    r
}

/// What applying custom `WHERE` clauses appends to a query: ` AND (...)`
/// for each, with its parameters expanded; and the values bound.
pub open spec fn where_suffix(clauses: Seq<WhereClause>) -> (Seq<char>, Seq<JsonModel>)
    decreases clauses.len(),
{
    if clauses.len() == 0 {
        (Seq::empty(), Seq::empty())
    } else {
        let prev = where_suffix(clauses.drop_last());
        let c = clauses.last();
        let ex = expanded(c.statement@, entry_views(c.args@), 0);
        (prev.0 + " AND ("@ + ex.0 + ")"@, prev.1 + ex.1)
    }
}

/// Apply custom `WHERE` clauses to a SQL query.
pub fn apply_where_clauses(
    sql: &mut String,
    bind_values: &mut Vec<Json>,
    where_clauses: &[WhereClause],
)
    ensures
        final(sql)@ == old(sql)@ + where_suffix(where_clauses@).0,
        json_views(final(bind_values)@) == json_views(old(bind_values)@) + where_suffix(
            where_clauses@,
        ).1,
{
    let mut out = chars_of(sql.as_str());
    let ghost s0 = old(sql)@;
    let ghost b0 = json_views(bind_values@);
    let mut k: usize = 0;
    assert(where_clauses@.subrange(0, 0) =~= Seq::<WhereClause>::empty());
    while k < where_clauses.len()
        invariant
            k <= where_clauses.len(),
            b0 == json_views(old(bind_values)@),
            s0 == old(sql)@,
            out@ == s0 + where_suffix(where_clauses@.subrange(0, k as int)).0,
            json_views(bind_values@) == b0 + where_suffix(where_clauses@.subrange(0, k as int)).1,
        decreases where_clauses.len() - k,
    {
        let c = &where_clauses[k];
        let ghost bk = json_views(bind_values@);
        let expanded_text = expand_named_params(c.statement.as_str(), &c.args, bind_values);
        let open = chars_of(" AND (");
        let close = chars_of(")");
        let body = chars_of(expanded_text.as_str());
        let ghost o0 = out@;
        push_all(&mut out, &open);
        push_all(&mut out, &body);
        push_all(&mut out, &close);
        proof {
            reveal_strlit(" AND (");
            reveal_strlit(")");
            assert(where_clauses@.subrange(0, k + 1).drop_last() =~= where_clauses@.subrange(
                0,
                k as int,
            ));
            assert(where_clauses@.subrange(0, k + 1).last() == where_clauses@[k as int]);
            assert(out@ =~= s0 + where_suffix(where_clauses@.subrange(0, k + 1)).0);
            assert(json_views(bind_values@) =~= b0 + where_suffix(
                where_clauses@.subrange(0, k + 1),
            ).1);
        }
        k = k + 1;
    }
    assert(where_clauses@.subrange(0, where_clauses@.len() as int) =~= where_clauses@);
    *sql = string_of(&out);
}

// ---------------------------------------------------------------------------
// Query text
// ---------------------------------------------------------------------------

/// Column names separated by `", "`.
pub open spec fn joined(cols: Seq<Seq<char>>) -> Seq<char>
    decreases cols.len(),
{
    if cols.len() == 0 {
        Seq::empty()
    } else if cols.len() == 1 {
        cols[0]
    } else {
        joined(cols.drop_last()) + ", "@ + cols.last()
    }
}

/// Joins column names with `", "`.
pub fn join_columns(cols: &Vec<&str>) -> (r: Vec<char>)
    ensures
        r@ == joined(cols@.map_values(|c: &str| c@)),
{
    let ghost cv = cols@.map_values(|c: &str| c@);
    let mut out: Vec<char> = Vec::new();
    let mut k: usize = 0;
    while k < cols.len()
        invariant
            k <= cols.len(),
            cv == cols@.map_values(|c: &str| c@),
            out@ == joined(cv.subrange(0, k as int)),
        decreases cols.len() - k,
    {
        proof {
            reveal_strlit(", ");
            assert(cv.subrange(0, k + 1).drop_last() =~= cv.subrange(0, k as int));
            assert(cv.subrange(0, k + 1).last() == cols@[k as int]@);
        }
        if k > 0 {
            push_all(&mut out, &chars_of(", "));
        }
        push_all(&mut out, &chars_of(cols[k]));
        proof {
            if k == 0 {
                assert(out@ =~= joined(cv.subrange(0, 1)));
            }
        }
        k = k + 1;
    }
    assert(cv.subrange(0, cols@.len() as int) =~= cv);
    out
}

/// The join through which a message's chats are reached.
pub open spec fn chat_joins() -> Seq<char> {
    " INNER JOIN chat_message_join ON message.ROWID = chat_message_join.message_id INNER JOIN chat ON chat.ROWID = chat_message_join.chat_id"@
}

/// The date filter of a message query, and the Apple timestamps bound to
/// it.
pub open spec fn date_filter(after: Option<i64>, before: Option<i64>) -> (Seq<char>, Seq<JsonModel>) {
    if after is None && before is None {
        (Seq::empty(), Seq::empty())
    } else {
        (
            " AND (1=1"@ + (if after is Some {
                " AND message.date >= ?"@
            } else {
                Seq::empty()
            }) + (if before is Some {
                " AND message.date <= ?"@
            } else {
                Seq::empty()
            }) + ")"@,
            (match after {
                Some(a) => seq![JsonModel::Int(apple_raw(a as int))],
                None => Seq::empty(),
            }) + match before {
                Some(b) => seq![JsonModel::Int(apple_raw(b as int))],
                None => Seq::empty(),
            },
        )
    }
}

/// A time the database can be asked about: its Apple timestamp fits in
/// `i64`.
pub open spec fn date_fits(t: Option<i64>) -> bool {
    t matches Some(ms) ==> i64::MIN <= apple_raw(ms as int) <= i64::MAX
}

/// The start of a message query selecting `select`: the messages with
/// their handles.
pub open spec fn message_query_head(select: Seq<char>) -> Seq<char> {
    "SELECT "@ + select
        + ", handle.ROWID AS h_ROWID, handle.id AS h_id, handle.country AS h_country, handle.service AS h_service, handle.uncanonicalized_id AS h_uncanonicalized_id FROM message LEFT JOIN handle ON message.handle_id = handle.ROWID"@
}

/// The chat filter of a message query: by chat GUID, or joined to chats
/// when they are loaded, or none.
pub open spec fn chat_filter(p: MessageQueryParams) -> (Seq<char>, Seq<JsonModel>) {
    match p.chat_guid {
        Some(g) => (chat_joins() + " WHERE chat.guid = ?"@, seq![JsonModel::Str(g@)]),
        None => if p.with_chats {
            (chat_joins() + " WHERE 1=1"@, Seq::<JsonModel>::empty())
        } else {
            (" WHERE 1=1"@, Seq::<JsonModel>::empty())
        },
    }
}

/// The order and the page of a message query.
pub open spec fn order_and_page(p: MessageQueryParams) -> Seq<char> {
    " ORDER BY "@ + p.order_by@ + " "@ + (match p.sort {
        SortOrder::Asc => "ASC"@,
        SortOrder::Desc => "DESC"@,
    }) + " LIMIT "@ + int_text(p.limit as int) + " OFFSET "@ + int_text(p.offset as int)
}

/// The SQL text of a message query selecting `select`, and the values
/// bound to it, in order.
pub open spec fn message_query_text(p: MessageQueryParams, select: Seq<char>) -> (
    Seq<char>,
    Seq<JsonModel>,
) {
    let f = chat_filter(p);
    let d = date_filter(p.after, p.before);
    let w = where_suffix(p.where_clauses@);
    (
        message_query_head(select) + f.0 + d.0 + w.0 + order_and_page(p),
        f.1 + d.1 + w.1,
    )
}

pub(crate) fn push_text(out: &mut Vec<char>, s: &str)
    ensures
        final(out)@ == old(out)@ + s@,
{
    push_all(out, &chars_of(s));
}

pub(crate) fn query_head(columns: &Vec<&str>) -> (r: Vec<char>)
    ensures
        r@ == message_query_head(joined(columns@.map_values(|c: &str| c@))),
{
    let select = join_columns(columns);
    let mut sql: Vec<char> = Vec::new();
    push_text(&mut sql, "SELECT ");
    push_all(&mut sql, &select);
    push_text(
        &mut sql,
        ", handle.ROWID AS h_ROWID, handle.id AS h_id, handle.country AS h_country, handle.service AS h_service, handle.uncanonicalized_id AS h_uncanonicalized_id FROM message LEFT JOIN handle ON message.handle_id = handle.ROWID",
    );
    assert(sql@ =~= message_query_head(joined(columns@.map_values(|c: &str| c@))));
    sql
}

fn chat_filter_text(params: &MessageQueryParams) -> (r: (Vec<char>, Vec<Json>))
    ensures
        r.0@ == chat_filter(*params).0,
        json_views(r.1@) == chat_filter(*params).1,
{
    let mut sql: Vec<char> = Vec::new();
    let mut binds: Vec<Json> = Vec::new();
    match &params.chat_guid {
        Some(g) => {
            push_text(
                &mut sql,
                " INNER JOIN chat_message_join ON message.ROWID = chat_message_join.message_id INNER JOIN chat ON chat.ROWID = chat_message_join.chat_id",
            );
            push_text(&mut sql, " WHERE chat.guid = ?");
            binds.push(Json::Str(g.clone()));
            proof {
                lemma_json_views(binds@);
                assert(json_views(binds@) =~= seq![JsonModel::Str(g@)]);
            }
        },
        None => {
            if params.with_chats {
                push_text(
                    &mut sql,
                    " INNER JOIN chat_message_join ON message.ROWID = chat_message_join.message_id INNER JOIN chat ON chat.ROWID = chat_message_join.chat_id",
                );
            }
            push_text(&mut sql, " WHERE 1=1");
            proof {
                lemma_json_views(binds@);
                assert(json_views(binds@) =~= Seq::<JsonModel>::empty());
            }
        },
    }
    assert(sql@ =~= chat_filter(*params).0);
    (sql, binds)
}

pub(crate) fn date_filter_text(after: Option<i64>, before: Option<i64>) -> (r: (Vec<char>, Vec<Json>))
    requires
        date_fits(after),
        date_fits(before),
    ensures
        r.0@ == date_filter(after, before).0,
        json_views(r.1@) == date_filter(after, before).1,
{
    let mut sql: Vec<char> = Vec::new();
    let mut binds: Vec<Json> = Vec::new();
    proof {
        lemma_json_views(binds@);
    }
    if after.is_none() && before.is_none() {
        assert(sql@ =~= date_filter(after, before).0);
        assert(json_views(binds@) =~= date_filter(after, before).1);
        return (sql, binds);
    }
    push_text(&mut sql, " AND (1=1");
    match after {
        Some(a) => {
            push_text(&mut sql, " AND message.date >= ?");
            binds.push(Json::Int(date_to_db(a)));
        },
        None => {},
    }
    let ghost b1 = binds@;
    match before {
        Some(b) => {
            push_text(&mut sql, " AND message.date <= ?");
            binds.push(Json::Int(date_to_db(b)));
        },
        None => {},
    }
    push_text(&mut sql, ")");
    proof {
        lemma_json_views(b1);
        lemma_json_views(binds@);
        assert(sql@ =~= date_filter(after, before).0);
        assert(json_views(binds@) =~= date_filter(after, before).1);
    }
    (sql, binds)
}

fn order_and_page_text(params: &MessageQueryParams) -> (r: Vec<char>)
    ensures
        r@ == order_and_page(*params),
{
    let mut tail: Vec<char> = Vec::new();
    push_text(&mut tail, " ORDER BY ");
    push_text(&mut tail, params.order_by.as_str());
    push_text(&mut tail, " ");
    push_text(&mut tail, params.sort.as_sql());
    push_text(&mut tail, " LIMIT ");
    push_all(&mut tail, &i64_text(params.limit));
    push_text(&mut tail, " OFFSET ");
    push_all(&mut tail, &i64_text(params.offset));
    assert(tail@ =~= order_and_page(*params));
    tail
}

/// Builds the SQL text of a message query and the values to bind.
pub fn message_query_sql(params: &MessageQueryParams, columns: &Vec<&str>) -> (r: (String, Vec<Json>))
    requires
        date_fits(params.after),
        date_fits(params.before),
    ensures
        ({
            let t = message_query_text(*params, joined(columns@.map_values(|c: &str| c@)));
            r.0@ == t.0 && json_views(r.1@) == t.1
        }),
{
    let mut sql = query_head(columns);
    let (f, mut binds) = chat_filter_text(params);
    push_all(&mut sql, &f);
    let (d, mut dbinds) = date_filter_text(params.after, params.before);
    push_all(&mut sql, &d);
    let ghost b1 = binds@;
    let ghost b2 = dbinds@;
    binds.append(&mut dbinds);
    proof {
        lemma_json_views(b1);
        lemma_json_views(b2);
        lemma_json_views(binds@);
        assert(json_views(binds@) =~= json_views(b1) + json_views(b2));
    }
    let mut text = string_of(&sql);
    apply_where_clauses(&mut text, &mut binds, params.where_clauses.as_slice());
    let mut all = chars_of(text.as_str());
    push_all(&mut all, &order_and_page_text(params));
    proof {
        let t = message_query_text(*params, joined(columns@.map_values(|c: &str| c@)));
        assert(all@ =~= t.0);
        assert(json_views(binds@) =~= t.1);
    }
    (string_of(&all), binds)
}

/// The filters of a chat query: archived chats left out unless asked
/// for, and the chat GUID (a substring when `glob_guid`).
pub open spec fn chat_filters(p: ChatQueryParams) -> (Seq<char>, Seq<JsonModel>) {
    let a = if p.with_archived {
        Seq::empty()
    } else {
        " AND chat.is_archived = 0"@
    };
    match p.chat_guid {
        Some(g) => if p.glob_guid {
            (a + " AND chat.guid LIKE ?"@, seq![JsonModel::Str(seq!['%'] + g@ + seq!['%'])])
        } else {
            (a + " AND chat.guid = ?"@, seq![JsonModel::Str(g@)])
        },
        None => (a, Seq::empty()),
    }
}

/// The SQL text of a chat query selecting `select`, and its values.
pub open spec fn chat_query_text(p: ChatQueryParams, select: Seq<char>) -> (Seq<char>, Seq<JsonModel>) {
    let f = chat_filters(p);
    (
        "SELECT "@ + select + " FROM chat WHERE 1=1"@ + f.0 + " ORDER BY "@ + p.order_by@ + " DESC"@
            + match p.limit {
            Some(l) => " LIMIT "@ + int_text(l as int) + " OFFSET "@ + int_text(p.offset as int),
            None => Seq::empty(),
        },
        f.1,
    )
}

/// The SQL text counting the chats a chat query finds, and its values.
pub open spec fn chat_count_text(p: ChatQueryParams) -> (Seq<char>, Seq<JsonModel>) {
    let f = chat_filters(p);
    ("SELECT COUNT(*) FROM chat WHERE 1=1"@ + f.0, f.1)
}

fn chat_filters_text(params: &ChatQueryParams) -> (r: (Vec<char>, Vec<Json>))
    ensures
        r.0@ == chat_filters(*params).0,
        json_views(r.1@) == chat_filters(*params).1,
{
    let mut sql: Vec<char> = Vec::new();
    let mut binds: Vec<Json> = Vec::new();
    if !params.with_archived {
        push_text(&mut sql, " AND chat.is_archived = 0");
    }
    match &params.chat_guid {
        Some(g) => {
            if params.glob_guid {
                push_text(&mut sql, " AND chat.guid LIKE ?");
                let mut pat: Vec<char> = Vec::new();
                pat.push('%');
                push_all(&mut pat, &chars_of(g.as_str()));
                pat.push('%');
                assert(pat@ =~= seq!['%'] + g@ + seq!['%']);
                binds.push(Json::Str(string_of(&pat)));
                proof {
                    lemma_json_views(binds@);
                    assert(json_views(binds@) =~= seq![JsonModel::Str(seq!['%'] + g@ + seq!['%'])]);
                }
            } else {
                push_text(&mut sql, " AND chat.guid = ?");
                binds.push(Json::Str(g.clone()));
                proof {
                    lemma_json_views(binds@);
                    assert(json_views(binds@) =~= seq![JsonModel::Str(g@)]);
                }
            }
        },
        None => {
            proof {
                lemma_json_views(binds@);
                assert(json_views(binds@) =~= Seq::<JsonModel>::empty());
            }
        },
    }
    assert(sql@ =~= chat_filters(*params).0);
    (sql, binds)
}

/// Builds the SQL text of a chat query and the values to bind.
pub fn chat_query_sql(params: &ChatQueryParams, columns: &Vec<&str>) -> (r: (String, Vec<Json>))
    ensures
        ({
            let t = chat_query_text(*params, joined(columns@.map_values(|c: &str| c@)));
            r.0@ == t.0 && json_views(r.1@) == t.1
        }),
{
    let mut sql: Vec<char> = Vec::new();
    push_text(&mut sql, "SELECT ");
    push_all(&mut sql, &join_columns(columns));
    push_text(&mut sql, " FROM chat WHERE 1=1");
    let (f, binds) = chat_filters_text(params);
    push_all(&mut sql, &f);
    push_text(&mut sql, " ORDER BY ");
    push_text(&mut sql, params.order_by.as_str());
    push_text(&mut sql, " DESC");
    match params.limit {
        Some(l) => {
            push_text(&mut sql, " LIMIT ");
            push_all(&mut sql, &i64_text(l));
            push_text(&mut sql, " OFFSET ");
            push_all(&mut sql, &i64_text(params.offset));
        },
        None => {},
    }
    assert(sql@ =~= chat_query_text(*params, joined(columns@.map_values(|c: &str| c@))).0);
    (string_of(&sql), binds)
}

/// Builds the SQL text counting a chat query's chats and its values.
pub fn chat_count_sql(params: &ChatQueryParams) -> (r: (String, Vec<Json>))
    ensures
        r.0@ == chat_count_text(*params).0,
        json_views(r.1@) == chat_count_text(*params).1,
{
    let mut sql: Vec<char> = Vec::new();
    push_text(&mut sql, "SELECT COUNT(*) FROM chat WHERE 1=1");
    let (f, binds) = chat_filters_text(params);
    push_all(&mut sql, &f);
    assert(sql@ =~= chat_count_text(*params).0);
    (string_of(&sql), binds)
}

} // verus!

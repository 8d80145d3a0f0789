//! The query routes: what they ask the database for, and what they
//! compute from its answers (Spotlight search in place of a text clause,
//! chats ordered by their last message, service counts, handles with
//! their chats).
use vstd::prelude::*;
use crate::db::{Chat, ChatQueryParams, Handle, HandleQueryParams, SortOrder};
use crate::http::{normalize_chat_guid, ChatQueryBody, HandleQueryBody};
use crate::json::{
    entry_views, field_of, json_view, json_views, key_index, lemma_json_views, model_get,
    object_insert, object_set, put_field, Json, JsonModel,
};
use crate::macos::MacOsVersion;
use crate::repository::WhereClause;
use crate::scripts::tahoe_guid;
use crate::plist::PlistValue;
use crate::serialize::{chat_rendered, handle_fields, serialize_chat, serialize_handle};
use crate::serializers::{ChatSerializerConfig, MessageSerializerConfig};
use crate::text::{
    chars_equal, chars_of, contains_seq, contains_seq_exec, is_ws, is_ws_char, lowercase_of,
    string_of, to_lowercase_text, trim, trim_chars,
};

verus! {

// ---------------------------------------------------------------------------
// `with` lists
// ---------------------------------------------------------------------------

/// The items of a `with` list, trimmed and lowercased.
pub open spec fn with_list(o: Option<Vec<String>>) -> Seq<Seq<char>> {
    match o {
        Some(v) => v@.map_values(|s: String| lowercase_of(trim(s@))),
        None => Seq::empty(),
    }
}

/// One of the names is in the list.
pub open spec fn lists_any(items: Seq<Seq<char>>, names: Seq<Seq<char>>) -> bool {
    exists|i: int, j: int| 0 <= i < items.len() && 0 <= j < names.len() && items[i] == names[j]
}

/// The items of a `with` list, trimmed and lowercased.
pub fn with_items(o: &Option<Vec<String>>) -> (r: Vec<String>)
    ensures
        r@.map_values(|s: String| s@) == with_list(*o),
{
    let mut out: Vec<String> = Vec::new();
    match o {
        None => {
            assert(out@.map_values(|s: String| s@) =~= Seq::<Seq<char>>::empty());
        },
        Some(v) => {
            let mut k: usize = 0;
            while k < v.len()
                invariant
                    k <= v.len(),
                    out@.len() == k,
                    out@.map_values(|s: String| s@) == v@.subrange(0, k as int).map_values(
                        |s: String| lowercase_of(trim(s@)),
                    ),
                decreases v.len() - k,
            {
                let t = string_of(&trim_chars(&chars_of(v[k].as_str())));
                let l = to_lowercase_text(t.as_str());
                let ghost o0 = out@;
                out.push(l);
                assert(out@.map_values(|s: String| s@) =~= o0.map_values(|s: String| s@).push(
                    l@,
                ));
                assert(v@.subrange(0, k + 1).map_values(|s: String| lowercase_of(trim(s@)))
                    =~= v@.subrange(0, k as int).map_values(|s: String| lowercase_of(trim(s@))).push(
                    lowercase_of(trim(v@[k as int]@)),
                ));
                k = k + 1;
            }
            assert(v@.subrange(0, v@.len() as int) =~= v@);
        },
    }
    out
}

/// Whether the list holds one of the names.
fn list_has(items: &Vec<String>, names: &Vec<&str>) -> (r: bool)
    ensures
        r == lists_any(items@.map_values(|s: String| s@), names@.map_values(|s: &str| s@)),
{
    let ghost it = items@.map_values(|s: String| s@);
    let ghost nm = names@.map_values(|s: &str| s@);
    let mut i: usize = 0;
    while i < items.len()
        invariant
            i <= items.len(),
            it == items@.map_values(|s: String| s@),
            nm == names@.map_values(|s: &str| s@),
            forall|a: int, b: int| 0 <= a < i && 0 <= b < nm.len() ==> it[a] != nm[b],
        decreases items.len() - i,
    {
        let c = chars_of(items[i].as_str());
        let mut j: usize = 0;
        while j < names.len()
            invariant
                i < items.len(),
                j <= names.len(),
                c@ == it[i as int],
                it == items@.map_values(|s: String| s@),
                nm == names@.map_values(|s: &str| s@),
                forall|a: int, b: int| 0 <= a < i && 0 <= b < nm.len() ==> it[a] != nm[b],
                forall|b: int| 0 <= b < j ==> it[i as int] != nm[b],
            decreases names.len() - j,
        {
            if chars_equal(&c, &chars_of(names[j])) {
                assert(it[i as int] == nm[j as int]);
                return true;
            }
            j = j + 1;
        }
        i = i + 1;
    }
    false
}

// ---------------------------------------------------------------------------
// Message query
// ---------------------------------------------------------------------------

/// Parameters for querying messages.
#[derive(Debug)]
pub struct MessageQueryParams {
    pub chat_guid: Option<String>,
    pub offset: i64,
    pub limit: i64,
    pub after: Option<i64>,
    pub before: Option<i64>,
    pub with_chats: bool,
    pub with_chat_participants: bool,
    pub with_attachments: bool,
    pub sort: SortOrder,
    pub order_by: String,
    pub where_clauses: Vec<WhereClause>,
}

impl Default for MessageQueryParams {
    fn default() -> (r: Self)
        ensures
            r.chat_guid is None && r.offset == 0 && r.limit == 100 && r.after is None
                && r.before is None && !r.with_chats && !r.with_chat_participants
                && r.with_attachments && r.sort == SortOrder::Desc && r.order_by@
                == "message.date"@ && r.where_clauses@.len() == 0,
    {
        Self {
            chat_guid: None,
            offset: 0,
            limit: 100,
            after: None,
            before: None,
            with_chats: false,
            with_chat_participants: false,
            with_attachments: true,
            sort: SortOrder::Desc,
            order_by: "message.date".to_owned(),
            where_clauses: Vec::new(),
        }
    }
}

/// The body of a message query.
#[derive(Debug, Default)]
pub struct MessageQueryBody {
    pub chat_guid: Option<String>,
    pub with_query: Option<Vec<String>>,
    pub offset: Option<i64>,
    pub limit: Option<i64>,
    pub sort: Option<String>,
    pub after: Option<i64>,
    pub before: Option<i64>,
    pub where_clauses: Vec<WhereClause>,
}

/// What a message query asks of the database and how its messages are
/// serialized.
#[derive(Debug)]
pub struct MessageQueryPlan {
    pub params: MessageQueryParams,
    pub config: MessageSerializerConfig,
    /// Chat participants are added to the chats of each message.
    pub with_chat_participants: bool,
}

/// The limit asked for, `default` when none, at most 1000.
pub open spec fn capped_limit(o: Option<i64>, default: i64) -> i64 {
    let l = match o {
        Some(n) => n,
        None => default,
    };
    if l < 1000 {
        l
    } else {
        1000
    }
}

fn cap_limit(o: Option<i64>, default: i64) -> (r: i64)
    ensures
        r == capped_limit(o, default),
{
    let l = match o {
        Some(n) => n,
        None => default,
    };
    if l < 1000 {
        l
    } else {
        1000
    }
}

/// `ASC` sorts ascending; anything else descending.
pub open spec fn sort_of(o: Option<String>) -> SortOrder {
    if o matches Some(s) && s@ == "ASC"@ {
        SortOrder::Asc
    } else {
        SortOrder::Desc
    }
}

fn sort_order_of(o: &Option<String>) -> (r: SortOrder)
    ensures
        r == sort_of(*o),
{
    match o {
        Some(s) => if chars_equal(&chars_of(s.as_str()), &chars_of("ASC")) {
            SortOrder::Asc
        } else {
            SortOrder::Desc
        },
        None => SortOrder::Desc,
    }
}

pub open spec fn names2(a: Seq<char>, b: Seq<char>) -> Seq<Seq<char>> {
    seq![a, b]
}

fn names_of(a: &'static str, b: &'static str) -> (r: Vec<&'static str>)
    ensures
        r@.map_values(|s: &str| s@) == names2(a@, b@),
{
    let r = vec![a, b];
    assert(r@.map_values(|s: &str| s@) =~= names2(a@, b@));
    r
}

/// Plans a message query: the `with` list picks what is loaded and
/// decoded, the limit is at most 1000, the chat GUID takes the form the
/// macOS version stores.
pub fn plan_message_query(body: MessageQueryBody, v: MacOsVersion) -> (r: MessageQueryPlan)
    ensures
        ({
            let w = with_list(body.with_query);
            let participants = lists_any(w, names2("chat.participants"@, "chats.participants"@));
            &&& r.with_chat_participants == participants
            &&& r.params.chat_guid matches Some(g) ==> body.chat_guid matches Some(b) && g@
                == tahoe_guid(b@, v)
            &&& r.params.chat_guid is None <==> body.chat_guid is None
            &&& r.params.offset == (match body.offset {
                Some(n) => n,
                None => 0,
            })
            &&& r.params.limit == capped_limit(body.limit, 100)
            &&& r.params.sort == sort_of(body.sort)
            &&& r.params.after == body.after
            &&& r.params.before == body.before
            &&& r.params.with_chats == (lists_any(w, names2("chat"@, "chats"@)) || participants)
            &&& r.params.with_attachments == lists_any(w, names2("attachment"@, "attachments"@))
            &&& !r.params.with_chat_participants
            &&& r.params.order_by@ == "message.date"@
            &&& r.params.where_clauses == body.where_clauses
            &&& r.config.parse_attributed_body == lists_any(
                w,
                names2("attributedbody"@, "attributed-body"@),
            )
            &&& r.config.parse_message_summary == lists_any(
                w,
                names2("messagesummaryinfo"@, "message-summary-info"@),
            )
            &&& r.config.parse_payload_data == lists_any(w, names2("payloaddata"@, "payload-data"@))
            &&& r.config.include_chats
            &&& r.config.load_chat_participants == participants
        }),
{
    let w = with_items(&body.with_query);
    let with_chats = list_has(&w, &names_of("chat", "chats"));
    let with_attachments = list_has(&w, &names_of("attachment", "attachments"));
    let participants = list_has(&w, &names_of("chat.participants", "chats.participants"));
    let attributed = list_has(&w, &names_of("attributedbody", "attributed-body"));
    let summary = list_has(&w, &names_of("messagesummaryinfo", "message-summary-info"));
    let payload = list_has(&w, &names_of("payloaddata", "payload-data"));
    let chat_guid = match &body.chat_guid {
        Some(g) => Some(normalize_chat_guid(g.as_str(), v)),
        None => None,
    };
    let params = MessageQueryParams {
        chat_guid,
        offset: match body.offset {
            Some(n) => n,
            None => 0,
        },
        limit: cap_limit(body.limit, 100),
        after: body.after,
        before: body.before,
        with_chats: with_chats || participants,
        with_chat_participants: false,
        with_attachments,
        sort: sort_order_of(&body.sort),
        order_by: "message.date".to_owned(),
        where_clauses: body.where_clauses,
    };
    let config = MessageSerializerConfig {
        parse_attributed_body: attributed,
        parse_message_summary: summary,
        parse_payload_data: payload,
        include_chats: true,
        load_chat_participants: participants,
    };
    MessageQueryPlan { params, config, with_chat_participants: participants }
}

/// The reply when the chat a query names does not exist.
pub fn no_chat_message(guid: &str) -> (r: String)
    ensures
        r@ == "No chat found with GUID: "@ + guid@,
{
    let mut m = chars_of("No chat found with GUID: ");
    let g = chars_of(guid);
    crate::text::push_all(&mut m, &g);
    string_of(&m)
}

// ---------------------------------------------------------------------------
// Spotlight search for a text clause
// ---------------------------------------------------------------------------

/// The first index from `i` that is not whitespace (or the end).
pub open spec fn skip_ws(s: Seq<char>, i: int) -> int
    decreases s.len() - i,
{
    if 0 <= i < s.len() && is_ws(s[i]) {
        skip_ws(s, i + 1)
    } else {
        i
    }
}

/// The end of the run of non-whitespace characters from `i`.
pub open spec fn word_end(s: Seq<char>, i: int) -> int
    decreases s.len() - i,
{
    if 0 <= i < s.len() && !is_ws(s[i]) {
        word_end(s, i + 1)
    } else {
        i
    }
}

pub proof fn lemma_skip_ws(s: Seq<char>, i: int)
    requires
        0 <= i <= s.len(),
    ensures
        i <= skip_ws(s, i) <= s.len(),
        skip_ws(s, i) < s.len() ==> !is_ws(s[skip_ws(s, i)]),
    decreases s.len() - i,
{
    if i < s.len() && is_ws(s[i]) {
        lemma_skip_ws(s, i + 1);
    }
}

pub proof fn lemma_word_end(s: Seq<char>, i: int)
    requires
        0 <= i <= s.len(),
    ensures
        i <= word_end(s, i) <= s.len(),
        i < s.len() && !is_ws(s[i]) ==> i < word_end(s, i),
    decreases s.len() - i,
{
    if i < s.len() && !is_ws(s[i]) {
        lemma_word_end(s, i + 1);
    }
}

/// The whitespace-separated words from `i` on (what `split_whitespace`
/// gives).
pub open spec fn words_from(s: Seq<char>, i: int) -> Seq<Seq<char>>
    decreases s.len() - i,
{
    if i < 0 || i > s.len() {
        Seq::empty()
    } else {
        let a = skip_ws(s, i);
        proof {
            lemma_skip_ws(s, i);
            if a < s.len() {
                lemma_word_end(s, a);
            }
        }
        if a >= s.len() {
            Seq::empty()
        } else {
            let b = word_end(s, a);
            seq![s.subrange(a, b)] + words_from(s, b)
        }
    }
}

fn words_of(s: &Vec<char>) -> (r: Vec<Vec<char>>)
    ensures
        r@.map_values(|w: Vec<char>| w@) == words_from(s@, 0),
{
    let mut out: Vec<Vec<char>> = Vec::new();
    let mut i: usize = 0;
    loop
        invariant
            i <= s.len(),
            out@.map_values(|w: Vec<char>| w@) + words_from(s@, i as int) == words_from(s@, 0),
        decreases s.len() - i,
    {
        let ghost wi = words_from(s@, i as int);
        proof {
            lemma_skip_ws(s@, i as int);
        }
        let mut a = i;
        while a < s.len() && is_ws_char(s[a])
            invariant
                i <= a <= s.len(),
                skip_ws(s@, a as int) == skip_ws(s@, i as int),
            decreases s.len() - a,
        {
            a = a + 1;
        }
        if a >= s.len() {
            assert(wi == Seq::<Seq<char>>::empty());
            assert(out@.map_values(|w: Vec<char>| w@) + wi =~= out@.map_values(|w: Vec<char>| w@));
            return out;
        }
        proof {
            lemma_word_end(s@, a as int);
        }
        let mut b = a;
        while b < s.len() && !is_ws_char(s[b])
            invariant
                a <= b <= s.len(),
                word_end(s@, b as int) == word_end(s@, a as int),
            decreases s.len() - b,
        {
            b = b + 1;
        }
        let mut w: Vec<char> = Vec::new();
        let mut k = a;
        while k < b
            invariant
                a <= k <= b <= s.len(),
                w@ == s@.subrange(a as int, k as int),
            decreases b - k,
        {
            w.push(s[k]);
            k = k + 1;
            assert(w@ =~= s@.subrange(a as int, k as int));
        }
        let ghost o0 = out@.map_values(|w: Vec<char>| w@);
        out.push(w);
        assert(out@.map_values(|w: Vec<char>| w@) =~= o0.push(s@.subrange(a as int, b as int)));
        assert(o0 + wi =~= out@.map_values(|w: Vec<char>| w@) + words_from(s@, b as int));
        i = b;
    }
}

/// `s` without the copies of `c` it starts with.
pub open spec fn strip_start(s: Seq<char>, c: char) -> Seq<char>
    decreases s.len(),
{
    if s.len() > 0 && s[0] == c {
        strip_start(s.drop_first(), c)
    } else {
        s
    }
}

/// `s` without the copies of `c` it ends with.
pub open spec fn strip_end(s: Seq<char>, c: char) -> Seq<char>
    decreases s.len(),
{
    if s.len() > 0 && s.last() == c {
        strip_end(s.drop_last(), c)
    } else {
        s
    }
}

fn strip_start_exec(s: &Vec<char>, c: char) -> (r: Vec<char>)
    ensures
        r@ == strip_start(s@, c),
{
    let mut i: usize = 0;
    assert(s@.skip(0) =~= s@);
    while i < s.len() && s[i] == c
        invariant
            i <= s.len(),
            strip_start(s@.skip(i as int), c) == strip_start(s@, c),
        decreases s.len() - i,
    {
        assert(s@.skip(i as int).drop_first() =~= s@.skip(i + 1));
        i = i + 1;
    }
    let mut r: Vec<char> = Vec::new();
    let mut k = i;
    while k < s.len()
        invariant
            i <= k <= s.len(),
            r@ == s@.subrange(i as int, k as int),
        decreases s.len() - k,
    {
        r.push(s[k]);
        k = k + 1;
        assert(r@ =~= s@.subrange(i as int, k as int));
    }
    assert(r@ =~= s@.skip(i as int));
    r
}

fn strip_end_exec(s: &Vec<char>, c: char) -> (r: Vec<char>)
    ensures
        r@ == strip_end(s@, c),
{
    let mut n = s.len();
    assert(s@.subrange(0, n as int) =~= s@);
    while n > 0 && s[n - 1] == c
        invariant
            n <= s.len(),
            strip_end(s@.subrange(0, n as int), c) == strip_end(s@, c),
        decreases n,
    {
        assert(s@.subrange(0, n as int).drop_last() =~= s@.subrange(0, n - 1));
        n = n - 1;
    }
    let mut r: Vec<char> = Vec::new();
    let mut k: usize = 0;
    while k < n
        invariant
            k <= n <= s.len(),
            r@ == s@.subrange(0, k as int),
        decreases n - k,
    {
        r.push(s[k]);
        k = k + 1;
        assert(r@ =~= s@.subrange(0, k as int));
    }
    r
}

/// The first clause whose statement mentions `message.text`, from `i` on.
pub open spec fn text_clause_from(cls: Seq<WhereClause>, i: int) -> Option<int>
    decreases cls.len() - i,
{
    if i < 0 || i >= cls.len() {
        None
    } else if contains_seq(cls[i].statement@, "message.text"@) {
        Some(i)
    } else {
        text_clause_from(cls, i + 1)
    }
}

/// The Spotlight search a query's clauses ask for: the first clause about
/// `message.text`, and the text its third word names (the parameter, its
/// leading colons dropped), without surrounding `%`, when that is a
/// non-empty string.
pub open spec fn spotlight_search_of(cls: Seq<WhereClause>) -> Option<(int, Seq<char>)> {
    match text_clause_from(cls, 0) {
        None => None,
        Some(i) => {
            let ws = words_from(cls[i].statement@, 0);
            if ws.len() < 3 {
                None
            } else {
                match model_get(entry_views(cls[i].args@), strip_start(ws[2], ':')) {
                    Some(JsonModel::Str(t)) => {
                        let term = strip_end(strip_start(t, '%'), '%');
                        if term.len() > 0 {
                            Some((i, term))
                        } else {
                            None
                        }
                    },
                    _ => None,
                }
            }
        },
    }
}

proof fn lemma_text_clause_from(cls: Seq<WhereClause>, i: int)
    requires
        0 <= i,
    ensures
        text_clause_from(cls, i) matches Some(k) ==> i <= k < cls.len(),
    decreases cls.len() - i,
{
    if i < cls.len() && !contains_seq(cls[i].statement@, "message.text"@) {
        lemma_text_clause_from(cls, i + 1);
    }
}

fn text_clause_index(clauses: &Vec<WhereClause>) -> (r: Option<usize>)
    ensures
        as_index(r) == text_clause_from(clauses@, 0),
{
    let pat = chars_of("message.text");
    let mut i: usize = 0;
    while i < clauses.len()
        invariant
            i <= clauses.len(),
            pat@ == "message.text"@,
            text_clause_from(clauses@, i as int) == text_clause_from(clauses@, 0),
        decreases clauses.len() - i,
    {
        if contains_seq_exec(&chars_of(clauses[i].statement.as_str()), &pat) {
            return Some(i);
        }
        i = i + 1;
    }
    None
}

pub open spec fn as_index(o: Option<usize>) -> Option<int> {
    match o {
        Some(i) => Some(i as int),
        None => None,
    }
}

/// Finds the text a query's clauses would have Spotlight search for, and
/// the clause it comes from.
pub fn spotlight_search(clauses: &Vec<WhereClause>) -> (r: Option<(usize, String)>)
    ensures
        match spotlight_search_of(clauses@) {
            Some((i, t)) => r matches Some((k, s)) && k == i && s@ == t,
            None => r is None,
        },
{
    let i = match text_clause_index(clauses) {
        Some(i) => i,
        None => return None,
    };
    proof {
        lemma_text_clause_from(clauses@, 0);
    }
    let clause = &clauses[i];
    let ws = words_of(&chars_of(clause.statement.as_str()));
    proof {
        assert(ws@.map_values(|w: Vec<char>| w@).len() == ws@.len());
    }
    if ws.len() < 3 {
        return None;
    }
    proof {
        assert(ws@.map_values(|w: Vec<char>| w@)[2] == ws@[2]@);
    }
    let var = string_of(&strip_start_exec(&ws[2], ':'));
    match field_of(&clause.args, var.as_str()) {
        Some(Json::Str(t)) => {
            let term = strip_end_exec(&strip_start_exec(&chars_of(t.as_str()), '%'), '%');
            if term.len() > 0 {
                Some((i, string_of(&term)))
            } else {
                None
            }
        },
        _ => None,
    }
}

/// The clause that takes the place of the text clause: the messages
/// Spotlight found, by GUID.
pub open spec fn guid_clause_is(c: WhereClause, guids: Seq<JsonModel>) -> bool {
    c.statement@ == "message.guid IN (:...guids)"@ && entry_views(c.args@) == seq![
        ("guids"@, JsonModel::Array(guids)),
    ]
}

/// Replaces the text clause at `idx` by a clause on the GUIDs Spotlight
/// found, placed last.
pub fn use_spotlight_results(clauses: &mut Vec<WhereClause>, idx: usize, guids: Vec<Json>)
    requires
        idx < old(clauses)@.len(),
    ensures
        final(clauses)@.len() == old(clauses)@.len(),
        final(clauses)@.drop_last() == old(clauses)@.remove(idx as int),
        guid_clause_is(final(clauses)@.last(), json_views(guids@)),
{
    let ghost gv = json_views(guids@);
    clauses.remove(idx);
    let ghost c0 = clauses@;
    let mut args: Vec<(String, Json)> = Vec::new();
    put_field(&mut args, "guids", Json::Array(guids));
    assert(entry_views(args@) =~= seq![("guids"@, JsonModel::Array(gv))]);
    clauses.push(WhereClause { statement: "message.guid IN (:...guids)".to_owned(), args });
    assert(clauses@.drop_last() =~= c0);
}

// ---------------------------------------------------------------------------
// Chat query
// ---------------------------------------------------------------------------

/// What a chat query asks of the database and does with its chats.
#[derive(Debug)]
pub struct ChatQueryPlan {
    pub params: ChatQueryParams,
    /// Each chat gets its last message.
    pub with_last_message: bool,
    /// The chats are ordered by their last message, newest first.
    pub sort_by_last_message: bool,
}

/// Plans a chat query: the `with` list asks for last messages, which also
/// order the chats unless another sort is asked for; the limit is at most
/// 1000 (1000 by default).
pub fn plan_chat_query(body: &ChatQueryBody) -> (r: ChatQueryPlan)
    ensures
        ({
            let last = lists_any(with_list(body.with_query), names2("lastmessage"@, "last-message"@));
            &&& r.with_last_message == last
            &&& r.sort_by_last_message == (last && (body.sort is None || body.sort->0@
                == "lastmessage"@))
            &&& opt_view(r.params.chat_guid) == opt_view(body.guid)
            &&& !r.params.glob_guid
            &&& r.params.with_participants
            &&& !r.params.with_last_message
            &&& r.params.with_archived
            &&& r.params.offset == (match body.offset {
                Some(n) => n,
                None => 0,
            })
            &&& r.params.limit == Some(capped_limit(body.limit, 1000))
            &&& r.params.order_by@ == "chat.ROWID"@
        }),
{
    let w = with_items(&body.with_query);
    let last = list_has(&w, &names_of("lastmessage", "last-message"));
    let sort_last = last && match &body.sort {
        None => true,
        Some(s) => chars_equal(&chars_of(s.as_str()), &chars_of("lastmessage")),
    };
    let mut params = ChatQueryParams::default();
    params.chat_guid = match &body.guid {
        Some(g) => Some(g.clone()),
        None => None,
    };
    params.with_archived = true;
    params.with_participants = true;
    params.offset = match body.offset {
        Some(n) => n,
        None => 0,
    };
    params.limit = Some(cap_limit(body.limit, 1000));
    ChatQueryPlan { params, with_last_message: last, sort_by_last_message: sort_last }
}

pub open spec fn opt_view(o: Option<String>) -> Option<Seq<char>> {
    match o {
        Some(s) => Some(s@),
        None => None,
    }
}

/// A field of a JSON object.
pub open spec fn get_model(j: JsonModel, k: Seq<char>) -> Option<JsonModel> {
    match j {
        JsonModel::Object(f) => model_get(f, k),
        _ => None,
    }
}

/// The date a chat's last message orders it by: its `dateCreated`, or
/// without one its `dateDelivered`, when that is a number; else 0.
pub open spec fn last_message_date(chat: JsonModel) -> int {
    match get_model(chat, "lastMessage"@) {
        Some(m) => {
            let d = match get_model(m, "dateCreated"@) {
                Some(x) => Some(x),
                None => get_model(m, "dateDelivered"@),
            };
            match d {
                Some(JsonModel::Int(n)) => if i64::MIN <= n <= i64::MAX {
                    n
                } else {
                    0
                },
                _ => 0,
            }
        },
        None => 0,
    }
}

fn get_ref<'a>(j: &'a Json, k: &str) -> (r: Option<&'a Json>)
    ensures
        match get_model(json_view(*j), k@) {
            Some(m) => r matches Some(x) && json_view(*x) == m,
            None => r is None,
        },
{
    match j {
        Json::Object(f) => field_of(f, k),
        _ => None,
    }
}

fn last_message_date_of(chat: &Json) -> (r: i64)
    ensures
        r == last_message_date(json_view(*chat)),
{
    match get_ref(chat, "lastMessage") {
        Some(m) => {
            let d = match get_ref(m, "dateCreated") {
                Some(x) => Some(x),
                None => get_ref(m, "dateDelivered"),
            };
            match d {
                Some(Json::Int(n)) => *n,
                Some(Json::Uint(n)) => if *n <= i64::MAX as u64 {
                    *n as i64
                } else {
                    0
                },
                _ => 0,
            }
        },
        None => 0,
    }
}

/// `x` placed after every chat whose last message is no older.
pub open spec fn insert_newest_first(s: Seq<JsonModel>, x: JsonModel) -> Seq<JsonModel>
    decreases s.len(),
{
    if s.len() == 0 {
        seq![x]
    } else if last_message_date(s.last()) >= last_message_date(x) {
        s.push(x)
    } else {
        insert_newest_first(s.drop_last(), x).push(s.last())
    }
}

/// The chats newest last message first, chats with the same date in the
/// order given (a stable sort).
pub open spec fn newest_first(s: Seq<JsonModel>) -> Seq<JsonModel>
    decreases s.len(),
{
    if s.len() == 0 {
        s
    } else {
        insert_newest_first(newest_first(s.drop_last()), s.last())
    }
}

pub open spec fn sorted_newest_first(s: Seq<JsonModel>) -> bool {
    forall|i: int, j: int|
        0 <= i < j < s.len() ==> last_message_date(s[i]) >= last_message_date(s[j])
}

proof fn lemma_insert_newest_first(s: Seq<JsonModel>, x: JsonModel, pos: int)
    requires
        sorted_newest_first(s),
        0 <= pos <= s.len(),
        forall|i: int| 0 <= i < pos ==> last_message_date(s[i]) >= last_message_date(x),
        forall|i: int| pos <= i < s.len() ==> last_message_date(s[i]) < last_message_date(x),
    ensures
        insert_newest_first(s, x) == s.insert(pos, x),
        sorted_newest_first(s.insert(pos, x)),
    decreases s.len(),
{
    if s.len() > 0 {
        if last_message_date(s.last()) >= last_message_date(x) {
            assert(s.push(x) =~= s.insert(pos, x));
        } else {
            let s2 = s.drop_last();
            lemma_insert_newest_first(s2, x, pos);
            assert(s2.insert(pos, x).push(s.last()) =~= s.insert(pos, x));
        }
    }
    let t = s.insert(pos, x);
    assert forall|i: int, j: int| 0 <= i < j < t.len() implies last_message_date(t[i])
        >= last_message_date(t[j]) by {
        if i < pos && j < pos {
        } else if i < pos && j == pos {
        } else if i < pos {
            assert(t[j] == s[j - 1]);
        } else if i == pos {
            assert(t[j] == s[j - 1]);
        } else {
            assert(t[i] == s[i - 1]);
            assert(t[j] == s[j - 1]);
        }
    }
}

/// Orders chats by their last message, newest first.
pub fn sort_by_last_message(chats: Vec<Json>) -> (r: Vec<Json>)
    ensures
        json_views(r@) == newest_first(json_views(chats@)),
{
    let ghost cv = json_views(chats@);
    proof {
        lemma_json_views(chats@);
    }
    let mut out: Vec<Json> = Vec::new();
    let mut rest = chats;
    let n = rest.len();
    let mut k: usize = 0;
    assert(cv.subrange(0, 0) =~= Seq::<JsonModel>::empty());
    assert(json_views(out@) =~= Seq::<JsonModel>::empty()) by {
        lemma_json_views(out@);
    }
    while k < n
        invariant
            k <= n,
            n == cv.len(),
            rest@.len() == n - k,
            forall|i: int| 0 <= i < n - k ==> json_view(#[trigger] rest@[i]) == cv[k + i],
            json_views(out@) == newest_first(cv.subrange(0, k as int)),
            sorted_newest_first(json_views(out@)),
        decreases n - k,
    {
        let ghost r0 = rest@;
        let x = rest.remove(0);
        let ghost xv = json_view(x);
        assert(xv == json_view(r0[0]));
        assert(xv == cv[k as int]);
        assert forall|i: int| 0 <= i < n - (k + 1) implies json_view(#[trigger] rest@[i]) == cv[k
            + 1 + i] by {
            assert(rest@[i] == r0[i + 1]);
        }
        let key = last_message_date_of(&x);
        proof {
            lemma_json_views(out@);
        }
        let mut pos: usize = 0;
        while pos < out.len() && last_message_date_of(&out[pos]) >= key
            invariant
                pos <= out.len(),
                key == last_message_date(xv),
                forall|i: int| 0 <= i < pos ==> last_message_date(json_view(#[trigger] out@[i])) >= key,
            decreases out.len() - pos,
        {
            pos = pos + 1;
        }
        let ghost o0 = out@;
        proof {
            let s = json_views(o0);
            lemma_json_views(o0);
            assert forall|i: int| pos <= i < s.len() implies last_message_date(s[i]) < key by {
                assert(last_message_date(s[pos as int]) >= last_message_date(s[i]));
            }
            lemma_insert_newest_first(s, xv, pos as int);
            let c = cv.subrange(0, k + 1);
            assert(c.drop_last() =~= cv.subrange(0, k as int));
            assert(c.last() == xv);
        }
        out.insert(pos, x);
        proof {
            lemma_json_views(out@);
            assert(json_views(out@) =~= json_views(o0).insert(pos as int, xv));
        }
        k = k + 1;
    }
    assert(cv.subrange(0, n as int) =~= cv);
    out
}

// ---------------------------------------------------------------------------
// Chat counts by service
// ---------------------------------------------------------------------------

/// A chat's service, `Unknown` when it has none.
pub open spec fn service_of(c: Chat) -> Seq<char> {
    match c.service_name {
        Some(s) => s@,
        None => "Unknown"@,
    }
}

/// How many chats each service has, services in the order first seen.
pub open spec fn breakdown(cs: Seq<Chat>) -> Seq<(Seq<char>, JsonModel)>
    decreases cs.len(),
{
    if cs.len() == 0 {
        Seq::empty()
    } else {
        let b = breakdown(cs.drop_last());
        let name = service_of(cs.last());
        object_insert(
            b,
            name,
            JsonModel::Int(
                match model_get(b, name) {
                    Some(JsonModel::Int(n)) => n + 1,
                    _ => 1,
                },
            ),
        )
    }
}

/// Every count is a number of chats seen.
pub open spec fn counts_within(b: Seq<(Seq<char>, JsonModel)>, k: int) -> bool {
    forall|i: int| 0 <= i < b.len() ==> ((#[trigger] b[i]).1 matches JsonModel::Int(n) && 0 <= n <= k)
}

proof fn lemma_model_get_in(b: Seq<(Seq<char>, JsonModel)>, name: Seq<char>, i: int)
    requires
        0 <= i,
    ensures
        key_index(b, name, i) matches Some(x) ==> i <= x < b.len() && b[x].0 == name,
    decreases b.len() - i,
{
    if 0 <= i < b.len() && b[i].0 != name {
        lemma_model_get_in(b, name, i + 1);
    }
}

/// Counts chats by service.
pub fn service_breakdown(chats: &[Chat]) -> (r: Json)
    requires
        chats@.len() < i64::MAX,
    ensures
        json_view(r) == JsonModel::Object(breakdown(chats@)),
{
    let mut f: Vec<(String, Json)> = Vec::new();
    let mut k: usize = 0;
    assert(chats@.subrange(0, 0) =~= Seq::<Chat>::empty());
    while k < chats.len()
        invariant
            k <= chats.len(),
            chats@.len() < i64::MAX,
            entry_views(f@) == breakdown(chats@.subrange(0, k as int)),
            counts_within(entry_views(f@), k as int),
        decreases chats.len() - k,
    {
        let name: String = match &chats[k].service_name {
            Some(s) => s.clone(),
            None => "Unknown".to_owned(),
        };
        let ghost b = entry_views(f@);
        proof {
            lemma_model_get_in(b, name@, 0);
        }
        let count: i64 = match field_of(&f, name.as_str()) {
            Some(Json::Int(n)) => {
                proof {
                    let x = key_index(b, name@, 0)->0;
                    assert(b[x].1 == JsonModel::Int(*n as int));
                }
                *n + 1
            },
            Some(Json::Uint(n)) => {
                proof {
                    let x = key_index(b, name@, 0)->0;
                    assert(b[x].1 == JsonModel::Int(*n as int));
                }
                (*n as i64) + 1
            },
            _ => 1,
        };
        object_set(&mut f, name, Json::Int(count));
        proof {
            let c = chats@.subrange(0, k + 1);
            assert(c.drop_last() =~= chats@.subrange(0, k as int));
            assert(c.last() == chats@[k as int]);
            let nb = entry_views(f@);
            assert forall|i: int| 0 <= i < nb.len() implies ((#[trigger] nb[i]).1 matches JsonModel::Int(
                n,
            ) && 0 <= n <= k + 1) by {
                match key_index(b, name@, 0) {
                    Some(x) => {
                        if i != x {
                            assert(nb[i] == b[i]);
                        }
                    },
                    None => {
                        if i < b.len() {
                            assert(nb[i] == b[i]);
                        }
                    },
                }
            }
        }
        k = k + 1;
    }
    assert(chats@.subrange(0, chats@.len() as int) =~= chats@);
    Json::Object(f)
}

// ---------------------------------------------------------------------------
// Handle query
// ---------------------------------------------------------------------------

/// What a handle query asks of the database, and whether its handles get
/// their chats (with participants or not).
#[derive(Debug)]
pub struct HandleQueryPlan {
    pub params: HandleQueryParams,
    pub with_chats: bool,
    pub with_chat_participants: bool,
}

pub fn plan_handle_query(body: &HandleQueryBody) -> (r: HandleQueryPlan)
    ensures
        ({
            let w = with_list(body.with_query);
            &&& opt_view(r.params.address) == opt_view(body.address)
            &&& r.params.offset == (match body.offset {
                Some(n) => n,
                None => 0,
            })
            &&& r.params.limit == capped_limit(body.limit, 100)
            &&& r.with_chats == lists_any(w, names2("chat"@, "chats"@))
            &&& r.with_chat_participants == lists_any(
                w,
                names2("chat.participants"@, "chats.participants"@),
            )
        }),
{
    let w = with_items(&body.with_query);
    let params = HandleQueryParams {
        address: match &body.address {
            Some(a) => Some(a.clone()),
            None => None,
        },
        offset: match body.offset {
            Some(n) => n,
            None => 0,
        },
        limit: cap_limit(body.limit, 100),
    };
    HandleQueryPlan {
        params,
        with_chats: list_has(&w, &names_of("chat", "chats")),
        with_chat_participants: list_has(&w, &names_of("chat.participants", "chats.participants")),
    }
}

/// The chat has a participant with this address.
pub open spec fn has_participant(c: Chat, addr: Seq<char>) -> bool {
    exists|i: int| 0 <= i < c.participants@.len() && #[trigger] c.participants@[i].id@ == addr
}

/// The chats with a participant at this address, in order.
pub open spec fn chats_of_address(cs: Seq<Chat>, addr: Seq<char>) -> Seq<Chat>
    decreases cs.len(),
{
    if cs.len() == 0 {
        cs
    } else {
        let p = chats_of_address(cs.drop_last(), addr);
        if has_participant(cs.last(), addr) {
            p.push(cs.last())
        } else {
            p
        }
    }
}

/// Each JSON value renders the chat in the same place.
pub open spec fn chats_rendered(
    cs: Seq<Chat>,
    config: ChatSerializerConfig,
    js: Seq<JsonModel>,
) -> bool {
    js.len() == cs.len() && forall|i: int|
        0 <= i < cs.len() ==> chat_rendered(cs[i], config, false, #[trigger] js[i])
}

/// A handle with the chats it takes part in.
pub open spec fn handle_with_chats(
    h: Handle,
    cs: Seq<Chat>,
    config: ChatSerializerConfig,
    j: JsonModel,
) -> bool {
    exists|rendered: Seq<JsonModel>|
        #[trigger] chats_rendered(chats_of_address(cs, h.id@), config, rendered) && j
            == JsonModel::Object(handle_fields(h, false).push(("chats"@, JsonModel::Array(rendered))))
}

fn has_participant_exec(c: &Chat, addr: &Vec<char>) -> (r: bool)
    ensures
        r == has_participant(*c, addr@),
{
    let mut i: usize = 0;
    while i < c.participants.len()
        invariant
            i <= c.participants.len(),
            forall|k: int| 0 <= k < i ==> #[trigger] c.participants@[k].id@ != addr@,
        decreases c.participants.len() - i,
    {
        if chars_equal(&chars_of(c.participants[i].id.as_str()), addr) {
            return true;
        }
        i = i + 1;
    }
    false
}

/// Serializes handles, each with the chats it takes part in (with their
/// participants or not).
pub fn handles_with_chats(
    handles: &[Handle],
    chats: &[Chat],
    with_participants: bool,
) -> (r: Json)
    ensures
        r matches Json::Array(v) && v@.len() == handles@.len() && forall|i: int|
            0 <= i < v@.len() ==> handle_with_chats(
                handles@[i],
                chats@,
                ChatSerializerConfig { include_participants: with_participants, include_messages: false },
                json_view(#[trigger] v@[i]),
            ),
{
    let config = ChatSerializerConfig { include_participants: with_participants, include_messages: false };
    let mut out: Vec<Json> = Vec::new();
    let mut k: usize = 0;
    while k < handles.len()
        invariant
            k <= handles.len(),
            out@.len() == k,
            config == (ChatSerializerConfig { include_participants: with_participants, include_messages: false }),
            forall|i: int|
                0 <= i < k ==> handle_with_chats(
                    handles@[i],
                    chats@,
                    config,
                    json_view(#[trigger] out@[i]),
                ),
        decreases handles.len() - k,
    {
        let h = &handles[k];
        let addr = chars_of(h.id.as_str());
        let mut found: Vec<Json> = Vec::new();
        let mut j: usize = 0;
        assert(chats@.subrange(0, 0) =~= Seq::<Chat>::empty());
        while j < chats.len()
            invariant
                j <= chats.len(),
                addr@ == h.id@,
                chats_rendered(
                    chats_of_address(chats@.subrange(0, j as int), addr@),
                    config,
                    json_views(found@),
                ),
            decreases chats.len() - j,
        {
            let ghost before = chats_of_address(chats@.subrange(0, j as int), addr@);
            let ghost f0 = json_views(found@);
            proof {
                let c = chats@.subrange(0, j + 1);
                assert(c.drop_last() =~= chats@.subrange(0, j as int));
                assert(c.last() == chats@[j as int]);
                lemma_json_views(found@);
            }
            if has_participant_exec(&chats[j], &addr) {
                let cj = serialize_chat(&chats[j], &config, false);
                found.push(cj);
                proof {
                    lemma_json_views(found@);
                    assert(json_views(found@) =~= f0.push(json_view(cj)));
                    let after = before.push(chats@[j as int]);
                    assert forall|i: int| 0 <= i < after.len() implies chat_rendered(
                        after[i],
                        config,
                        false,
                        #[trigger] json_views(found@)[i],
                    ) by {
                        if i < before.len() {
                            assert(json_views(found@)[i] == f0[i]);
                        }
                    }
                }
            }
            j = j + 1;
        }
        assert(chats@.subrange(0, chats@.len() as int) =~= chats@);
        let ghost rendered = json_views(found@);
        let mut hj = serialize_handle(h, false);
        match &mut hj {
            Json::Object(f) => {
                put_field(f, "chats", Json::Array(found));
            },
            _ => {},
        }
        proof {
            assert(chats_rendered(chats_of_address(chats@, h.id@), config, rendered));
            assert(json_view(hj) == JsonModel::Object(
                handle_fields(*h, false).push(("chats"@, JsonModel::Array(rendered))),
            ));
        }
        out.push(hj);
        k = k + 1;
    }
    Json::Array(out)
}

} // verus!

//! chat.db rows, the transforms applied when reading them, the columns
//! selected for each table, and query parameters.
use vstd::prelude::*;
use crate::dates::{apple_ms, apple_raw, apple_to_unix_ms, unix_ms_to_apple};
use crate::decimal::{i64_text, int_text};
use crate::text::{chars_equal, chars_of, string_of};

verus! {

// ---------------------------------------------------------------------------
// Entities
// ---------------------------------------------------------------------------

/// A message row from the `message` table.
#[derive(Debug, Default)]
pub struct Message {
    // Core columns (always present)
    pub rowid: i64,
    pub guid: String,
    pub text: Option<String>,
    pub replace: i64,
    pub service_center: Option<String>,
    pub handle_id: i64,
    pub subject: Option<String>,
    pub country: Option<String>,
    pub attributed_body: Option<Vec<u8>>,
    pub version: i64,
    pub message_type: i64,
    pub service: Option<String>,
    pub account: Option<String>,
    pub account_guid: Option<String>,
    pub error: i64,
    pub date: Option<i64>,
    pub date_read: Option<i64>,
    pub date_delivered: Option<i64>,
    pub is_delivered: bool,
    pub is_finished: bool,
    pub is_emote: bool,
    pub is_from_me: bool,
    pub is_empty: bool,
    pub is_delayed: bool,
    pub is_auto_reply: bool,
    pub is_prepared: bool,
    pub is_read: bool,
    pub is_system_message: bool,
    pub is_sent: bool,
    pub has_dd_results: bool,
    pub is_service_message: bool,
    pub is_forward: bool,
    pub was_downgraded: bool,
    pub is_archive: bool,
    pub cache_has_attachments: bool,
    pub cache_roomnames: Option<String>,
    pub was_data_detected: bool,
    pub was_deduplicated: bool,
    pub is_audio_message: bool,
    pub is_played: bool,
    pub date_played: Option<i64>,
    pub item_type: i64,
    pub other_handle: i64,
    pub group_title: Option<String>,
    pub group_action_type: i64,
    pub share_status: i64,
    pub share_direction: i64,
    pub is_expirable: bool,
    pub expire_state: bool,
    pub message_action_type: i64,
    pub message_source: i64,

    pub associated_message_guid: Option<String>,
    pub associated_message_type: Option<String>,
    pub associated_message_emoji: Option<String>,
    pub balloon_bundle_id: Option<String>,
    pub payload_data: Option<Vec<u8>>,
    pub expressive_send_style_id: Option<String>,
    pub associated_message_range_location: Option<i64>,
    pub associated_message_range_length: Option<i64>,
    pub time_expressive_send_played: Option<i64>,
    pub message_summary_info: Option<Vec<u8>>,
    pub reply_to_guid: Option<String>,
    pub is_corrupt: Option<bool>,
    pub is_spam: Option<bool>,
    pub thread_originator_guid: Option<String>,
    pub thread_originator_part: Option<String>,
    pub date_retracted: Option<i64>,
    pub date_edited: Option<i64>,
    pub part_count: Option<i64>,
    pub was_delivered_quietly: Option<bool>,
    pub did_notify_recipient: Option<bool>,

    // Relations (populated by joins)
    pub handle: Option<Handle>,
    pub chats: Vec<Chat>,
    pub attachments: Vec<Attachment>,
}

/// A chat row from the `chat` table.
#[derive(Debug, Default)]
pub struct Chat {
    pub rowid: i64,
    pub guid: String,
    pub style: i64,
    pub state: i64,
    pub account_id: Option<String>,
    pub properties: Option<Vec<u8>>,
    pub chat_identifier: Option<String>,
    pub service_name: Option<String>,
    pub room_name: Option<String>,
    pub account_login: Option<String>,
    pub is_archived: bool,
    pub last_read_message_timestamp: Option<i64>,
    pub last_addressed_handle: Option<String>,
    pub display_name: Option<String>,
    pub group_id: Option<String>,
    pub is_filtered: bool,
    pub successful_query: bool,

    // Relations
    pub participants: Vec<Handle>,
    pub messages: Vec<Message>,
}

/// A handle row from the `handle` table.
#[derive(Debug, Clone, Default)]
pub struct Handle {
    pub rowid: i64,
    /// The `id` column in the DB (serialized as `address` in the API).
    pub id: String,
    pub country: Option<String>,
    pub service: String,
    pub uncanonicalized_id: Option<String>,
}

/// An attachment row from the `attachment` table.
#[derive(Debug, Clone, Default)]
pub struct Attachment {
    pub rowid: i64,
    pub guid: String,
    pub created_date: Option<i64>,
    pub start_date: Option<i64>,
    /// The `filename` column in the DB (the file path).
    pub filename: Option<String>,
    pub uti: Option<String>,
    pub mime_type: Option<String>,
    pub transfer_state: i64,
    pub is_outgoing: bool,
    pub user_info: Option<Vec<u8>>,
    pub transfer_name: Option<String>,
    pub total_bytes: i64,

    pub is_sticker: Option<bool>,
    pub sticker_user_info: Option<Vec<u8>>,
    pub attribution_info: Option<Vec<u8>>,
    pub hide_attachment: Option<bool>,
    pub original_guid: Option<String>,
}

impl Chat {
    /// Group chats have style == 43 in the chat.db.
    pub fn is_group(&self) -> (r: bool)
        ensures
            r == (self.style == 43),
    {
        self.style == 43
    }
}

// ---------------------------------------------------------------------------
// Value transforms
// ---------------------------------------------------------------------------

/// Convert a SQLite integer (0/1) to a boolean: any non-zero value is true.
pub fn bool_from_db(val: i64) -> (r: bool)
    ensures
        r == (val != 0),
{
    val != 0
}

/// Convert an Apple timestamp from the iMessage DB to Unix epoch milliseconds.
pub fn date_from_db(val: i64) -> (r: Option<i64>)
    ensures
        r matches Some(v) ==> apple_ms(val as int) == Some(v as int),
        r is None <==> apple_ms(val as int) is None,
{
    apple_to_unix_ms(val)
}

/// Convert Unix epoch milliseconds to an Apple timestamp for DB queries.
pub fn date_to_db(unix_ms: i64) -> (r: i64)
    requires
        i64::MIN <= apple_raw(unix_ms as int) <= i64::MAX,
    ensures
        r == apple_raw(unix_ms as int),
{
    unix_ms_to_apple(unix_ms)
}

/// Name of a tapback reaction type; other non-zero values are given as
/// their decimal text, and 0 (no reaction) as none.
pub open spec fn reaction_name(val: int) -> Option<Seq<char>> {
    if val == 0 { None }
    else if val == 1000 { Some("sticker"@) }
    else if val == 2000 { Some("love"@) }
    else if val == 2001 { Some("like"@) }
    else if val == 2002 { Some("dislike"@) }
    else if val == 2003 { Some("laugh"@) }
    else if val == 2004 { Some("emphasize"@) }
    else if val == 2005 { Some("question"@) }
    else if val == 2006 { Some("emoji"@) }
    else if val == 2007 { Some("sticker-tapback"@) }
    else if val == 3000 { Some("-love"@) }
    else if val == 3001 { Some("-like"@) }
    else if val == 3002 { Some("-dislike"@) }
    else if val == 3003 { Some("-laugh"@) }
    else if val == 3004 { Some("-emphasize"@) }
    else if val == 3005 { Some("-question"@) }
    else if val == 3006 { Some("-emoji"@) }
    else if val == 3007 { Some("-sticker-tapback"@) }
    else { Some(int_text(val)) }
}

fn named(s: &str) -> (r: Option<String>)
    ensures
        r matches Some(t) && t@ == s@,
{
    let c = chars_of(s);
    Some(string_of(&c))
}

/// Map of reaction integer IDs to their string names.
pub fn reaction_type_from_db(val: i64) -> (r: Option<String>)
    ensures
        r is None <==> reaction_name(val as int) is None,
        r matches Some(s) ==> reaction_name(val as int) == Some(s@),
{
    match val {
        0 => None,
        1000 => named("sticker"),
        2000 => named("love"),
        2001 => named("like"),
        2002 => named("dislike"),
        2003 => named("laugh"),
        2004 => named("emphasize"),
        2005 => named("question"),
        2006 => named("emoji"),
        2007 => named("sticker-tapback"),
        3000 => named("-love"),
        3001 => named("-like"),
        3002 => named("-dislike"),
        3003 => named("-laugh"),
        3004 => named("-emphasize"),
        3005 => named("-question"),
        3006 => named("-emoji"),
        3007 => named("-sticker-tapback"),
        other => {
            let t = i64_text(other);
            Some(string_of(&t))
        },
    }
}

// ---------------------------------------------------------------------------
// Columns
// ---------------------------------------------------------------------------

/// Detected columns for a specific table: column names, each once.
#[derive(Debug, Clone)]
pub struct TableColumns {
    pub columns: Vec<String>,
}

impl TableColumns {
    /// The set of column names.
    pub open spec fn names(&self) -> Set<Seq<char>> {
        Set::new(|n: Seq<char>| listed(self.columns@, n))
    }

    /// No column name is listed twice.
    pub open spec fn wf(&self) -> bool {
        forall|i: int, j: int|
            0 <= i < j < self.columns@.len() ==> #[trigger] self.columns@[i]@ != #[trigger] self.columns@[j]@
    }

    /// A table with the given column names; a name given twice is kept once.
    pub fn from_names(names: Vec<String>) -> (r: Self)
        ensures
            r.wf(),
            r.names() == Set::new(|n: Seq<char>| listed(names@, n)),
    {
        let mut t = TableColumns { columns: Vec::new() };
        let mut i: usize = 0;
        while i < names.len()
            invariant
                i <= names.len(),
                t.wf(),
                forall|n: Seq<char>| listed(t.columns@, n) <==> listed(names@.take(i as int), n),
            decreases names.len() - i,
        {
            let ghost old_cols = t.columns@;
            let ghost ni = names@[i as int]@;
            assert(names@.take(i + 1) =~= names@.take(i as int).push(names@[i as int]));
            let present = t.has(names[i].as_str());
            assert(present == listed(old_cols, ni));
            if !present {
                let c = string_of(&chars_of(names[i].as_str()));
                let ghost cg = c;
                assert(cg@ == ni);
                proof {
                    lemma_listed_push(old_cols, cg);
                    lemma_listed_push(names@.take(i as int), names@[i as int]);
                }
                t.columns.push(c);
                assert(t.columns@ =~= old_cols.push(cg));
                assert forall|n: Seq<char>| listed(t.columns@, n) <==> listed(names@.take(i + 1), n) by {
                    assert(listed(t.columns@, n) == listed(old_cols.push(cg), n));
                    assert(listed(names@.take(i + 1), n) == listed(names@.take(i as int).push(names@[i as int]), n));
                    assert(listed(old_cols.push(cg), n) == (listed(old_cols, n) || n == cg@));
                    assert(listed(old_cols, n) == listed(names@.take(i as int), n));
                }
            } else {
                proof {
                    lemma_listed_push(names@.take(i as int), names@[i as int]);
                }
                assert forall|n: Seq<char>| listed(t.columns@, n) <==> listed(names@.take(i + 1), n) by {
                    if n == ni {
                        assert(listed(old_cols, ni));
                    }
                }
            }
            i = i + 1;
        }
        assert(names@.take(names@.len() as int) =~= names@);
        assert(t.names() =~= Set::new(|n: Seq<char>| listed(names@, n)));
        t
    }

    /// Check if a column exists in this table.
    pub fn has(&self, col: &str) -> (r: bool)
        ensures
            r == self.names().contains(col@),
    {
        proof {
            if listed(self.columns@, col@) {
                let j = choose|j: int| 0 <= j < self.columns@.len() && #[trigger] self.columns@[j]@ == col@;
            }
        }
        let c = chars_of(col);
        let mut i: usize = 0;
        while i < self.columns.len()
            invariant
                i <= self.columns.len(),
                c@ == col@,
                forall|k: int| 0 <= k < i ==> #[trigger] self.columns@[k]@ != col@,
            decreases self.columns.len() - i,
        {
            let ci = chars_of(self.columns[i].as_str());
            if chars_equal(&ci, &c) {
                return true;
            }
            i = i + 1;
        }
        false
    }

    /// Get all column names.
    pub fn all(&self) -> (r: &Vec<String>)
        ensures
            r == &self.columns,
    {
        &self.columns
    }
}

/// `n` is the text of one of the strings in `cols`.
pub open spec fn listed(cols: Seq<String>, n: Seq<char>) -> bool {
    exists|i: int| 0 <= i < cols.len() && #[trigger] cols[i]@ == n
}

pub proof fn lemma_listed_push(cols: Seq<String>, c: String)
    ensures
        forall|n: Seq<char>| listed(cols.push(c), n) <==> (listed(cols, n) || n == c@),
{
    assert forall|n: Seq<char>| listed(cols.push(c), n) <==> (listed(cols, n) || n == c@) by {
        if listed(cols.push(c), n) {
            let j = choose|j: int| 0 <= j < cols.push(c).len() && #[trigger] cols.push(c)[j]@ == n;
            if j < cols.len() {
                assert(cols[j]@ == n);
            }
        }
        if listed(cols, n) {
            let j = choose|j: int| 0 <= j < cols.len() && #[trigger] cols[j]@ == n;
            assert(cols.push(c)[j]@ == n);
        }
        if n == c@ {
            assert(cols.push(c)[cols.len() as int]@ == n);
        }
    }
}

/// Detected schema for the entire iMessage database.
#[derive(Debug, Clone)]
pub struct DetectedSchema {
    pub message: TableColumns,
    pub chat: TableColumns,
    pub handle: TableColumns,
    pub attachment: TableColumns,
}

pub open spec fn message_columns() -> Seq<&'static str> {
    seq![
        "message.ROWID",
        "message.guid",
        "message.text",
        "message.replace",
        "message.service_center",
        "message.handle_id",
        "message.subject",
        "message.country",
        "message.attributedBody",
        "message.version",
        "message.type",
        "message.service",
        "message.account",
        "message.account_guid",
        "message.error",
        "message.date",
        "message.date_read",
        "message.date_delivered",
        "message.is_delivered",
        "message.is_finished",
        "message.is_emote",
        "message.is_from_me",
        "message.is_empty",
        "message.is_delayed",
        "message.is_auto_reply",
        "message.is_prepared",
        "message.is_read",
        "message.is_system_message",
        "message.is_sent",
        "message.has_dd_results",
        "message.is_service_message",
        "message.is_forward",
        "message.was_downgraded",
        "message.is_archive",
        "message.cache_has_attachments",
        "message.cache_roomnames",
        "message.was_data_detected",
        "message.was_deduplicated",
        "message.is_audio_message",
        "message.is_played",
        "message.date_played",
        "message.item_type",
        "message.other_handle",
        "message.group_title",
        "message.group_action_type",
        "message.share_status",
        "message.share_direction",
        "message.is_expirable",
        "message.expire_state",
        "message.message_action_type",
        "message.message_source",
        "message.associated_message_guid",
        "message.associated_message_type",
        "message.associated_message_emoji",
        "message.balloon_bundle_id",
        "message.payload_data",
        "message.expressive_send_style_id",
        "message.associated_message_range_location",
        "message.associated_message_range_length",
        "message.time_expressive_send_played",
        "message.message_summary_info",
        "message.reply_to_guid",
        "message.is_corrupt",
        "message.is_spam",
        "message.thread_originator_guid",
        "message.thread_originator_part",
        "message.was_delivered_quietly",
        "message.did_notify_recipient",
        "message.date_retracted",
        "message.date_edited",
        "message.part_count"
    ]
}

pub open spec fn chat_columns() -> Seq<&'static str> {
    seq![
        "chat.ROWID",
        "chat.guid",
        "chat.style",
        "chat.state",
        "chat.account_id",
        "chat.properties",
        "chat.chat_identifier",
        "chat.service_name",
        "chat.room_name",
        "chat.account_login",
        "chat.is_archived",
        "chat.last_addressed_handle",
        "chat.display_name",
        "chat.group_id",
        "chat.is_filtered",
        "chat.successful_query",
        "chat.last_read_message_timestamp"
    ]
}

pub open spec fn attachment_columns() -> Seq<&'static str> {
    seq![
        "attachment.ROWID",
        "attachment.guid",
        "attachment.created_date",
        "attachment.start_date",
        "attachment.filename",
        "attachment.uti",
        "attachment.mime_type",
        "attachment.transfer_state",
        "attachment.is_outgoing",
        "attachment.user_info",
        "attachment.transfer_name",
        "attachment.total_bytes",
        "attachment.is_sticker",
        "attachment.sticker_user_info",
        "attachment.attribution_info",
        "attachment.hide_attachment",
        "attachment.original_guid"
    ]
}

/// The message columns: 71 texts, the first `message.ROWID` and the last `message.part_count`, each
/// naming a column of the `message` table (it starts with `message.`), no two alike.
pub proof fn law_message_columns()
    ensures
        message_columns().len() == 71,
        message_columns()[0]@ == "message.ROWID"@,
        message_columns()[70]@ == "message.part_count"@,
        forall|i: int|
            0 <= i < 71 ==> (#[trigger] message_columns()[i])@.len() > 8 && message_columns()[i]@.take(8) == "message."@,
        forall|i: int, j: int|
            0 <= i < j < 71 ==> (#[trigger] message_columns()[i])@ != (#[trigger] message_columns()[j])@,
{
    reveal_strlit("message.");
    reveal_strlit("message.ROWID");
    reveal_strlit("message.guid");
    reveal_strlit("message.text");
    reveal_strlit("message.replace");
    reveal_strlit("message.service_center");
    reveal_strlit("message.handle_id");
    reveal_strlit("message.subject");
    reveal_strlit("message.country");
    reveal_strlit("message.attributedBody");
    reveal_strlit("message.version");
    reveal_strlit("message.type");
    reveal_strlit("message.service");
    reveal_strlit("message.account");
    reveal_strlit("message.account_guid");
    reveal_strlit("message.error");
    reveal_strlit("message.date");
    reveal_strlit("message.date_read");
    reveal_strlit("message.date_delivered");
    reveal_strlit("message.is_delivered");
    reveal_strlit("message.is_finished");
    reveal_strlit("message.is_emote");
    reveal_strlit("message.is_from_me");
    reveal_strlit("message.is_empty");
    reveal_strlit("message.is_delayed");
    reveal_strlit("message.is_auto_reply");
    reveal_strlit("message.is_prepared");
    reveal_strlit("message.is_read");
    reveal_strlit("message.is_system_message");
    reveal_strlit("message.is_sent");
    reveal_strlit("message.has_dd_results");
    reveal_strlit("message.is_service_message");
    reveal_strlit("message.is_forward");
    reveal_strlit("message.was_downgraded");
    reveal_strlit("message.is_archive");
    reveal_strlit("message.cache_has_attachments");
    reveal_strlit("message.cache_roomnames");
    reveal_strlit("message.was_data_detected");
    reveal_strlit("message.was_deduplicated");
    reveal_strlit("message.is_audio_message");
    reveal_strlit("message.is_played");
    reveal_strlit("message.date_played");
    reveal_strlit("message.item_type");
    reveal_strlit("message.other_handle");
    reveal_strlit("message.group_title");
    reveal_strlit("message.group_action_type");
    reveal_strlit("message.share_status");
    reveal_strlit("message.share_direction");
    reveal_strlit("message.is_expirable");
    reveal_strlit("message.expire_state");
    reveal_strlit("message.message_action_type");
    reveal_strlit("message.message_source");
    reveal_strlit("message.associated_message_guid");
    reveal_strlit("message.associated_message_type");
    reveal_strlit("message.associated_message_emoji");
    reveal_strlit("message.balloon_bundle_id");
    reveal_strlit("message.payload_data");
    reveal_strlit("message.expressive_send_style_id");
    reveal_strlit("message.associated_message_range_location");
    reveal_strlit("message.associated_message_range_length");
    reveal_strlit("message.time_expressive_send_played");
    reveal_strlit("message.message_summary_info");
    reveal_strlit("message.reply_to_guid");
    reveal_strlit("message.is_corrupt");
    reveal_strlit("message.is_spam");
    reveal_strlit("message.thread_originator_guid");
    reveal_strlit("message.thread_originator_part");
    reveal_strlit("message.was_delivered_quietly");
    reveal_strlit("message.did_notify_recipient");
    reveal_strlit("message.date_retracted");
    reveal_strlit("message.date_edited");
    reveal_strlit("message.part_count");
    let m = message_columns();
    assert forall|i: int| 0 <= i < 71 implies (#[trigger] m[i])@.len() > 8 && m[i]@.take(8) == "message."@ by {
        if i == 0 {
            assert(m[i]@.take(8) =~= "message."@);
        } else if i == 1 {
            assert(m[i]@.take(8) =~= "message."@);
        } else if i == 2 {
            assert(m[i]@.take(8) =~= "message."@);
        } else if i == 3 {
            assert(m[i]@.take(8) =~= "message."@);
        } else if i == 4 {
            assert(m[i]@.take(8) =~= "message."@);
        } else if i == 5 {
            assert(m[i]@.take(8) =~= "message."@);
        } else if i == 6 {
            assert(m[i]@.take(8) =~= "message."@);
        } else if i == 7 {
            assert(m[i]@.take(8) =~= "message."@);
        } else if i == 8 {
            assert(m[i]@.take(8) =~= "message."@);
        } else if i == 9 {
            assert(m[i]@.take(8) =~= "message."@);
        } else if i == 10 {
            assert(m[i]@.take(8) =~= "message."@);
        } else if i == 11 {
            assert(m[i]@.take(8) =~= "message."@);
        } else if i == 12 {
            assert(m[i]@.take(8) =~= "message."@);
        } else if i == 13 {
            assert(m[i]@.take(8) =~= "message."@);
        } else if i == 14 {
            assert(m[i]@.take(8) =~= "message."@);
        } else if i == 15 {
            assert(m[i]@.take(8) =~= "message."@);
        } else if i == 16 {
            assert(m[i]@.take(8) =~= "message."@);
        } else if i == 17 {
            assert(m[i]@.take(8) =~= "message."@);
        } else if i == 18 {
            assert(m[i]@.take(8) =~= "message."@);
        } else if i == 19 {
            assert(m[i]@.take(8) =~= "message."@);
        } else if i == 20 {
            assert(m[i]@.take(8) =~= "message."@);
        } else if i == 21 {
            assert(m[i]@.take(8) =~= "message."@);
        } else if i == 22 {
            assert(m[i]@.take(8) =~= "message."@);
        } else if i == 23 {
            assert(m[i]@.take(8) =~= "message."@);
        } else if i == 24 {
            assert(m[i]@.take(8) =~= "message."@);
        } else if i == 25 {
            assert(m[i]@.take(8) =~= "message."@);
        } else if i == 26 {
            assert(m[i]@.take(8) =~= "message."@);
        } else if i == 27 {
            assert(m[i]@.take(8) =~= "message."@);
        } else if i == 28 {
            assert(m[i]@.take(8) =~= "message."@);
        } else if i == 29 {
            assert(m[i]@.take(8) =~= "message."@);
        } else if i == 30 {
            assert(m[i]@.take(8) =~= "message."@);
        } else if i == 31 {
            assert(m[i]@.take(8) =~= "message."@);
        } else if i == 32 {
            assert(m[i]@.take(8) =~= "message."@);
        } else if i == 33 {
            assert(m[i]@.take(8) =~= "message."@);
        } else if i == 34 {
            assert(m[i]@.take(8) =~= "message."@);
        } else if i == 35 {
            assert(m[i]@.take(8) =~= "message."@);
        } else if i == 36 {
            assert(m[i]@.take(8) =~= "message."@);
        } else if i == 37 {
            assert(m[i]@.take(8) =~= "message."@);
        } else if i == 38 {
            assert(m[i]@.take(8) =~= "message."@);
        } else if i == 39 {
            assert(m[i]@.take(8) =~= "message."@);
        } else if i == 40 {
            assert(m[i]@.take(8) =~= "message."@);
        } else if i == 41 {
            assert(m[i]@.take(8) =~= "message."@);
        } else if i == 42 {
            assert(m[i]@.take(8) =~= "message."@);
        } else if i == 43 {
            assert(m[i]@.take(8) =~= "message."@);
        } else if i == 44 {
            assert(m[i]@.take(8) =~= "message."@);
        } else if i == 45 {
            assert(m[i]@.take(8) =~= "message."@);
        } else if i == 46 {
            assert(m[i]@.take(8) =~= "message."@);
        } else if i == 47 {
            assert(m[i]@.take(8) =~= "message."@);
        } else if i == 48 {
            assert(m[i]@.take(8) =~= "message."@);
        } else if i == 49 {
            assert(m[i]@.take(8) =~= "message."@);
        } else if i == 50 {
            assert(m[i]@.take(8) =~= "message."@);
        } else if i == 51 {
            assert(m[i]@.take(8) =~= "message."@);
        } else if i == 52 {
            assert(m[i]@.take(8) =~= "message."@);
        } else if i == 53 {
            assert(m[i]@.take(8) =~= "message."@);
        } else if i == 54 {
            assert(m[i]@.take(8) =~= "message."@);
        } else if i == 55 {
            assert(m[i]@.take(8) =~= "message."@);
        } else if i == 56 {
            assert(m[i]@.take(8) =~= "message."@);
        } else if i == 57 {
            assert(m[i]@.take(8) =~= "message."@);
        } else if i == 58 {
            assert(m[i]@.take(8) =~= "message."@);
        } else if i == 59 {
            assert(m[i]@.take(8) =~= "message."@);
        } else if i == 60 {
            assert(m[i]@.take(8) =~= "message."@);
        } else if i == 61 {
            assert(m[i]@.take(8) =~= "message."@);
        } else if i == 62 {
            assert(m[i]@.take(8) =~= "message."@);
        } else if i == 63 {
            assert(m[i]@.take(8) =~= "message."@);
        } else if i == 64 {
            assert(m[i]@.take(8) =~= "message."@);
        } else if i == 65 {
            assert(m[i]@.take(8) =~= "message."@);
        } else if i == 66 {
            assert(m[i]@.take(8) =~= "message."@);
        } else if i == 67 {
            assert(m[i]@.take(8) =~= "message."@);
        } else if i == 68 {
            assert(m[i]@.take(8) =~= "message."@);
        } else if i == 69 {
            assert(m[i]@.take(8) =~= "message."@);
        } else if i == 70 {
            assert(m[i]@.take(8) =~= "message."@);
        }
    }
    assert forall|i: int, j: int| 0 <= i < j < 71 implies (#[trigger] m[i])@ != (#[trigger] m[j])@ by {
        if i == 0 {
            if j == 1 {
                assert(m[i]@.len() != m[j]@.len());
            } else if j == 2 {
                assert(m[i]@.len() != m[j]@.len());
            } else if j == 3 {
                assert(m[i]@.len() != m[j]@.len());
            } else if j == 4 {
                assert(m[i]@.len() != m[j]@.len());
            } else if j == 5 {
                assert(m[i]@.len() != m[j]@.len());
            } else if j == 6 {
                assert(m[i]@.len() != m[j]@.len());
            } else if j == 7 {
                assert(m[i]@.len() != m[j]@.len());
            } else if j == 8 {
                assert(m[i]@.len() != m[j]@.len());
            } else if j == 9 {
                assert(m[i]@.len() != m[j]@.len());
            } else if j == 10 {
                assert(m[i]@.len() != m[j]@.len());
            } else if j == 11 {
                assert(m[i]@.len() != m[j]@.len());
            } else if j == 12 {
                assert(m[i]@.len() != m[j]@.len());
            } else if j == 13 {
                assert(m[i]@.len() != m[j]@.len());
            } else if j == 14 {
                assert(m[i]@[8] != m[j]@[8]);
            } else if j == 15 {
                assert(m[i]@.len() != m[j]@.len());
            } else if j == 16 {
                assert(m[i]@.len() != m[j]@.len());
            } else if j == 17 {
                assert(m[i]@.len() != m[j]@.len());
            } else if j == 18 {
                assert(m[i]@.len() != m[j]@.len());
            } else if j == 19 {
                assert(m[i]@.len() != m[j]@.len());
            } else if j == 20 {
                assert(m[i]@.len() != m[j]@.len());
            } else if j == 21 {
                assert(m[i]@.len() != m[j]@.len());
            } else if j == 22 {
                assert(m[i]@.len() != m[j]@.len());
            } else if j == 23 {
                assert(m[i]@.len() != m[j]@.len());
            } else if j == 24 {
                assert(m[i]@.len() != m[j]@.len());
            } else if j == 25 {
                assert(m[i]@.len() != m[j]@.len());
            } else if j == 26 {
                assert(m[i]@.len() != m[j]@.len());
            } else if j == 27 {
                assert(m[i]@.len() != m[j]@.len());
            } else if j == 28 {
                assert(m[i]@.len() != m[j]@.len());
            } else if j == 29 {
                assert(m[i]@.len() != m[j]@.len());
            } else if j == 30 {
                assert(m[i]@.len() != m[j]@.len());
            } else if j == 31 {
                assert(m[i]@.len() != m[j]@.len());
            } else if j == 32 {
                assert(m[i]@.len() != m[j]@.len());
            } else if j == 33 {
                assert(m[i]@.len() != m[j]@.len());
            } else if j == 34 {
                assert(m[i]@.len() != m[j]@.len());
            } else if j == 35 {
                assert(m[i]@.len() != m[j]@.len());
            } else if j == 36 {
                assert(m[i]@.len() != m[j]@.len());
            } else if j == 37 {
                assert(m[i]@.len() != m[j]@.len());
            } else if j == 38 {
                assert(m[i]@.len() != m[j]@.len());
            } else if j == 39 {
                assert(m[i]@.len() != m[j]@.len());
            } else if j == 40 {
                assert(m[i]@.len() != m[j]@.len());
            } else if j == 41 {
                assert(m[i]@.len() != m[j]@.len());
            } else if j == 42 {
                assert(m[i]@.len() != m[j]@.len());
            } else if j == 43 {
                assert(m[i]@.len() != m[j]@.len());
            } else if j == 44 {
                assert(m[i]@.len() != m[j]@.len());
            } else if j == 45 {
                assert(m[i]@.len() != m[j]@.len());
            } else if j == 46 {
                assert(m[i]@.len() != m[j]@.len());
            } else if j == 47 {
                assert(m[i]@.len() != m[j]@.len());
            } else if j == 48 {
                assert(m[i]@.len() != m[j]@.len());
            } else if j == 49 {
                assert(m[i]@.len() != m[j]@.len());
            } else if j == 50 {
                assert(m[i]@.len() != m[j]@.len());
            } else if j == 51 {
                assert(m[i]@.len() != m[j]@.len());
            } else if j == 52 {
                assert(m[i]@.len() != m[j]@.len());
            } else if j == 53 {
                assert(m[i]@.len() != m[j]@.len());
            } else if j == 54 {
                assert(m[i]@.len() != m[j]@.len());
            } else if j == 55 {
                assert(m[i]@.len() != m[j]@.len());
            } else if j == 56 {
                assert(m[i]@.len() != m[j]@.len());
            } else if j == 57 {
                assert(m[i]@.len() != m[j]@.len());
            } else if j == 58 {
                assert(m[i]@.len() != m[j]@.len());
            } else if j == 59 {
                assert(m[i]@.len() != m[j]@.len());
            } else if j == 60 {
                assert(m[i]@.len() != m[j]@.len());
            } else if j == 61 {
                assert(m[i]@.len() != m[j]@.len());
            } else if j == 62 {
                assert(m[i]@.len() != m[j]@.len());
            } else if j == 63 {
                assert(m[i]@.len() != m[j]@.len());
            } else if j == 64 {
                assert(m[i]@.len() != m[j]@.len());
            } else if j == 65 {
                assert(m[i]@.len() != m[j]@.len());
            } else if j == 66 {
                assert(m[i]@.len() != m[j]@.len());
            } else if j == 67 {
                assert(m[i]@.len() != m[j]@.len());
            } else if j == 68 {
                assert(m[i]@.len() != m[j]@.len());
            } else if j == 69 {
                assert(m[i]@.len() != m[j]@.len());
            } else if j == 70 {
                assert(m[i]@.len() != m[j]@.len());
            }
        } else if i == 1 {
            if j == 2 {
                assert(m[i]@[8] != m[j]@[8]);
            } else if j == 3 {
                assert(m[i]@.len() != m[j]@.len());
            } else if j == 4 {
                assert(m[i]@.len() != m[j]@.len());
            } else if j == 5 {
                assert(m[i]@.len() != m[j]@.len());
            } else if j == 6 {
                assert(m[i]@.len() != m[j]@.len());
            } else if j == 7 {
                assert(m[i]@.len() != m[j]@.len());
            } else if j == 8 {
                assert(m[i]@.len() != m[j]@.len());
            } else if j == 9 {
                assert(m[i]@.len() != m[j]@.len());
            } else if j == 10 {
                assert(m[i]@[8] != m[j]@[8]);
            } else if j == 11 {
                assert(m[i]@.len() != m[j]@.len());
            } else if j == 12 {
                assert(m[i]@.len() != m[j]@.len());
            } else if j == 13 {
                assert(m[i]@.len() != m[j]@.len());
            } else if j == 14 {
                assert(m[i]@.len() != m[j]@.len());
            } else if j == 15 {
                assert(m[i]@[8] != m[j]@[8]);
            } else if j == 16 {
                assert(m[i]@.len() != m[j]@.len());
            } else if j == 17 {
                assert(m[i]@.len() != m[j]@.len());
            } else if j == 18 {
                assert(m[i]@.len() != m[j]@.len());
            } else if j == 19 {
                assert(m[i]@.len() != m[j]@.len());
            } else if j == 20 {
                assert(m[i]@.len() != m[j]@.len());
            } else if j == 21 {
                assert(m[i]@.len() != m[j]@.len());
            } else if j == 22 {
                assert(m[i]@.len() != m[j]@.len());
            } else if j == 23 {
                assert(m[i]@.len() != m[j]@.len());
            } else if j == 24 {
                assert(m[i]@.len() != m[j]@.len());
            } else if j == 25 {
                assert(m[i]@.len() != m[j]@.len());
            } else if j == 26 {
                assert(m[i]@.len() != m[j]@.len());
            } else if j == 27 {
                assert(m[i]@.len() != m[j]@.len());
            } else if j == 28 {
                assert(m[i]@.len() != m[j]@.len());
            } else if j == 29 {
                assert(m[i]@.len() != m[j]@.len());
            } else if j == 30 {
                assert(m[i]@.len() != m[j]@.len());
            } else if j == 31 {
                assert(m[i]@.len() != m[j]@.len());
            } else if j == 32 {
                assert(m[i]@.len() != m[j]@.len());
            } else if j == 33 {
                assert(m[i]@.len() != m[j]@.len());
            } else if j == 34 {
                assert(m[i]@.len() != m[j]@.len());
            } else if j == 35 {
                assert(m[i]@.len() != m[j]@.len());
            } else if j == 36 {
                assert(m[i]@.len() != m[j]@.len());
            } else if j == 37 {
                assert(m[i]@.len() != m[j]@.len());
            } else if j == 38 {
                assert(m[i]@.len() != m[j]@.len());
            } else if j == 39 {
                assert(m[i]@.len() != m[j]@.len());
            } else if j == 40 {
                assert(m[i]@.len() != m[j]@.len());
            } else if j == 41 {
                assert(m[i]@.len() != m[j]@.len());
            } else if j == 42 {
                assert(m[i]@.len() != m[j]@.len());
            } else if j == 43 {
                assert(m[i]@.len() != m[j]@.len());
            } else if j == 44 {
                assert(m[i]@.len() != m[j]@.len());
            } else if j == 45 {
                assert(m[i]@.len() != m[j]@.len());
            } else if j == 46 {
                assert(m[i]@.len() != m[j]@.len());
            } else if j == 47 {
                assert(m[i]@.len() != m[j]@.len());
            } else if j == 48 {
                assert(m[i]@.len() != m[j]@.len());
            } else if j == 49 {
                assert(m[i]@.len() != m[j]@.len());
            } else if j == 50 {
                assert(m[i]@.len() != m[j]@.len());
            } else if j == 51 {
                assert(m[i]@.len() != m[j]@.len());
            } else if j == 52 {
                assert(m[i]@.len() != m[j]@.len());
            } else if j == 53 {
                assert(m[i]@.len() != m[j]@.len());
            } else if j == 54 {
                assert(m[i]@.len() != m[j]@.len());
            } else if j == 55 {
                assert(m[i]@.len() != m[j]@.len());
            } else if j == 56 {
                assert(m[i]@.len() != m[j]@.len());
            } else if j == 57 {
                assert(m[i]@.len() != m[j]@.len());
            } else if j == 58 {
                assert(m[i]@.len() != m[j]@.len());
            } else if j == 59 {
                assert(m[i]@.len() != m[j]@.len());
            } else if j == 60 {
                assert(m[i]@.len() != m[j]@.len());
            } else if j == 61 {
                assert(m[i]@.len() != m[j]@.len());
            } else if j == 62 {
                assert(m[i]@.len() != m[j]@.len());
            } else if j == 63 {
                assert(m[i]@.len() != m[j]@.len());
            } else if j == 64 {
                assert(m[i]@.len() != m[j]@.len());
            } else if j == 65 {
                assert(m[i]@.len() != m[j]@.len());
            } else if j == 66 {
                assert(m[i]@.len() != m[j]@.len());
            } else if j == 67 {
                assert(m[i]@.len() != m[j]@.len());
            } else if j == 68 {
                assert(m[i]@.len() != m[j]@.len());
            } else if j == 69 {
                assert(m[i]@.len() != m[j]@.len());
            } else if j == 70 {
                assert(m[i]@.len() != m[j]@.len());
            }
        } else if i == 2 {
            if j == 3 {
                assert(m[i]@.len() != m[j]@.len());
            } else if j == 4 {
                assert(m[i]@.len() != m[j]@.len());
            } else if j == 5 {
                assert(m[i]@.len() != m[j]@.len());
            } else if j == 6 {
                assert(m[i]@.len() != m[j]@.len());
            } else if j == 7 {
                assert(m[i]@.len() != m[j]@.len());
            } else if j == 8 {
                assert(m[i]@.len() != m[j]@.len());
            } else if j == 9 {
                assert(m[i]@.len() != m[j]@.len());
            } else if j == 10 {
                assert(m[i]@[9] != m[j]@[9]);
            } else if j == 11 {
                assert(m[i]@.len() != m[j]@.len());
            } else if j == 12 {
                assert(m[i]@.len() != m[j]@.len());
            } else if j == 13 {
                assert(m[i]@.len() != m[j]@.len());
            } else if j == 14 {
                assert(m[i]@.len() != m[j]@.len());
            } else if j == 15 {
                assert(m[i]@[8] != m[j]@[8]);
            } else if j == 16 {
                assert(m[i]@.len() != m[j]@.len());
            } else if j == 17 {
                assert(m[i]@.len() != m[j]@.len());
            } else if j == 18 {
                assert(m[i]@.len() != m[j]@.len());
            } else if j == 19 {
                assert(m[i]@.len() != m[j]@.len());
            } else if j == 20 {
                assert(m[i]@.len() != m[j]@.len());
            } else if j == 21 {
                assert(m[i]@.len() != m[j]@.len());
            } else if j == 22 {
                assert(m[i]@.len() != m[j]@.len());
            } else if j == 23 {
                assert(m[i]@.len() != m[j]@.len());
            } else if j == 24 {
                assert(m[i]@.len() != m[j]@.len());
            } else if j == 25 {
                assert(m[i]@.len() != m[j]@.len());
            } else if j == 26 {
                assert(m[i]@.len() != m[j]@.len());
            } else if j == 27 {
                assert(m[i]@.len() != m[j]@.len());
            } else if j == 28 {
                assert(m[i]@.len() != m[j]@.len());
            } else if j == 29 {
                assert(m[i]@.len() != m[j]@.len());
            } else if j == 30 {
                assert(m[i]@.len() != m[j]@.len());
            } else if j == 31 {
                assert(m[i]@.len() != m[j]@.len());
            } else if j == 32 {
                assert(m[i]@.len() != m[j]@.len());
            } else if j == 33 {
                assert(m[i]@.len() != m[j]@.len());
            } else if j == 34 {
                assert(m[i]@.len() != m[j]@.len());
            } else if j == 35 {
                assert(m[i]@.len() != m[j]@.len());
            } else if j == 36 {
                assert(m[i]@.len() != m[j]@.len());
            } else if j == 37 {
                assert(m[i]@.len() != m[j]@.len());
            } else if j == 38 {
                assert(m[i]@.len() != m[j]@.len());
            } else if j == 39 {
                assert(m[i]@.len() != m[j]@.len());
            } else if j == 40 {
                assert(m[i]@.len() != m[j]@.len());
            } else if j == 41 {
                assert(m[i]@.len() != m[j]@.len());
            } else if j == 42 {
                assert(m[i]@.len() != m[j]@.len());
            } else if j == 43 {
                assert(m[i]@.len() != m[j]@.len());
            } else if j == 44 {
                assert(m[i]@.len() != m[j]@.len());
            } else if j == 45 {
                assert(m[i]@.len() != m[j]@.len());
            } else if j == 46 {
                assert(m[i]@.len() != m[j]@.len());
            } else if j == 47 {
                assert(m[i]@.len() != m[j]@.len());
            } else if j == 48 {
                assert(m[i]@.len() != m[j]@.len());
            } else if j == 49 {
                assert(m[i]@.len() != m[j]@.len());
            } else if j == 50 {
                assert(m[i]@.len() != m[j]@.len());
            } else if j == 51 {
                assert(m[i]@.len() != m[j]@.len());
            } else if j == 52 {
                assert(m[i]@.len() != m[j]@.len());
            } else if j == 53 {
                assert(m[i]@.len() != m[j]@.len());
            } else if j == 54 {
                assert(m[i]@.len() != m[j]@.len());
            } else if j == 55 {
                assert(m[i]@.len() != m[j]@.len());
            } else if j == 56 {
                assert(m[i]@.len() != m[j]@.len());
            } else if j == 57 {
                assert(m[i]@.len() != m[j]@.len());
            } else if j == 58 {
                assert(m[i]@.len() != m[j]@.len());
            } else if j == 59 {
                assert(m[i]@.len() != m[j]@.len());
            } else if j == 60 {
                assert(m[i]@.len() != m[j]@.len());
            } else if j == 61 {
                assert(m[i]@.len() != m[j]@.len());
            } else if j == 62 {
                assert(m[i]@.len() != m[j]@.len());
            } else if j == 63 {
                assert(m[i]@.len() != m[j]@.len());
            } else if j == 64 {
                assert(m[i]@.len() != m[j]@.len());
            } else if j == 65 {
                assert(m[i]@.len() != m[j]@.len());
            } else if j == 66 {
                assert(m[i]@.len() != m[j]@.len());
            } else if j == 67 {
                assert(m[i]@.len() != m[j]@.len());
            } else if j == 68 {
                assert(m[i]@.len() != m[j]@.len());
            } else if j == 69 {
                assert(m[i]@.len() != m[j]@.len());
            } else if j == 70 {
                assert(m[i]@.len() != m[j]@.len());
            }
        } else if i == 3 {
            if j == 4 {
                assert(m[i]@.len() != m[j]@.len());
            } else if j == 5 {
                assert(m[i]@.len() != m[j]@.len());
            } else if j == 6 {
                assert(m[i]@[8] != m[j]@[8]);
            } else if j == 7 {
                assert(m[i]@[8] != m[j]@[8]);
            } else if j == 8 {
                assert(m[i]@.len() != m[j]@.len());
            } else if j == 9 {
                assert(m[i]@[8] != m[j]@[8]);
            } else if j == 10 {
                assert(m[i]@.len() != m[j]@.len());
            } else if j == 11 {
                assert(m[i]@[8] != m[j]@[8]);
            } else if j == 12 {
                assert(m[i]@[8] != m[j]@[8]);
            } else if j == 13 {
                assert(m[i]@.len() != m[j]@.len());
            } else if j == 14 {
                assert(m[i]@.len() != m[j]@.len());
            } else if j == 15 {
                assert(m[i]@.len() != m[j]@.len());
            } else if j == 16 {
                assert(m[i]@.len() != m[j]@.len());
            } else if j == 17 {
                assert(m[i]@.len() != m[j]@.len());
            } else if j == 18 {
                assert(m[i]@.len() != m[j]@.len());
            } else if j == 19 {
                assert(m[i]@.len() != m[j]@.len());
            } else if j == 20 {
                assert(m[i]@.len() != m[j]@.len());
            } else if j == 21 {
                assert(m[i]@.len() != m[j]@.len());
            } else if j == 22 {
                assert(m[i]@.len() != m[j]@.len());
            } else if j == 23 {
                assert(m[i]@.len() != m[j]@.len());
            } else if j == 24 {
                assert(m[i]@.len() != m[j]@.len());
            } else if j == 25 {
                assert(m[i]@.len() != m[j]@.len());
            } else if j == 26 {
                assert(m[i]@[8] != m[j]@[8]);
            } else if j == 27 {
                assert(m[i]@.len() != m[j]@.len());
            } else if j == 28 {
                assert(m[i]@[8] != m[j]@[8]);
            } else if j == 29 {
                assert(m[i]@.len() != m[j]@.len());
            } else if j == 30 {
                assert(m[i]@.len() != m[j]@.len());
            } else if j == 31 {
                assert(m[i]@.len() != m[j]@.len());
            } else if j == 32 {
                assert(m[i]@.len() != m[j]@.len());
            } else if j == 33 {
                assert(m[i]@.len() != m[j]@.len());
            } else if j == 34 {
                assert(m[i]@.len() != m[j]@.len());
            } else if j == 35 {
                assert(m[i]@.len() != m[j]@.len());
            } else if j == 36 {
                assert(m[i]@.len() != m[j]@.len());
            } else if j == 37 {
                assert(m[i]@.len() != m[j]@.len());
            } else if j == 38 {
                assert(m[i]@.len() != m[j]@.len());
            } else if j == 39 {
                assert(m[i]@.len() != m[j]@.len());
            } else if j == 40 {
                assert(m[i]@.len() != m[j]@.len());
            } else if j == 41 {
                assert(m[i]@.len() != m[j]@.len());
            } else if j == 42 {
                assert(m[i]@.len() != m[j]@.len());
            } else if j == 43 {
                assert(m[i]@.len() != m[j]@.len());
            } else if j == 44 {
                assert(m[i]@.len() != m[j]@.len());
            } else if j == 45 {
                assert(m[i]@.len() != m[j]@.len());
            } else if j == 46 {
                assert(m[i]@.len() != m[j]@.len());
            } else if j == 47 {
                assert(m[i]@.len() != m[j]@.len());
            } else if j == 48 {
                assert(m[i]@.len() != m[j]@.len());
            } else if j == 49 {
                assert(m[i]@.len() != m[j]@.len());
            } else if j == 50 {
                assert(m[i]@.len() != m[j]@.len());
            } else if j == 51 {
                assert(m[i]@.len() != m[j]@.len());
            } else if j == 52 {
                assert(m[i]@.len() != m[j]@.len());
            } else if j == 53 {
                assert(m[i]@.len() != m[j]@.len());
            } else if j == 54 {
                assert(m[i]@.len() != m[j]@.len());
            } else if j == 55 {
                assert(m[i]@.len() != m[j]@.len());
            } else if j == 56 {
                assert(m[i]@.len() != m[j]@.len());
            } else if j == 57 {
                assert(m[i]@.len() != m[j]@.len());
            } else if j == 58 {
                assert(m[i]@.len() != m[j]@.len());
            } else if j == 59 {
                assert(m[i]@.len() != m[j]@.len());
            } else if j == 60 {
                assert(m[i]@.len() != m[j]@.len());
            } else if j == 61 {
                assert(m[i]@.len() != m[j]@.len());
            } else if j == 62 {
                assert(m[i]@.len() != m[j]@.len());
            } else if j == 63 {
                assert(m[i]@[8] != m[j]@[8]);
            } else if j == 64 {
                assert(m[i]@.len() != m[j]@.len());
            } else if j == 65 {
                assert(m[i]@.len() != m[j]@.len());
            } else if j == 66 {
                assert(m[i]@.len() != m[j]@.len());
            } else if j == 67 {
                assert(m[i]@.len() != m[j]@.len());
            } else if j == 68 {
                assert(m[i]@.len() != m[j]@.len());
            } else if j == 69 {
                assert(m[i]@.len() != m[j]@.len());
            } else if j == 70 {
                assert(m[i]@.len() != m[j]@.len());
            }
        } else if i == 4 {
            if j == 5 {
                assert(m[i]@.len() != m[j]@.len());
            } else if j == 6 {
                assert(m[i]@.len() != m[j]@.len());
            } else if j == 7 {
                assert(m[i]@.len() != m[j]@.len());
            } else if j == 8 {
                assert(m[i]@[8] != m[j]@[8]);
            } else if j == 9 {
                assert(m[i]@.len() != m[j]@.len());
            } else if j == 10 {
                assert(m[i]@.len() != m[j]@.len());
            } else if j == 11 {
                assert(m[i]@.len() != m[j]@.len());
            } else if j == 12 {
                assert(m[i]@.len() != m[j]@.len());
            } else if j == 13 {
                assert(m[i]@.len() != m[j]@.len());
            } else if j == 14 {
                assert(m[i]@.len() != m[j]@.len());
            } else if j == 15 {
                assert(m[i]@.len() != m[j]@.len());
            } else if j == 16 {
                assert(m[i]@.len() != m[j]@.len());
            } else if j == 17 {
                assert(m[i]@[8] != m[j]@[8]);
            } else if j == 18 {
                assert(m[i]@.len() != m[j]@.len());
            } else if j == 19 {
                assert(m[i]@.len() != m[j]@.len());
            } else if j == 20 {
                assert(m[i]@.len() != m[j]@.len());
            } else if j == 21 {
                assert(m[i]@.len() != m[j]@.len());
            } else if j == 22 {
                assert(m[i]@.len() != m[j]@.len());
            } else if j == 23 {
                assert(m[i]@.len() != m[j]@.len());
            } else if j == 24 {
                assert(m[i]@.len() != m[j]@.len());
            } else if j == 25 {
                assert(m[i]@.len() != m[j]@.len());
            } else if j == 26 {
                assert(m[i]@.len() != m[j]@.len());
            } else if j == 27 {
                assert(m[i]@.len() != m[j]@.len());
            } else if j == 28 {
                assert(m[i]@.len() != m[j]@.len());
            } else if j == 29 {
                assert(m[i]@[8] != m[j]@[8]);
            } else if j == 30 {
                assert(m[i]@.len() != m[j]@.len());
            } else if j == 31 {
                assert(m[i]@.len() != m[j]@.len());
            } else if j == 32 {
                assert(m[i]@[8] != m[j]@[8]);
            } else if j == 33 {
                assert(m[i]@.len() != m[j]@.len());
            } else if j == 34 {
                assert(m[i]@.len() != m[j]@.len());
            } else if j == 35 {
                assert(m[i]@.len() != m[j]@.len());
            } else if j == 36 {
                assert(m[i]@.len() != m[j]@.len());
            } else if j == 37 {
                assert(m[i]@.len() != m[j]@.len());
            } else if j == 38 {
                assert(m[i]@.len() != m[j]@.len());
            } else if j == 39 {
                assert(m[i]@.len() != m[j]@.len());
            } else if j == 40 {
                assert(m[i]@.len() != m[j]@.len());
            } else if j == 41 {
                assert(m[i]@.len() != m[j]@.len());
            } else if j == 42 {
                assert(m[i]@.len() != m[j]@.len());
            } else if j == 43 {
                assert(m[i]@.len() != m[j]@.len());
            } else if j == 44 {
                assert(m[i]@.len() != m[j]@.len());
            } else if j == 45 {
                assert(m[i]@.len() != m[j]@.len());
            } else if j == 46 {
                assert(m[i]@.len() != m[j]@.len());
            } else if j == 47 {
                assert(m[i]@.len() != m[j]@.len());
            } else if j == 48 {
                assert(m[i]@.len() != m[j]@.len());
            } else if j == 49 {
                assert(m[i]@.len() != m[j]@.len());
            } else if j == 50 {
                assert(m[i]@[8] != m[j]@[8]);
            } else if j == 51 {
                assert(m[i]@.len() != m[j]@.len());
            } else if j == 52 {
                assert(m[i]@.len() != m[j]@.len());
            } else if j == 53 {
                assert(m[i]@.len() != m[j]@.len());
            } else if j == 54 {
                assert(m[i]@.len() != m[j]@.len());
            } else if j == 55 {
                assert(m[i]@.len() != m[j]@.len());
            } else if j == 56 {
                assert(m[i]@.len() != m[j]@.len());
            } else if j == 57 {
                assert(m[i]@.len() != m[j]@.len());
            } else if j == 58 {
                assert(m[i]@.len() != m[j]@.len());
            } else if j == 59 {
                assert(m[i]@.len() != m[j]@.len());
            } else if j == 60 {
                assert(m[i]@.len() != m[j]@.len());
            } else if j == 61 {
                assert(m[i]@.len() != m[j]@.len());
            } else if j == 62 {
                assert(m[i]@.len() != m[j]@.len());
            } else if j == 63 {
                assert(m[i]@.len() != m[j]@.len());
            } else if j == 64 {
                assert(m[i]@.len() != m[j]@.len());
            } else if j == 65 {
                assert(m[i]@.len() != m[j]@.len());
            } else if j == 66 {
                assert(m[i]@.len() != m[j]@.len());
            } else if j == 67 {
                assert(m[i]@.len() != m[j]@.len());
            } else if j == 68 {
                assert(m[i]@[8] != m[j]@[8]);
            } else if j == 69 {
                assert(m[i]@.len() != m[j]@.len());
            } else if j == 70 {
                assert(m[i]@.len() != m[j]@.len());
            }
        } else if i == 5 {
            if j == 6 {
                assert(m[i]@.len() != m[j]@.len());
            } else if j == 7 {
                assert(m[i]@.len() != m[j]@.len());
            } else if j == 8 {
                assert(m[i]@.len() != m[j]@.len());
            } else if j == 9 {
                assert(m[i]@.len() != m[j]@.len());
            } else if j == 10 {
                assert(m[i]@.len() != m[j]@.len());
            } else if j == 11 {
                assert(m[i]@.len() != m[j]@.len());
            } else if j == 12 {
                assert(m[i]@.len() != m[j]@.len());
            } else if j == 13 {
                assert(m[i]@.len() != m[j]@.len());
            } else if j == 14 {
                assert(m[i]@.len() != m[j]@.len());
            } else if j == 15 {
                assert(m[i]@.len() != m[j]@.len());
            } else if j == 16 {
                assert(m[i]@[8] != m[j]@[8]);
            } else if j == 17 {
                assert(m[i]@.len() != m[j]@.len());
            } else if j == 18 {
                assert(m[i]@.len() != m[j]@.len());
            } else if j == 19 {
                assert(m[i]@.len() != m[j]@.len());
            } else if j == 20 {
                assert(m[i]@.len() != m[j]@.len());
            } else if j == 21 {
                assert(m[i]@.len() != m[j]@.len());
            } else if j == 22 {
                assert(m[i]@.len() != m[j]@.len());
            } else if j == 23 {
                assert(m[i]@.len() != m[j]@.len());
            } else if j == 24 {
                assert(m[i]@.len() != m[j]@.len());
            } else if j == 25 {
                assert(m[i]@.len() != m[j]@.len());
            } else if j == 26 {
                assert(m[i]@.len() != m[j]@.len());
            } else if j == 27 {
                assert(m[i]@.len() != m[j]@.len());
            } else if j == 28 {
                assert(m[i]@.len() != m[j]@.len());
            } else if j == 29 {
                assert(m[i]@.len() != m[j]@.len());
            } else if j == 30 {
                assert(m[i]@.len() != m[j]@.len());
            } else if j == 31 {
                assert(m[i]@.len() != m[j]@.len());
            } else if j == 32 {
                assert(m[i]@.len() != m[j]@.len());
            } else if j == 33 {
                assert(m[i]@.len() != m[j]@.len());
            } else if j == 34 {
                assert(m[i]@.len() != m[j]@.len());
            } else if j == 35 {
                assert(m[i]@.len() != m[j]@.len());
            } else if j == 36 {
                assert(m[i]@.len() != m[j]@.len());
            } else if j == 37 {
                assert(m[i]@.len() != m[j]@.len());
            } else if j == 38 {
                assert(m[i]@.len() != m[j]@.len());
            } else if j == 39 {
                assert(m[i]@[8] != m[j]@[8]);
            } else if j == 40 {
                assert(m[i]@.len() != m[j]@.len());
            } else if j == 41 {
                assert(m[i]@[8] != m[j]@[8]);
            } else if j == 42 {
                assert(m[i]@.len() != m[j]@.len());
            } else if j == 43 {
                assert(m[i]@.len() != m[j]@.len());
            } else if j == 44 {
                assert(m[i]@.len() != m[j]@.len());
            } else if j == 45 {
                assert(m[i]@.len() != m[j]@.len());
            } else if j == 46 {
                assert(m[i]@.len() != m[j]@.len());
            } else if j == 47 {
                assert(m[i]@.len() != m[j]@.len());
            } else if j == 48 {
                assert(m[i]@.len() != m[j]@.len());
            } else if j == 49 {
                assert(m[i]@.len() != m[j]@.len());
            } else if j == 50 {
                assert(m[i]@.len() != m[j]@.len());
            } else if j == 51 {
                assert(m[i]@.len() != m[j]@.len());
            } else if j == 52 {
                assert(m[i]@.len() != m[j]@.len());
            } else if j == 53 {
                assert(m[i]@.len() != m[j]@.len());
            } else if j == 54 {
                assert(m[i]@.len() != m[j]@.len());
            } else if j == 55 {
                assert(m[i]@.len() != m[j]@.len());
            } else if j == 56 {
                assert(m[i]@.len() != m[j]@.len());
            } else if j == 57 {
                assert(m[i]@.len() != m[j]@.len());
            } else if j == 58 {
                assert(m[i]@.len() != m[j]@.len());
            } else if j == 59 {
                assert(m[i]@.len() != m[j]@.len());
            } else if j == 60 {
                assert(m[i]@.len() != m[j]@.len());
            } else if j == 61 {
                assert(m[i]@.len() != m[j]@.len());
            } else if j == 62 {
                assert(m[i]@.len() != m[j]@.len());
            } else if j == 63 {
                assert(m[i]@.len() != m[j]@.len());
            } else if j == 64 {
                assert(m[i]@.len() != m[j]@.len());
            } else if j == 65 {
                assert(m[i]@.len() != m[j]@.len());
            } else if j == 66 {
                assert(m[i]@.len() != m[j]@.len());
            } else if j == 67 {
                assert(m[i]@.len() != m[j]@.len());
            } else if j == 68 {
                assert(m[i]@.len() != m[j]@.len());
            } else if j == 69 {
                assert(m[i]@.len() != m[j]@.len());
            } else if j == 70 {
                assert(m[i]@.len() != m[j]@.len());
            }
        } else if i == 6 {
            if j == 7 {
                assert(m[i]@[8] != m[j]@[8]);
            } else if j == 8 {
                assert(m[i]@.len() != m[j]@.len());
            } else if j == 9 {
                assert(m[i]@[8] != m[j]@[8]);
            } else if j == 10 {
                assert(m[i]@.len() != m[j]@.len());
            } else if j == 11 {
                assert(m[i]@[9] != m[j]@[9]);
            } else if j == 12 {
                assert(m[i]@[8] != m[j]@[8]);
            } else if j == 13 {
                assert(m[i]@.len() != m[j]@.len());
            } else if j == 14 {
                assert(m[i]@.len() != m[j]@.len());
            } else if j == 15 {
                assert(m[i]@.len() != m[j]@.len());
            } else if j == 16 {
                assert(m[i]@.len() != m[j]@.len());
            } else if j == 17 {
                assert(m[i]@.len() != m[j]@.len());
            } else if j == 18 {
                assert(m[i]@.len() != m[j]@.len());
            } else if j == 19 {
                assert(m[i]@.len() != m[j]@.len());
            } else if j == 20 {
                assert(m[i]@.len() != m[j]@.len());
            } else if j == 21 {
                assert(m[i]@.len() != m[j]@.len());
            } else if j == 22 {
                assert(m[i]@.len() != m[j]@.len());
            } else if j == 23 {
                assert(m[i]@.len() != m[j]@.len());
            } else if j == 24 {
                assert(m[i]@.len() != m[j]@.len());
            } else if j == 25 {
                assert(m[i]@.len() != m[j]@.len());
            } else if j == 26 {
                assert(m[i]@[8] != m[j]@[8]);
            } else if j == 27 {
                assert(m[i]@.len() != m[j]@.len());
            } else if j == 28 {
                assert(m[i]@[8] != m[j]@[8]);
            } else if j == 29 {
                assert(m[i]@.len() != m[j]@.len());
            } else if j == 30 {
                assert(m[i]@.len() != m[j]@.len());
            } else if j == 31 {
                assert(m[i]@.len() != m[j]@.len());
            } else if j == 32 {
                assert(m[i]@.len() != m[j]@.len());
            } else if j == 33 {
                assert(m[i]@.len() != m[j]@.len());
            } else if j == 34 {
                assert(m[i]@.len() != m[j]@.len());
            } else if j == 35 {
                assert(m[i]@.len() != m[j]@.len());
            } else if j == 36 {
                assert(m[i]@.len() != m[j]@.len());
            } else if j == 37 {
                assert(m[i]@.len() != m[j]@.len());
            } else if j == 38 {
                assert(m[i]@.len() != m[j]@.len());
            } else if j == 39 {
                assert(m[i]@.len() != m[j]@.len());
            } else if j == 40 {
                assert(m[i]@.len() != m[j]@.len());
            } else if j == 41 {
                assert(m[i]@.len() != m[j]@.len());
            } else if j == 42 {
                assert(m[i]@.len() != m[j]@.len());
            } else if j == 43 {
                assert(m[i]@.len() != m[j]@.len());
            } else if j == 44 {
                assert(m[i]@.len() != m[j]@.len());
            } else if j == 45 {
                assert(m[i]@.len() != m[j]@.len());
            } else if j == 46 {
                assert(m[i]@.len() != m[j]@.len());
            } else if j == 47 {
                assert(m[i]@.len() != m[j]@.len());
            } else if j == 48 {
                assert(m[i]@.len() != m[j]@.len());
            } else if j == 49 {
                assert(m[i]@.len() != m[j]@.len());
            } else if j == 50 {
                assert(m[i]@.len() != m[j]@.len());
            } else if j == 51 {
                assert(m[i]@.len() != m[j]@.len());
            } else if j == 52 {
                assert(m[i]@.len() != m[j]@.len());
            } else if j == 53 {
                assert(m[i]@.len() != m[j]@.len());
            } else if j == 54 {
                assert(m[i]@.len() != m[j]@.len());
            } else if j == 55 {
                assert(m[i]@.len() != m[j]@.len());
            } else if j == 56 {
                assert(m[i]@.len() != m[j]@.len());
            } else if j == 57 {
                assert(m[i]@.len() != m[j]@.len());
            } else if j == 58 {
                assert(m[i]@.len() != m[j]@.len());
            } else if j == 59 {
                assert(m[i]@.len() != m[j]@.len());
            } else if j == 60 {
                assert(m[i]@.len() != m[j]@.len());
            } else if j == 61 {
                assert(m[i]@.len() != m[j]@.len());
            } else if j == 62 {
                assert(m[i]@.len() != m[j]@.len());
            } else if j == 63 {
                assert(m[i]@[8] != m[j]@[8]);
            } else if j == 64 {
                assert(m[i]@.len() != m[j]@.len());
            } else if j == 65 {
                assert(m[i]@.len() != m[j]@.len());
            } else if j == 66 {
                assert(m[i]@.len() != m[j]@.len());
            } else if j == 67 {
                assert(m[i]@.len() != m[j]@.len());
            } else if j == 68 {
                assert(m[i]@.len() != m[j]@.len());
            } else if j == 69 {
                assert(m[i]@.len() != m[j]@.len());
            } else if j == 70 {
                assert(m[i]@.len() != m[j]@.len());
            }
        } else if i == 7 {
            if j == 8 {
                assert(m[i]@.len() != m[j]@.len());
            } else if j == 9 {
                assert(m[i]@[8] != m[j]@[8]);
            } else if j == 10 {
                assert(m[i]@.len() != m[j]@.len());
            } else if j == 11 {
                assert(m[i]@[8] != m[j]@[8]);
            } else if j == 12 {
                assert(m[i]@[8] != m[j]@[8]);
            } else if j == 13 {
                assert(m[i]@.len() != m[j]@.len());
            } else if j == 14 {
                assert(m[i]@.len() != m[j]@.len());
            } else if j == 15 {
                assert(m[i]@.len() != m[j]@.len());
            } else if j == 16 {
                assert(m[i]@.len() != m[j]@.len());
            } else if j == 17 {
                assert(m[i]@.len() != m[j]@.len());
            } else if j == 18 {
                assert(m[i]@.len() != m[j]@.len());
            } else if j == 19 {
                assert(m[i]@.len() != m[j]@.len());
            } else if j == 20 {
                assert(m[i]@.len() != m[j]@.len());
            } else if j == 21 {
                assert(m[i]@.len() != m[j]@.len());
            } else if j == 22 {
                assert(m[i]@.len() != m[j]@.len());
            } else if j == 23 {
                assert(m[i]@.len() != m[j]@.len());
            } else if j == 24 {
                assert(m[i]@.len() != m[j]@.len());
            } else if j == 25 {
                assert(m[i]@.len() != m[j]@.len());
            } else if j == 26 {
                assert(m[i]@[8] != m[j]@[8]);
            } else if j == 27 {
                assert(m[i]@.len() != m[j]@.len());
            } else if j == 28 {
                assert(m[i]@[8] != m[j]@[8]);
            } else if j == 29 {
                assert(m[i]@.len() != m[j]@.len());
            } else if j == 30 {
                assert(m[i]@.len() != m[j]@.len());
            } else if j == 31 {
                assert(m[i]@.len() != m[j]@.len());
            } else if j == 32 {
                assert(m[i]@.len() != m[j]@.len());
            } else if j == 33 {
                assert(m[i]@.len() != m[j]@.len());
            } else if j == 34 {
                assert(m[i]@.len() != m[j]@.len());
            } else if j == 35 {
                assert(m[i]@.len() != m[j]@.len());
            } else if j == 36 {
                assert(m[i]@.len() != m[j]@.len());
            } else if j == 37 {
                assert(m[i]@.len() != m[j]@.len());
            } else if j == 38 {
                assert(m[i]@.len() != m[j]@.len());
            } else if j == 39 {
                assert(m[i]@.len() != m[j]@.len());
            } else if j == 40 {
                assert(m[i]@.len() != m[j]@.len());
            } else if j == 41 {
                assert(m[i]@.len() != m[j]@.len());
            } else if j == 42 {
                assert(m[i]@.len() != m[j]@.len());
            } else if j == 43 {
                assert(m[i]@.len() != m[j]@.len());
            } else if j == 44 {
                assert(m[i]@.len() != m[j]@.len());
            } else if j == 45 {
                assert(m[i]@.len() != m[j]@.len());
            } else if j == 46 {
                assert(m[i]@.len() != m[j]@.len());
            } else if j == 47 {
                assert(m[i]@.len() != m[j]@.len());
            } else if j == 48 {
                assert(m[i]@.len() != m[j]@.len());
            } else if j == 49 {
                assert(m[i]@.len() != m[j]@.len());
            } else if j == 50 {
                assert(m[i]@.len() != m[j]@.len());
            } else if j == 51 {
                assert(m[i]@.len() != m[j]@.len());
            } else if j == 52 {
                assert(m[i]@.len() != m[j]@.len());
            } else if j == 53 {
                assert(m[i]@.len() != m[j]@.len());
            } else if j == 54 {
                assert(m[i]@.len() != m[j]@.len());
            } else if j == 55 {
                assert(m[i]@.len() != m[j]@.len());
            } else if j == 56 {
                assert(m[i]@.len() != m[j]@.len());
            } else if j == 57 {
                assert(m[i]@.len() != m[j]@.len());
            } else if j == 58 {
                assert(m[i]@.len() != m[j]@.len());
            } else if j == 59 {
                assert(m[i]@.len() != m[j]@.len());
            } else if j == 60 {
                assert(m[i]@.len() != m[j]@.len());
            } else if j == 61 {
                assert(m[i]@.len() != m[j]@.len());
            } else if j == 62 {
                assert(m[i]@.len() != m[j]@.len());
            } else if j == 63 {
                assert(m[i]@[8] != m[j]@[8]);
            } else if j == 64 {
                assert(m[i]@.len() != m[j]@.len());
            } else if j == 65 {
                assert(m[i]@.len() != m[j]@.len());
            } else if j == 66 {
                assert(m[i]@.len() != m[j]@.len());
            } else if j == 67 {
                assert(m[i]@.len() != m[j]@.len());
            } else if j == 68 {
                assert(m[i]@.len() != m[j]@.len());
            } else if j == 69 {
                assert(m[i]@.len() != m[j]@.len());
            } else if j == 70 {
                assert(m[i]@.len() != m[j]@.len());
            }
        } else if i == 8 {
            if j == 9 {
                assert(m[i]@.len() != m[j]@.len());
            } else if j == 10 {
                assert(m[i]@.len() != m[j]@.len());
            } else if j == 11 {
                assert(m[i]@.len() != m[j]@.len());
            } else if j == 12 {
                assert(m[i]@.len() != m[j]@.len());
            } else if j == 13 {
                assert(m[i]@.len() != m[j]@.len());
            } else if j == 14 {
                assert(m[i]@.len() != m[j]@.len());
            } else if j == 15 {
                assert(m[i]@.len() != m[j]@.len());
            } else if j == 16 {
                assert(m[i]@.len() != m[j]@.len());
            } else if j == 17 {
                assert(m[i]@[8] != m[j]@[8]);
            } else if j == 18 {
                assert(m[i]@.len() != m[j]@.len());
            } else if j == 19 {
                assert(m[i]@.len() != m[j]@.len());
            } else if j == 20 {
                assert(m[i]@.len() != m[j]@.len());
            } else if j == 21 {
                assert(m[i]@.len() != m[j]@.len());
            } else if j == 22 {
                assert(m[i]@.len() != m[j]@.len());
            } else if j == 23 {
                assert(m[i]@.len() != m[j]@.len());
            } else if j == 24 {
                assert(m[i]@.len() != m[j]@.len());
            } else if j == 25 {
                assert(m[i]@.len() != m[j]@.len());
            } else if j == 26 {
                assert(m[i]@.len() != m[j]@.len());
            } else if j == 27 {
                assert(m[i]@.len() != m[j]@.len());
            } else if j == 28 {
                assert(m[i]@.len() != m[j]@.len());
            } else if j == 29 {
                assert(m[i]@[8] != m[j]@[8]);
            } else if j == 30 {
                assert(m[i]@.len() != m[j]@.len());
            } else if j == 31 {
                assert(m[i]@.len() != m[j]@.len());
            } else if j == 32 {
                assert(m[i]@[8] != m[j]@[8]);
            } else if j == 33 {
                assert(m[i]@.len() != m[j]@.len());
            } else if j == 34 {
                assert(m[i]@.len() != m[j]@.len());
            } else if j == 35 {
                assert(m[i]@.len() != m[j]@.len());
            } else if j == 36 {
                assert(m[i]@.len() != m[j]@.len());
            } else if j == 37 {
                assert(m[i]@.len() != m[j]@.len());
            } else if j == 38 {
                assert(m[i]@.len() != m[j]@.len());
            } else if j == 39 {
                assert(m[i]@.len() != m[j]@.len());
            } else if j == 40 {
                assert(m[i]@.len() != m[j]@.len());
            } else if j == 41 {
                assert(m[i]@.len() != m[j]@.len());
            } else if j == 42 {
                assert(m[i]@.len() != m[j]@.len());
            } else if j == 43 {
                assert(m[i]@.len() != m[j]@.len());
            } else if j == 44 {
                assert(m[i]@.len() != m[j]@.len());
            } else if j == 45 {
                assert(m[i]@.len() != m[j]@.len());
            } else if j == 46 {
                assert(m[i]@.len() != m[j]@.len());
            } else if j == 47 {
                assert(m[i]@.len() != m[j]@.len());
            } else if j == 48 {
                assert(m[i]@.len() != m[j]@.len());
            } else if j == 49 {
                assert(m[i]@.len() != m[j]@.len());
            } else if j == 50 {
                assert(m[i]@[8] != m[j]@[8]);
            } else if j == 51 {
                assert(m[i]@.len() != m[j]@.len());
            } else if j == 52 {
                assert(m[i]@.len() != m[j]@.len());
            } else if j == 53 {
                assert(m[i]@.len() != m[j]@.len());
            } else if j == 54 {
                assert(m[i]@.len() != m[j]@.len());
            } else if j == 55 {
                assert(m[i]@.len() != m[j]@.len());
            } else if j == 56 {
                assert(m[i]@.len() != m[j]@.len());
            } else if j == 57 {
                assert(m[i]@.len() != m[j]@.len());
            } else if j == 58 {
                assert(m[i]@.len() != m[j]@.len());
            } else if j == 59 {
                assert(m[i]@.len() != m[j]@.len());
            } else if j == 60 {
                assert(m[i]@.len() != m[j]@.len());
            } else if j == 61 {
                assert(m[i]@.len() != m[j]@.len());
            } else if j == 62 {
                assert(m[i]@.len() != m[j]@.len());
            } else if j == 63 {
                assert(m[i]@.len() != m[j]@.len());
            } else if j == 64 {
                assert(m[i]@.len() != m[j]@.len());
            } else if j == 65 {
                assert(m[i]@.len() != m[j]@.len());
            } else if j == 66 {
                assert(m[i]@.len() != m[j]@.len());
            } else if j == 67 {
                assert(m[i]@.len() != m[j]@.len());
            } else if j == 68 {
                assert(m[i]@[8] != m[j]@[8]);
            } else if j == 69 {
                assert(m[i]@.len() != m[j]@.len());
            } else if j == 70 {
                assert(m[i]@.len() != m[j]@.len());
            }
        } else if i == 9 {
            if j == 10 {
                assert(m[i]@.len() != m[j]@.len());
            } else if j == 11 {
                assert(m[i]@[8] != m[j]@[8]);
            } else if j == 12 {
                assert(m[i]@[8] != m[j]@[8]);
            } else if j == 13 {
                assert(m[i]@.len() != m[j]@.len());
            } else if j == 14 {
                assert(m[i]@.len() != m[j]@.len());
            } else if j == 15 {
                assert(m[i]@.len() != m[j]@.len());
            } else if j == 16 {
                assert(m[i]@.len() != m[j]@.len());
            } else if j == 17 {
                assert(m[i]@.len() != m[j]@.len());
            } else if j == 18 {
                assert(m[i]@.len() != m[j]@.len());
            } else if j == 19 {
                assert(m[i]@.len() != m[j]@.len());
            } else if j == 20 {
                assert(m[i]@.len() != m[j]@.len());
            } else if j == 21 {
                assert(m[i]@.len() != m[j]@.len());
            } else if j == 22 {
                assert(m[i]@.len() != m[j]@.len());
            } else if j == 23 {
                assert(m[i]@.len() != m[j]@.len());
            } else if j == 24 {
                assert(m[i]@.len() != m[j]@.len());
            } else if j == 25 {
                assert(m[i]@.len() != m[j]@.len());
            } else if j == 26 {
                assert(m[i]@[8] != m[j]@[8]);
            } else if j == 27 {
                assert(m[i]@.len() != m[j]@.len());
            } else if j == 28 {
                assert(m[i]@[8] != m[j]@[8]);
            } else if j == 29 {
                assert(m[i]@.len() != m[j]@.len());
            } else if j == 30 {
                assert(m[i]@.len() != m[j]@.len());
            } else if j == 31 {
                assert(m[i]@.len() != m[j]@.len());
            } else if j == 32 {
                assert(m[i]@.len() != m[j]@.len());
            } else if j == 33 {
                assert(m[i]@.len() != m[j]@.len());
            } else if j == 34 {
                assert(m[i]@.len() != m[j]@.len());
            } else if j == 35 {
                assert(m[i]@.len() != m[j]@.len());
            } else if j == 36 {
                assert(m[i]@.len() != m[j]@.len());
            } else if j == 37 {
                assert(m[i]@.len() != m[j]@.len());
            } else if j == 38 {
                assert(m[i]@.len() != m[j]@.len());
            } else if j == 39 {
                assert(m[i]@.len() != m[j]@.len());
            } else if j == 40 {
                assert(m[i]@.len() != m[j]@.len());
            } else if j == 41 {
                assert(m[i]@.len() != m[j]@.len());
            } else if j == 42 {
                assert(m[i]@.len() != m[j]@.len());
            } else if j == 43 {
                assert(m[i]@.len() != m[j]@.len());
            } else if j == 44 {
                assert(m[i]@.len() != m[j]@.len());
            } else if j == 45 {
                assert(m[i]@.len() != m[j]@.len());
            } else if j == 46 {
                assert(m[i]@.len() != m[j]@.len());
            } else if j == 47 {
                assert(m[i]@.len() != m[j]@.len());
            } else if j == 48 {
                assert(m[i]@.len() != m[j]@.len());
            } else if j == 49 {
                assert(m[i]@.len() != m[j]@.len());
            } else if j == 50 {
                assert(m[i]@.len() != m[j]@.len());
            } else if j == 51 {
                assert(m[i]@.len() != m[j]@.len());
            } else if j == 52 {
                assert(m[i]@.len() != m[j]@.len());
            } else if j == 53 {
                assert(m[i]@.len() != m[j]@.len());
            } else if j == 54 {
                assert(m[i]@.len() != m[j]@.len());
            } else if j == 55 {
                assert(m[i]@.len() != m[j]@.len());
            } else if j == 56 {
                assert(m[i]@.len() != m[j]@.len());
            } else if j == 57 {
                assert(m[i]@.len() != m[j]@.len());
            } else if j == 58 {
                assert(m[i]@.len() != m[j]@.len());
            } else if j == 59 {
                assert(m[i]@.len() != m[j]@.len());
            } else if j == 60 {
                assert(m[i]@.len() != m[j]@.len());
            } else if j == 61 {
                assert(m[i]@.len() != m[j]@.len());
            } else if j == 62 {
                assert(m[i]@.len() != m[j]@.len());
            } else if j == 63 {
                assert(m[i]@[8] != m[j]@[8]);
            } else if j == 64 {
                assert(m[i]@.len() != m[j]@.len());
            } else if j == 65 {
                assert(m[i]@.len() != m[j]@.len());
            } else if j == 66 {
                assert(m[i]@.len() != m[j]@.len());
            } else if j == 67 {
                assert(m[i]@.len() != m[j]@.len());
            } else if j == 68 {
                assert(m[i]@.len() != m[j]@.len());
            } else if j == 69 {
                assert(m[i]@.len() != m[j]@.len());
            } else if j == 70 {
                assert(m[i]@.len() != m[j]@.len());
            }
        } else if i == 10 {
            if j == 11 {
                assert(m[i]@.len() != m[j]@.len());
            } else if j == 12 {
                assert(m[i]@.len() != m[j]@.len());
            } else if j == 13 {
                assert(m[i]@.len() != m[j]@.len());
            } else if j == 14 {
                assert(m[i]@.len() != m[j]@.len());
            } else if j == 15 {
                assert(m[i]@[8] != m[j]@[8]);
            } else if j == 16 {
                assert(m[i]@.len() != m[j]@.len());
            } else if j == 17 {
                assert(m[i]@.len() != m[j]@.len());
            } else if j == 18 {
                assert(m[i]@.len() != m[j]@.len());
            } else if j == 19 {
                assert(m[i]@.len() != m[j]@.len());
            } else if j == 20 {
                assert(m[i]@.len() != m[j]@.len());
            } else if j == 21 {
                assert(m[i]@.len() != m[j]@.len());
            } else if j == 22 {
                assert(m[i]@.len() != m[j]@.len());
            } else if j == 23 {
                assert(m[i]@.len() != m[j]@.len());
            } else if j == 24 {
                assert(m[i]@.len() != m[j]@.len());
            } else if j == 25 {
                assert(m[i]@.len() != m[j]@.len());
            } else if j == 26 {
                assert(m[i]@.len() != m[j]@.len());
            } else if j == 27 {
                assert(m[i]@.len() != m[j]@.len());
            } else if j == 28 {
                assert(m[i]@.len() != m[j]@.len());
            } else if j == 29 {
                assert(m[i]@.len() != m[j]@.len());
            } else if j == 30 {
                assert(m[i]@.len() != m[j]@.len());
            } else if j == 31 {
                assert(m[i]@.len() != m[j]@.len());
            } else if j == 32 {
                assert(m[i]@.len() != m[j]@.len());
            } else if j == 33 {
                assert(m[i]@.len() != m[j]@.len());
            } else if j == 34 {
                assert(m[i]@.len() != m[j]@.len());
            } else if j == 35 {
                assert(m[i]@.len() != m[j]@.len());
            } else if j == 36 {
                assert(m[i]@.len() != m[j]@.len());
            } else if j == 37 {
                assert(m[i]@.len() != m[j]@.len());
            } else if j == 38 {
                assert(m[i]@.len() != m[j]@.len());
            } else if j == 39 {
                assert(m[i]@.len() != m[j]@.len());
            } else if j == 40 {
                assert(m[i]@.len() != m[j]@.len());
            } else if j == 41 {
                assert(m[i]@.len() != m[j]@.len());
            } else if j == 42 {
                assert(m[i]@.len() != m[j]@.len());
            } else if j == 43 {
                assert(m[i]@.len() != m[j]@.len());
            } else if j == 44 {
                assert(m[i]@.len() != m[j]@.len());
            } else if j == 45 {
                assert(m[i]@.len() != m[j]@.len());
            } else if j == 46 {
                assert(m[i]@.len() != m[j]@.len());
            } else if j == 47 {
                assert(m[i]@.len() != m[j]@.len());
            } else if j == 48 {
                assert(m[i]@.len() != m[j]@.len());
            } else if j == 49 {
                assert(m[i]@.len() != m[j]@.len());
            } else if j == 50 {
                assert(m[i]@.len() != m[j]@.len());
            } else if j == 51 {
                assert(m[i]@.len() != m[j]@.len());
            } else if j == 52 {
                assert(m[i]@.len() != m[j]@.len());
            } else if j == 53 {
                assert(m[i]@.len() != m[j]@.len());
            } else if j == 54 {
                assert(m[i]@.len() != m[j]@.len());
            } else if j == 55 {
                assert(m[i]@.len() != m[j]@.len());
            } else if j == 56 {
                assert(m[i]@.len() != m[j]@.len());
            } else if j == 57 {
                assert(m[i]@.len() != m[j]@.len());
            } else if j == 58 {
                assert(m[i]@.len() != m[j]@.len());
            } else if j == 59 {
                assert(m[i]@.len() != m[j]@.len());
            } else if j == 60 {
                assert(m[i]@.len() != m[j]@.len());
            } else if j == 61 {
                assert(m[i]@.len() != m[j]@.len());
            } else if j == 62 {
                assert(m[i]@.len() != m[j]@.len());
            } else if j == 63 {
                assert(m[i]@.len() != m[j]@.len());
            } else if j == 64 {
                assert(m[i]@.len() != m[j]@.len());
            } else if j == 65 {
                assert(m[i]@.len() != m[j]@.len());
            } else if j == 66 {
                assert(m[i]@.len() != m[j]@.len());
            } else if j == 67 {
                assert(m[i]@.len() != m[j]@.len());
            } else if j == 68 {
                assert(m[i]@.len() != m[j]@.len());
            } else if j == 69 {
                assert(m[i]@.len() != m[j]@.len());
            } else if j == 70 {
                assert(m[i]@.len() != m[j]@.len());
            }
        } else if i == 11 {
            if j == 12 {
                assert(m[i]@[8] != m[j]@[8]);
            } else if j == 13 {
                assert(m[i]@.len() != m[j]@.len());
            } else if j == 14 {
                assert(m[i]@.len() != m[j]@.len());
            } else if j == 15 {
                assert(m[i]@.len() != m[j]@.len());
            } else if j == 16 {
                assert(m[i]@.len() != m[j]@.len());
            } else if j == 17 {
                assert(m[i]@.len() != m[j]@.len());
            } else if j == 18 {
                assert(m[i]@.len() != m[j]@.len());
            } else if j == 19 {
                assert(m[i]@.len() != m[j]@.len());
            } else if j == 20 {
                assert(m[i]@.len() != m[j]@.len());
            } else if j == 21 {
                assert(m[i]@.len() != m[j]@.len());
            } else if j == 22 {
                assert(m[i]@.len() != m[j]@.len());
            } else if j == 23 {
                assert(m[i]@.len() != m[j]@.len());
            } else if j == 24 {
                assert(m[i]@.len() != m[j]@.len());
            } else if j == 25 {
                assert(m[i]@.len() != m[j]@.len());
            } else if j == 26 {
                assert(m[i]@[8] != m[j]@[8]);
            } else if j == 27 {
                assert(m[i]@.len() != m[j]@.len());
            } else if j == 28 {
                assert(m[i]@[8] != m[j]@[8]);
            } else if j == 29 {
                assert(m[i]@.len() != m[j]@.len());
            } else if j == 30 {
                assert(m[i]@.len() != m[j]@.len());
            } else if j == 31 {
                assert(m[i]@.len() != m[j]@.len());
            } else if j == 32 {
                assert(m[i]@.len() != m[j]@.len());
            } else if j == 33 {
                assert(m[i]@.len() != m[j]@.len());
            } else if j == 34 {
                assert(m[i]@.len() != m[j]@.len());
            } else if j == 35 {
                assert(m[i]@.len() != m[j]@.len());
            } else if j == 36 {
                assert(m[i]@.len() != m[j]@.len());
            } else if j == 37 {
                assert(m[i]@.len() != m[j]@.len());
            } else if j == 38 {
                assert(m[i]@.len() != m[j]@.len());
            } else if j == 39 {
                assert(m[i]@.len() != m[j]@.len());
            } else if j == 40 {
                assert(m[i]@.len() != m[j]@.len());
            } else if j == 41 {
                assert(m[i]@.len() != m[j]@.len());
            } else if j == 42 {
                assert(m[i]@.len() != m[j]@.len());
            } else if j == 43 {
                assert(m[i]@.len() != m[j]@.len());
            } else if j == 44 {
                assert(m[i]@.len() != m[j]@.len());
            } else if j == 45 {
                assert(m[i]@.len() != m[j]@.len());
            } else if j == 46 {
                assert(m[i]@.len() != m[j]@.len());
            } else if j == 47 {
                assert(m[i]@.len() != m[j]@.len());
            } else if j == 48 {
                assert(m[i]@.len() != m[j]@.len());
            } else if j == 49 {
                assert(m[i]@.len() != m[j]@.len());
            } else if j == 50 {
                assert(m[i]@.len() != m[j]@.len());
            } else if j == 51 {
                assert(m[i]@.len() != m[j]@.len());
            } else if j == 52 {
                assert(m[i]@.len() != m[j]@.len());
            } else if j == 53 {
                assert(m[i]@.len() != m[j]@.len());
            } else if j == 54 {
                assert(m[i]@.len() != m[j]@.len());
            } else if j == 55 {
                assert(m[i]@.len() != m[j]@.len());
            } else if j == 56 {
                assert(m[i]@.len() != m[j]@.len());
            } else if j == 57 {
                assert(m[i]@.len() != m[j]@.len());
            } else if j == 58 {
                assert(m[i]@.len() != m[j]@.len());
            } else if j == 59 {
                assert(m[i]@.len() != m[j]@.len());
            } else if j == 60 {
                assert(m[i]@.len() != m[j]@.len());
            } else if j == 61 {
                assert(m[i]@.len() != m[j]@.len());
            } else if j == 62 {
                assert(m[i]@.len() != m[j]@.len());
            } else if j == 63 {
                assert(m[i]@[8] != m[j]@[8]);
            } else if j == 64 {
                assert(m[i]@.len() != m[j]@.len());
            } else if j == 65 {
                assert(m[i]@.len() != m[j]@.len());
            } else if j == 66 {
                assert(m[i]@.len() != m[j]@.len());
            } else if j == 67 {
                assert(m[i]@.len() != m[j]@.len());
            } else if j == 68 {
                assert(m[i]@.len() != m[j]@.len());
            } else if j == 69 {
                assert(m[i]@.len() != m[j]@.len());
            } else if j == 70 {
                assert(m[i]@.len() != m[j]@.len());
            }
        } else if i == 12 {
            if j == 13 {
                assert(m[i]@.len() != m[j]@.len());
            } else if j == 14 {
                assert(m[i]@.len() != m[j]@.len());
            } else if j == 15 {
                assert(m[i]@.len() != m[j]@.len());
            } else if j == 16 {
                assert(m[i]@.len() != m[j]@.len());
            } else if j == 17 {
                assert(m[i]@.len() != m[j]@.len());
            } else if j == 18 {
                assert(m[i]@.len() != m[j]@.len());
            } else if j == 19 {
                assert(m[i]@.len() != m[j]@.len());
            } else if j == 20 {
                assert(m[i]@.len() != m[j]@.len());
            } else if j == 21 {
                assert(m[i]@.len() != m[j]@.len());
            } else if j == 22 {
                assert(m[i]@.len() != m[j]@.len());
            } else if j == 23 {
                assert(m[i]@.len() != m[j]@.len());
            } else if j == 24 {
                assert(m[i]@.len() != m[j]@.len());
            } else if j == 25 {
                assert(m[i]@.len() != m[j]@.len());
            } else if j == 26 {
                assert(m[i]@[8] != m[j]@[8]);
            } else if j == 27 {
                assert(m[i]@.len() != m[j]@.len());
            } else if j == 28 {
                assert(m[i]@[8] != m[j]@[8]);
            } else if j == 29 {
                assert(m[i]@.len() != m[j]@.len());
            } else if j == 30 {
                assert(m[i]@.len() != m[j]@.len());
            } else if j == 31 {
                assert(m[i]@.len() != m[j]@.len());
            } else if j == 32 {
                assert(m[i]@.len() != m[j]@.len());
            } else if j == 33 {
                assert(m[i]@.len() != m[j]@.len());
            } else if j == 34 {
                assert(m[i]@.len() != m[j]@.len());
            } else if j == 35 {
                assert(m[i]@.len() != m[j]@.len());
            } else if j == 36 {
                assert(m[i]@.len() != m[j]@.len());
            } else if j == 37 {
                assert(m[i]@.len() != m[j]@.len());
            } else if j == 38 {
                assert(m[i]@.len() != m[j]@.len());
            } else if j == 39 {
                assert(m[i]@.len() != m[j]@.len());
            } else if j == 40 {
                assert(m[i]@.len() != m[j]@.len());
            } else if j == 41 {
                assert(m[i]@.len() != m[j]@.len());
            } else if j == 42 {
                assert(m[i]@.len() != m[j]@.len());
            } else if j == 43 {
                assert(m[i]@.len() != m[j]@.len());
            } else if j == 44 {
                assert(m[i]@.len() != m[j]@.len());
            } else if j == 45 {
                assert(m[i]@.len() != m[j]@.len());
            } else if j == 46 {
                assert(m[i]@.len() != m[j]@.len());
            } else if j == 47 {
                assert(m[i]@.len() != m[j]@.len());
            } else if j == 48 {
                assert(m[i]@.len() != m[j]@.len());
            } else if j == 49 {
                assert(m[i]@.len() != m[j]@.len());
            } else if j == 50 {
                assert(m[i]@.len() != m[j]@.len());
            } else if j == 51 {
                assert(m[i]@.len() != m[j]@.len());
            } else if j == 52 {
                assert(m[i]@.len() != m[j]@.len());
            } else if j == 53 {
                assert(m[i]@.len() != m[j]@.len());
            } else if j == 54 {
                assert(m[i]@.len() != m[j]@.len());
            } else if j == 55 {
                assert(m[i]@.len() != m[j]@.len());
            } else if j == 56 {
                assert(m[i]@.len() != m[j]@.len());
            } else if j == 57 {
                assert(m[i]@.len() != m[j]@.len());
            } else if j == 58 {
                assert(m[i]@.len() != m[j]@.len());
            } else if j == 59 {
                assert(m[i]@.len() != m[j]@.len());
            } else if j == 60 {
                assert(m[i]@.len() != m[j]@.len());
            } else if j == 61 {
                assert(m[i]@.len() != m[j]@.len());
            } else if j == 62 {
                assert(m[i]@.len() != m[j]@.len());
            } else if j == 63 {
                assert(m[i]@[8] != m[j]@[8]);
            } else if j == 64 {
                assert(m[i]@.len() != m[j]@.len());
            } else if j == 65 {
                assert(m[i]@.len() != m[j]@.len());
            } else if j == 66 {
                assert(m[i]@.len() != m[j]@.len());
            } else if j == 67 {
                assert(m[i]@.len() != m[j]@.len());
            } else if j == 68 {
                assert(m[i]@.len() != m[j]@.len());
            } else if j == 69 {
                assert(m[i]@.len() != m[j]@.len());
            } else if j == 70 {
                assert(m[i]@.len() != m[j]@.len());
            }
        } else if i == 13 {
            if j == 14 {
                assert(m[i]@.len() != m[j]@.len());
            } else if j == 15 {
                assert(m[i]@.len() != m[j]@.len());
            } else if j == 16 {
                assert(m[i]@.len() != m[j]@.len());
            } else if j == 17 {
                assert(m[i]@.len() != m[j]@.len());
            } else if j == 18 {
                assert(m[i]@[8] != m[j]@[8]);
            } else if j == 19 {
                assert(m[i]@.len() != m[j]@.len());
            } else if j == 20 {
                assert(m[i]@.len() != m[j]@.len());
            } else if j == 21 {
                assert(m[i]@.len() != m[j]@.len());
            } else if j == 22 {
                assert(m[i]@.len() != m[j]@.len());
            } else if j == 23 {
                assert(m[i]@.len() != m[j]@.len());
            } else if j == 24 {
                assert(m[i]@.len() != m[j]@.len());
            } else if j == 25 {
                assert(m[i]@.len() != m[j]@.len());
            } else if j == 26 {
                assert(m[i]@.len() != m[j]@.len());
            } else if j == 27 {
                assert(m[i]@.len() != m[j]@.len());
            } else if j == 28 {
                assert(m[i]@.len() != m[j]@.len());
            } else if j == 29 {
                assert(m[i]@.len() != m[j]@.len());
            } else if j == 30 {
                assert(m[i]@.len() != m[j]@.len());
            } else if j == 31 {
                assert(m[i]@.len() != m[j]@.len());
            } else if j == 32 {
                assert(m[i]@.len() != m[j]@.len());
            } else if j == 33 {
                assert(m[i]@.len() != m[j]@.len());
            } else if j == 34 {
                assert(m[i]@.len() != m[j]@.len());
            } else if j == 35 {
                assert(m[i]@.len() != m[j]@.len());
            } else if j == 36 {
                assert(m[i]@.len() != m[j]@.len());
            } else if j == 37 {
                assert(m[i]@.len() != m[j]@.len());
            } else if j == 38 {
                assert(m[i]@.len() != m[j]@.len());
            } else if j == 39 {
                assert(m[i]@.len() != m[j]@.len());
            } else if j == 40 {
                assert(m[i]@.len() != m[j]@.len());
            } else if j == 41 {
                assert(m[i]@.len() != m[j]@.len());
            } else if j == 42 {
                assert(m[i]@[8] != m[j]@[8]);
            } else if j == 43 {
                assert(m[i]@.len() != m[j]@.len());
            } else if j == 44 {
                assert(m[i]@.len() != m[j]@.len());
            } else if j == 45 {
                assert(m[i]@[8] != m[j]@[8]);
            } else if j == 46 {
                assert(m[i]@.len() != m[j]@.len());
            } else if j == 47 {
                assert(m[i]@[8] != m[j]@[8]);
            } else if j == 48 {
                assert(m[i]@[8] != m[j]@[8]);
            } else if j == 49 {
                assert(m[i]@.len() != m[j]@.len());
            } else if j == 50 {
                assert(m[i]@.len() != m[j]@.len());
            } else if j == 51 {
                assert(m[i]@.len() != m[j]@.len());
            } else if j == 52 {
                assert(m[i]@.len() != m[j]@.len());
            } else if j == 53 {
                assert(m[i]@.len() != m[j]@.len());
            } else if j == 54 {
                assert(m[i]@.len() != m[j]@.len());
            } else if j == 55 {
                assert(m[i]@[8] != m[j]@[8]);
            } else if j == 56 {
                assert(m[i]@.len() != m[j]@.len());
            } else if j == 57 {
                assert(m[i]@.len() != m[j]@.len());
            } else if j == 58 {
                assert(m[i]@.len() != m[j]@.len());
            } else if j == 59 {
                assert(m[i]@.len() != m[j]@.len());
            } else if j == 60 {
                assert(m[i]@.len() != m[j]@.len());
            } else if j == 61 {
                assert(m[i]@.len() != m[j]@.len());
            } else if j == 62 {
                assert(m[i]@.len() != m[j]@.len());
            } else if j == 63 {
                assert(m[i]@.len() != m[j]@.len());
            } else if j == 64 {
                assert(m[i]@.len() != m[j]@.len());
            } else if j == 65 {
                assert(m[i]@.len() != m[j]@.len());
            } else if j == 66 {
                assert(m[i]@.len() != m[j]@.len());
            } else if j == 67 {
                assert(m[i]@.len() != m[j]@.len());
            } else if j == 68 {
                assert(m[i]@.len() != m[j]@.len());
            } else if j == 69 {
                assert(m[i]@.len() != m[j]@.len());
            } else if j == 70 {
                assert(m[i]@.len() != m[j]@.len());
            }
        } else if i == 14 {
            if j == 15 {
                assert(m[i]@.len() != m[j]@.len());
            } else if j == 16 {
                assert(m[i]@.len() != m[j]@.len());
            } else if j == 17 {
                assert(m[i]@.len() != m[j]@.len());
            } else if j == 18 {
                assert(m[i]@.len() != m[j]@.len());
            } else if j == 19 {
                assert(m[i]@.len() != m[j]@.len());
            } else if j == 20 {
                assert(m[i]@.len() != m[j]@.len());
            } else if j == 21 {
                assert(m[i]@.len() != m[j]@.len());
            } else if j == 22 {
                assert(m[i]@.len() != m[j]@.len());
            } else if j == 23 {
                assert(m[i]@.len() != m[j]@.len());
            } else if j == 24 {
                assert(m[i]@.len() != m[j]@.len());
            } else if j == 25 {
                assert(m[i]@.len() != m[j]@.len());
            } else if j == 26 {
                assert(m[i]@.len() != m[j]@.len());
            } else if j == 27 {
                assert(m[i]@.len() != m[j]@.len());
            } else if j == 28 {
                assert(m[i]@.len() != m[j]@.len());
            } else if j == 29 {
                assert(m[i]@.len() != m[j]@.len());
            } else if j == 30 {
                assert(m[i]@.len() != m[j]@.len());
            } else if j == 31 {
                assert(m[i]@.len() != m[j]@.len());
            } else if j == 32 {
                assert(m[i]@.len() != m[j]@.len());
            } else if j == 33 {
                assert(m[i]@.len() != m[j]@.len());
            } else if j == 34 {
                assert(m[i]@.len() != m[j]@.len());
            } else if j == 35 {
                assert(m[i]@.len() != m[j]@.len());
            } else if j == 36 {
                assert(m[i]@.len() != m[j]@.len());
            } else if j == 37 {
                assert(m[i]@.len() != m[j]@.len());
            } else if j == 38 {
                assert(m[i]@.len() != m[j]@.len());
            } else if j == 39 {
                assert(m[i]@.len() != m[j]@.len());
            } else if j == 40 {
                assert(m[i]@.len() != m[j]@.len());
            } else if j == 41 {
                assert(m[i]@.len() != m[j]@.len());
            } else if j == 42 {
                assert(m[i]@.len() != m[j]@.len());
            } else if j == 43 {
                assert(m[i]@.len() != m[j]@.len());
            } else if j == 44 {
                assert(m[i]@.len() != m[j]@.len());
            } else if j == 45 {
                assert(m[i]@.len() != m[j]@.len());
            } else if j == 46 {
                assert(m[i]@.len() != m[j]@.len());
            } else if j == 47 {
                assert(m[i]@.len() != m[j]@.len());
            } else if j == 48 {
                assert(m[i]@.len() != m[j]@.len());
            } else if j == 49 {
                assert(m[i]@.len() != m[j]@.len());
            } else if j == 50 {
                assert(m[i]@.len() != m[j]@.len());
            } else if j == 51 {
                assert(m[i]@.len() != m[j]@.len());
            } else if j == 52 {
                assert(m[i]@.len() != m[j]@.len());
            } else if j == 53 {
                assert(m[i]@.len() != m[j]@.len());
            } else if j == 54 {
                assert(m[i]@.len() != m[j]@.len());
            } else if j == 55 {
                assert(m[i]@.len() != m[j]@.len());
            } else if j == 56 {
                assert(m[i]@.len() != m[j]@.len());
            } else if j == 57 {
                assert(m[i]@.len() != m[j]@.len());
            } else if j == 58 {
                assert(m[i]@.len() != m[j]@.len());
            } else if j == 59 {
                assert(m[i]@.len() != m[j]@.len());
            } else if j == 60 {
                assert(m[i]@.len() != m[j]@.len());
            } else if j == 61 {
                assert(m[i]@.len() != m[j]@.len());
            } else if j == 62 {
                assert(m[i]@.len() != m[j]@.len());
            } else if j == 63 {
                assert(m[i]@.len() != m[j]@.len());
            } else if j == 64 {
                assert(m[i]@.len() != m[j]@.len());
            } else if j == 65 {
                assert(m[i]@.len() != m[j]@.len());
            } else if j == 66 {
                assert(m[i]@.len() != m[j]@.len());
            } else if j == 67 {
                assert(m[i]@.len() != m[j]@.len());
            } else if j == 68 {
                assert(m[i]@.len() != m[j]@.len());
            } else if j == 69 {
                assert(m[i]@.len() != m[j]@.len());
            } else if j == 70 {
                assert(m[i]@.len() != m[j]@.len());
            }
        } else if i == 15 {
            if j == 16 {
                assert(m[i]@.len() != m[j]@.len());
            } else if j == 17 {
                assert(m[i]@.len() != m[j]@.len());
            } else if j == 18 {
                assert(m[i]@.len() != m[j]@.len());
            } else if j == 19 {
                assert(m[i]@.len() != m[j]@.len());
            } else if j == 20 {
                assert(m[i]@.len() != m[j]@.len());
            } else if j == 21 {
                assert(m[i]@.len() != m[j]@.len());
            } else if j == 22 {
                assert(m[i]@.len() != m[j]@.len());
            } else if j == 23 {
                assert(m[i]@.len() != m[j]@.len());
            } else if j == 24 {
                assert(m[i]@.len() != m[j]@.len());
            } else if j == 25 {
                assert(m[i]@.len() != m[j]@.len());
            } else if j == 26 {
                assert(m[i]@.len() != m[j]@.len());
            } else if j == 27 {
                assert(m[i]@.len() != m[j]@.len());
            } else if j == 28 {
                assert(m[i]@.len() != m[j]@.len());
            } else if j == 29 {
                assert(m[i]@.len() != m[j]@.len());
            } else if j == 30 {
                assert(m[i]@.len() != m[j]@.len());
            } else if j == 31 {
                assert(m[i]@.len() != m[j]@.len());
            } else if j == 32 {
                assert(m[i]@.len() != m[j]@.len());
            } else if j == 33 {
                assert(m[i]@.len() != m[j]@.len());
            } else if j == 34 {
                assert(m[i]@.len() != m[j]@.len());
            } else if j == 35 {
                assert(m[i]@.len() != m[j]@.len());
            } else if j == 36 {
                assert(m[i]@.len() != m[j]@.len());
            } else if j == 37 {
                assert(m[i]@.len() != m[j]@.len());
            } else if j == 38 {
                assert(m[i]@.len() != m[j]@.len());
            } else if j == 39 {
                assert(m[i]@.len() != m[j]@.len());
            } else if j == 40 {
                assert(m[i]@.len() != m[j]@.len());
            } else if j == 41 {
                assert(m[i]@.len() != m[j]@.len());
            } else if j == 42 {
                assert(m[i]@.len() != m[j]@.len());
            } else if j == 43 {
                assert(m[i]@.len() != m[j]@.len());
            } else if j == 44 {
                assert(m[i]@.len() != m[j]@.len());
            } else if j == 45 {
                assert(m[i]@.len() != m[j]@.len());
            } else if j == 46 {
                assert(m[i]@.len() != m[j]@.len());
            } else if j == 47 {
                assert(m[i]@.len() != m[j]@.len());
            } else if j == 48 {
                assert(m[i]@.len() != m[j]@.len());
            } else if j == 49 {
                assert(m[i]@.len() != m[j]@.len());
            } else if j == 50 {
                assert(m[i]@.len() != m[j]@.len());
            } else if j == 51 {
                assert(m[i]@.len() != m[j]@.len());
            } else if j == 52 {
                assert(m[i]@.len() != m[j]@.len());
            } else if j == 53 {
                assert(m[i]@.len() != m[j]@.len());
            } else if j == 54 {
                assert(m[i]@.len() != m[j]@.len());
            } else if j == 55 {
                assert(m[i]@.len() != m[j]@.len());
            } else if j == 56 {
                assert(m[i]@.len() != m[j]@.len());
            } else if j == 57 {
                assert(m[i]@.len() != m[j]@.len());
            } else if j == 58 {
                assert(m[i]@.len() != m[j]@.len());
            } else if j == 59 {
                assert(m[i]@.len() != m[j]@.len());
            } else if j == 60 {
                assert(m[i]@.len() != m[j]@.len());
            } else if j == 61 {
                assert(m[i]@.len() != m[j]@.len());
            } else if j == 62 {
                assert(m[i]@.len() != m[j]@.len());
            } else if j == 63 {
                assert(m[i]@.len() != m[j]@.len());
            } else if j == 64 {
                assert(m[i]@.len() != m[j]@.len());
            } else if j == 65 {
                assert(m[i]@.len() != m[j]@.len());
            } else if j == 66 {
                assert(m[i]@.len() != m[j]@.len());
            } else if j == 67 {
                assert(m[i]@.len() != m[j]@.len());
            } else if j == 68 {
                assert(m[i]@.len() != m[j]@.len());
            } else if j == 69 {
                assert(m[i]@.len() != m[j]@.len());
            } else if j == 70 {
                assert(m[i]@.len() != m[j]@.len());
            }
        } else if i == 16 {
            if j == 17 {
                assert(m[i]@.len() != m[j]@.len());
            } else if j == 18 {
                assert(m[i]@.len() != m[j]@.len());
            } else if j == 19 {
                assert(m[i]@.len() != m[j]@.len());
            } else if j == 20 {
                assert(m[i]@.len() != m[j]@.len());
            } else if j == 21 {
                assert(m[i]@.len() != m[j]@.len());
            } else if j == 22 {
                assert(m[i]@.len() != m[j]@.len());
            } else if j == 23 {
                assert(m[i]@.len() != m[j]@.len());
            } else if j == 24 {
                assert(m[i]@.len() != m[j]@.len());
            } else if j == 25 {
                assert(m[i]@.len() != m[j]@.len());
            } else if j == 26 {
                assert(m[i]@.len() != m[j]@.len());
            } else if j == 27 {
                assert(m[i]@.len() != m[j]@.len());
            } else if j == 28 {
                assert(m[i]@.len() != m[j]@.len());
            } else if j == 29 {
                assert(m[i]@.len() != m[j]@.len());
            } else if j == 30 {
                assert(m[i]@.len() != m[j]@.len());
            } else if j == 31 {
                assert(m[i]@.len() != m[j]@.len());
            } else if j == 32 {
                assert(m[i]@.len() != m[j]@.len());
            } else if j == 33 {
                assert(m[i]@.len() != m[j]@.len());
            } else if j == 34 {
                assert(m[i]@.len() != m[j]@.len());
            } else if j == 35 {
                assert(m[i]@.len() != m[j]@.len());
            } else if j == 36 {
                assert(m[i]@.len() != m[j]@.len());
            } else if j == 37 {
                assert(m[i]@.len() != m[j]@.len());
            } else if j == 38 {
                assert(m[i]@.len() != m[j]@.len());
            } else if j == 39 {
                assert(m[i]@[8] != m[j]@[8]);
            } else if j == 40 {
                assert(m[i]@.len() != m[j]@.len());
            } else if j == 41 {
                assert(m[i]@[8] != m[j]@[8]);
            } else if j == 42 {
                assert(m[i]@.len() != m[j]@.len());
            } else if j == 43 {
                assert(m[i]@.len() != m[j]@.len());
            } else if j == 44 {
                assert(m[i]@.len() != m[j]@.len());
            } else if j == 45 {
                assert(m[i]@.len() != m[j]@.len());
            } else if j == 46 {
                assert(m[i]@.len() != m[j]@.len());
            } else if j == 47 {
                assert(m[i]@.len() != m[j]@.len());
            } else if j == 48 {
                assert(m[i]@.len() != m[j]@.len());
            } else if j == 49 {
                assert(m[i]@.len() != m[j]@.len());
            } else if j == 50 {
                assert(m[i]@.len() != m[j]@.len());
            } else if j == 51 {
                assert(m[i]@.len() != m[j]@.len());
            } else if j == 52 {
                assert(m[i]@.len() != m[j]@.len());
            } else if j == 53 {
                assert(m[i]@.len() != m[j]@.len());
            } else if j == 54 {
                assert(m[i]@.len() != m[j]@.len());
            } else if j == 55 {
                assert(m[i]@.len() != m[j]@.len());
            } else if j == 56 {
                assert(m[i]@.len() != m[j]@.len());
            } else if j == 57 {
                assert(m[i]@.len() != m[j]@.len());
            } else if j == 58 {
                assert(m[i]@.len() != m[j]@.len());
            } else if j == 59 {
                assert(m[i]@.len() != m[j]@.len());
            } else if j == 60 {
                assert(m[i]@.len() != m[j]@.len());
            } else if j == 61 {
                assert(m[i]@.len() != m[j]@.len());
            } else if j == 62 {
                assert(m[i]@.len() != m[j]@.len());
            } else if j == 63 {
                assert(m[i]@.len() != m[j]@.len());
            } else if j == 64 {
                assert(m[i]@.len() != m[j]@.len());
            } else if j == 65 {
                assert(m[i]@.len() != m[j]@.len());
            } else if j == 66 {
                assert(m[i]@.len() != m[j]@.len());
            } else if j == 67 {
                assert(m[i]@.len() != m[j]@.len());
            } else if j == 68 {
                assert(m[i]@.len() != m[j]@.len());
            } else if j == 69 {
                assert(m[i]@.len() != m[j]@.len());
            } else if j == 70 {
                assert(m[i]@.len() != m[j]@.len());
            }
        } else if i == 17 {
            if j == 18 {
                assert(m[i]@.len() != m[j]@.len());
            } else if j == 19 {
                assert(m[i]@.len() != m[j]@.len());
            } else if j == 20 {
                assert(m[i]@.len() != m[j]@.len());
            } else if j == 21 {
                assert(m[i]@.len() != m[j]@.len());
            } else if j == 22 {
                assert(m[i]@.len() != m[j]@.len());
            } else if j == 23 {
                assert(m[i]@.len() != m[j]@.len());
            } else if j == 24 {
                assert(m[i]@.len() != m[j]@.len());
            } else if j == 25 {
                assert(m[i]@.len() != m[j]@.len());
            } else if j == 26 {
                assert(m[i]@.len() != m[j]@.len());
            } else if j == 27 {
                assert(m[i]@.len() != m[j]@.len());
            } else if j == 28 {
                assert(m[i]@.len() != m[j]@.len());
            } else if j == 29 {
                assert(m[i]@[8] != m[j]@[8]);
            } else if j == 30 {
                assert(m[i]@.len() != m[j]@.len());
            } else if j == 31 {
                assert(m[i]@.len() != m[j]@.len());
            } else if j == 32 {
                assert(m[i]@[8] != m[j]@[8]);
            } else if j == 33 {
                assert(m[i]@.len() != m[j]@.len());
            } else if j == 34 {
                assert(m[i]@.len() != m[j]@.len());
            } else if j == 35 {
                assert(m[i]@.len() != m[j]@.len());
            } else if j == 36 {
                assert(m[i]@.len() != m[j]@.len());
            } else if j == 37 {
                assert(m[i]@.len() != m[j]@.len());
            } else if j == 38 {
                assert(m[i]@.len() != m[j]@.len());
            } else if j == 39 {
                assert(m[i]@.len() != m[j]@.len());
            } else if j == 40 {
                assert(m[i]@.len() != m[j]@.len());
            } else if j == 41 {
                assert(m[i]@.len() != m[j]@.len());
            } else if j == 42 {
                assert(m[i]@.len() != m[j]@.len());
            } else if j == 43 {
                assert(m[i]@.len() != m[j]@.len());
            } else if j == 44 {
                assert(m[i]@.len() != m[j]@.len());
            } else if j == 45 {
                assert(m[i]@.len() != m[j]@.len());
            } else if j == 46 {
                assert(m[i]@.len() != m[j]@.len());
            } else if j == 47 {
                assert(m[i]@.len() != m[j]@.len());
            } else if j == 48 {
                assert(m[i]@.len() != m[j]@.len());
            } else if j == 49 {
                assert(m[i]@.len() != m[j]@.len());
            } else if j == 50 {
                assert(m[i]@[8] != m[j]@[8]);
            } else if j == 51 {
                assert(m[i]@.len() != m[j]@.len());
            } else if j == 52 {
                assert(m[i]@.len() != m[j]@.len());
            } else if j == 53 {
                assert(m[i]@.len() != m[j]@.len());
            } else if j == 54 {
                assert(m[i]@.len() != m[j]@.len());
            } else if j == 55 {
                assert(m[i]@.len() != m[j]@.len());
            } else if j == 56 {
                assert(m[i]@.len() != m[j]@.len());
            } else if j == 57 {
                assert(m[i]@.len() != m[j]@.len());
            } else if j == 58 {
                assert(m[i]@.len() != m[j]@.len());
            } else if j == 59 {
                assert(m[i]@.len() != m[j]@.len());
            } else if j == 60 {
                assert(m[i]@.len() != m[j]@.len());
            } else if j == 61 {
                assert(m[i]@.len() != m[j]@.len());
            } else if j == 62 {
                assert(m[i]@.len() != m[j]@.len());
            } else if j == 63 {
                assert(m[i]@.len() != m[j]@.len());
            } else if j == 64 {
                assert(m[i]@.len() != m[j]@.len());
            } else if j == 65 {
                assert(m[i]@.len() != m[j]@.len());
            } else if j == 66 {
                assert(m[i]@.len() != m[j]@.len());
            } else if j == 67 {
                assert(m[i]@.len() != m[j]@.len());
            } else if j == 68 {
                assert(m[i]@[13] != m[j]@[13]);
            } else if j == 69 {
                assert(m[i]@.len() != m[j]@.len());
            } else if j == 70 {
                assert(m[i]@.len() != m[j]@.len());
            }
        } else if i == 18 {
            if j == 19 {
                assert(m[i]@.len() != m[j]@.len());
            } else if j == 20 {
                assert(m[i]@.len() != m[j]@.len());
            } else if j == 21 {
                assert(m[i]@.len() != m[j]@.len());
            } else if j == 22 {
                assert(m[i]@.len() != m[j]@.len());
            } else if j == 23 {
                assert(m[i]@.len() != m[j]@.len());
            } else if j == 24 {
                assert(m[i]@.len() != m[j]@.len());
            } else if j == 25 {
                assert(m[i]@.len() != m[j]@.len());
            } else if j == 26 {
                assert(m[i]@.len() != m[j]@.len());
            } else if j == 27 {
                assert(m[i]@.len() != m[j]@.len());
            } else if j == 28 {
                assert(m[i]@.len() != m[j]@.len());
            } else if j == 29 {
                assert(m[i]@.len() != m[j]@.len());
            } else if j == 30 {
                assert(m[i]@.len() != m[j]@.len());
            } else if j == 31 {
                assert(m[i]@.len() != m[j]@.len());
            } else if j == 32 {
                assert(m[i]@.len() != m[j]@.len());
            } else if j == 33 {
                assert(m[i]@.len() != m[j]@.len());
            } else if j == 34 {
                assert(m[i]@.len() != m[j]@.len());
            } else if j == 35 {
                assert(m[i]@.len() != m[j]@.len());
            } else if j == 36 {
                assert(m[i]@.len() != m[j]@.len());
            } else if j == 37 {
                assert(m[i]@.len() != m[j]@.len());
            } else if j == 38 {
                assert(m[i]@.len() != m[j]@.len());
            } else if j == 39 {
                assert(m[i]@.len() != m[j]@.len());
            } else if j == 40 {
                assert(m[i]@.len() != m[j]@.len());
            } else if j == 41 {
                assert(m[i]@.len() != m[j]@.len());
            } else if j == 42 {
                assert(m[i]@[8] != m[j]@[8]);
            } else if j == 43 {
                assert(m[i]@.len() != m[j]@.len());
            } else if j == 44 {
                assert(m[i]@.len() != m[j]@.len());
            } else if j == 45 {
                assert(m[i]@[8] != m[j]@[8]);
            } else if j == 46 {
                assert(m[i]@.len() != m[j]@.len());
            } else if j == 47 {
                assert(m[i]@[11] != m[j]@[11]);
            } else if j == 48 {
                assert(m[i]@[8] != m[j]@[8]);
            } else if j == 49 {
                assert(m[i]@.len() != m[j]@.len());
            } else if j == 50 {
                assert(m[i]@.len() != m[j]@.len());
            } else if j == 51 {
                assert(m[i]@.len() != m[j]@.len());
            } else if j == 52 {
                assert(m[i]@.len() != m[j]@.len());
            } else if j == 53 {
                assert(m[i]@.len() != m[j]@.len());
            } else if j == 54 {
                assert(m[i]@.len() != m[j]@.len());
            } else if j == 55 {
                assert(m[i]@[8] != m[j]@[8]);
            } else if j == 56 {
                assert(m[i]@.len() != m[j]@.len());
            } else if j == 57 {
                assert(m[i]@.len() != m[j]@.len());
            } else if j == 58 {
                assert(m[i]@.len() != m[j]@.len());
            } else if j == 59 {
                assert(m[i]@.len() != m[j]@.len());
            } else if j == 60 {
                assert(m[i]@.len() != m[j]@.len());
            } else if j == 61 {
                assert(m[i]@.len() != m[j]@.len());
            } else if j == 62 {
                assert(m[i]@.len() != m[j]@.len());
            } else if j == 63 {
                assert(m[i]@.len() != m[j]@.len());
            } else if j == 64 {
                assert(m[i]@.len() != m[j]@.len());
            } else if j == 65 {
                assert(m[i]@.len() != m[j]@.len());
            } else if j == 66 {
                assert(m[i]@.len() != m[j]@.len());
            } else if j == 67 {
                assert(m[i]@.len() != m[j]@.len());
            } else if j == 68 {
                assert(m[i]@.len() != m[j]@.len());
            } else if j == 69 {
                assert(m[i]@.len() != m[j]@.len());
            } else if j == 70 {
                assert(m[i]@.len() != m[j]@.len());
            }
        } else if i == 19 {
            if j == 20 {
                assert(m[i]@.len() != m[j]@.len());
            } else if j == 21 {
                assert(m[i]@.len() != m[j]@.len());
            } else if j == 22 {
                assert(m[i]@.len() != m[j]@.len());
            } else if j == 23 {
                assert(m[i]@.len() != m[j]@.len());
            } else if j == 24 {
                assert(m[i]@.len() != m[j]@.len());
            } else if j == 25 {
                assert(m[i]@[11] != m[j]@[11]);
            } else if j == 26 {
                assert(m[i]@.len() != m[j]@.len());
            } else if j == 27 {
                assert(m[i]@.len() != m[j]@.len());
            } else if j == 28 {
                assert(m[i]@.len() != m[j]@.len());
            } else if j == 29 {
                assert(m[i]@.len() != m[j]@.len());
            } else if j == 30 {
                assert(m[i]@.len() != m[j]@.len());
            } else if j == 31 {
                assert(m[i]@.len() != m[j]@.len());
            } else if j == 32 {
                assert(m[i]@.len() != m[j]@.len());
            } else if j == 33 {
                assert(m[i]@.len() != m[j]@.len());
            } else if j == 34 {
                assert(m[i]@.len() != m[j]@.len());
            } else if j == 35 {
                assert(m[i]@.len() != m[j]@.len());
            } else if j == 36 {
                assert(m[i]@.len() != m[j]@.len());
            } else if j == 37 {
                assert(m[i]@.len() != m[j]@.len());
            } else if j == 38 {
                assert(m[i]@.len() != m[j]@.len());
            } else if j == 39 {
                assert(m[i]@.len() != m[j]@.len());
            } else if j == 40 {
                assert(m[i]@[8] != m[j]@[8]);
            } else if j == 41 {
                assert(m[i]@.len() != m[j]@.len());
            } else if j == 42 {
                assert(m[i]@.len() != m[j]@.len());
            } else if j == 43 {
                assert(m[i]@[8] != m[j]@[8]);
            } else if j == 44 {
                assert(m[i]@.len() != m[j]@.len());
            } else if j == 45 {
                assert(m[i]@.len() != m[j]@.len());
            } else if j == 46 {
                assert(m[i]@.len() != m[j]@.len());
            } else if j == 47 {
                assert(m[i]@.len() != m[j]@.len());
            } else if j == 48 {
                assert(m[i]@.len() != m[j]@.len());
            } else if j == 49 {
                assert(m[i]@.len() != m[j]@.len());
            } else if j == 50 {
                assert(m[i]@.len() != m[j]@.len());
            } else if j == 51 {
                assert(m[i]@.len() != m[j]@.len());
            } else if j == 52 {
                assert(m[i]@.len() != m[j]@.len());
            } else if j == 53 {
                assert(m[i]@.len() != m[j]@.len());
            } else if j == 54 {
                assert(m[i]@.len() != m[j]@.len());
            } else if j == 55 {
                assert(m[i]@.len() != m[j]@.len());
            } else if j == 56 {
                assert(m[i]@.len() != m[j]@.len());
            } else if j == 57 {
                assert(m[i]@.len() != m[j]@.len());
            } else if j == 58 {
                assert(m[i]@.len() != m[j]@.len());
            } else if j == 59 {
                assert(m[i]@.len() != m[j]@.len());
            } else if j == 60 {
                assert(m[i]@.len() != m[j]@.len());
            } else if j == 61 {
                assert(m[i]@.len() != m[j]@.len());
            } else if j == 62 {
                assert(m[i]@.len() != m[j]@.len());
            } else if j == 63 {
                assert(m[i]@.len() != m[j]@.len());
            } else if j == 64 {
                assert(m[i]@.len() != m[j]@.len());
            } else if j == 65 {
                assert(m[i]@.len() != m[j]@.len());
            } else if j == 66 {
                assert(m[i]@.len() != m[j]@.len());
            } else if j == 67 {
                assert(m[i]@.len() != m[j]@.len());
            } else if j == 68 {
                assert(m[i]@.len() != m[j]@.len());
            } else if j == 69 {
                assert(m[i]@[8] != m[j]@[8]);
            } else if j == 70 {
                assert(m[i]@.len() != m[j]@.len());
            }
        } else if i == 20 {
            if j == 21 {
                assert(m[i]@.len() != m[j]@.len());
            } else if j == 22 {
                assert(m[i]@[13] != m[j]@[13]);
            } else if j == 23 {
                assert(m[i]@.len() != m[j]@.len());
            } else if j == 24 {
                assert(m[i]@.len() != m[j]@.len());
            } else if j == 25 {
                assert(m[i]@.len() != m[j]@.len());
            } else if j == 26 {
                assert(m[i]@.len() != m[j]@.len());
            } else if j == 27 {
                assert(m[i]@.len() != m[j]@.len());
            } else if j == 28 {
                assert(m[i]@.len() != m[j]@.len());
            } else if j == 29 {
                assert(m[i]@.len() != m[j]@.len());
            } else if j == 30 {
                assert(m[i]@.len() != m[j]@.len());
            } else if j == 31 {
                assert(m[i]@.len() != m[j]@.len());
            } else if j == 32 {
                assert(m[i]@.len() != m[j]@.len());
            } else if j == 33 {
                assert(m[i]@.len() != m[j]@.len());
            } else if j == 34 {
                assert(m[i]@.len() != m[j]@.len());
            } else if j == 35 {
                assert(m[i]@.len() != m[j]@.len());
            } else if j == 36 {
                assert(m[i]@.len() != m[j]@.len());
            } else if j == 37 {
                assert(m[i]@.len() != m[j]@.len());
            } else if j == 38 {
                assert(m[i]@.len() != m[j]@.len());
            } else if j == 39 {
                assert(m[i]@.len() != m[j]@.len());
            } else if j == 40 {
                assert(m[i]@.len() != m[j]@.len());
            } else if j == 41 {
                assert(m[i]@.len() != m[j]@.len());
            } else if j == 42 {
                assert(m[i]@.len() != m[j]@.len());
            } else if j == 43 {
                assert(m[i]@.len() != m[j]@.len());
            } else if j == 44 {
                assert(m[i]@.len() != m[j]@.len());
            } else if j == 45 {
                assert(m[i]@.len() != m[j]@.len());
            } else if j == 46 {
                assert(m[i]@.len() != m[j]@.len());
            } else if j == 47 {
                assert(m[i]@.len() != m[j]@.len());
            } else if j == 48 {
                assert(m[i]@.len() != m[j]@.len());
            } else if j == 49 {
                assert(m[i]@.len() != m[j]@.len());
            } else if j == 50 {
                assert(m[i]@.len() != m[j]@.len());
            } else if j == 51 {
                assert(m[i]@.len() != m[j]@.len());
            } else if j == 52 {
                assert(m[i]@.len() != m[j]@.len());
            } else if j == 53 {
                assert(m[i]@.len() != m[j]@.len());
            } else if j == 54 {
                assert(m[i]@.len() != m[j]@.len());
            } else if j == 55 {
                assert(m[i]@.len() != m[j]@.len());
            } else if j == 56 {
                assert(m[i]@.len() != m[j]@.len());
            } else if j == 57 {
                assert(m[i]@.len() != m[j]@.len());
            } else if j == 58 {
                assert(m[i]@.len() != m[j]@.len());
            } else if j == 59 {
                assert(m[i]@.len() != m[j]@.len());
            } else if j == 60 {
                assert(m[i]@.len() != m[j]@.len());
            } else if j == 61 {
                assert(m[i]@.len() != m[j]@.len());
            } else if j == 62 {
                assert(m[i]@.len() != m[j]@.len());
            } else if j == 63 {
                assert(m[i]@.len() != m[j]@.len());
            } else if j == 64 {
                assert(m[i]@.len() != m[j]@.len());
            } else if j == 65 {
                assert(m[i]@.len() != m[j]@.len());
            } else if j == 66 {
                assert(m[i]@.len() != m[j]@.len());
            } else if j == 67 {
                assert(m[i]@.len() != m[j]@.len());
            } else if j == 68 {
                assert(m[i]@.len() != m[j]@.len());
            } else if j == 69 {
                assert(m[i]@.len() != m[j]@.len());
            } else if j == 70 {
                assert(m[i]@.len() != m[j]@.len());
            }
        } else if i == 21 {
            if j == 22 {
                assert(m[i]@.len() != m[j]@.len());
            } else if j == 23 {
                assert(m[i]@[11] != m[j]@[11]);
            } else if j == 24 {
                assert(m[i]@.len() != m[j]@.len());
            } else if j == 25 {
                assert(m[i]@.len() != m[j]@.len());
            } else if j == 26 {
                assert(m[i]@.len() != m[j]@.len());
            } else if j == 27 {
                assert(m[i]@.len() != m[j]@.len());
            } else if j == 28 {
                assert(m[i]@.len() != m[j]@.len());
            } else if j == 29 {
                assert(m[i]@.len() != m[j]@.len());
            } else if j == 30 {
                assert(m[i]@.len() != m[j]@.len());
            } else if j == 31 {
                assert(m[i]@[12] != m[j]@[12]);
            } else if j == 32 {
                assert(m[i]@.len() != m[j]@.len());
            } else if j == 33 {
                assert(m[i]@[11] != m[j]@[11]);
            } else if j == 34 {
                assert(m[i]@.len() != m[j]@.len());
            } else if j == 35 {
                assert(m[i]@.len() != m[j]@.len());
            } else if j == 36 {
                assert(m[i]@.len() != m[j]@.len());
            } else if j == 37 {
                assert(m[i]@.len() != m[j]@.len());
            } else if j == 38 {
                assert(m[i]@.len() != m[j]@.len());
            } else if j == 39 {
                assert(m[i]@.len() != m[j]@.len());
            } else if j == 40 {
                assert(m[i]@.len() != m[j]@.len());
            } else if j == 41 {
                assert(m[i]@.len() != m[j]@.len());
            } else if j == 42 {
                assert(m[i]@.len() != m[j]@.len());
            } else if j == 43 {
                assert(m[i]@.len() != m[j]@.len());
            } else if j == 44 {
                assert(m[i]@.len() != m[j]@.len());
            } else if j == 45 {
                assert(m[i]@.len() != m[j]@.len());
            } else if j == 46 {
                assert(m[i]@.len() != m[j]@.len());
            } else if j == 47 {
                assert(m[i]@.len() != m[j]@.len());
            } else if j == 48 {
                assert(m[i]@.len() != m[j]@.len());
            } else if j == 49 {
                assert(m[i]@.len() != m[j]@.len());
            } else if j == 50 {
                assert(m[i]@.len() != m[j]@.len());
            } else if j == 51 {
                assert(m[i]@.len() != m[j]@.len());
            } else if j == 52 {
                assert(m[i]@.len() != m[j]@.len());
            } else if j == 53 {
                assert(m[i]@.len() != m[j]@.len());
            } else if j == 54 {
                assert(m[i]@.len() != m[j]@.len());
            } else if j == 55 {
                assert(m[i]@.len() != m[j]@.len());
            } else if j == 56 {
                assert(m[i]@.len() != m[j]@.len());
            } else if j == 57 {
                assert(m[i]@.len() != m[j]@.len());
            } else if j == 58 {
                assert(m[i]@.len() != m[j]@.len());
            } else if j == 59 {
                assert(m[i]@.len() != m[j]@.len());
            } else if j == 60 {
                assert(m[i]@.len() != m[j]@.len());
            } else if j == 61 {
                assert(m[i]@.len() != m[j]@.len());
            } else if j == 62 {
                assert(m[i]@[11] != m[j]@[11]);
            } else if j == 63 {
                assert(m[i]@.len() != m[j]@.len());
            } else if j == 64 {
                assert(m[i]@.len() != m[j]@.len());
            } else if j == 65 {
                assert(m[i]@.len() != m[j]@.len());
            } else if j == 66 {
                assert(m[i]@.len() != m[j]@.len());
            } else if j == 67 {
                assert(m[i]@.len() != m[j]@.len());
            } else if j == 68 {
                assert(m[i]@.len() != m[j]@.len());
            } else if j == 69 {
                assert(m[i]@.len() != m[j]@.len());
            } else if j == 70 {
                assert(m[i]@[8] != m[j]@[8]);
            }
        } else if i == 22 {
            if j == 23 {
                assert(m[i]@.len() != m[j]@.len());
            } else if j == 24 {
                assert(m[i]@.len() != m[j]@.len());
            } else if j == 25 {
                assert(m[i]@.len() != m[j]@.len());
            } else if j == 26 {
                assert(m[i]@.len() != m[j]@.len());
            } else if j == 27 {
                assert(m[i]@.len() != m[j]@.len());
            } else if j == 28 {
                assert(m[i]@.len() != m[j]@.len());
            } else if j == 29 {
                assert(m[i]@.len() != m[j]@.len());
            } else if j == 30 {
                assert(m[i]@.len() != m[j]@.len());
            } else if j == 31 {
                assert(m[i]@.len() != m[j]@.len());
            } else if j == 32 {
                assert(m[i]@.len() != m[j]@.len());
            } else if j == 33 {
                assert(m[i]@.len() != m[j]@.len());
            } else if j == 34 {
                assert(m[i]@.len() != m[j]@.len());
            } else if j == 35 {
                assert(m[i]@.len() != m[j]@.len());
            } else if j == 36 {
                assert(m[i]@.len() != m[j]@.len());
            } else if j == 37 {
                assert(m[i]@.len() != m[j]@.len());
            } else if j == 38 {
                assert(m[i]@.len() != m[j]@.len());
            } else if j == 39 {
                assert(m[i]@.len() != m[j]@.len());
            } else if j == 40 {
                assert(m[i]@.len() != m[j]@.len());
            } else if j == 41 {
                assert(m[i]@.len() != m[j]@.len());
            } else if j == 42 {
                assert(m[i]@.len() != m[j]@.len());
            } else if j == 43 {
                assert(m[i]@.len() != m[j]@.len());
            } else if j == 44 {
                assert(m[i]@.len() != m[j]@.len());
            } else if j == 45 {
                assert(m[i]@.len() != m[j]@.len());
            } else if j == 46 {
                assert(m[i]@.len() != m[j]@.len());
            } else if j == 47 {
                assert(m[i]@.len() != m[j]@.len());
            } else if j == 48 {
                assert(m[i]@.len() != m[j]@.len());
            } else if j == 49 {
                assert(m[i]@.len() != m[j]@.len());
            } else if j == 50 {
                assert(m[i]@.len() != m[j]@.len());
            } else if j == 51 {
                assert(m[i]@.len() != m[j]@.len());
            } else if j == 52 {
                assert(m[i]@.len() != m[j]@.len());
            } else if j == 53 {
                assert(m[i]@.len() != m[j]@.len());
            } else if j == 54 {
                assert(m[i]@.len() != m[j]@.len());
            } else if j == 55 {
                assert(m[i]@.len() != m[j]@.len());
            } else if j == 56 {
                assert(m[i]@.len() != m[j]@.len());
            } else if j == 57 {
                assert(m[i]@.len() != m[j]@.len());
            } else if j == 58 {
                assert(m[i]@.len() != m[j]@.len());
            } else if j == 59 {
                assert(m[i]@.len() != m[j]@.len());
            } else if j == 60 {
                assert(m[i]@.len() != m[j]@.len());
            } else if j == 61 {
                assert(m[i]@.len() != m[j]@.len());
            } else if j == 62 {
                assert(m[i]@.len() != m[j]@.len());
            } else if j == 63 {
                assert(m[i]@.len() != m[j]@.len());
            } else if j == 64 {
                assert(m[i]@.len() != m[j]@.len());
            } else if j == 65 {
                assert(m[i]@.len() != m[j]@.len());
            } else if j == 66 {
                assert(m[i]@.len() != m[j]@.len());
            } else if j == 67 {
                assert(m[i]@.len() != m[j]@.len());
            } else if j == 68 {
                assert(m[i]@.len() != m[j]@.len());
            } else if j == 69 {
                assert(m[i]@.len() != m[j]@.len());
            } else if j == 70 {
                assert(m[i]@.len() != m[j]@.len());
            }
        } else if i == 23 {
            if j == 24 {
                assert(m[i]@.len() != m[j]@.len());
            } else if j == 25 {
                assert(m[i]@.len() != m[j]@.len());
            } else if j == 26 {
                assert(m[i]@.len() != m[j]@.len());
            } else if j == 27 {
                assert(m[i]@.len() != m[j]@.len());
            } else if j == 28 {
                assert(m[i]@.len() != m[j]@.len());
            } else if j == 29 {
                assert(m[i]@.len() != m[j]@.len());
            } else if j == 30 {
                assert(m[i]@.len() != m[j]@.len());
            } else if j == 31 {
                assert(m[i]@[11] != m[j]@[11]);
            } else if j == 32 {
                assert(m[i]@.len() != m[j]@.len());
            } else if j == 33 {
                assert(m[i]@[11] != m[j]@[11]);
            } else if j == 34 {
                assert(m[i]@.len() != m[j]@.len());
            } else if j == 35 {
                assert(m[i]@.len() != m[j]@.len());
            } else if j == 36 {
                assert(m[i]@.len() != m[j]@.len());
            } else if j == 37 {
                assert(m[i]@.len() != m[j]@.len());
            } else if j == 38 {
                assert(m[i]@.len() != m[j]@.len());
            } else if j == 39 {
                assert(m[i]@.len() != m[j]@.len());
            } else if j == 40 {
                assert(m[i]@.len() != m[j]@.len());
            } else if j == 41 {
                assert(m[i]@.len() != m[j]@.len());
            } else if j == 42 {
                assert(m[i]@.len() != m[j]@.len());
            } else if j == 43 {
                assert(m[i]@.len() != m[j]@.len());
            } else if j == 44 {
                assert(m[i]@.len() != m[j]@.len());
            } else if j == 45 {
                assert(m[i]@.len() != m[j]@.len());
            } else if j == 46 {
                assert(m[i]@.len() != m[j]@.len());
            } else if j == 47 {
                assert(m[i]@.len() != m[j]@.len());
            } else if j == 48 {
                assert(m[i]@.len() != m[j]@.len());
            } else if j == 49 {
                assert(m[i]@.len() != m[j]@.len());
            } else if j == 50 {
                assert(m[i]@.len() != m[j]@.len());
            } else if j == 51 {
                assert(m[i]@.len() != m[j]@.len());
            } else if j == 52 {
                assert(m[i]@.len() != m[j]@.len());
            } else if j == 53 {
                assert(m[i]@.len() != m[j]@.len());
            } else if j == 54 {
                assert(m[i]@.len() != m[j]@.len());
            } else if j == 55 {
                assert(m[i]@.len() != m[j]@.len());
            } else if j == 56 {
                assert(m[i]@.len() != m[j]@.len());
            } else if j == 57 {
                assert(m[i]@.len() != m[j]@.len());
            } else if j == 58 {
                assert(m[i]@.len() != m[j]@.len());
            } else if j == 59 {
                assert(m[i]@.len() != m[j]@.len());
            } else if j == 60 {
                assert(m[i]@.len() != m[j]@.len());
            } else if j == 61 {
                assert(m[i]@.len() != m[j]@.len());
            } else if j == 62 {
                assert(m[i]@[11] != m[j]@[11]);
            } else if j == 63 {
                assert(m[i]@.len() != m[j]@.len());
            } else if j == 64 {
                assert(m[i]@.len() != m[j]@.len());
            } else if j == 65 {
                assert(m[i]@.len() != m[j]@.len());
            } else if j == 66 {
                assert(m[i]@.len() != m[j]@.len());
            } else if j == 67 {
                assert(m[i]@.len() != m[j]@.len());
            } else if j == 68 {
                assert(m[i]@.len() != m[j]@.len());
            } else if j == 69 {
                assert(m[i]@.len() != m[j]@.len());
            } else if j == 70 {
                assert(m[i]@[8] != m[j]@[8]);
            }
        } else if i == 24 {
            if j == 25 {
                assert(m[i]@.len() != m[j]@.len());
            } else if j == 26 {
                assert(m[i]@.len() != m[j]@.len());
            } else if j == 27 {
                assert(m[i]@.len() != m[j]@.len());
            } else if j == 28 {
                assert(m[i]@.len() != m[j]@.len());
            } else if j == 29 {
                assert(m[i]@.len() != m[j]@.len());
            } else if j == 30 {
                assert(m[i]@.len() != m[j]@.len());
            } else if j == 31 {
                assert(m[i]@.len() != m[j]@.len());
            } else if j == 32 {
                assert(m[i]@.len() != m[j]@.len());
            } else if j == 33 {
                assert(m[i]@.len() != m[j]@.len());
            } else if j == 34 {
                assert(m[i]@.len() != m[j]@.len());
            } else if j == 35 {
                assert(m[i]@.len() != m[j]@.len());
            } else if j == 36 {
                assert(m[i]@.len() != m[j]@.len());
            } else if j == 37 {
                assert(m[i]@.len() != m[j]@.len());
            } else if j == 38 {
                assert(m[i]@.len() != m[j]@.len());
            } else if j == 39 {
                assert(m[i]@.len() != m[j]@.len());
            } else if j == 40 {
                assert(m[i]@.len() != m[j]@.len());
            } else if j == 41 {
                assert(m[i]@.len() != m[j]@.len());
            } else if j == 42 {
                assert(m[i]@.len() != m[j]@.len());
            } else if j == 43 {
                assert(m[i]@.len() != m[j]@.len());
            } else if j == 44 {
                assert(m[i]@.len() != m[j]@.len());
            } else if j == 45 {
                assert(m[i]@.len() != m[j]@.len());
            } else if j == 46 {
                assert(m[i]@.len() != m[j]@.len());
            } else if j == 47 {
                assert(m[i]@.len() != m[j]@.len());
            } else if j == 48 {
                assert(m[i]@.len() != m[j]@.len());
            } else if j == 49 {
                assert(m[i]@.len() != m[j]@.len());
            } else if j == 50 {
                assert(m[i]@.len() != m[j]@.len());
            } else if j == 51 {
                assert(m[i]@.len() != m[j]@.len());
            } else if j == 52 {
                assert(m[i]@.len() != m[j]@.len());
            } else if j == 53 {
                assert(m[i]@.len() != m[j]@.len());
            } else if j == 54 {
                assert(m[i]@.len() != m[j]@.len());
            } else if j == 55 {
                assert(m[i]@.len() != m[j]@.len());
            } else if j == 56 {
                assert(m[i]@.len() != m[j]@.len());
            } else if j == 57 {
                assert(m[i]@.len() != m[j]@.len());
            } else if j == 58 {
                assert(m[i]@.len() != m[j]@.len());
            } else if j == 59 {
                assert(m[i]@.len() != m[j]@.len());
            } else if j == 60 {
                assert(m[i]@.len() != m[j]@.len());
            } else if j == 61 {
                assert(m[i]@[8] != m[j]@[8]);
            } else if j == 62 {
                assert(m[i]@.len() != m[j]@.len());
            } else if j == 63 {
                assert(m[i]@.len() != m[j]@.len());
            } else if j == 64 {
                assert(m[i]@.len() != m[j]@.len());
            } else if j == 65 {
                assert(m[i]@.len() != m[j]@.len());
            } else if j == 66 {
                assert(m[i]@.len() != m[j]@.len());
            } else if j == 67 {
                assert(m[i]@.len() != m[j]@.len());
            } else if j == 68 {
                assert(m[i]@.len() != m[j]@.len());
            } else if j == 69 {
                assert(m[i]@.len() != m[j]@.len());
            } else if j == 70 {
                assert(m[i]@.len() != m[j]@.len());
            }
        } else if i == 25 {
            if j == 26 {
                assert(m[i]@.len() != m[j]@.len());
            } else if j == 27 {
                assert(m[i]@.len() != m[j]@.len());
            } else if j == 28 {
                assert(m[i]@.len() != m[j]@.len());
            } else if j == 29 {
                assert(m[i]@.len() != m[j]@.len());
            } else if j == 30 {
                assert(m[i]@.len() != m[j]@.len());
            } else if j == 31 {
                assert(m[i]@.len() != m[j]@.len());
            } else if j == 32 {
                assert(m[i]@.len() != m[j]@.len());
            } else if j == 33 {
                assert(m[i]@.len() != m[j]@.len());
            } else if j == 34 {
                assert(m[i]@.len() != m[j]@.len());
            } else if j == 35 {
                assert(m[i]@.len() != m[j]@.len());
            } else if j == 36 {
                assert(m[i]@.len() != m[j]@.len());
            } else if j == 37 {
                assert(m[i]@.len() != m[j]@.len());
            } else if j == 38 {
                assert(m[i]@.len() != m[j]@.len());
            } else if j == 39 {
                assert(m[i]@.len() != m[j]@.len());
            } else if j == 40 {
                assert(m[i]@[8] != m[j]@[8]);
            } else if j == 41 {
                assert(m[i]@.len() != m[j]@.len());
            } else if j == 42 {
                assert(m[i]@.len() != m[j]@.len());
            } else if j == 43 {
                assert(m[i]@[8] != m[j]@[8]);
            } else if j == 44 {
                assert(m[i]@.len() != m[j]@.len());
            } else if j == 45 {
                assert(m[i]@.len() != m[j]@.len());
            } else if j == 46 {
                assert(m[i]@.len() != m[j]@.len());
            } else if j == 47 {
                assert(m[i]@.len() != m[j]@.len());
            } else if j == 48 {
                assert(m[i]@.len() != m[j]@.len());
            } else if j == 49 {
                assert(m[i]@.len() != m[j]@.len());
            } else if j == 50 {
                assert(m[i]@.len() != m[j]@.len());
            } else if j == 51 {
                assert(m[i]@.len() != m[j]@.len());
            } else if j == 52 {
                assert(m[i]@.len() != m[j]@.len());
            } else if j == 53 {
                assert(m[i]@.len() != m[j]@.len());
            } else if j == 54 {
                assert(m[i]@.len() != m[j]@.len());
            } else if j == 55 {
                assert(m[i]@.len() != m[j]@.len());
            } else if j == 56 {
                assert(m[i]@.len() != m[j]@.len());
            } else if j == 57 {
                assert(m[i]@.len() != m[j]@.len());
            } else if j == 58 {
                assert(m[i]@.len() != m[j]@.len());
            } else if j == 59 {
                assert(m[i]@.len() != m[j]@.len());
            } else if j == 60 {
                assert(m[i]@.len() != m[j]@.len());
            } else if j == 61 {
                assert(m[i]@.len() != m[j]@.len());
            } else if j == 62 {
                assert(m[i]@.len() != m[j]@.len());
            } else if j == 63 {
                assert(m[i]@.len() != m[j]@.len());
            } else if j == 64 {
                assert(m[i]@.len() != m[j]@.len());
            } else if j == 65 {
                assert(m[i]@.len() != m[j]@.len());
            } else if j == 66 {
                assert(m[i]@.len() != m[j]@.len());
            } else if j == 67 {
                assert(m[i]@.len() != m[j]@.len());
            } else if j == 68 {
                assert(m[i]@.len() != m[j]@.len());
            } else if j == 69 {
                assert(m[i]@[8] != m[j]@[8]);
            } else if j == 70 {
                assert(m[i]@.len() != m[j]@.len());
            }
        } else if i == 26 {
            if j == 27 {
                assert(m[i]@.len() != m[j]@.len());
            } else if j == 28 {
                assert(m[i]@[11] != m[j]@[11]);
            } else if j == 29 {
                assert(m[i]@.len() != m[j]@.len());
            } else if j == 30 {
                assert(m[i]@.len() != m[j]@.len());
            } else if j == 31 {
                assert(m[i]@.len() != m[j]@.len());
            } else if j == 32 {
                assert(m[i]@.len() != m[j]@.len());
            } else if j == 33 {
                assert(m[i]@.len() != m[j]@.len());
            } else if j == 34 {
                assert(m[i]@.len() != m[j]@.len());
            } else if j == 35 {
                assert(m[i]@.len() != m[j]@.len());
            } else if j == 36 {
                assert(m[i]@.len() != m[j]@.len());
            } else if j == 37 {
                assert(m[i]@.len() != m[j]@.len());
            } else if j == 38 {
                assert(m[i]@.len() != m[j]@.len());
            } else if j == 39 {
                assert(m[i]@.len() != m[j]@.len());
            } else if j == 40 {
                assert(m[i]@.len() != m[j]@.len());
            } else if j == 41 {
                assert(m[i]@.len() != m[j]@.len());
            } else if j == 42 {
                assert(m[i]@.len() != m[j]@.len());
            } else if j == 43 {
                assert(m[i]@.len() != m[j]@.len());
            } else if j == 44 {
                assert(m[i]@.len() != m[j]@.len());
            } else if j == 45 {
                assert(m[i]@.len() != m[j]@.len());
            } else if j == 46 {
                assert(m[i]@.len() != m[j]@.len());
            } else if j == 47 {
                assert(m[i]@.len() != m[j]@.len());
            } else if j == 48 {
                assert(m[i]@.len() != m[j]@.len());
            } else if j == 49 {
                assert(m[i]@.len() != m[j]@.len());
            } else if j == 50 {
                assert(m[i]@.len() != m[j]@.len());
            } else if j == 51 {
                assert(m[i]@.len() != m[j]@.len());
            } else if j == 52 {
                assert(m[i]@.len() != m[j]@.len());
            } else if j == 53 {
                assert(m[i]@.len() != m[j]@.len());
            } else if j == 54 {
                assert(m[i]@.len() != m[j]@.len());
            } else if j == 55 {
                assert(m[i]@.len() != m[j]@.len());
            } else if j == 56 {
                assert(m[i]@.len() != m[j]@.len());
            } else if j == 57 {
                assert(m[i]@.len() != m[j]@.len());
            } else if j == 58 {
                assert(m[i]@.len() != m[j]@.len());
            } else if j == 59 {
                assert(m[i]@.len() != m[j]@.len());
            } else if j == 60 {
                assert(m[i]@.len() != m[j]@.len());
            } else if j == 61 {
                assert(m[i]@.len() != m[j]@.len());
            } else if j == 62 {
                assert(m[i]@.len() != m[j]@.len());
            } else if j == 63 {
                assert(m[i]@[11] != m[j]@[11]);
            } else if j == 64 {
                assert(m[i]@.len() != m[j]@.len());
            } else if j == 65 {
                assert(m[i]@.len() != m[j]@.len());
            } else if j == 66 {
                assert(m[i]@.len() != m[j]@.len());
            } else if j == 67 {
                assert(m[i]@.len() != m[j]@.len());
            } else if j == 68 {
                assert(m[i]@.len() != m[j]@.len());
            } else if j == 69 {
                assert(m[i]@.len() != m[j]@.len());
            } else if j == 70 {
                assert(m[i]@.len() != m[j]@.len());
            }
        } else if i == 27 {
            if j == 28 {
                assert(m[i]@.len() != m[j]@.len());
            } else if j == 29 {
                assert(m[i]@.len() != m[j]@.len());
            } else if j == 30 {
                assert(m[i]@.len() != m[j]@.len());
            } else if j == 31 {
                assert(m[i]@.len() != m[j]@.len());
            } else if j == 32 {
                assert(m[i]@.len() != m[j]@.len());
            } else if j == 33 {
                assert(m[i]@.len() != m[j]@.len());
            } else if j == 34 {
                assert(m[i]@.len() != m[j]@.len());
            } else if j == 35 {
                assert(m[i]@.len() != m[j]@.len());
            } else if j == 36 {
                assert(m[i]@[8] != m[j]@[8]);
            } else if j == 37 {
                assert(m[i]@.len() != m[j]@.len());
            } else if j == 38 {
                assert(m[i]@.len() != m[j]@.len());
            } else if j == 39 {
                assert(m[i]@.len() != m[j]@.len());
            } else if j == 40 {
                assert(m[i]@.len() != m[j]@.len());
            } else if j == 41 {
                assert(m[i]@.len() != m[j]@.len());
            } else if j == 42 {
                assert(m[i]@.len() != m[j]@.len());
            } else if j == 43 {
                assert(m[i]@.len() != m[j]@.len());
            } else if j == 44 {
                assert(m[i]@[8] != m[j]@[8]);
            } else if j == 45 {
                assert(m[i]@.len() != m[j]@.len());
            } else if j == 46 {
                assert(m[i]@.len() != m[j]@.len());
            } else if j == 47 {
                assert(m[i]@.len() != m[j]@.len());
            } else if j == 48 {
                assert(m[i]@.len() != m[j]@.len());
            } else if j == 49 {
                assert(m[i]@.len() != m[j]@.len());
            } else if j == 50 {
                assert(m[i]@.len() != m[j]@.len());
            } else if j == 51 {
                assert(m[i]@.len() != m[j]@.len());
            } else if j == 52 {
                assert(m[i]@.len() != m[j]@.len());
            } else if j == 53 {
                assert(m[i]@.len() != m[j]@.len());
            } else if j == 54 {
                assert(m[i]@[8] != m[j]@[8]);
            } else if j == 55 {
                assert(m[i]@.len() != m[j]@.len());
            } else if j == 56 {
                assert(m[i]@.len() != m[j]@.len());
            } else if j == 57 {
                assert(m[i]@.len() != m[j]@.len());
            } else if j == 58 {
                assert(m[i]@.len() != m[j]@.len());
            } else if j == 59 {
                assert(m[i]@.len() != m[j]@.len());
            } else if j == 60 {
                assert(m[i]@.len() != m[j]@.len());
            } else if j == 61 {
                assert(m[i]@.len() != m[j]@.len());
            } else if j == 62 {
                assert(m[i]@.len() != m[j]@.len());
            } else if j == 63 {
                assert(m[i]@.len() != m[j]@.len());
            } else if j == 64 {
                assert(m[i]@.len() != m[j]@.len());
            } else if j == 65 {
                assert(m[i]@.len() != m[j]@.len());
            } else if j == 66 {
                assert(m[i]@.len() != m[j]@.len());
            } else if j == 67 {
                assert(m[i]@.len() != m[j]@.len());
            } else if j == 68 {
                assert(m[i]@.len() != m[j]@.len());
            } else if j == 69 {
                assert(m[i]@.len() != m[j]@.len());
            } else if j == 70 {
                assert(m[i]@.len() != m[j]@.len());
            }
        } else if i == 28 {
            if j == 29 {
                assert(m[i]@.len() != m[j]@.len());
            } else if j == 30 {
                assert(m[i]@.len() != m[j]@.len());
            } else if j == 31 {
                assert(m[i]@.len() != m[j]@.len());
            } else if j == 32 {
                assert(m[i]@.len() != m[j]@.len());
            } else if j == 33 {
                assert(m[i]@.len() != m[j]@.len());
            } else if j == 34 {
                assert(m[i]@.len() != m[j]@.len());
            } else if j == 35 {
                assert(m[i]@.len() != m[j]@.len());
            } else if j == 36 {
                assert(m[i]@.len() != m[j]@.len());
            } else if j == 37 {
                assert(m[i]@.len() != m[j]@.len());
            } else if j == 38 {
                assert(m[i]@.len() != m[j]@.len());
            } else if j == 39 {
                assert(m[i]@.len() != m[j]@.len());
            } else if j == 40 {
                assert(m[i]@.len() != m[j]@.len());
            } else if j == 41 {
                assert(m[i]@.len() != m[j]@.len());
            } else if j == 42 {
                assert(m[i]@.len() != m[j]@.len());
            } else if j == 43 {
                assert(m[i]@.len() != m[j]@.len());
            } else if j == 44 {
                assert(m[i]@.len() != m[j]@.len());
            } else if j == 45 {
                assert(m[i]@.len() != m[j]@.len());
            } else if j == 46 {
                assert(m[i]@.len() != m[j]@.len());
            } else if j == 47 {
                assert(m[i]@.len() != m[j]@.len());
            } else if j == 48 {
                assert(m[i]@.len() != m[j]@.len());
            } else if j == 49 {
                assert(m[i]@.len() != m[j]@.len());
            } else if j == 50 {
                assert(m[i]@.len() != m[j]@.len());
            } else if j == 51 {
                assert(m[i]@.len() != m[j]@.len());
            } else if j == 52 {
                assert(m[i]@.len() != m[j]@.len());
            } else if j == 53 {
                assert(m[i]@.len() != m[j]@.len());
            } else if j == 54 {
                assert(m[i]@.len() != m[j]@.len());
            } else if j == 55 {
                assert(m[i]@.len() != m[j]@.len());
            } else if j == 56 {
                assert(m[i]@.len() != m[j]@.len());
            } else if j == 57 {
                assert(m[i]@.len() != m[j]@.len());
            } else if j == 58 {
                assert(m[i]@.len() != m[j]@.len());
            } else if j == 59 {
                assert(m[i]@.len() != m[j]@.len());
            } else if j == 60 {
                assert(m[i]@.len() != m[j]@.len());
            } else if j == 61 {
                assert(m[i]@.len() != m[j]@.len());
            } else if j == 62 {
                assert(m[i]@.len() != m[j]@.len());
            } else if j == 63 {
                assert(m[i]@[12] != m[j]@[12]);
            } else if j == 64 {
                assert(m[i]@.len() != m[j]@.len());
            } else if j == 65 {
                assert(m[i]@.len() != m[j]@.len());
            } else if j == 66 {
                assert(m[i]@.len() != m[j]@.len());
            } else if j == 67 {
                assert(m[i]@.len() != m[j]@.len());
            } else if j == 68 {
                assert(m[i]@.len() != m[j]@.len());
            } else if j == 69 {
                assert(m[i]@.len() != m[j]@.len());
            } else if j == 70 {
                assert(m[i]@.len() != m[j]@.len());
            }
        } else if i == 29 {
            if j == 30 {
                assert(m[i]@.len() != m[j]@.len());
            } else if j == 31 {
                assert(m[i]@.len() != m[j]@.len());
            } else if j == 32 {
                assert(m[i]@[8] != m[j]@[8]);
            } else if j == 33 {
                assert(m[i]@.len() != m[j]@.len());
            } else if j == 34 {
                assert(m[i]@.len() != m[j]@.len());
            } else if j == 35 {
                assert(m[i]@.len() != m[j]@.len());
            } else if j == 36 {
                assert(m[i]@.len() != m[j]@.len());
            } else if j == 37 {
                assert(m[i]@.len() != m[j]@.len());
            } else if j == 38 {
                assert(m[i]@.len() != m[j]@.len());
            } else if j == 39 {
                assert(m[i]@.len() != m[j]@.len());
            } else if j == 40 {
                assert(m[i]@.len() != m[j]@.len());
            } else if j == 41 {
                assert(m[i]@.len() != m[j]@.len());
            } else if j == 42 {
                assert(m[i]@.len() != m[j]@.len());
            } else if j == 43 {
                assert(m[i]@.len() != m[j]@.len());
            } else if j == 44 {
                assert(m[i]@.len() != m[j]@.len());
            } else if j == 45 {
                assert(m[i]@.len() != m[j]@.len());
            } else if j == 46 {
                assert(m[i]@.len() != m[j]@.len());
            } else if j == 47 {
                assert(m[i]@.len() != m[j]@.len());
            } else if j == 48 {
                assert(m[i]@.len() != m[j]@.len());
            } else if j == 49 {
                assert(m[i]@.len() != m[j]@.len());
            } else if j == 50 {
                assert(m[i]@[8] != m[j]@[8]);
            } else if j == 51 {
                assert(m[i]@.len() != m[j]@.len());
            } else if j == 52 {
                assert(m[i]@.len() != m[j]@.len());
            } else if j == 53 {
                assert(m[i]@.len() != m[j]@.len());
            } else if j == 54 {
                assert(m[i]@.len() != m[j]@.len());
            } else if j == 55 {
                assert(m[i]@.len() != m[j]@.len());
            } else if j == 56 {
                assert(m[i]@.len() != m[j]@.len());
            } else if j == 57 {
                assert(m[i]@.len() != m[j]@.len());
            } else if j == 58 {
                assert(m[i]@.len() != m[j]@.len());
            } else if j == 59 {
                assert(m[i]@.len() != m[j]@.len());
            } else if j == 60 {
                assert(m[i]@.len() != m[j]@.len());
            } else if j == 61 {
                assert(m[i]@.len() != m[j]@.len());
            } else if j == 62 {
                assert(m[i]@.len() != m[j]@.len());
            } else if j == 63 {
                assert(m[i]@.len() != m[j]@.len());
            } else if j == 64 {
                assert(m[i]@.len() != m[j]@.len());
            } else if j == 65 {
                assert(m[i]@.len() != m[j]@.len());
            } else if j == 66 {
                assert(m[i]@.len() != m[j]@.len());
            } else if j == 67 {
                assert(m[i]@.len() != m[j]@.len());
            } else if j == 68 {
                assert(m[i]@[8] != m[j]@[8]);
            } else if j == 69 {
                assert(m[i]@.len() != m[j]@.len());
            } else if j == 70 {
                assert(m[i]@.len() != m[j]@.len());
            }
        } else if i == 30 {
            if j == 31 {
                assert(m[i]@.len() != m[j]@.len());
            } else if j == 32 {
                assert(m[i]@.len() != m[j]@.len());
            } else if j == 33 {
                assert(m[i]@.len() != m[j]@.len());
            } else if j == 34 {
                assert(m[i]@.len() != m[j]@.len());
            } else if j == 35 {
                assert(m[i]@.len() != m[j]@.len());
            } else if j == 36 {
                assert(m[i]@.len() != m[j]@.len());
            } else if j == 37 {
                assert(m[i]@.len() != m[j]@.len());
            } else if j == 38 {
                assert(m[i]@.len() != m[j]@.len());
            } else if j == 39 {
                assert(m[i]@.len() != m[j]@.len());
            } else if j == 40 {
                assert(m[i]@.len() != m[j]@.len());
            } else if j == 41 {
                assert(m[i]@.len() != m[j]@.len());
            } else if j == 42 {
                assert(m[i]@.len() != m[j]@.len());
            } else if j == 43 {
                assert(m[i]@.len() != m[j]@.len());
            } else if j == 44 {
                assert(m[i]@.len() != m[j]@.len());
            } else if j == 45 {
                assert(m[i]@.len() != m[j]@.len());
            } else if j == 46 {
                assert(m[i]@.len() != m[j]@.len());
            } else if j == 47 {
                assert(m[i]@.len() != m[j]@.len());
            } else if j == 48 {
                assert(m[i]@.len() != m[j]@.len());
            } else if j == 49 {
                assert(m[i]@.len() != m[j]@.len());
            } else if j == 50 {
                assert(m[i]@.len() != m[j]@.len());
            } else if j == 51 {
                assert(m[i]@.len() != m[j]@.len());
            } else if j == 52 {
                assert(m[i]@.len() != m[j]@.len());
            } else if j == 53 {
                assert(m[i]@.len() != m[j]@.len());
            } else if j == 54 {
                assert(m[i]@.len() != m[j]@.len());
            } else if j == 55 {
                assert(m[i]@.len() != m[j]@.len());
            } else if j == 56 {
                assert(m[i]@.len() != m[j]@.len());
            } else if j == 57 {
                assert(m[i]@.len() != m[j]@.len());
            } else if j == 58 {
                assert(m[i]@.len() != m[j]@.len());
            } else if j == 59 {
                assert(m[i]@.len() != m[j]@.len());
            } else if j == 60 {
                assert(m[i]@.len() != m[j]@.len());
            } else if j == 61 {
                assert(m[i]@.len() != m[j]@.len());
            } else if j == 62 {
                assert(m[i]@.len() != m[j]@.len());
            } else if j == 63 {
                assert(m[i]@.len() != m[j]@.len());
            } else if j == 64 {
                assert(m[i]@.len() != m[j]@.len());
            } else if j == 65 {
                assert(m[i]@.len() != m[j]@.len());
            } else if j == 66 {
                assert(m[i]@.len() != m[j]@.len());
            } else if j == 67 {
                assert(m[i]@.len() != m[j]@.len());
            } else if j == 68 {
                assert(m[i]@.len() != m[j]@.len());
            } else if j == 69 {
                assert(m[i]@.len() != m[j]@.len());
            } else if j == 70 {
                assert(m[i]@.len() != m[j]@.len());
            }
        } else if i == 31 {
            if j == 32 {
                assert(m[i]@.len() != m[j]@.len());
            } else if j == 33 {
                assert(m[i]@[11] != m[j]@[11]);
            } else if j == 34 {
                assert(m[i]@.len() != m[j]@.len());
            } else if j == 35 {
                assert(m[i]@.len() != m[j]@.len());
            } else if j == 36 {
                assert(m[i]@.len() != m[j]@.len());
            } else if j == 37 {
                assert(m[i]@.len() != m[j]@.len());
            } else if j == 38 {
                assert(m[i]@.len() != m[j]@.len());
            } else if j == 39 {
                assert(m[i]@.len() != m[j]@.len());
            } else if j == 40 {
                assert(m[i]@.len() != m[j]@.len());
            } else if j == 41 {
                assert(m[i]@.len() != m[j]@.len());
            } else if j == 42 {
                assert(m[i]@.len() != m[j]@.len());
            } else if j == 43 {
                assert(m[i]@.len() != m[j]@.len());
            } else if j == 44 {
                assert(m[i]@.len() != m[j]@.len());
            } else if j == 45 {
                assert(m[i]@.len() != m[j]@.len());
            } else if j == 46 {
                assert(m[i]@.len() != m[j]@.len());
            } else if j == 47 {
                assert(m[i]@.len() != m[j]@.len());
            } else if j == 48 {
                assert(m[i]@.len() != m[j]@.len());
            } else if j == 49 {
                assert(m[i]@.len() != m[j]@.len());
            } else if j == 50 {
                assert(m[i]@.len() != m[j]@.len());
            } else if j == 51 {
                assert(m[i]@.len() != m[j]@.len());
            } else if j == 52 {
                assert(m[i]@.len() != m[j]@.len());
            } else if j == 53 {
                assert(m[i]@.len() != m[j]@.len());
            } else if j == 54 {
                assert(m[i]@.len() != m[j]@.len());
            } else if j == 55 {
                assert(m[i]@.len() != m[j]@.len());
            } else if j == 56 {
                assert(m[i]@.len() != m[j]@.len());
            } else if j == 57 {
                assert(m[i]@.len() != m[j]@.len());
            } else if j == 58 {
                assert(m[i]@.len() != m[j]@.len());
            } else if j == 59 {
                assert(m[i]@.len() != m[j]@.len());
            } else if j == 60 {
                assert(m[i]@.len() != m[j]@.len());
            } else if j == 61 {
                assert(m[i]@.len() != m[j]@.len());
            } else if j == 62 {
                assert(m[i]@[11] != m[j]@[11]);
            } else if j == 63 {
                assert(m[i]@.len() != m[j]@.len());
            } else if j == 64 {
                assert(m[i]@.len() != m[j]@.len());
            } else if j == 65 {
                assert(m[i]@.len() != m[j]@.len());
            } else if j == 66 {
                assert(m[i]@.len() != m[j]@.len());
            } else if j == 67 {
                assert(m[i]@.len() != m[j]@.len());
            } else if j == 68 {
                assert(m[i]@.len() != m[j]@.len());
            } else if j == 69 {
                assert(m[i]@.len() != m[j]@.len());
            } else if j == 70 {
                assert(m[i]@[8] != m[j]@[8]);
            }
        } else if i == 32 {
            if j == 33 {
                assert(m[i]@.len() != m[j]@.len());
            } else if j == 34 {
                assert(m[i]@.len() != m[j]@.len());
            } else if j == 35 {
                assert(m[i]@.len() != m[j]@.len());
            } else if j == 36 {
                assert(m[i]@.len() != m[j]@.len());
            } else if j == 37 {
                assert(m[i]@.len() != m[j]@.len());
            } else if j == 38 {
                assert(m[i]@.len() != m[j]@.len());
            } else if j == 39 {
                assert(m[i]@.len() != m[j]@.len());
            } else if j == 40 {
                assert(m[i]@.len() != m[j]@.len());
            } else if j == 41 {
                assert(m[i]@.len() != m[j]@.len());
            } else if j == 42 {
                assert(m[i]@.len() != m[j]@.len());
            } else if j == 43 {
                assert(m[i]@.len() != m[j]@.len());
            } else if j == 44 {
                assert(m[i]@.len() != m[j]@.len());
            } else if j == 45 {
                assert(m[i]@.len() != m[j]@.len());
            } else if j == 46 {
                assert(m[i]@.len() != m[j]@.len());
            } else if j == 47 {
                assert(m[i]@.len() != m[j]@.len());
            } else if j == 48 {
                assert(m[i]@.len() != m[j]@.len());
            } else if j == 49 {
                assert(m[i]@.len() != m[j]@.len());
            } else if j == 50 {
                assert(m[i]@[8] != m[j]@[8]);
            } else if j == 51 {
                assert(m[i]@.len() != m[j]@.len());
            } else if j == 52 {
                assert(m[i]@.len() != m[j]@.len());
            } else if j == 53 {
                assert(m[i]@.len() != m[j]@.len());
            } else if j == 54 {
                assert(m[i]@.len() != m[j]@.len());
            } else if j == 55 {
                assert(m[i]@.len() != m[j]@.len());
            } else if j == 56 {
                assert(m[i]@.len() != m[j]@.len());
            } else if j == 57 {
                assert(m[i]@.len() != m[j]@.len());
            } else if j == 58 {
                assert(m[i]@.len() != m[j]@.len());
            } else if j == 59 {
                assert(m[i]@.len() != m[j]@.len());
            } else if j == 60 {
                assert(m[i]@.len() != m[j]@.len());
            } else if j == 61 {
                assert(m[i]@.len() != m[j]@.len());
            } else if j == 62 {
                assert(m[i]@.len() != m[j]@.len());
            } else if j == 63 {
                assert(m[i]@.len() != m[j]@.len());
            } else if j == 64 {
                assert(m[i]@.len() != m[j]@.len());
            } else if j == 65 {
                assert(m[i]@.len() != m[j]@.len());
            } else if j == 66 {
                assert(m[i]@.len() != m[j]@.len());
            } else if j == 67 {
                assert(m[i]@.len() != m[j]@.len());
            } else if j == 68 {
                assert(m[i]@[8] != m[j]@[8]);
            } else if j == 69 {
                assert(m[i]@.len() != m[j]@.len());
            } else if j == 70 {
                assert(m[i]@.len() != m[j]@.len());
            }
        } else if i == 33 {
            if j == 34 {
                assert(m[i]@.len() != m[j]@.len());
            } else if j == 35 {
                assert(m[i]@.len() != m[j]@.len());
            } else if j == 36 {
                assert(m[i]@.len() != m[j]@.len());
            } else if j == 37 {
                assert(m[i]@.len() != m[j]@.len());
            } else if j == 38 {
                assert(m[i]@.len() != m[j]@.len());
            } else if j == 39 {
                assert(m[i]@.len() != m[j]@.len());
            } else if j == 40 {
                assert(m[i]@.len() != m[j]@.len());
            } else if j == 41 {
                assert(m[i]@.len() != m[j]@.len());
            } else if j == 42 {
                assert(m[i]@.len() != m[j]@.len());
            } else if j == 43 {
                assert(m[i]@.len() != m[j]@.len());
            } else if j == 44 {
                assert(m[i]@.len() != m[j]@.len());
            } else if j == 45 {
                assert(m[i]@.len() != m[j]@.len());
            } else if j == 46 {
                assert(m[i]@.len() != m[j]@.len());
            } else if j == 47 {
                assert(m[i]@.len() != m[j]@.len());
            } else if j == 48 {
                assert(m[i]@.len() != m[j]@.len());
            } else if j == 49 {
                assert(m[i]@.len() != m[j]@.len());
            } else if j == 50 {
                assert(m[i]@.len() != m[j]@.len());
            } else if j == 51 {
                assert(m[i]@.len() != m[j]@.len());
            } else if j == 52 {
                assert(m[i]@.len() != m[j]@.len());
            } else if j == 53 {
                assert(m[i]@.len() != m[j]@.len());
            } else if j == 54 {
                assert(m[i]@.len() != m[j]@.len());
            } else if j == 55 {
                assert(m[i]@.len() != m[j]@.len());
            } else if j == 56 {
                assert(m[i]@.len() != m[j]@.len());
            } else if j == 57 {
                assert(m[i]@.len() != m[j]@.len());
            } else if j == 58 {
                assert(m[i]@.len() != m[j]@.len());
            } else if j == 59 {
                assert(m[i]@.len() != m[j]@.len());
            } else if j == 60 {
                assert(m[i]@.len() != m[j]@.len());
            } else if j == 61 {
                assert(m[i]@.len() != m[j]@.len());
            } else if j == 62 {
                assert(m[i]@[11] != m[j]@[11]);
            } else if j == 63 {
                assert(m[i]@.len() != m[j]@.len());
            } else if j == 64 {
                assert(m[i]@.len() != m[j]@.len());
            } else if j == 65 {
                assert(m[i]@.len() != m[j]@.len());
            } else if j == 66 {
                assert(m[i]@.len() != m[j]@.len());
            } else if j == 67 {
                assert(m[i]@.len() != m[j]@.len());
            } else if j == 68 {
                assert(m[i]@.len() != m[j]@.len());
            } else if j == 69 {
                assert(m[i]@.len() != m[j]@.len());
            } else if j == 70 {
                assert(m[i]@[8] != m[j]@[8]);
            }
        } else if i == 34 {
            if j == 35 {
                assert(m[i]@.len() != m[j]@.len());
            } else if j == 36 {
                assert(m[i]@.len() != m[j]@.len());
            } else if j == 37 {
                assert(m[i]@.len() != m[j]@.len());
            } else if j == 38 {
                assert(m[i]@.len() != m[j]@.len());
            } else if j == 39 {
                assert(m[i]@.len() != m[j]@.len());
            } else if j == 40 {
                assert(m[i]@.len() != m[j]@.len());
            } else if j == 41 {
                assert(m[i]@.len() != m[j]@.len());
            } else if j == 42 {
                assert(m[i]@.len() != m[j]@.len());
            } else if j == 43 {
                assert(m[i]@.len() != m[j]@.len());
            } else if j == 44 {
                assert(m[i]@.len() != m[j]@.len());
            } else if j == 45 {
                assert(m[i]@.len() != m[j]@.len());
            } else if j == 46 {
                assert(m[i]@.len() != m[j]@.len());
            } else if j == 47 {
                assert(m[i]@.len() != m[j]@.len());
            } else if j == 48 {
                assert(m[i]@.len() != m[j]@.len());
            } else if j == 49 {
                assert(m[i]@.len() != m[j]@.len());
            } else if j == 50 {
                assert(m[i]@.len() != m[j]@.len());
            } else if j == 51 {
                assert(m[i]@.len() != m[j]@.len());
            } else if j == 52 {
                assert(m[i]@.len() != m[j]@.len());
            } else if j == 53 {
                assert(m[i]@.len() != m[j]@.len());
            } else if j == 54 {
                assert(m[i]@.len() != m[j]@.len());
            } else if j == 55 {
                assert(m[i]@.len() != m[j]@.len());
            } else if j == 56 {
                assert(m[i]@.len() != m[j]@.len());
            } else if j == 57 {
                assert(m[i]@.len() != m[j]@.len());
            } else if j == 58 {
                assert(m[i]@.len() != m[j]@.len());
            } else if j == 59 {
                assert(m[i]@.len() != m[j]@.len());
            } else if j == 60 {
                assert(m[i]@.len() != m[j]@.len());
            } else if j == 61 {
                assert(m[i]@.len() != m[j]@.len());
            } else if j == 62 {
                assert(m[i]@.len() != m[j]@.len());
            } else if j == 63 {
                assert(m[i]@.len() != m[j]@.len());
            } else if j == 64 {
                assert(m[i]@.len() != m[j]@.len());
            } else if j == 65 {
                assert(m[i]@.len() != m[j]@.len());
            } else if j == 66 {
                assert(m[i]@[8] != m[j]@[8]);
            } else if j == 67 {
                assert(m[i]@.len() != m[j]@.len());
            } else if j == 68 {
                assert(m[i]@.len() != m[j]@.len());
            } else if j == 69 {
                assert(m[i]@.len() != m[j]@.len());
            } else if j == 70 {
                assert(m[i]@.len() != m[j]@.len());
            }
        } else if i == 35 {
            if j == 36 {
                assert(m[i]@.len() != m[j]@.len());
            } else if j == 37 {
                assert(m[i]@.len() != m[j]@.len());
            } else if j == 38 {
                assert(m[i]@.len() != m[j]@.len());
            } else if j == 39 {
                assert(m[i]@.len() != m[j]@.len());
            } else if j == 40 {
                assert(m[i]@.len() != m[j]@.len());
            } else if j == 41 {
                assert(m[i]@.len() != m[j]@.len());
            } else if j == 42 {
                assert(m[i]@.len() != m[j]@.len());
            } else if j == 43 {
                assert(m[i]@.len() != m[j]@.len());
            } else if j == 44 {
                assert(m[i]@.len() != m[j]@.len());
            } else if j == 45 {
                assert(m[i]@.len() != m[j]@.len());
            } else if j == 46 {
                assert(m[i]@[8] != m[j]@[8]);
            } else if j == 47 {
                assert(m[i]@.len() != m[j]@.len());
            } else if j == 48 {
                assert(m[i]@.len() != m[j]@.len());
            } else if j == 49 {
                assert(m[i]@.len() != m[j]@.len());
            } else if j == 50 {
                assert(m[i]@.len() != m[j]@.len());
            } else if j == 51 {
                assert(m[i]@.len() != m[j]@.len());
            } else if j == 52 {
                assert(m[i]@.len() != m[j]@.len());
            } else if j == 53 {
                assert(m[i]@.len() != m[j]@.len());
            } else if j == 54 {
                assert(m[i]@.len() != m[j]@.len());
            } else if j == 55 {
                assert(m[i]@.len() != m[j]@.len());
            } else if j == 56 {
                assert(m[i]@.len() != m[j]@.len());
            } else if j == 57 {
                assert(m[i]@.len() != m[j]@.len());
            } else if j == 58 {
                assert(m[i]@.len() != m[j]@.len());
            } else if j == 59 {
                assert(m[i]@.len() != m[j]@.len());
            } else if j == 60 {
                assert(m[i]@.len() != m[j]@.len());
            } else if j == 61 {
                assert(m[i]@.len() != m[j]@.len());
            } else if j == 62 {
                assert(m[i]@.len() != m[j]@.len());
            } else if j == 63 {
                assert(m[i]@.len() != m[j]@.len());
            } else if j == 64 {
                assert(m[i]@.len() != m[j]@.len());
            } else if j == 65 {
                assert(m[i]@.len() != m[j]@.len());
            } else if j == 66 {
                assert(m[i]@.len() != m[j]@.len());
            } else if j == 67 {
                assert(m[i]@.len() != m[j]@.len());
            } else if j == 68 {
                assert(m[i]@.len() != m[j]@.len());
            } else if j == 69 {
                assert(m[i]@.len() != m[j]@.len());
            } else if j == 70 {
                assert(m[i]@.len() != m[j]@.len());
            }
        } else if i == 36 {
            if j == 37 {
                assert(m[i]@.len() != m[j]@.len());
            } else if j == 38 {
                assert(m[i]@.len() != m[j]@.len());
            } else if j == 39 {
                assert(m[i]@.len() != m[j]@.len());
            } else if j == 40 {
                assert(m[i]@.len() != m[j]@.len());
            } else if j == 41 {
                assert(m[i]@.len() != m[j]@.len());
            } else if j == 42 {
                assert(m[i]@.len() != m[j]@.len());
            } else if j == 43 {
                assert(m[i]@.len() != m[j]@.len());
            } else if j == 44 {
                assert(m[i]@[8] != m[j]@[8]);
            } else if j == 45 {
                assert(m[i]@.len() != m[j]@.len());
            } else if j == 46 {
                assert(m[i]@.len() != m[j]@.len());
            } else if j == 47 {
                assert(m[i]@.len() != m[j]@.len());
            } else if j == 48 {
                assert(m[i]@.len() != m[j]@.len());
            } else if j == 49 {
                assert(m[i]@.len() != m[j]@.len());
            } else if j == 50 {
                assert(m[i]@.len() != m[j]@.len());
            } else if j == 51 {
                assert(m[i]@.len() != m[j]@.len());
            } else if j == 52 {
                assert(m[i]@.len() != m[j]@.len());
            } else if j == 53 {
                assert(m[i]@.len() != m[j]@.len());
            } else if j == 54 {
                assert(m[i]@[8] != m[j]@[8]);
            } else if j == 55 {
                assert(m[i]@.len() != m[j]@.len());
            } else if j == 56 {
                assert(m[i]@.len() != m[j]@.len());
            } else if j == 57 {
                assert(m[i]@.len() != m[j]@.len());
            } else if j == 58 {
                assert(m[i]@.len() != m[j]@.len());
            } else if j == 59 {
                assert(m[i]@.len() != m[j]@.len());
            } else if j == 60 {
                assert(m[i]@.len() != m[j]@.len());
            } else if j == 61 {
                assert(m[i]@.len() != m[j]@.len());
            } else if j == 62 {
                assert(m[i]@.len() != m[j]@.len());
            } else if j == 63 {
                assert(m[i]@.len() != m[j]@.len());
            } else if j == 64 {
                assert(m[i]@.len() != m[j]@.len());
            } else if j == 65 {
                assert(m[i]@.len() != m[j]@.len());
            } else if j == 66 {
                assert(m[i]@.len() != m[j]@.len());
            } else if j == 67 {
                assert(m[i]@.len() != m[j]@.len());
            } else if j == 68 {
                assert(m[i]@.len() != m[j]@.len());
            } else if j == 69 {
                assert(m[i]@.len() != m[j]@.len());
            } else if j == 70 {
                assert(m[i]@.len() != m[j]@.len());
            }
        } else if i == 37 {
            if j == 38 {
                assert(m[i]@[8] != m[j]@[8]);
            } else if j == 39 {
                assert(m[i]@.len() != m[j]@.len());
            } else if j == 40 {
                assert(m[i]@.len() != m[j]@.len());
            } else if j == 41 {
                assert(m[i]@.len() != m[j]@.len());
            } else if j == 42 {
                assert(m[i]@.len() != m[j]@.len());
            } else if j == 43 {
                assert(m[i]@.len() != m[j]@.len());
            } else if j == 44 {
                assert(m[i]@.len() != m[j]@.len());
            } else if j == 45 {
                assert(m[i]@.len() != m[j]@.len());
            } else if j == 46 {
                assert(m[i]@.len() != m[j]@.len());
            } else if j == 47 {
                assert(m[i]@.len() != m[j]@.len());
            } else if j == 48 {
                assert(m[i]@.len() != m[j]@.len());
            } else if j == 49 {
                assert(m[i]@.len() != m[j]@.len());
            } else if j == 50 {
                assert(m[i]@.len() != m[j]@.len());
            } else if j == 51 {
                assert(m[i]@.len() != m[j]@.len());
            } else if j == 52 {
                assert(m[i]@.len() != m[j]@.len());
            } else if j == 53 {
                assert(m[i]@.len() != m[j]@.len());
            } else if j == 54 {
                assert(m[i]@.len() != m[j]@.len());
            } else if j == 55 {
                assert(m[i]@.len() != m[j]@.len());
            } else if j == 56 {
                assert(m[i]@.len() != m[j]@.len());
            } else if j == 57 {
                assert(m[i]@.len() != m[j]@.len());
            } else if j == 58 {
                assert(m[i]@.len() != m[j]@.len());
            } else if j == 59 {
                assert(m[i]@.len() != m[j]@.len());
            } else if j == 60 {
                assert(m[i]@.len() != m[j]@.len());
            } else if j == 61 {
                assert(m[i]@.len() != m[j]@.len());
            } else if j == 62 {
                assert(m[i]@.len() != m[j]@.len());
            } else if j == 63 {
                assert(m[i]@.len() != m[j]@.len());
            } else if j == 64 {
                assert(m[i]@.len() != m[j]@.len());
            } else if j == 65 {
                assert(m[i]@.len() != m[j]@.len());
            } else if j == 66 {
                assert(m[i]@.len() != m[j]@.len());
            } else if j == 67 {
                assert(m[i]@.len() != m[j]@.len());
            } else if j == 68 {
                assert(m[i]@.len() != m[j]@.len());
            } else if j == 69 {
                assert(m[i]@.len() != m[j]@.len());
            } else if j == 70 {
                assert(m[i]@.len() != m[j]@.len());
            }
        } else if i == 38 {
            if j == 39 {
                assert(m[i]@.len() != m[j]@.len());
            } else if j == 40 {
                assert(m[i]@.len() != m[j]@.len());
            } else if j == 41 {
                assert(m[i]@.len() != m[j]@.len());
            } else if j == 42 {
                assert(m[i]@.len() != m[j]@.len());
            } else if j == 43 {
                assert(m[i]@.len() != m[j]@.len());
            } else if j == 44 {
                assert(m[i]@.len() != m[j]@.len());
            } else if j == 45 {
                assert(m[i]@.len() != m[j]@.len());
            } else if j == 46 {
                assert(m[i]@.len() != m[j]@.len());
            } else if j == 47 {
                assert(m[i]@.len() != m[j]@.len());
            } else if j == 48 {
                assert(m[i]@.len() != m[j]@.len());
            } else if j == 49 {
                assert(m[i]@.len() != m[j]@.len());
            } else if j == 50 {
                assert(m[i]@.len() != m[j]@.len());
            } else if j == 51 {
                assert(m[i]@.len() != m[j]@.len());
            } else if j == 52 {
                assert(m[i]@.len() != m[j]@.len());
            } else if j == 53 {
                assert(m[i]@.len() != m[j]@.len());
            } else if j == 54 {
                assert(m[i]@.len() != m[j]@.len());
            } else if j == 55 {
                assert(m[i]@.len() != m[j]@.len());
            } else if j == 56 {
                assert(m[i]@.len() != m[j]@.len());
            } else if j == 57 {
                assert(m[i]@.len() != m[j]@.len());
            } else if j == 58 {
                assert(m[i]@.len() != m[j]@.len());
            } else if j == 59 {
                assert(m[i]@.len() != m[j]@.len());
            } else if j == 60 {
                assert(m[i]@.len() != m[j]@.len());
            } else if j == 61 {
                assert(m[i]@.len() != m[j]@.len());
            } else if j == 62 {
                assert(m[i]@.len() != m[j]@.len());
            } else if j == 63 {
                assert(m[i]@.len() != m[j]@.len());
            } else if j == 64 {
                assert(m[i]@.len() != m[j]@.len());
            } else if j == 65 {
                assert(m[i]@.len() != m[j]@.len());
            } else if j == 66 {
                assert(m[i]@.len() != m[j]@.len());
            } else if j == 67 {
                assert(m[i]@.len() != m[j]@.len());
            } else if j == 68 {
                assert(m[i]@.len() != m[j]@.len());
            } else if j == 69 {
                assert(m[i]@.len() != m[j]@.len());
            } else if j == 70 {
                assert(m[i]@.len() != m[j]@.len());
            }
        } else if i == 39 {
            if j == 40 {
                assert(m[i]@.len() != m[j]@.len());
            } else if j == 41 {
                assert(m[i]@[9] != m[j]@[9]);
            } else if j == 42 {
                assert(m[i]@.len() != m[j]@.len());
            } else if j == 43 {
                assert(m[i]@.len() != m[j]@.len());
            } else if j == 44 {
                assert(m[i]@.len() != m[j]@.len());
            } else if j == 45 {
                assert(m[i]@.len() != m[j]@.len());
            } else if j == 46 {
                assert(m[i]@.len() != m[j]@.len());
            } else if j == 47 {
                assert(m[i]@.len() != m[j]@.len());
            } else if j == 48 {
                assert(m[i]@.len() != m[j]@.len());
            } else if j == 49 {
                assert(m[i]@.len() != m[j]@.len());
            } else if j == 50 {
                assert(m[i]@.len() != m[j]@.len());
            } else if j == 51 {
                assert(m[i]@.len() != m[j]@.len());
            } else if j == 52 {
                assert(m[i]@.len() != m[j]@.len());
            } else if j == 53 {
                assert(m[i]@.len() != m[j]@.len());
            } else if j == 54 {
                assert(m[i]@.len() != m[j]@.len());
            } else if j == 55 {
                assert(m[i]@.len() != m[j]@.len());
            } else if j == 56 {
                assert(m[i]@.len() != m[j]@.len());
            } else if j == 57 {
                assert(m[i]@.len() != m[j]@.len());
            } else if j == 58 {
                assert(m[i]@.len() != m[j]@.len());
            } else if j == 59 {
                assert(m[i]@.len() != m[j]@.len());
            } else if j == 60 {
                assert(m[i]@.len() != m[j]@.len());
            } else if j == 61 {
                assert(m[i]@.len() != m[j]@.len());
            } else if j == 62 {
                assert(m[i]@.len() != m[j]@.len());
            } else if j == 63 {
                assert(m[i]@.len() != m[j]@.len());
            } else if j == 64 {
                assert(m[i]@.len() != m[j]@.len());
            } else if j == 65 {
                assert(m[i]@.len() != m[j]@.len());
            } else if j == 66 {
                assert(m[i]@.len() != m[j]@.len());
            } else if j == 67 {
                assert(m[i]@.len() != m[j]@.len());
            } else if j == 68 {
                assert(m[i]@.len() != m[j]@.len());
            } else if j == 69 {
                assert(m[i]@.len() != m[j]@.len());
            } else if j == 70 {
                assert(m[i]@.len() != m[j]@.len());
            }
        } else if i == 40 {
            if j == 41 {
                assert(m[i]@.len() != m[j]@.len());
            } else if j == 42 {
                assert(m[i]@.len() != m[j]@.len());
            } else if j == 43 {
                assert(m[i]@[8] != m[j]@[8]);
            } else if j == 44 {
                assert(m[i]@.len() != m[j]@.len());
            } else if j == 45 {
                assert(m[i]@.len() != m[j]@.len());
            } else if j == 46 {
                assert(m[i]@.len() != m[j]@.len());
            } else if j == 47 {
                assert(m[i]@.len() != m[j]@.len());
            } else if j == 48 {
                assert(m[i]@.len() != m[j]@.len());
            } else if j == 49 {
                assert(m[i]@.len() != m[j]@.len());
            } else if j == 50 {
                assert(m[i]@.len() != m[j]@.len());
            } else if j == 51 {
                assert(m[i]@.len() != m[j]@.len());
            } else if j == 52 {
                assert(m[i]@.len() != m[j]@.len());
            } else if j == 53 {
                assert(m[i]@.len() != m[j]@.len());
            } else if j == 54 {
                assert(m[i]@.len() != m[j]@.len());
            } else if j == 55 {
                assert(m[i]@.len() != m[j]@.len());
            } else if j == 56 {
                assert(m[i]@.len() != m[j]@.len());
            } else if j == 57 {
                assert(m[i]@.len() != m[j]@.len());
            } else if j == 58 {
                assert(m[i]@.len() != m[j]@.len());
            } else if j == 59 {
                assert(m[i]@.len() != m[j]@.len());
            } else if j == 60 {
                assert(m[i]@.len() != m[j]@.len());
            } else if j == 61 {
                assert(m[i]@.len() != m[j]@.len());
            } else if j == 62 {
                assert(m[i]@.len() != m[j]@.len());
            } else if j == 63 {
                assert(m[i]@.len() != m[j]@.len());
            } else if j == 64 {
                assert(m[i]@.len() != m[j]@.len());
            } else if j == 65 {
                assert(m[i]@.len() != m[j]@.len());
            } else if j == 66 {
                assert(m[i]@.len() != m[j]@.len());
            } else if j == 67 {
                assert(m[i]@.len() != m[j]@.len());
            } else if j == 68 {
                assert(m[i]@.len() != m[j]@.len());
            } else if j == 69 {
                assert(m[i]@[13] != m[j]@[13]);
            } else if j == 70 {
                assert(m[i]@.len() != m[j]@.len());
            }
        } else if i == 41 {
            if j == 42 {
                assert(m[i]@.len() != m[j]@.len());
            } else if j == 43 {
                assert(m[i]@.len() != m[j]@.len());
            } else if j == 44 {
                assert(m[i]@.len() != m[j]@.len());
            } else if j == 45 {
                assert(m[i]@.len() != m[j]@.len());
            } else if j == 46 {
                assert(m[i]@.len() != m[j]@.len());
            } else if j == 47 {
                assert(m[i]@.len() != m[j]@.len());
            } else if j == 48 {
                assert(m[i]@.len() != m[j]@.len());
            } else if j == 49 {
                assert(m[i]@.len() != m[j]@.len());
            } else if j == 50 {
                assert(m[i]@.len() != m[j]@.len());
            } else if j == 51 {
                assert(m[i]@.len() != m[j]@.len());
            } else if j == 52 {
                assert(m[i]@.len() != m[j]@.len());
            } else if j == 53 {
                assert(m[i]@.len() != m[j]@.len());
            } else if j == 54 {
                assert(m[i]@.len() != m[j]@.len());
            } else if j == 55 {
                assert(m[i]@.len() != m[j]@.len());
            } else if j == 56 {
                assert(m[i]@.len() != m[j]@.len());
            } else if j == 57 {
                assert(m[i]@.len() != m[j]@.len());
            } else if j == 58 {
                assert(m[i]@.len() != m[j]@.len());
            } else if j == 59 {
                assert(m[i]@.len() != m[j]@.len());
            } else if j == 60 {
                assert(m[i]@.len() != m[j]@.len());
            } else if j == 61 {
                assert(m[i]@.len() != m[j]@.len());
            } else if j == 62 {
                assert(m[i]@.len() != m[j]@.len());
            } else if j == 63 {
                assert(m[i]@.len() != m[j]@.len());
            } else if j == 64 {
                assert(m[i]@.len() != m[j]@.len());
            } else if j == 65 {
                assert(m[i]@.len() != m[j]@.len());
            } else if j == 66 {
                assert(m[i]@.len() != m[j]@.len());
            } else if j == 67 {
                assert(m[i]@.len() != m[j]@.len());
            } else if j == 68 {
                assert(m[i]@.len() != m[j]@.len());
            } else if j == 69 {
                assert(m[i]@.len() != m[j]@.len());
            } else if j == 70 {
                assert(m[i]@.len() != m[j]@.len());
            }
        } else if i == 42 {
            if j == 43 {
                assert(m[i]@.len() != m[j]@.len());
            } else if j == 44 {
                assert(m[i]@.len() != m[j]@.len());
            } else if j == 45 {
                assert(m[i]@[8] != m[j]@[8]);
            } else if j == 46 {
                assert(m[i]@.len() != m[j]@.len());
            } else if j == 47 {
                assert(m[i]@[8] != m[j]@[8]);
            } else if j == 48 {
                assert(m[i]@[8] != m[j]@[8]);
            } else if j == 49 {
                assert(m[i]@.len() != m[j]@.len());
            } else if j == 50 {
                assert(m[i]@.len() != m[j]@.len());
            } else if j == 51 {
                assert(m[i]@.len() != m[j]@.len());
            } else if j == 52 {
                assert(m[i]@.len() != m[j]@.len());
            } else if j == 53 {
                assert(m[i]@.len() != m[j]@.len());
            } else if j == 54 {
                assert(m[i]@.len() != m[j]@.len());
            } else if j == 55 {
                assert(m[i]@[8] != m[j]@[8]);
            } else if j == 56 {
                assert(m[i]@.len() != m[j]@.len());
            } else if j == 57 {
                assert(m[i]@.len() != m[j]@.len());
            } else if j == 58 {
                assert(m[i]@.len() != m[j]@.len());
            } else if j == 59 {
                assert(m[i]@.len() != m[j]@.len());
            } else if j == 60 {
                assert(m[i]@.len() != m[j]@.len());
            } else if j == 61 {
                assert(m[i]@.len() != m[j]@.len());
            } else if j == 62 {
                assert(m[i]@.len() != m[j]@.len());
            } else if j == 63 {
                assert(m[i]@.len() != m[j]@.len());
            } else if j == 64 {
                assert(m[i]@.len() != m[j]@.len());
            } else if j == 65 {
                assert(m[i]@.len() != m[j]@.len());
            } else if j == 66 {
                assert(m[i]@.len() != m[j]@.len());
            } else if j == 67 {
                assert(m[i]@.len() != m[j]@.len());
            } else if j == 68 {
                assert(m[i]@.len() != m[j]@.len());
            } else if j == 69 {
                assert(m[i]@.len() != m[j]@.len());
            } else if j == 70 {
                assert(m[i]@.len() != m[j]@.len());
            }
        } else if i == 43 {
            if j == 44 {
                assert(m[i]@.len() != m[j]@.len());
            } else if j == 45 {
                assert(m[i]@.len() != m[j]@.len());
            } else if j == 46 {
                assert(m[i]@.len() != m[j]@.len());
            } else if j == 47 {
                assert(m[i]@.len() != m[j]@.len());
            } else if j == 48 {
                assert(m[i]@.len() != m[j]@.len());
            } else if j == 49 {
                assert(m[i]@.len() != m[j]@.len());
            } else if j == 50 {
                assert(m[i]@.len() != m[j]@.len());
            } else if j == 51 {
                assert(m[i]@.len() != m[j]@.len());
            } else if j == 52 {
                assert(m[i]@.len() != m[j]@.len());
            } else if j == 53 {
                assert(m[i]@.len() != m[j]@.len());
            } else if j == 54 {
                assert(m[i]@.len() != m[j]@.len());
            } else if j == 55 {
                assert(m[i]@.len() != m[j]@.len());
            } else if j == 56 {
                assert(m[i]@.len() != m[j]@.len());
            } else if j == 57 {
                assert(m[i]@.len() != m[j]@.len());
            } else if j == 58 {
                assert(m[i]@.len() != m[j]@.len());
            } else if j == 59 {
                assert(m[i]@.len() != m[j]@.len());
            } else if j == 60 {
                assert(m[i]@.len() != m[j]@.len());
            } else if j == 61 {
                assert(m[i]@.len() != m[j]@.len());
            } else if j == 62 {
                assert(m[i]@.len() != m[j]@.len());
            } else if j == 63 {
                assert(m[i]@.len() != m[j]@.len());
            } else if j == 64 {
                assert(m[i]@.len() != m[j]@.len());
            } else if j == 65 {
                assert(m[i]@.len() != m[j]@.len());
            } else if j == 66 {
                assert(m[i]@.len() != m[j]@.len());
            } else if j == 67 {
                assert(m[i]@.len() != m[j]@.len());
            } else if j == 68 {
                assert(m[i]@.len() != m[j]@.len());
            } else if j == 69 {
                assert(m[i]@[8] != m[j]@[8]);
            } else if j == 70 {
                assert(m[i]@.len() != m[j]@.len());
            }
        } else if i == 44 {
            if j == 45 {
                assert(m[i]@.len() != m[j]@.len());
            } else if j == 46 {
                assert(m[i]@.len() != m[j]@.len());
            } else if j == 47 {
                assert(m[i]@.len() != m[j]@.len());
            } else if j == 48 {
                assert(m[i]@.len() != m[j]@.len());
            } else if j == 49 {
                assert(m[i]@.len() != m[j]@.len());
            } else if j == 50 {
                assert(m[i]@.len() != m[j]@.len());
            } else if j == 51 {
                assert(m[i]@.len() != m[j]@.len());
            } else if j == 52 {
                assert(m[i]@.len() != m[j]@.len());
            } else if j == 53 {
                assert(m[i]@.len() != m[j]@.len());
            } else if j == 54 {
                assert(m[i]@[8] != m[j]@[8]);
            } else if j == 55 {
                assert(m[i]@.len() != m[j]@.len());
            } else if j == 56 {
                assert(m[i]@.len() != m[j]@.len());
            } else if j == 57 {
                assert(m[i]@.len() != m[j]@.len());
            } else if j == 58 {
                assert(m[i]@.len() != m[j]@.len());
            } else if j == 59 {
                assert(m[i]@.len() != m[j]@.len());
            } else if j == 60 {
                assert(m[i]@.len() != m[j]@.len());
            } else if j == 61 {
                assert(m[i]@.len() != m[j]@.len());
            } else if j == 62 {
                assert(m[i]@.len() != m[j]@.len());
            } else if j == 63 {
                assert(m[i]@.len() != m[j]@.len());
            } else if j == 64 {
                assert(m[i]@.len() != m[j]@.len());
            } else if j == 65 {
                assert(m[i]@.len() != m[j]@.len());
            } else if j == 66 {
                assert(m[i]@.len() != m[j]@.len());
            } else if j == 67 {
                assert(m[i]@.len() != m[j]@.len());
            } else if j == 68 {
                assert(m[i]@.len() != m[j]@.len());
            } else if j == 69 {
                assert(m[i]@.len() != m[j]@.len());
            } else if j == 70 {
                assert(m[i]@.len() != m[j]@.len());
            }
        } else if i == 45 {
            if j == 46 {
                assert(m[i]@.len() != m[j]@.len());
            } else if j == 47 {
                assert(m[i]@[8] != m[j]@[8]);
            } else if j == 48 {
                assert(m[i]@[8] != m[j]@[8]);
            } else if j == 49 {
                assert(m[i]@.len() != m[j]@.len());
            } else if j == 50 {
                assert(m[i]@.len() != m[j]@.len());
            } else if j == 51 {
                assert(m[i]@.len() != m[j]@.len());
            } else if j == 52 {
                assert(m[i]@.len() != m[j]@.len());
            } else if j == 53 {
                assert(m[i]@.len() != m[j]@.len());
            } else if j == 54 {
                assert(m[i]@.len() != m[j]@.len());
            } else if j == 55 {
                assert(m[i]@[8] != m[j]@[8]);
            } else if j == 56 {
                assert(m[i]@.len() != m[j]@.len());
            } else if j == 57 {
                assert(m[i]@.len() != m[j]@.len());
            } else if j == 58 {
                assert(m[i]@.len() != m[j]@.len());
            } else if j == 59 {
                assert(m[i]@.len() != m[j]@.len());
            } else if j == 60 {
                assert(m[i]@.len() != m[j]@.len());
            } else if j == 61 {
                assert(m[i]@.len() != m[j]@.len());
            } else if j == 62 {
                assert(m[i]@.len() != m[j]@.len());
            } else if j == 63 {
                assert(m[i]@.len() != m[j]@.len());
            } else if j == 64 {
                assert(m[i]@.len() != m[j]@.len());
            } else if j == 65 {
                assert(m[i]@.len() != m[j]@.len());
            } else if j == 66 {
                assert(m[i]@.len() != m[j]@.len());
            } else if j == 67 {
                assert(m[i]@.len() != m[j]@.len());
            } else if j == 68 {
                assert(m[i]@.len() != m[j]@.len());
            } else if j == 69 {
                assert(m[i]@.len() != m[j]@.len());
            } else if j == 70 {
                assert(m[i]@.len() != m[j]@.len());
            }
        } else if i == 46 {
            if j == 47 {
                assert(m[i]@.len() != m[j]@.len());
            } else if j == 48 {
                assert(m[i]@.len() != m[j]@.len());
            } else if j == 49 {
                assert(m[i]@.len() != m[j]@.len());
            } else if j == 50 {
                assert(m[i]@.len() != m[j]@.len());
            } else if j == 51 {
                assert(m[i]@.len() != m[j]@.len());
            } else if j == 52 {
                assert(m[i]@.len() != m[j]@.len());
            } else if j == 53 {
                assert(m[i]@.len() != m[j]@.len());
            } else if j == 54 {
                assert(m[i]@.len() != m[j]@.len());
            } else if j == 55 {
                assert(m[i]@.len() != m[j]@.len());
            } else if j == 56 {
                assert(m[i]@.len() != m[j]@.len());
            } else if j == 57 {
                assert(m[i]@.len() != m[j]@.len());
            } else if j == 58 {
                assert(m[i]@.len() != m[j]@.len());
            } else if j == 59 {
                assert(m[i]@.len() != m[j]@.len());
            } else if j == 60 {
                assert(m[i]@.len() != m[j]@.len());
            } else if j == 61 {
                assert(m[i]@.len() != m[j]@.len());
            } else if j == 62 {
                assert(m[i]@.len() != m[j]@.len());
            } else if j == 63 {
                assert(m[i]@.len() != m[j]@.len());
            } else if j == 64 {
                assert(m[i]@.len() != m[j]@.len());
            } else if j == 65 {
                assert(m[i]@.len() != m[j]@.len());
            } else if j == 66 {
                assert(m[i]@.len() != m[j]@.len());
            } else if j == 67 {
                assert(m[i]@.len() != m[j]@.len());
            } else if j == 68 {
                assert(m[i]@.len() != m[j]@.len());
            } else if j == 69 {
                assert(m[i]@.len() != m[j]@.len());
            } else if j == 70 {
                assert(m[i]@.len() != m[j]@.len());
            }
        } else if i == 47 {
            if j == 48 {
                assert(m[i]@[8] != m[j]@[8]);
            } else if j == 49 {
                assert(m[i]@.len() != m[j]@.len());
            } else if j == 50 {
                assert(m[i]@.len() != m[j]@.len());
            } else if j == 51 {
                assert(m[i]@.len() != m[j]@.len());
            } else if j == 52 {
                assert(m[i]@.len() != m[j]@.len());
            } else if j == 53 {
                assert(m[i]@.len() != m[j]@.len());
            } else if j == 54 {
                assert(m[i]@.len() != m[j]@.len());
            } else if j == 55 {
                assert(m[i]@[8] != m[j]@[8]);
            } else if j == 56 {
                assert(m[i]@.len() != m[j]@.len());
            } else if j == 57 {
                assert(m[i]@.len() != m[j]@.len());
            } else if j == 58 {
                assert(m[i]@.len() != m[j]@.len());
            } else if j == 59 {
                assert(m[i]@.len() != m[j]@.len());
            } else if j == 60 {
                assert(m[i]@.len() != m[j]@.len());
            } else if j == 61 {
                assert(m[i]@.len() != m[j]@.len());
            } else if j == 62 {
                assert(m[i]@.len() != m[j]@.len());
            } else if j == 63 {
                assert(m[i]@.len() != m[j]@.len());
            } else if j == 64 {
                assert(m[i]@.len() != m[j]@.len());
            } else if j == 65 {
                assert(m[i]@.len() != m[j]@.len());
            } else if j == 66 {
                assert(m[i]@.len() != m[j]@.len());
            } else if j == 67 {
                assert(m[i]@.len() != m[j]@.len());
            } else if j == 68 {
                assert(m[i]@.len() != m[j]@.len());
            } else if j == 69 {
                assert(m[i]@.len() != m[j]@.len());
            } else if j == 70 {
                assert(m[i]@.len() != m[j]@.len());
            }
        } else if i == 48 {
            if j == 49 {
                assert(m[i]@.len() != m[j]@.len());
            } else if j == 50 {
                assert(m[i]@.len() != m[j]@.len());
            } else if j == 51 {
                assert(m[i]@.len() != m[j]@.len());
            } else if j == 52 {
                assert(m[i]@.len() != m[j]@.len());
            } else if j == 53 {
                assert(m[i]@.len() != m[j]@.len());
            } else if j == 54 {
                assert(m[i]@.len() != m[j]@.len());
            } else if j == 55 {
                assert(m[i]@[8] != m[j]@[8]);
            } else if j == 56 {
                assert(m[i]@.len() != m[j]@.len());
            } else if j == 57 {
                assert(m[i]@.len() != m[j]@.len());
            } else if j == 58 {
                assert(m[i]@.len() != m[j]@.len());
            } else if j == 59 {
                assert(m[i]@.len() != m[j]@.len());
            } else if j == 60 {
                assert(m[i]@.len() != m[j]@.len());
            } else if j == 61 {
                assert(m[i]@.len() != m[j]@.len());
            } else if j == 62 {
                assert(m[i]@.len() != m[j]@.len());
            } else if j == 63 {
                assert(m[i]@.len() != m[j]@.len());
            } else if j == 64 {
                assert(m[i]@.len() != m[j]@.len());
            } else if j == 65 {
                assert(m[i]@.len() != m[j]@.len());
            } else if j == 66 {
                assert(m[i]@.len() != m[j]@.len());
            } else if j == 67 {
                assert(m[i]@.len() != m[j]@.len());
            } else if j == 68 {
                assert(m[i]@.len() != m[j]@.len());
            } else if j == 69 {
                assert(m[i]@.len() != m[j]@.len());
            } else if j == 70 {
                assert(m[i]@.len() != m[j]@.len());
            }
        } else if i == 49 {
            if j == 50 {
                assert(m[i]@.len() != m[j]@.len());
            } else if j == 51 {
                assert(m[i]@.len() != m[j]@.len());
            } else if j == 52 {
                assert(m[i]@.len() != m[j]@.len());
            } else if j == 53 {
                assert(m[i]@.len() != m[j]@.len());
            } else if j == 54 {
                assert(m[i]@.len() != m[j]@.len());
            } else if j == 55 {
                assert(m[i]@.len() != m[j]@.len());
            } else if j == 56 {
                assert(m[i]@.len() != m[j]@.len());
            } else if j == 57 {
                assert(m[i]@.len() != m[j]@.len());
            } else if j == 58 {
                assert(m[i]@.len() != m[j]@.len());
            } else if j == 59 {
                assert(m[i]@.len() != m[j]@.len());
            } else if j == 60 {
                assert(m[i]@.len() != m[j]@.len());
            } else if j == 61 {
                assert(m[i]@.len() != m[j]@.len());
            } else if j == 62 {
                assert(m[i]@.len() != m[j]@.len());
            } else if j == 63 {
                assert(m[i]@.len() != m[j]@.len());
            } else if j == 64 {
                assert(m[i]@.len() != m[j]@.len());
            } else if j == 65 {
                assert(m[i]@.len() != m[j]@.len());
            } else if j == 66 {
                assert(m[i]@.len() != m[j]@.len());
            } else if j == 67 {
                assert(m[i]@.len() != m[j]@.len());
            } else if j == 68 {
                assert(m[i]@.len() != m[j]@.len());
            } else if j == 69 {
                assert(m[i]@.len() != m[j]@.len());
            } else if j == 70 {
                assert(m[i]@.len() != m[j]@.len());
            }
        } else if i == 50 {
            if j == 51 {
                assert(m[i]@.len() != m[j]@.len());
            } else if j == 52 {
                assert(m[i]@.len() != m[j]@.len());
            } else if j == 53 {
                assert(m[i]@.len() != m[j]@.len());
            } else if j == 54 {
                assert(m[i]@.len() != m[j]@.len());
            } else if j == 55 {
                assert(m[i]@.len() != m[j]@.len());
            } else if j == 56 {
                assert(m[i]@.len() != m[j]@.len());
            } else if j == 57 {
                assert(m[i]@.len() != m[j]@.len());
            } else if j == 58 {
                assert(m[i]@.len() != m[j]@.len());
            } else if j == 59 {
                assert(m[i]@.len() != m[j]@.len());
            } else if j == 60 {
                assert(m[i]@.len() != m[j]@.len());
            } else if j == 61 {
                assert(m[i]@.len() != m[j]@.len());
            } else if j == 62 {
                assert(m[i]@.len() != m[j]@.len());
            } else if j == 63 {
                assert(m[i]@.len() != m[j]@.len());
            } else if j == 64 {
                assert(m[i]@.len() != m[j]@.len());
            } else if j == 65 {
                assert(m[i]@.len() != m[j]@.len());
            } else if j == 66 {
                assert(m[i]@.len() != m[j]@.len());
            } else if j == 67 {
                assert(m[i]@.len() != m[j]@.len());
            } else if j == 68 {
                assert(m[i]@[8] != m[j]@[8]);
            } else if j == 69 {
                assert(m[i]@.len() != m[j]@.len());
            } else if j == 70 {
                assert(m[i]@.len() != m[j]@.len());
            }
        } else if i == 51 {
            if j == 52 {
                assert(m[i]@[27] != m[j]@[27]);
            } else if j == 53 {
                assert(m[i]@.len() != m[j]@.len());
            } else if j == 54 {
                assert(m[i]@.len() != m[j]@.len());
            } else if j == 55 {
                assert(m[i]@.len() != m[j]@.len());
            } else if j == 56 {
                assert(m[i]@.len() != m[j]@.len());
            } else if j == 57 {
                assert(m[i]@.len() != m[j]@.len());
            } else if j == 58 {
                assert(m[i]@.len() != m[j]@.len());
            } else if j == 59 {
                assert(m[i]@.len() != m[j]@.len());
            } else if j == 60 {
                assert(m[i]@.len() != m[j]@.len());
            } else if j == 61 {
                assert(m[i]@.len() != m[j]@.len());
            } else if j == 62 {
                assert(m[i]@.len() != m[j]@.len());
            } else if j == 63 {
                assert(m[i]@.len() != m[j]@.len());
            } else if j == 64 {
                assert(m[i]@.len() != m[j]@.len());
            } else if j == 65 {
                assert(m[i]@.len() != m[j]@.len());
            } else if j == 66 {
                assert(m[i]@.len() != m[j]@.len());
            } else if j == 67 {
                assert(m[i]@.len() != m[j]@.len());
            } else if j == 68 {
                assert(m[i]@.len() != m[j]@.len());
            } else if j == 69 {
                assert(m[i]@.len() != m[j]@.len());
            } else if j == 70 {
                assert(m[i]@.len() != m[j]@.len());
            }
        } else if i == 52 {
            if j == 53 {
                assert(m[i]@.len() != m[j]@.len());
            } else if j == 54 {
                assert(m[i]@.len() != m[j]@.len());
            } else if j == 55 {
                assert(m[i]@.len() != m[j]@.len());
            } else if j == 56 {
                assert(m[i]@.len() != m[j]@.len());
            } else if j == 57 {
                assert(m[i]@.len() != m[j]@.len());
            } else if j == 58 {
                assert(m[i]@.len() != m[j]@.len());
            } else if j == 59 {
                assert(m[i]@.len() != m[j]@.len());
            } else if j == 60 {
                assert(m[i]@.len() != m[j]@.len());
            } else if j == 61 {
                assert(m[i]@.len() != m[j]@.len());
            } else if j == 62 {
                assert(m[i]@.len() != m[j]@.len());
            } else if j == 63 {
                assert(m[i]@.len() != m[j]@.len());
            } else if j == 64 {
                assert(m[i]@.len() != m[j]@.len());
            } else if j == 65 {
                assert(m[i]@.len() != m[j]@.len());
            } else if j == 66 {
                assert(m[i]@.len() != m[j]@.len());
            } else if j == 67 {
                assert(m[i]@.len() != m[j]@.len());
            } else if j == 68 {
                assert(m[i]@.len() != m[j]@.len());
            } else if j == 69 {
                assert(m[i]@.len() != m[j]@.len());
            } else if j == 70 {
                assert(m[i]@.len() != m[j]@.len());
            }
        } else if i == 53 {
            if j == 54 {
                assert(m[i]@.len() != m[j]@.len());
            } else if j == 55 {
                assert(m[i]@.len() != m[j]@.len());
            } else if j == 56 {
                assert(m[i]@[8] != m[j]@[8]);
            } else if j == 57 {
                assert(m[i]@.len() != m[j]@.len());
            } else if j == 58 {
                assert(m[i]@.len() != m[j]@.len());
            } else if j == 59 {
                assert(m[i]@.len() != m[j]@.len());
            } else if j == 60 {
                assert(m[i]@.len() != m[j]@.len());
            } else if j == 61 {
                assert(m[i]@.len() != m[j]@.len());
            } else if j == 62 {
                assert(m[i]@.len() != m[j]@.len());
            } else if j == 63 {
                assert(m[i]@.len() != m[j]@.len());
            } else if j == 64 {
                assert(m[i]@.len() != m[j]@.len());
            } else if j == 65 {
                assert(m[i]@.len() != m[j]@.len());
            } else if j == 66 {
                assert(m[i]@.len() != m[j]@.len());
            } else if j == 67 {
                assert(m[i]@.len() != m[j]@.len());
            } else if j == 68 {
                assert(m[i]@.len() != m[j]@.len());
            } else if j == 69 {
                assert(m[i]@.len() != m[j]@.len());
            } else if j == 70 {
                assert(m[i]@.len() != m[j]@.len());
            }
        } else if i == 54 {
            if j == 55 {
                assert(m[i]@.len() != m[j]@.len());
            } else if j == 56 {
                assert(m[i]@.len() != m[j]@.len());
            } else if j == 57 {
                assert(m[i]@.len() != m[j]@.len());
            } else if j == 58 {
                assert(m[i]@.len() != m[j]@.len());
            } else if j == 59 {
                assert(m[i]@.len() != m[j]@.len());
            } else if j == 60 {
                assert(m[i]@.len() != m[j]@.len());
            } else if j == 61 {
                assert(m[i]@.len() != m[j]@.len());
            } else if j == 62 {
                assert(m[i]@.len() != m[j]@.len());
            } else if j == 63 {
                assert(m[i]@.len() != m[j]@.len());
            } else if j == 64 {
                assert(m[i]@.len() != m[j]@.len());
            } else if j == 65 {
                assert(m[i]@.len() != m[j]@.len());
            } else if j == 66 {
                assert(m[i]@.len() != m[j]@.len());
            } else if j == 67 {
                assert(m[i]@.len() != m[j]@.len());
            } else if j == 68 {
                assert(m[i]@.len() != m[j]@.len());
            } else if j == 69 {
                assert(m[i]@.len() != m[j]@.len());
            } else if j == 70 {
                assert(m[i]@.len() != m[j]@.len());
            }
        } else if i == 55 {
            if j == 56 {
                assert(m[i]@.len() != m[j]@.len());
            } else if j == 57 {
                assert(m[i]@.len() != m[j]@.len());
            } else if j == 58 {
                assert(m[i]@.len() != m[j]@.len());
            } else if j == 59 {
                assert(m[i]@.len() != m[j]@.len());
            } else if j == 60 {
                assert(m[i]@.len() != m[j]@.len());
            } else if j == 61 {
                assert(m[i]@.len() != m[j]@.len());
            } else if j == 62 {
                assert(m[i]@.len() != m[j]@.len());
            } else if j == 63 {
                assert(m[i]@.len() != m[j]@.len());
            } else if j == 64 {
                assert(m[i]@.len() != m[j]@.len());
            } else if j == 65 {
                assert(m[i]@.len() != m[j]@.len());
            } else if j == 66 {
                assert(m[i]@.len() != m[j]@.len());
            } else if j == 67 {
                assert(m[i]@.len() != m[j]@.len());
            } else if j == 68 {
                assert(m[i]@.len() != m[j]@.len());
            } else if j == 69 {
                assert(m[i]@.len() != m[j]@.len());
            } else if j == 70 {
                assert(m[i]@.len() != m[j]@.len());
            }
        } else if i == 56 {
            if j == 57 {
                assert(m[i]@.len() != m[j]@.len());
            } else if j == 58 {
                assert(m[i]@.len() != m[j]@.len());
            } else if j == 59 {
                assert(m[i]@.len() != m[j]@.len());
            } else if j == 60 {
                assert(m[i]@.len() != m[j]@.len());
            } else if j == 61 {
                assert(m[i]@.len() != m[j]@.len());
            } else if j == 62 {
                assert(m[i]@.len() != m[j]@.len());
            } else if j == 63 {
                assert(m[i]@.len() != m[j]@.len());
            } else if j == 64 {
                assert(m[i]@.len() != m[j]@.len());
            } else if j == 65 {
                assert(m[i]@.len() != m[j]@.len());
            } else if j == 66 {
                assert(m[i]@.len() != m[j]@.len());
            } else if j == 67 {
                assert(m[i]@.len() != m[j]@.len());
            } else if j == 68 {
                assert(m[i]@.len() != m[j]@.len());
            } else if j == 69 {
                assert(m[i]@.len() != m[j]@.len());
            } else if j == 70 {
                assert(m[i]@.len() != m[j]@.len());
            }
        } else if i == 57 {
            if j == 58 {
                assert(m[i]@.len() != m[j]@.len());
            } else if j == 59 {
                assert(m[i]@.len() != m[j]@.len());
            } else if j == 60 {
                assert(m[i]@.len() != m[j]@.len());
            } else if j == 61 {
                assert(m[i]@.len() != m[j]@.len());
            } else if j == 62 {
                assert(m[i]@.len() != m[j]@.len());
            } else if j == 63 {
                assert(m[i]@.len() != m[j]@.len());
            } else if j == 64 {
                assert(m[i]@.len() != m[j]@.len());
            } else if j == 65 {
                assert(m[i]@.len() != m[j]@.len());
            } else if j == 66 {
                assert(m[i]@.len() != m[j]@.len());
            } else if j == 67 {
                assert(m[i]@.len() != m[j]@.len());
            } else if j == 68 {
                assert(m[i]@.len() != m[j]@.len());
            } else if j == 69 {
                assert(m[i]@.len() != m[j]@.len());
            } else if j == 70 {
                assert(m[i]@.len() != m[j]@.len());
            }
        } else if i == 58 {
            if j == 59 {
                assert(m[i]@.len() != m[j]@.len());
            } else if j == 60 {
                assert(m[i]@.len() != m[j]@.len());
            } else if j == 61 {
                assert(m[i]@.len() != m[j]@.len());
            } else if j == 62 {
                assert(m[i]@.len() != m[j]@.len());
            } else if j == 63 {
                assert(m[i]@.len() != m[j]@.len());
            } else if j == 64 {
                assert(m[i]@.len() != m[j]@.len());
            } else if j == 65 {
                assert(m[i]@.len() != m[j]@.len());
            } else if j == 66 {
                assert(m[i]@.len() != m[j]@.len());
            } else if j == 67 {
                assert(m[i]@.len() != m[j]@.len());
            } else if j == 68 {
                assert(m[i]@.len() != m[j]@.len());
            } else if j == 69 {
                assert(m[i]@.len() != m[j]@.len());
            } else if j == 70 {
                assert(m[i]@.len() != m[j]@.len());
            }
        } else if i == 59 {
            if j == 60 {
                assert(m[i]@.len() != m[j]@.len());
            } else if j == 61 {
                assert(m[i]@.len() != m[j]@.len());
            } else if j == 62 {
                assert(m[i]@.len() != m[j]@.len());
            } else if j == 63 {
                assert(m[i]@.len() != m[j]@.len());
            } else if j == 64 {
                assert(m[i]@.len() != m[j]@.len());
            } else if j == 65 {
                assert(m[i]@.len() != m[j]@.len());
            } else if j == 66 {
                assert(m[i]@.len() != m[j]@.len());
            } else if j == 67 {
                assert(m[i]@.len() != m[j]@.len());
            } else if j == 68 {
                assert(m[i]@.len() != m[j]@.len());
            } else if j == 69 {
                assert(m[i]@.len() != m[j]@.len());
            } else if j == 70 {
                assert(m[i]@.len() != m[j]@.len());
            }
        } else if i == 60 {
            if j == 61 {
                assert(m[i]@.len() != m[j]@.len());
            } else if j == 62 {
                assert(m[i]@.len() != m[j]@.len());
            } else if j == 63 {
                assert(m[i]@.len() != m[j]@.len());
            } else if j == 64 {
                assert(m[i]@.len() != m[j]@.len());
            } else if j == 65 {
                assert(m[i]@.len() != m[j]@.len());
            } else if j == 66 {
                assert(m[i]@.len() != m[j]@.len());
            } else if j == 67 {
                assert(m[i]@[8] != m[j]@[8]);
            } else if j == 68 {
                assert(m[i]@.len() != m[j]@.len());
            } else if j == 69 {
                assert(m[i]@.len() != m[j]@.len());
            } else if j == 70 {
                assert(m[i]@.len() != m[j]@.len());
            }
        } else if i == 61 {
            if j == 62 {
                assert(m[i]@.len() != m[j]@.len());
            } else if j == 63 {
                assert(m[i]@.len() != m[j]@.len());
            } else if j == 64 {
                assert(m[i]@.len() != m[j]@.len());
            } else if j == 65 {
                assert(m[i]@.len() != m[j]@.len());
            } else if j == 66 {
                assert(m[i]@.len() != m[j]@.len());
            } else if j == 67 {
                assert(m[i]@.len() != m[j]@.len());
            } else if j == 68 {
                assert(m[i]@.len() != m[j]@.len());
            } else if j == 69 {
                assert(m[i]@.len() != m[j]@.len());
            } else if j == 70 {
                assert(m[i]@.len() != m[j]@.len());
            }
        } else if i == 62 {
            if j == 63 {
                assert(m[i]@.len() != m[j]@.len());
            } else if j == 64 {
                assert(m[i]@.len() != m[j]@.len());
            } else if j == 65 {
                assert(m[i]@.len() != m[j]@.len());
            } else if j == 66 {
                assert(m[i]@.len() != m[j]@.len());
            } else if j == 67 {
                assert(m[i]@.len() != m[j]@.len());
            } else if j == 68 {
                assert(m[i]@.len() != m[j]@.len());
            } else if j == 69 {
                assert(m[i]@.len() != m[j]@.len());
            } else if j == 70 {
                assert(m[i]@[8] != m[j]@[8]);
            }
        } else if i == 63 {
            if j == 64 {
                assert(m[i]@.len() != m[j]@.len());
            } else if j == 65 {
                assert(m[i]@.len() != m[j]@.len());
            } else if j == 66 {
                assert(m[i]@.len() != m[j]@.len());
            } else if j == 67 {
                assert(m[i]@.len() != m[j]@.len());
            } else if j == 68 {
                assert(m[i]@.len() != m[j]@.len());
            } else if j == 69 {
                assert(m[i]@.len() != m[j]@.len());
            } else if j == 70 {
                assert(m[i]@.len() != m[j]@.len());
            }
        } else if i == 64 {
            if j == 65 {
                assert(m[i]@[26] != m[j]@[26]);
            } else if j == 66 {
                assert(m[i]@.len() != m[j]@.len());
            } else if j == 67 {
                assert(m[i]@.len() != m[j]@.len());
            } else if j == 68 {
                assert(m[i]@.len() != m[j]@.len());
            } else if j == 69 {
                assert(m[i]@.len() != m[j]@.len());
            } else if j == 70 {
                assert(m[i]@.len() != m[j]@.len());
            }
        } else if i == 65 {
            if j == 66 {
                assert(m[i]@.len() != m[j]@.len());
            } else if j == 67 {
                assert(m[i]@.len() != m[j]@.len());
            } else if j == 68 {
                assert(m[i]@.len() != m[j]@.len());
            } else if j == 69 {
                assert(m[i]@.len() != m[j]@.len());
            } else if j == 70 {
                assert(m[i]@.len() != m[j]@.len());
            }
        } else if i == 66 {
            if j == 67 {
                assert(m[i]@.len() != m[j]@.len());
            } else if j == 68 {
                assert(m[i]@.len() != m[j]@.len());
            } else if j == 69 {
                assert(m[i]@.len() != m[j]@.len());
            } else if j == 70 {
                assert(m[i]@.len() != m[j]@.len());
            }
        } else if i == 67 {
            if j == 68 {
                assert(m[i]@.len() != m[j]@.len());
            } else if j == 69 {
                assert(m[i]@.len() != m[j]@.len());
            } else if j == 70 {
                assert(m[i]@.len() != m[j]@.len());
            }
        } else if i == 68 {
            if j == 69 {
                assert(m[i]@.len() != m[j]@.len());
            } else if j == 70 {
                assert(m[i]@.len() != m[j]@.len());
            }
        } else if i == 69 {
            if j == 70 {
                assert(m[i]@.len() != m[j]@.len());
            }
        } else if i == 70 {
        }
    }
}

/// The chat columns: 17 texts, the first `chat.ROWID` and the last `chat.last_read_message_timestamp`, each
/// naming a column of the `chat` table (it starts with `chat.`), no two alike.
pub proof fn law_chat_columns()
    ensures
        chat_columns().len() == 17,
        chat_columns()[0]@ == "chat.ROWID"@,
        chat_columns()[16]@ == "chat.last_read_message_timestamp"@,
        forall|i: int|
            0 <= i < 17 ==> (#[trigger] chat_columns()[i])@.len() > 5 && chat_columns()[i]@.take(5) == "chat."@,
        forall|i: int, j: int|
            0 <= i < j < 17 ==> (#[trigger] chat_columns()[i])@ != (#[trigger] chat_columns()[j])@,
{
    reveal_strlit("chat.");
    reveal_strlit("chat.ROWID");
    reveal_strlit("chat.guid");
    reveal_strlit("chat.style");
    reveal_strlit("chat.state");
    reveal_strlit("chat.account_id");
    reveal_strlit("chat.properties");
    reveal_strlit("chat.chat_identifier");
    reveal_strlit("chat.service_name");
    reveal_strlit("chat.room_name");
    reveal_strlit("chat.account_login");
    reveal_strlit("chat.is_archived");
    reveal_strlit("chat.last_addressed_handle");
    reveal_strlit("chat.display_name");
    reveal_strlit("chat.group_id");
    reveal_strlit("chat.is_filtered");
    reveal_strlit("chat.successful_query");
    reveal_strlit("chat.last_read_message_timestamp");
    let m = chat_columns();
    assert forall|i: int| 0 <= i < 17 implies (#[trigger] m[i])@.len() > 5 && m[i]@.take(5) == "chat."@ by {
        if i == 0 {
            assert(m[i]@.take(5) =~= "chat."@);
        } else if i == 1 {
            assert(m[i]@.take(5) =~= "chat."@);
        } else if i == 2 {
            assert(m[i]@.take(5) =~= "chat."@);
        } else if i == 3 {
            assert(m[i]@.take(5) =~= "chat."@);
        } else if i == 4 {
            assert(m[i]@.take(5) =~= "chat."@);
        } else if i == 5 {
            assert(m[i]@.take(5) =~= "chat."@);
        } else if i == 6 {
            assert(m[i]@.take(5) =~= "chat."@);
        } else if i == 7 {
            assert(m[i]@.take(5) =~= "chat."@);
        } else if i == 8 {
            assert(m[i]@.take(5) =~= "chat."@);
        } else if i == 9 {
            assert(m[i]@.take(5) =~= "chat."@);
        } else if i == 10 {
            assert(m[i]@.take(5) =~= "chat."@);
        } else if i == 11 {
            assert(m[i]@.take(5) =~= "chat."@);
        } else if i == 12 {
            assert(m[i]@.take(5) =~= "chat."@);
        } else if i == 13 {
            assert(m[i]@.take(5) =~= "chat."@);
        } else if i == 14 {
            assert(m[i]@.take(5) =~= "chat."@);
        } else if i == 15 {
            assert(m[i]@.take(5) =~= "chat."@);
        } else if i == 16 {
            assert(m[i]@.take(5) =~= "chat."@);
        }
    }
    assert forall|i: int, j: int| 0 <= i < j < 17 implies (#[trigger] m[i])@ != (#[trigger] m[j])@ by {
        if i == 0 {
            if j == 1 {
                assert(m[i]@.len() != m[j]@.len());
            } else if j == 2 {
                assert(m[i]@[5] != m[j]@[5]);
            } else if j == 3 {
                assert(m[i]@[5] != m[j]@[5]);
            } else if j == 4 {
                assert(m[i]@.len() != m[j]@.len());
            } else if j == 5 {
                assert(m[i]@.len() != m[j]@.len());
            } else if j == 6 {
                assert(m[i]@.len() != m[j]@.len());
            } else if j == 7 {
                assert(m[i]@.len() != m[j]@.len());
            } else if j == 8 {
                assert(m[i]@.len() != m[j]@.len());
            } else if j == 9 {
                assert(m[i]@.len() != m[j]@.len());
            } else if j == 10 {
                assert(m[i]@.len() != m[j]@.len());
            } else if j == 11 {
                assert(m[i]@.len() != m[j]@.len());
            } else if j == 12 {
                assert(m[i]@.len() != m[j]@.len());
            } else if j == 13 {
                assert(m[i]@.len() != m[j]@.len());
            } else if j == 14 {
                assert(m[i]@.len() != m[j]@.len());
            } else if j == 15 {
                assert(m[i]@.len() != m[j]@.len());
            } else if j == 16 {
                assert(m[i]@.len() != m[j]@.len());
            }
        } else if i == 1 {
            if j == 2 {
                assert(m[i]@.len() != m[j]@.len());
            } else if j == 3 {
                assert(m[i]@.len() != m[j]@.len());
            } else if j == 4 {
                assert(m[i]@.len() != m[j]@.len());
            } else if j == 5 {
                assert(m[i]@.len() != m[j]@.len());
            } else if j == 6 {
                assert(m[i]@.len() != m[j]@.len());
            } else if j == 7 {
                assert(m[i]@.len() != m[j]@.len());
            } else if j == 8 {
                assert(m[i]@.len() != m[j]@.len());
            } else if j == 9 {
                assert(m[i]@.len() != m[j]@.len());
            } else if j == 10 {
                assert(m[i]@.len() != m[j]@.len());
            } else if j == 11 {
                assert(m[i]@.len() != m[j]@.len());
            } else if j == 12 {
                assert(m[i]@.len() != m[j]@.len());
            } else if j == 13 {
                assert(m[i]@.len() != m[j]@.len());
            } else if j == 14 {
                assert(m[i]@.len() != m[j]@.len());
            } else if j == 15 {
                assert(m[i]@.len() != m[j]@.len());
            } else if j == 16 {
                assert(m[i]@.len() != m[j]@.len());
            }
        } else if i == 2 {
            if j == 3 {
                assert(m[i]@[7] != m[j]@[7]);
            } else if j == 4 {
                assert(m[i]@.len() != m[j]@.len());
            } else if j == 5 {
                assert(m[i]@.len() != m[j]@.len());
            } else if j == 6 {
                assert(m[i]@.len() != m[j]@.len());
            } else if j == 7 {
                assert(m[i]@.len() != m[j]@.len());
            } else if j == 8 {
                assert(m[i]@.len() != m[j]@.len());
            } else if j == 9 {
                assert(m[i]@.len() != m[j]@.len());
            } else if j == 10 {
                assert(m[i]@.len() != m[j]@.len());
            } else if j == 11 {
                assert(m[i]@.len() != m[j]@.len());
            } else if j == 12 {
                assert(m[i]@.len() != m[j]@.len());
            } else if j == 13 {
                assert(m[i]@.len() != m[j]@.len());
            } else if j == 14 {
                assert(m[i]@.len() != m[j]@.len());
            } else if j == 15 {
                assert(m[i]@.len() != m[j]@.len());
            } else if j == 16 {
                assert(m[i]@.len() != m[j]@.len());
            }
        } else if i == 3 {
            if j == 4 {
                assert(m[i]@.len() != m[j]@.len());
            } else if j == 5 {
                assert(m[i]@.len() != m[j]@.len());
            } else if j == 6 {
                assert(m[i]@.len() != m[j]@.len());
            } else if j == 7 {
                assert(m[i]@.len() != m[j]@.len());
            } else if j == 8 {
                assert(m[i]@.len() != m[j]@.len());
            } else if j == 9 {
                assert(m[i]@.len() != m[j]@.len());
            } else if j == 10 {
                assert(m[i]@.len() != m[j]@.len());
            } else if j == 11 {
                assert(m[i]@.len() != m[j]@.len());
            } else if j == 12 {
                assert(m[i]@.len() != m[j]@.len());
            } else if j == 13 {
                assert(m[i]@.len() != m[j]@.len());
            } else if j == 14 {
                assert(m[i]@.len() != m[j]@.len());
            } else if j == 15 {
                assert(m[i]@.len() != m[j]@.len());
            } else if j == 16 {
                assert(m[i]@.len() != m[j]@.len());
            }
        } else if i == 4 {
            if j == 5 {
                assert(m[i]@[5] != m[j]@[5]);
            } else if j == 6 {
                assert(m[i]@.len() != m[j]@.len());
            } else if j == 7 {
                assert(m[i]@.len() != m[j]@.len());
            } else if j == 8 {
                assert(m[i]@.len() != m[j]@.len());
            } else if j == 9 {
                assert(m[i]@.len() != m[j]@.len());
            } else if j == 10 {
                assert(m[i]@.len() != m[j]@.len());
            } else if j == 11 {
                assert(m[i]@.len() != m[j]@.len());
            } else if j == 12 {
                assert(m[i]@.len() != m[j]@.len());
            } else if j == 13 {
                assert(m[i]@.len() != m[j]@.len());
            } else if j == 14 {
                assert(m[i]@.len() != m[j]@.len());
            } else if j == 15 {
                assert(m[i]@.len() != m[j]@.len());
            } else if j == 16 {
                assert(m[i]@.len() != m[j]@.len());
            }
        } else if i == 5 {
            if j == 6 {
                assert(m[i]@.len() != m[j]@.len());
            } else if j == 7 {
                assert(m[i]@.len() != m[j]@.len());
            } else if j == 8 {
                assert(m[i]@.len() != m[j]@.len());
            } else if j == 9 {
                assert(m[i]@.len() != m[j]@.len());
            } else if j == 10 {
                assert(m[i]@.len() != m[j]@.len());
            } else if j == 11 {
                assert(m[i]@.len() != m[j]@.len());
            } else if j == 12 {
                assert(m[i]@.len() != m[j]@.len());
            } else if j == 13 {
                assert(m[i]@.len() != m[j]@.len());
            } else if j == 14 {
                assert(m[i]@.len() != m[j]@.len());
            } else if j == 15 {
                assert(m[i]@.len() != m[j]@.len());
            } else if j == 16 {
                assert(m[i]@.len() != m[j]@.len());
            }
        } else if i == 6 {
            if j == 7 {
                assert(m[i]@.len() != m[j]@.len());
            } else if j == 8 {
                assert(m[i]@.len() != m[j]@.len());
            } else if j == 9 {
                assert(m[i]@.len() != m[j]@.len());
            } else if j == 10 {
                assert(m[i]@.len() != m[j]@.len());
            } else if j == 11 {
                assert(m[i]@.len() != m[j]@.len());
            } else if j == 12 {
                assert(m[i]@.len() != m[j]@.len());
            } else if j == 13 {
                assert(m[i]@.len() != m[j]@.len());
            } else if j == 14 {
                assert(m[i]@.len() != m[j]@.len());
            } else if j == 15 {
                assert(m[i]@.len() != m[j]@.len());
            } else if j == 16 {
                assert(m[i]@.len() != m[j]@.len());
            }
        } else if i == 7 {
            if j == 8 {
                assert(m[i]@.len() != m[j]@.len());
            } else if j == 9 {
                assert(m[i]@.len() != m[j]@.len());
            } else if j == 10 {
                assert(m[i]@.len() != m[j]@.len());
            } else if j == 11 {
                assert(m[i]@.len() != m[j]@.len());
            } else if j == 12 {
                assert(m[i]@[5] != m[j]@[5]);
            } else if j == 13 {
                assert(m[i]@.len() != m[j]@.len());
            } else if j == 14 {
                assert(m[i]@.len() != m[j]@.len());
            } else if j == 15 {
                assert(m[i]@.len() != m[j]@.len());
            } else if j == 16 {
                assert(m[i]@.len() != m[j]@.len());
            }
        } else if i == 8 {
            if j == 9 {
                assert(m[i]@.len() != m[j]@.len());
            } else if j == 10 {
                assert(m[i]@.len() != m[j]@.len());
            } else if j == 11 {
                assert(m[i]@.len() != m[j]@.len());
            } else if j == 12 {
                assert(m[i]@.len() != m[j]@.len());
            } else if j == 13 {
                assert(m[i]@.len() != m[j]@.len());
            } else if j == 14 {
                assert(m[i]@.len() != m[j]@.len());
            } else if j == 15 {
                assert(m[i]@.len() != m[j]@.len());
            } else if j == 16 {
                assert(m[i]@.len() != m[j]@.len());
            }
        } else if i == 9 {
            if j == 10 {
                assert(m[i]@.len() != m[j]@.len());
            } else if j == 11 {
                assert(m[i]@.len() != m[j]@.len());
            } else if j == 12 {
                assert(m[i]@.len() != m[j]@.len());
            } else if j == 13 {
                assert(m[i]@.len() != m[j]@.len());
            } else if j == 14 {
                assert(m[i]@.len() != m[j]@.len());
            } else if j == 15 {
                assert(m[i]@.len() != m[j]@.len());
            } else if j == 16 {
                assert(m[i]@.len() != m[j]@.len());
            }
        } else if i == 10 {
            if j == 11 {
                assert(m[i]@.len() != m[j]@.len());
            } else if j == 12 {
                assert(m[i]@.len() != m[j]@.len());
            } else if j == 13 {
                assert(m[i]@.len() != m[j]@.len());
            } else if j == 14 {
                assert(m[i]@[8] != m[j]@[8]);
            } else if j == 15 {
                assert(m[i]@.len() != m[j]@.len());
            } else if j == 16 {
                assert(m[i]@.len() != m[j]@.len());
            }
        } else if i == 11 {
            if j == 12 {
                assert(m[i]@.len() != m[j]@.len());
            } else if j == 13 {
                assert(m[i]@.len() != m[j]@.len());
            } else if j == 14 {
                assert(m[i]@.len() != m[j]@.len());
            } else if j == 15 {
                assert(m[i]@.len() != m[j]@.len());
            } else if j == 16 {
                assert(m[i]@.len() != m[j]@.len());
            }
        } else if i == 12 {
            if j == 13 {
                assert(m[i]@.len() != m[j]@.len());
            } else if j == 14 {
                assert(m[i]@.len() != m[j]@.len());
            } else if j == 15 {
                assert(m[i]@.len() != m[j]@.len());
            } else if j == 16 {
                assert(m[i]@.len() != m[j]@.len());
            }
        } else if i == 13 {
            if j == 14 {
                assert(m[i]@.len() != m[j]@.len());
            } else if j == 15 {
                assert(m[i]@.len() != m[j]@.len());
            } else if j == 16 {
                assert(m[i]@.len() != m[j]@.len());
            }
        } else if i == 14 {
            if j == 15 {
                assert(m[i]@.len() != m[j]@.len());
            } else if j == 16 {
                assert(m[i]@.len() != m[j]@.len());
            }
        } else if i == 15 {
            if j == 16 {
                assert(m[i]@.len() != m[j]@.len());
            }
        } else if i == 16 {
        }
    }
}

/// The attachment columns: 17 texts, the first `attachment.ROWID` and the last `attachment.original_guid`, each
/// naming a column of the `attachment` table (it starts with `attachment.`), no two alike.
pub proof fn law_attachment_columns()
    ensures
        attachment_columns().len() == 17,
        attachment_columns()[0]@ == "attachment.ROWID"@,
        attachment_columns()[16]@ == "attachment.original_guid"@,
        forall|i: int|
            0 <= i < 17 ==> (#[trigger] attachment_columns()[i])@.len() > 11 && attachment_columns()[i]@.take(11) == "attachment."@,
        forall|i: int, j: int|
            0 <= i < j < 17 ==> (#[trigger] attachment_columns()[i])@ != (#[trigger] attachment_columns()[j])@,
{
    reveal_strlit("attachment.");
    reveal_strlit("attachment.ROWID");
    reveal_strlit("attachment.guid");
    reveal_strlit("attachment.created_date");
    reveal_strlit("attachment.start_date");
    reveal_strlit("attachment.filename");
    reveal_strlit("attachment.uti");
    reveal_strlit("attachment.mime_type");
    reveal_strlit("attachment.transfer_state");
    reveal_strlit("attachment.is_outgoing");
    reveal_strlit("attachment.user_info");
    reveal_strlit("attachment.transfer_name");
    reveal_strlit("attachment.total_bytes");
    reveal_strlit("attachment.is_sticker");
    reveal_strlit("attachment.sticker_user_info");
    reveal_strlit("attachment.attribution_info");
    reveal_strlit("attachment.hide_attachment");
    reveal_strlit("attachment.original_guid");
    let m = attachment_columns();
    assert forall|i: int| 0 <= i < 17 implies (#[trigger] m[i])@.len() > 11 && m[i]@.take(11) == "attachment."@ by {
        if i == 0 {
            assert(m[i]@.take(11) =~= "attachment."@);
        } else if i == 1 {
            assert(m[i]@.take(11) =~= "attachment."@);
        } else if i == 2 {
            assert(m[i]@.take(11) =~= "attachment."@);
        } else if i == 3 {
            assert(m[i]@.take(11) =~= "attachment."@);
        } else if i == 4 {
            assert(m[i]@.take(11) =~= "attachment."@);
        } else if i == 5 {
            assert(m[i]@.take(11) =~= "attachment."@);
        } else if i == 6 {
            assert(m[i]@.take(11) =~= "attachment."@);
        } else if i == 7 {
            assert(m[i]@.take(11) =~= "attachment."@);
        } else if i == 8 {
            assert(m[i]@.take(11) =~= "attachment."@);
        } else if i == 9 {
            assert(m[i]@.take(11) =~= "attachment."@);
        } else if i == 10 {
            assert(m[i]@.take(11) =~= "attachment."@);
        } else if i == 11 {
            assert(m[i]@.take(11) =~= "attachment."@);
        } else if i == 12 {
            assert(m[i]@.take(11) =~= "attachment."@);
        } else if i == 13 {
            assert(m[i]@.take(11) =~= "attachment."@);
        } else if i == 14 {
            assert(m[i]@.take(11) =~= "attachment."@);
        } else if i == 15 {
            assert(m[i]@.take(11) =~= "attachment."@);
        } else if i == 16 {
            assert(m[i]@.take(11) =~= "attachment."@);
        }
    }
    assert forall|i: int, j: int| 0 <= i < j < 17 implies (#[trigger] m[i])@ != (#[trigger] m[j])@ by {
        if i == 0 {
            if j == 1 {
                assert(m[i]@.len() != m[j]@.len());
            } else if j == 2 {
                assert(m[i]@.len() != m[j]@.len());
            } else if j == 3 {
                assert(m[i]@.len() != m[j]@.len());
            } else if j == 4 {
                assert(m[i]@.len() != m[j]@.len());
            } else if j == 5 {
                assert(m[i]@.len() != m[j]@.len());
            } else if j == 6 {
                assert(m[i]@.len() != m[j]@.len());
            } else if j == 7 {
                assert(m[i]@.len() != m[j]@.len());
            } else if j == 8 {
                assert(m[i]@.len() != m[j]@.len());
            } else if j == 9 {
                assert(m[i]@.len() != m[j]@.len());
            } else if j == 10 {
                assert(m[i]@.len() != m[j]@.len());
            } else if j == 11 {
                assert(m[i]@.len() != m[j]@.len());
            } else if j == 12 {
                assert(m[i]@.len() != m[j]@.len());
            } else if j == 13 {
                assert(m[i]@.len() != m[j]@.len());
            } else if j == 14 {
                assert(m[i]@.len() != m[j]@.len());
            } else if j == 15 {
                assert(m[i]@.len() != m[j]@.len());
            } else if j == 16 {
                assert(m[i]@.len() != m[j]@.len());
            }
        } else if i == 1 {
            if j == 2 {
                assert(m[i]@.len() != m[j]@.len());
            } else if j == 3 {
                assert(m[i]@.len() != m[j]@.len());
            } else if j == 4 {
                assert(m[i]@.len() != m[j]@.len());
            } else if j == 5 {
                assert(m[i]@.len() != m[j]@.len());
            } else if j == 6 {
                assert(m[i]@.len() != m[j]@.len());
            } else if j == 7 {
                assert(m[i]@.len() != m[j]@.len());
            } else if j == 8 {
                assert(m[i]@.len() != m[j]@.len());
            } else if j == 9 {
                assert(m[i]@.len() != m[j]@.len());
            } else if j == 10 {
                assert(m[i]@.len() != m[j]@.len());
            } else if j == 11 {
                assert(m[i]@.len() != m[j]@.len());
            } else if j == 12 {
                assert(m[i]@.len() != m[j]@.len());
            } else if j == 13 {
                assert(m[i]@.len() != m[j]@.len());
            } else if j == 14 {
                assert(m[i]@.len() != m[j]@.len());
            } else if j == 15 {
                assert(m[i]@.len() != m[j]@.len());
            } else if j == 16 {
                assert(m[i]@.len() != m[j]@.len());
            }
        } else if i == 2 {
            if j == 3 {
                assert(m[i]@.len() != m[j]@.len());
            } else if j == 4 {
                assert(m[i]@.len() != m[j]@.len());
            } else if j == 5 {
                assert(m[i]@.len() != m[j]@.len());
            } else if j == 6 {
                assert(m[i]@.len() != m[j]@.len());
            } else if j == 7 {
                assert(m[i]@.len() != m[j]@.len());
            } else if j == 8 {
                assert(m[i]@.len() != m[j]@.len());
            } else if j == 9 {
                assert(m[i]@.len() != m[j]@.len());
            } else if j == 10 {
                assert(m[i]@.len() != m[j]@.len());
            } else if j == 11 {
                assert(m[i]@.len() != m[j]@.len());
            } else if j == 12 {
                assert(m[i]@.len() != m[j]@.len());
            } else if j == 13 {
                assert(m[i]@.len() != m[j]@.len());
            } else if j == 14 {
                assert(m[i]@.len() != m[j]@.len());
            } else if j == 15 {
                assert(m[i]@.len() != m[j]@.len());
            } else if j == 16 {
                assert(m[i]@.len() != m[j]@.len());
            }
        } else if i == 3 {
            if j == 4 {
                assert(m[i]@.len() != m[j]@.len());
            } else if j == 5 {
                assert(m[i]@.len() != m[j]@.len());
            } else if j == 6 {
                assert(m[i]@.len() != m[j]@.len());
            } else if j == 7 {
                assert(m[i]@.len() != m[j]@.len());
            } else if j == 8 {
                assert(m[i]@.len() != m[j]@.len());
            } else if j == 9 {
                assert(m[i]@.len() != m[j]@.len());
            } else if j == 10 {
                assert(m[i]@.len() != m[j]@.len());
            } else if j == 11 {
                assert(m[i]@.len() != m[j]@.len());
            } else if j == 12 {
                assert(m[i]@[11] != m[j]@[11]);
            } else if j == 13 {
                assert(m[i]@.len() != m[j]@.len());
            } else if j == 14 {
                assert(m[i]@.len() != m[j]@.len());
            } else if j == 15 {
                assert(m[i]@.len() != m[j]@.len());
            } else if j == 16 {
                assert(m[i]@.len() != m[j]@.len());
            }
        } else if i == 4 {
            if j == 5 {
                assert(m[i]@.len() != m[j]@.len());
            } else if j == 6 {
                assert(m[i]@.len() != m[j]@.len());
            } else if j == 7 {
                assert(m[i]@.len() != m[j]@.len());
            } else if j == 8 {
                assert(m[i]@.len() != m[j]@.len());
            } else if j == 9 {
                assert(m[i]@.len() != m[j]@.len());
            } else if j == 10 {
                assert(m[i]@.len() != m[j]@.len());
            } else if j == 11 {
                assert(m[i]@.len() != m[j]@.len());
            } else if j == 12 {
                assert(m[i]@.len() != m[j]@.len());
            } else if j == 13 {
                assert(m[i]@.len() != m[j]@.len());
            } else if j == 14 {
                assert(m[i]@.len() != m[j]@.len());
            } else if j == 15 {
                assert(m[i]@.len() != m[j]@.len());
            } else if j == 16 {
                assert(m[i]@.len() != m[j]@.len());
            }
        } else if i == 5 {
            if j == 6 {
                assert(m[i]@.len() != m[j]@.len());
            } else if j == 7 {
                assert(m[i]@.len() != m[j]@.len());
            } else if j == 8 {
                assert(m[i]@.len() != m[j]@.len());
            } else if j == 9 {
                assert(m[i]@.len() != m[j]@.len());
            } else if j == 10 {
                assert(m[i]@.len() != m[j]@.len());
            } else if j == 11 {
                assert(m[i]@.len() != m[j]@.len());
            } else if j == 12 {
                assert(m[i]@.len() != m[j]@.len());
            } else if j == 13 {
                assert(m[i]@.len() != m[j]@.len());
            } else if j == 14 {
                assert(m[i]@.len() != m[j]@.len());
            } else if j == 15 {
                assert(m[i]@.len() != m[j]@.len());
            } else if j == 16 {
                assert(m[i]@.len() != m[j]@.len());
            }
        } else if i == 6 {
            if j == 7 {
                assert(m[i]@.len() != m[j]@.len());
            } else if j == 8 {
                assert(m[i]@.len() != m[j]@.len());
            } else if j == 9 {
                assert(m[i]@[11] != m[j]@[11]);
            } else if j == 10 {
                assert(m[i]@.len() != m[j]@.len());
            } else if j == 11 {
                assert(m[i]@.len() != m[j]@.len());
            } else if j == 12 {
                assert(m[i]@.len() != m[j]@.len());
            } else if j == 13 {
                assert(m[i]@.len() != m[j]@.len());
            } else if j == 14 {
                assert(m[i]@.len() != m[j]@.len());
            } else if j == 15 {
                assert(m[i]@.len() != m[j]@.len());
            } else if j == 16 {
                assert(m[i]@.len() != m[j]@.len());
            }
        } else if i == 7 {
            if j == 8 {
                assert(m[i]@.len() != m[j]@.len());
            } else if j == 9 {
                assert(m[i]@.len() != m[j]@.len());
            } else if j == 10 {
                assert(m[i]@.len() != m[j]@.len());
            } else if j == 11 {
                assert(m[i]@.len() != m[j]@.len());
            } else if j == 12 {
                assert(m[i]@.len() != m[j]@.len());
            } else if j == 13 {
                assert(m[i]@.len() != m[j]@.len());
            } else if j == 14 {
                assert(m[i]@.len() != m[j]@.len());
            } else if j == 15 {
                assert(m[i]@.len() != m[j]@.len());
            } else if j == 16 {
                assert(m[i]@.len() != m[j]@.len());
            }
        } else if i == 8 {
            if j == 9 {
                assert(m[i]@.len() != m[j]@.len());
            } else if j == 10 {
                assert(m[i]@.len() != m[j]@.len());
            } else if j == 11 {
                assert(m[i]@[11] != m[j]@[11]);
            } else if j == 12 {
                assert(m[i]@.len() != m[j]@.len());
            } else if j == 13 {
                assert(m[i]@.len() != m[j]@.len());
            } else if j == 14 {
                assert(m[i]@.len() != m[j]@.len());
            } else if j == 15 {
                assert(m[i]@.len() != m[j]@.len());
            } else if j == 16 {
                assert(m[i]@.len() != m[j]@.len());
            }
        } else if i == 9 {
            if j == 10 {
                assert(m[i]@.len() != m[j]@.len());
            } else if j == 11 {
                assert(m[i]@.len() != m[j]@.len());
            } else if j == 12 {
                assert(m[i]@.len() != m[j]@.len());
            } else if j == 13 {
                assert(m[i]@.len() != m[j]@.len());
            } else if j == 14 {
                assert(m[i]@.len() != m[j]@.len());
            } else if j == 15 {
                assert(m[i]@.len() != m[j]@.len());
            } else if j == 16 {
                assert(m[i]@.len() != m[j]@.len());
            }
        } else if i == 10 {
            if j == 11 {
                assert(m[i]@.len() != m[j]@.len());
            } else if j == 12 {
                assert(m[i]@.len() != m[j]@.len());
            } else if j == 13 {
                assert(m[i]@.len() != m[j]@.len());
            } else if j == 14 {
                assert(m[i]@.len() != m[j]@.len());
            } else if j == 15 {
                assert(m[i]@.len() != m[j]@.len());
            } else if j == 16 {
                assert(m[i]@[11] != m[j]@[11]);
            }
        } else if i == 11 {
            if j == 12 {
                assert(m[i]@.len() != m[j]@.len());
            } else if j == 13 {
                assert(m[i]@.len() != m[j]@.len());
            } else if j == 14 {
                assert(m[i]@.len() != m[j]@.len());
            } else if j == 15 {
                assert(m[i]@.len() != m[j]@.len());
            } else if j == 16 {
                assert(m[i]@.len() != m[j]@.len());
            }
        } else if i == 12 {
            if j == 13 {
                assert(m[i]@.len() != m[j]@.len());
            } else if j == 14 {
                assert(m[i]@.len() != m[j]@.len());
            } else if j == 15 {
                assert(m[i]@.len() != m[j]@.len());
            } else if j == 16 {
                assert(m[i]@.len() != m[j]@.len());
            }
        } else if i == 13 {
            if j == 14 {
                assert(m[i]@.len() != m[j]@.len());
            } else if j == 15 {
                assert(m[i]@.len() != m[j]@.len());
            } else if j == 16 {
                assert(m[i]@.len() != m[j]@.len());
            }
        } else if i == 14 {
            if j == 15 {
                assert(m[i]@.len() != m[j]@.len());
            } else if j == 16 {
                assert(m[i]@.len() != m[j]@.len());
            }
        } else if i == 15 {
            if j == 16 {
                assert(m[i]@.len() != m[j]@.len());
            }
        } else if i == 16 {
        }
    }
}

impl DetectedSchema {
    /// The SELECT column list for the message table.
    pub fn message_select_columns(&self) -> (r: Vec<&'static str>)
        ensures
            r@ == message_columns(),
    {
        let r = vec![
            "message.ROWID",
            "message.guid",
            "message.text",
            "message.replace",
            "message.service_center",
            "message.handle_id",
            "message.subject",
            "message.country",
            "message.attributedBody",
            "message.version",
            "message.type",
            "message.service",
            "message.account",
            "message.account_guid",
            "message.error",
            "message.date",
            "message.date_read",
            "message.date_delivered",
            "message.is_delivered",
            "message.is_finished",
            "message.is_emote",
            "message.is_from_me",
            "message.is_empty",
            "message.is_delayed",
            "message.is_auto_reply",
            "message.is_prepared",
            "message.is_read",
            "message.is_system_message",
            "message.is_sent",
            "message.has_dd_results",
            "message.is_service_message",
            "message.is_forward",
            "message.was_downgraded",
            "message.is_archive",
            "message.cache_has_attachments",
            "message.cache_roomnames",
            "message.was_data_detected",
            "message.was_deduplicated",
            "message.is_audio_message",
            "message.is_played",
            "message.date_played",
            "message.item_type",
            "message.other_handle",
            "message.group_title",
            "message.group_action_type",
            "message.share_status",
            "message.share_direction",
            "message.is_expirable",
            "message.expire_state",
            "message.message_action_type",
            "message.message_source",
            "message.associated_message_guid",
            "message.associated_message_type",
            "message.associated_message_emoji",
            "message.balloon_bundle_id",
            "message.payload_data",
            "message.expressive_send_style_id",
            "message.associated_message_range_location",
            "message.associated_message_range_length",
            "message.time_expressive_send_played",
            "message.message_summary_info",
            "message.reply_to_guid",
            "message.is_corrupt",
            "message.is_spam",
            "message.thread_originator_guid",
            "message.thread_originator_part",
            "message.was_delivered_quietly",
            "message.did_notify_recipient",
            "message.date_retracted",
            "message.date_edited",
            "message.part_count"
        ];
        assert(r@ =~= message_columns());
        r
    }

    /// The SELECT column list for the chat table.
    pub fn chat_select_columns(&self) -> (r: Vec<&'static str>)
        ensures
            r@ == chat_columns(),
    {
        let r = vec![
            "chat.ROWID",
            "chat.guid",
            "chat.style",
            "chat.state",
            "chat.account_id",
            "chat.properties",
            "chat.chat_identifier",
            "chat.service_name",
            "chat.room_name",
            "chat.account_login",
            "chat.is_archived",
            "chat.last_addressed_handle",
            "chat.display_name",
            "chat.group_id",
            "chat.is_filtered",
            "chat.successful_query",
            "chat.last_read_message_timestamp"
        ];
        assert(r@ =~= chat_columns());
        r
    }

    /// The SELECT column list for the attachment table.
    pub fn attachment_select_columns(&self) -> (r: Vec<&'static str>)
        ensures
            r@ == attachment_columns(),
    {
        let r = vec![
            "attachment.ROWID",
            "attachment.guid",
            "attachment.created_date",
            "attachment.start_date",
            "attachment.filename",
            "attachment.uti",
            "attachment.mime_type",
            "attachment.transfer_state",
            "attachment.is_outgoing",
            "attachment.user_info",
            "attachment.transfer_name",
            "attachment.total_bytes",
            "attachment.is_sticker",
            "attachment.sticker_user_info",
            "attachment.attribution_info",
            "attachment.hide_attachment",
            "attachment.original_guid"
        ];
        assert(r@ =~= attachment_columns());
        r
    }
}

// ---------------------------------------------------------------------------
// Query parameters
// ---------------------------------------------------------------------------

/// Sort direction.
#[derive(Debug, Clone, Copy, PartialEq, Eq, Structural)]
pub enum SortOrder {
    Asc,
    Desc,
}

impl SortOrder {
    pub fn as_sql(&self) -> (r: &'static str)
        ensures
            r@ == (match self {
                SortOrder::Asc => "ASC"@,
                SortOrder::Desc => "DESC"@,
            }),
    {
        match self {
            SortOrder::Asc => "ASC",
            SortOrder::Desc => "DESC",
        }
    }
}

/// Parameters for querying updated messages.
#[derive(Debug, Clone)]
pub struct UpdatedMessageQueryParams {
    pub chat_guid: Option<String>,
    pub offset: i64,
    pub limit: i64,
    pub after: Option<i64>,
    pub before: Option<i64>,
    pub with_chats: bool,
    pub with_attachments: bool,
    pub include_created: bool,
    pub sort: SortOrder,
}

impl Default for UpdatedMessageQueryParams {
    fn default() -> (r: Self)
        ensures
            r.chat_guid is None && r.offset == 0 && r.limit == 100 && r.after is None
                && r.before is None && !r.with_chats && r.with_attachments && !r.include_created
                && r.sort == SortOrder::Desc,
    {
        Self {
            chat_guid: None,
            offset: 0,
            limit: 100,
            after: None,
            before: None,
            with_chats: false,
            with_attachments: true,
            include_created: false,
            sort: SortOrder::Desc,
        }
    }
}

/// Parameters for querying chats.
#[derive(Debug, Clone)]
pub struct ChatQueryParams {
    pub chat_guid: Option<String>,
    pub glob_guid: bool,
    pub with_participants: bool,
    pub with_last_message: bool,
    pub with_archived: bool,
    pub offset: i64,
    pub limit: Option<i64>,
    pub order_by: String,
}

impl Default for ChatQueryParams {
    fn default() -> (r: Self)
        ensures
            r.chat_guid is None && !r.glob_guid && r.with_participants && !r.with_last_message
                && r.with_archived && r.offset == 0 && r.limit is None && r.order_by@ == "chat.ROWID"@,
    {
        let o = chars_of("chat.ROWID");
        Self {
            chat_guid: None,
            glob_guid: false,
            with_participants: true,
            with_last_message: false,
            with_archived: true,
            offset: 0,
            limit: None,
            order_by: string_of(&o),
        }
    }
}

/// Parameters for querying handles.
#[derive(Debug, Clone)]
pub struct HandleQueryParams {
    pub address: Option<String>,
    pub offset: i64,
    pub limit: i64,
}

impl Default for HandleQueryParams {
    fn default() -> (r: Self)
        ensures
            r.address is None && r.offset == 0 && r.limit == 1000,
    {
        Self { address: None, offset: 0, limit: 1000 }
    }
}

/// A parsed FaceTime join notification: the IDs needed to admit a waiting member.
#[derive(Debug, Clone)]
pub struct FaceTimeJoinNotification {
    pub user_id: String,
    pub conversation_id: String,
}

/// Seconds between the Unix epoch (1970) and the Cocoa epoch (2001).
pub const COCOA_EPOCH_OFFSET_SECS: i64 = 978_307_200;

} // verus!

//! State and decisions of the chat.db pollers: which messages are new or
//! updated, and when the caches forget them.
use vstd::prelude::*;
use crate::clock::{instant_now, monotonic_ms};
use std::time::Instant;
use crate::db::{Chat, Message};
use crate::json::{json_view, put_field, Json, JsonModel};
use crate::decimal::{i64_text, int_text};
use crate::text::{chars_equal, chars_of, push_all, string_of, trim, trim_chars};
use crate::webhooks::{age, entries_view, has_key, keep_fresh};

verus! {

/// Cached state of a message, to detect updates.
#[derive(Debug, Clone, Copy, PartialEq, Eq, Structural)]
pub struct MessageState {
    pub date_created: i64,
    pub is_delivered: bool,
    pub date_delivered: i64,
    pub date_read: i64,
    pub date_edited: i64,
    pub date_retracted: i64,
    pub did_notify_recipient: bool,
    /// When the state was cached (ms on the poller's clock).
    pub cache_time: u64,
}

/// Cached state of a chat, to detect read-status changes.
#[derive(Debug, Clone, Copy, PartialEq, Eq, Structural)]
pub struct ChatState {
    pub last_read_message_timestamp: i64,
    pub cache_time: u64,
}

/// Combined poller state: seen message GUIDs, cached message and chat states.
pub struct PollerState {
    /// GUIDs of messages seen, with the time each was recorded.
    pub seen_guids: Vec<(String, u64)>,
    /// Cached message states for update detection.
    pub message_states: Vec<(String, MessageState)>,
    /// Cached chat states for read-status detection.
    pub chat_states: Vec<(String, ChatState)>,
    /// Cache TTL in milliseconds (one hour).
    pub cache_ttl_ms: u64,
    /// The instant the poller started; cache times count from it.
    pub origin: Instant,
}

pub open spec fn states_view(es: Seq<(String, MessageState)>) -> Seq<(Seq<char>, MessageState)> {
    es.map_values(|e: (String, MessageState)| (e.0@, e.1))
}

pub open spec fn chats_view(es: Seq<(String, ChatState)>) -> Seq<(Seq<char>, ChatState)> {
    es.map_values(|e: (String, ChatState)| (e.0@, e.1))
}

/// Message states still within `ttl` at `now`.
pub open spec fn fresh_states(es: Seq<(Seq<char>, MessageState)>, now: u64, ttl: u64) -> Seq<(Seq<char>, MessageState)>
    decreases es.len(),
{
    if es.len() == 0 {
        es
    } else {
        let rest = fresh_states(es.drop_last(), now, ttl);
        if age(es.last().1.cache_time, now) < ttl {
            rest.push(es.last())
        } else {
            rest
        }
    }
}

/// Chat states still within `ttl` at `now`.
pub open spec fn fresh_chats(es: Seq<(Seq<char>, ChatState)>, now: u64, ttl: u64) -> Seq<(Seq<char>, ChatState)>
    decreases es.len(),
{
    if es.len() == 0 {
        es
    } else {
        let rest = fresh_chats(es.drop_last(), now, ttl);
        if age(es.last().1.cache_time, now) < ttl {
            rest.push(es.last())
        } else {
            rest
        }
    }
}

proof fn lemma_keep_fresh_filter(es: Seq<(Seq<char>, u64)>, now: u64, ttl: u64)
    ensures
        keep_fresh(es, now, ttl) == es.filter(|e: (Seq<char>, u64)| age(e.1, now) < ttl),
    decreases es.len(),
{
    reveal(Seq::filter);
    if es.len() > 0 {
        lemma_keep_fresh_filter(es.drop_last(), now, ttl);
    }
}

proof fn lemma_fresh_states_filter(es: Seq<(Seq<char>, MessageState)>, now: u64, ttl: u64)
    ensures
        fresh_states(es, now, ttl) == es.filter(
            |e: (Seq<char>, MessageState)| age(e.1.cache_time, now) < ttl,
        ),
    decreases es.len(),
{
    reveal(Seq::filter);
    if es.len() > 0 {
        lemma_fresh_states_filter(es.drop_last(), now, ttl);
    }
}

proof fn lemma_fresh_chats_filter(es: Seq<(Seq<char>, ChatState)>, now: u64, ttl: u64)
    ensures
        fresh_chats(es, now, ttl) == es.filter(
            |e: (Seq<char>, ChatState)| age(e.1.cache_time, now) < ttl,
        ),
    decreases es.len(),
{
    reveal(Seq::filter);
    if es.len() > 0 {
        lemma_fresh_chats_filter(es.drop_last(), now, ttl);
    }
}

/// An entry stays in a filtered sequence if and only if it was there and
/// meets the filter.
proof fn lemma_filter_iff<A>(s: Seq<A>, p: spec_fn(A) -> bool, e: A)
    ensures
        s.filter(p).contains(e) <==> (s.contains(e) && p(e)),
{
    if s.filter(p).contains(e) {
        s.lemma_filter_contains_rev(p, e);
        let i = choose|i: int| 0 <= i < s.filter(p).len() && s.filter(p)[i] == e;
        s.lemma_filter_pred(p, i);
    }
    if s.contains(e) && p(e) {
        let i = choose|i: int| 0 <= i < s.len() && s[i] == e;
        s.lemma_filter_contains(p, i);
    }
}

proof fn lemma_filter_none<A>(s: Seq<A>, p: spec_fn(A) -> bool)
    requires
        forall|x: A| !#[trigger] p(x),
    ensures
        s.filter(p).len() == 0,
{
    if s.filter(p).len() > 0 {
        s.lemma_filter_pred(p, 0);
    }
}

/// Trimming the caches at `now` keeps, in their order, exactly the entries
/// cached less than `ttl` before `now`: each cache becomes its entries
/// filtered by age, an entry stays if and only if it was there and is
/// young enough, and with a TTL of 0 nothing stays.
pub proof fn law_trim_keeps_fresh(
    seen: Seq<(Seq<char>, u64)>,
    messages: Seq<(Seq<char>, MessageState)>,
    chats: Seq<(Seq<char>, ChatState)>,
    now: u64,
    ttl: u64,
)
    ensures
        keep_fresh(seen, now, ttl) == seen.filter(|e: (Seq<char>, u64)| age(e.1, now) < ttl),
        fresh_states(messages, now, ttl) == messages.filter(
            |e: (Seq<char>, MessageState)| age(e.1.cache_time, now) < ttl,
        ),
        fresh_chats(chats, now, ttl) == chats.filter(
            |e: (Seq<char>, ChatState)| age(e.1.cache_time, now) < ttl,
        ),
        forall|e: (Seq<char>, u64)|
            #[trigger] keep_fresh(seen, now, ttl).contains(e) <==> (seen.contains(e) && age(e.1, now)
                < ttl),
        forall|e: (Seq<char>, MessageState)|
            #[trigger] fresh_states(messages, now, ttl).contains(e) <==> (messages.contains(e)
                && age(e.1.cache_time, now) < ttl),
        forall|e: (Seq<char>, ChatState)|
            #[trigger] fresh_chats(chats, now, ttl).contains(e) <==> (chats.contains(e) && age(
                e.1.cache_time,
                now,
            ) < ttl),
        ttl == 0 ==> keep_fresh(seen, now, ttl).len() == 0 && fresh_states(messages, now, ttl).len()
            == 0 && fresh_chats(chats, now, ttl).len() == 0,
{
    lemma_keep_fresh_filter(seen, now, ttl);
    lemma_fresh_states_filter(messages, now, ttl);
    lemma_fresh_chats_filter(chats, now, ttl);
    let p1 = |e: (Seq<char>, u64)| age(e.1, now) < ttl;
    let p2 = |e: (Seq<char>, MessageState)| age(e.1.cache_time, now) < ttl;
    let p3 = |e: (Seq<char>, ChatState)| age(e.1.cache_time, now) < ttl;
    assert forall|e: (Seq<char>, u64)| #[trigger] keep_fresh(seen, now, ttl).contains(e) <==> (
    seen.contains(e) && age(e.1, now) < ttl) by {
        lemma_filter_iff(seen, p1, e);
    }
    assert forall|e: (Seq<char>, MessageState)| #[trigger] fresh_states(messages, now, ttl).contains(
        e,
    ) <==> (messages.contains(e) && age(e.1.cache_time, now) < ttl) by {
        lemma_filter_iff(messages, p2, e);
    }
    assert forall|e: (Seq<char>, ChatState)| #[trigger] fresh_chats(chats, now, ttl).contains(e)
        <==> (chats.contains(e) && age(e.1.cache_time, now) < ttl) by {
        lemma_filter_iff(chats, p3, e);
    }
    if ttl == 0 {
        lemma_filter_none(seen, p1);
        lemma_filter_none(messages, p2);
        lemma_filter_none(chats, p3);
    }
}

impl PollerState {
    pub fn new() -> (r: Self)
        ensures
            r.seen_guids@.len() == 0,
            r.message_states@.len() == 0,
            r.chat_states@.len() == 0,
            r.cache_ttl_ms == 3_600_000,
    {
        PollerState {
            seen_guids: Vec::new(),
            message_states: Vec::new(),
            chat_states: Vec::new(),
            cache_ttl_ms: 3_600_000,
            origin: instant_now(),
        }
    }

    /// Remove cache entries older than the TTL at `now`.
    pub fn trim_caches_at(&mut self, now: u64)
        ensures
            final(self).cache_ttl_ms == old(self).cache_ttl_ms,
            entries_view(final(self).seen_guids@) == keep_fresh(entries_view(old(self).seen_guids@), now, old(self).cache_ttl_ms),
            states_view(final(self).message_states@) == fresh_states(states_view(old(self).message_states@), now, old(self).cache_ttl_ms),
            chats_view(final(self).chat_states@) == fresh_chats(chats_view(old(self).chat_states@), now, old(self).cache_ttl_ms),
    {
        let ttl = self.cache_ttl_ms;

        let mut seen: Vec<(String, u64)> = Vec::new();
        let ghost v0 = entries_view(self.seen_guids@);
        let mut i: usize = 0;
        while i < self.seen_guids.len()
            invariant
                i <= self.seen_guids.len(),
                v0 == entries_view(self.seen_guids@),
                entries_view(seen@) == keep_fresh(v0.take(i as int), now, ttl),
            decreases self.seen_guids.len() - i,
        {
            assert(v0.take(i + 1).drop_last() =~= v0.take(i as int));
            let ts = self.seen_guids[i].1;
            let a: u64 = if now >= ts { now - ts } else { 0 };
            if a < ttl {
                let k = string_of(&chars_of(self.seen_guids[i].0.as_str()));
                seen.push((k, ts));
                assert(entries_view(seen@) =~= keep_fresh(v0.take(i as int), now, ttl).push(v0[i as int]));
            }
            i = i + 1;
        }
        assert(v0.take(v0.len() as int) =~= v0);
        self.seen_guids = seen;

        let mut states: Vec<(String, MessageState)> = Vec::new();
        let ghost s0 = states_view(self.message_states@);
        let mut i: usize = 0;
        while i < self.message_states.len()
            invariant
                i <= self.message_states.len(),
                s0 == states_view(self.message_states@),
                states_view(states@) == fresh_states(s0.take(i as int), now, ttl),
            decreases self.message_states.len() - i,
        {
            assert(s0.take(i + 1).drop_last() =~= s0.take(i as int));
            let st = self.message_states[i].1;
            let ts = st.cache_time;
            let a: u64 = if now >= ts { now - ts } else { 0 };
            if a < ttl {
                let k = string_of(&chars_of(self.message_states[i].0.as_str()));
                states.push((k, st));
                assert(states_view(states@) =~= fresh_states(s0.take(i as int), now, ttl).push(s0[i as int]));
            }
            i = i + 1;
        }
        assert(s0.take(s0.len() as int) =~= s0);
        self.message_states = states;

        let mut chats: Vec<(String, ChatState)> = Vec::new();
        let ghost c0 = chats_view(self.chat_states@);
        let mut i: usize = 0;
        while i < self.chat_states.len()
            invariant
                i <= self.chat_states.len(),
                c0 == chats_view(self.chat_states@),
                chats_view(chats@) == fresh_chats(c0.take(i as int), now, ttl),
            decreases self.chat_states.len() - i,
        {
            assert(c0.take(i + 1).drop_last() =~= c0.take(i as int));
            let st = self.chat_states[i].1;
            let ts = st.cache_time;
            let a: u64 = if now >= ts { now - ts } else { 0 };
            if a < ttl {
                let k = string_of(&chars_of(self.chat_states[i].0.as_str()));
                chats.push((k, st));
                assert(chats_view(chats@) =~= fresh_chats(c0.take(i as int), now, ttl).push(c0[i as int]));
            }
            i = i + 1;
        }
        assert(c0.take(c0.len() as int) =~= c0);
        self.chat_states = chats;
    }

    /// Trim all caches, removing entries older than the TTL (by the clock).
    pub fn trim_caches(&mut self)
        ensures
            final(self).cache_ttl_ms == old(self).cache_ttl_ms,
            exists|now: u64| {
                &&& entries_view(final(self).seen_guids@) == keep_fresh(entries_view(old(self).seen_guids@), now, old(self).cache_ttl_ms)
                &&& states_view(final(self).message_states@) == fresh_states(states_view(old(self).message_states@), now, old(self).cache_ttl_ms)
                &&& chats_view(final(self).chat_states@) == fresh_chats(chats_view(old(self).chat_states@), now, old(self).cache_ttl_ms)
            },
    {
        let now = monotonic_ms(&self.origin);
        self.trim_caches_at(now);
    }
}

// ---------------------------------------------------------------------------
// Message checks
// ---------------------------------------------------------------------------

pub open spec fn text_empty(text: Option<String>) -> bool {
    match text {
        None => true,
        Some(t) => trim(t@).len() == 0,
    }
}

/// No text, or only whitespace.
pub fn is_text_empty(text: &Option<String>) -> (r: bool)
    ensures
        r == text_empty(*text),
{
    match text {
        None => true,
        Some(t) => {
            let c = chars_of(t.as_str());
            trim_chars(&c).len() == 0
        },
    }
}

pub open spec fn date_at_or_after(val: Option<i64>, after: i64) -> bool {
    match val {
        Some(ms) => ms > 0 && ms >= after,
        None => false,
    }
}

pub open spec fn relevant(msg: Message, after: i64) -> bool {
    ||| date_at_or_after(msg.date, after)
    ||| date_at_or_after(msg.date_delivered, after)
    ||| date_at_or_after(msg.date_read, after)
    ||| date_at_or_after(msg.date_edited, after)
    ||| date_at_or_after(msg.date_retracted, after)
}

fn check_date(val: Option<i64>, after: i64) -> (r: bool)
    ensures
        r == date_at_or_after(val, after),
{
    match val {
        Some(ms) => ms > 0 && ms >= after,
        None => false,
    }
}

/// Whether any of the message's dates (Unix ms) is at or after the threshold.
pub fn is_message_relevant(msg: &Message, after_unix_ms: i64) -> (r: bool)
    ensures
        r == relevant(*msg, after_unix_ms),
{
    check_date(msg.date, after_unix_ms) || check_date(msg.date_delivered, after_unix_ms)
        || check_date(msg.date_read, after_unix_ms) || check_date(msg.date_edited, after_unix_ms)
        || check_date(msg.date_retracted, after_unix_ms)
}

pub open spec fn or_zero(v: Option<i64>) -> i64 {
    match v {
        Some(x) => x,
        None => 0,
    }
}

/// The state a message is cached as.
pub open spec fn state_of(msg: Message, now: u64) -> MessageState {
    MessageState {
        date_created: or_zero(msg.date),
        is_delivered: msg.is_delivered,
        date_delivered: or_zero(msg.date_delivered),
        date_read: or_zero(msg.date_read),
        date_edited: or_zero(msg.date_edited),
        date_retracted: or_zero(msg.date_retracted),
        did_notify_recipient: match msg.did_notify_recipient {
            Some(b) => b,
            None => false,
        },
        cache_time: now,
    }
}

/// A message differs from its cached state: a date moved later, or the
/// delivered or notified flag changed.
pub open spec fn updated(msg: Message, prev: MessageState) -> bool {
    let s = state_of(msg, prev.cache_time);
    ||| s.date_created > prev.date_created
    ||| s.date_delivered > prev.date_delivered
    ||| s.is_delivered != prev.is_delivered
    ||| s.date_read > prev.date_read
    ||| s.date_edited > prev.date_edited
    ||| s.date_retracted > prev.date_retracted
    ||| s.did_notify_recipient != prev.did_notify_recipient
}

fn opt_or_zero(v: Option<i64>) -> (r: i64)
    ensures
        r == or_zero(v),
{
    match v {
        Some(x) => x,
        None => 0,
    }
}

/// Check if a message has changed compared to its cached state.
pub fn is_message_updated(msg: &Message, prev: &MessageState) -> (r: bool)
    ensures
        r == updated(*msg, *prev),
{
    if opt_or_zero(msg.date) > prev.date_created {
        return true;
    }
    if opt_or_zero(msg.date_delivered) > prev.date_delivered {
        return true;
    }
    if msg.is_delivered != prev.is_delivered {
        return true;
    }
    if opt_or_zero(msg.date_read) > prev.date_read {
        return true;
    }
    if opt_or_zero(msg.date_edited) > prev.date_edited {
        return true;
    }
    if opt_or_zero(msg.date_retracted) > prev.date_retracted {
        return true;
    }
    let did_notify = match msg.did_notify_recipient {
        Some(b) => b,
        None => false,
    };
    if did_notify != prev.did_notify_recipient {
        return true;
    }
    false
}

/// The state-cache entry for `key` after caching `st`: replaced when
/// present, appended otherwise.
pub open spec fn cached<V>(es: Seq<(Seq<char>, V)>, key: Seq<char>, st: V) -> Seq<(Seq<char>, V)> {
    if exists|i: int| 0 <= i < es.len() && #[trigger] es[i].0 == key {
        es.update(first_key_index(es, key), (key, st))
    } else {
        es.push((key, st))
    }
}

/// Index of the first entry with the given key.
pub open spec fn first_key_index<V>(es: Seq<(Seq<char>, V)>, key: Seq<char>) -> int {
    choose|i: int| 0 <= i < es.len() && #[trigger] es[i].0 == key && forall|j: int| 0 <= j < i ==> es[j].0 != key
}

/// Save the current state of a message to the cache, at time `now`.
pub fn cache_message_state(states: &mut Vec<(String, MessageState)>, msg: &Message, now: u64)
    ensures
        states_view(final(states)@) == cached(states_view(old(states)@), msg.guid@, state_of(*msg, now)),
{
    let st = MessageState {
        date_created: opt_or_zero(msg.date),
        is_delivered: msg.is_delivered,
        date_delivered: opt_or_zero(msg.date_delivered),
        date_read: opt_or_zero(msg.date_read),
        date_edited: opt_or_zero(msg.date_edited),
        date_retracted: opt_or_zero(msg.date_retracted),
        did_notify_recipient: match msg.did_notify_recipient {
            Some(b) => b,
            None => false,
        },
        cache_time: now,
    };
    let key = chars_of(msg.guid.as_str());
    let ghost v0 = states_view(states@);
    let mut i: usize = 0;
    while i < states.len()
        invariant
            i <= states.len(),
            v0 == states_view(states@),
            v0 == states_view(old(states)@),
            st == state_of(*msg, now),
            key@ == msg.guid@,
            forall|j: int| 0 <= j < i ==> #[trigger] v0[j].0 != key@,
        decreases states.len() - i,
    {
        let c = chars_of(states[i].0.as_str());
        if chars_equal(&c, &key) {
            let k = string_of(&key);
            states.set(i, (k, st));
            proof {
                assert(0 <= i < v0.len() && v0[i as int].0 == key@ && forall|j: int| 0 <= j < i ==> v0[j].0 != key@);
                let w = first_key_index(v0, key@);
                assert(v0[i as int].0 == key@);
                if w < i {
                    assert(v0[w].0 != key@);
                } else if w > i {
                    assert(v0[i as int].0 != key@);
                }
                assert(w == i);
                assert(st == state_of(*msg, now));
                assert(states_view(states@) =~= v0.update(i as int, (key@, st)));
            }
            return;
        }
        i = i + 1;
    }
    let k = string_of(&key);
    states.push((k, st));
    assert(states_view(states@) =~= v0.push((key@, st)));
}

/// The event a group-change message (item type 1-3) reports, by item type
/// and group action.
pub open spec fn group_change_name(item_type: i64, action: i64) -> Option<Seq<char>> {
    if item_type == 1 && action == 0 {
        Some("participant-added"@)
    } else if item_type == 1 && action == 1 {
        Some("participant-removed"@)
    } else if item_type == 2 {
        Some("group-name-change"@)
    } else if item_type == 3 && action == 0 {
        Some("participant-left"@)
    } else if item_type == 3 && action == 1 {
        Some("group-icon-changed"@)
    } else if item_type == 3 && action == 2 {
        Some("group-icon-removed"@)
    } else {
        None
    }
}

/// The event type for a group-change message, if any.
pub fn group_change_event(item_type: i64, group_action: i64) -> (r: Option<&'static str>)
    ensures
        r is None <==> group_change_name(item_type, group_action) is None,
        r matches Some(s) ==> group_change_name(item_type, group_action) == Some(s@),
{
    if item_type == 1 && group_action == 0 {
        Some("participant-added")
    } else if item_type == 1 && group_action == 1 {
        Some("participant-removed")
    } else if item_type == 2 {
        Some("group-name-change")
    } else if item_type == 3 && group_action == 0 {
        Some("participant-left")
    } else if item_type == 3 && group_action == 1 {
        Some("group-icon-changed")
    } else if item_type == 3 && group_action == 2 {
        Some("group-icon-removed")
    } else {
        None
    }
}


// ---------------------------------------------------------------------------
// Polling
// ---------------------------------------------------------------------------

/// Whether some entry has the given key.
pub open spec fn has_entry<V>(es: Seq<(Seq<char>, V)>, key: Seq<char>) -> bool {
    exists|i: int| 0 <= i < es.len() && #[trigger] es[i].0 == key
}

/// The value of the first entry with the given key.
pub open spec fn entry_value<V>(es: Seq<(Seq<char>, V)>, key: Seq<char>) -> V {
    es[first_key_index(es, key)].1
}

/// Position of the first entry whose key is `key`.
fn key_position<V>(es: &Vec<(String, V)>, key: &Vec<char>) -> (r: Option<usize>)
    ensures
        match r {
            None => forall|i: int| 0 <= i < es@.len() ==> (#[trigger] es@[i]).0@ != key@,
            Some(i) => i < es@.len() && es@[i as int].0@ == key@ && forall|j: int|
                0 <= j < i ==> (#[trigger] es@[j]).0@ != key@,
        },
{
    let mut i: usize = 0;
    while i < es.len()
        invariant
            i <= es.len(),
            forall|j: int| 0 <= j < i ==> (#[trigger] es@[j]).0@ != key@,
        decreases es.len() - i,
    {
        if chars_equal(&chars_of(es[i].0.as_str()), key) {
            return Some(i);
        }
        i = i + 1;
    }
    None
}

/// The seen-key entry of a group-change message.
pub open spec fn group_key(rowid: i64) -> Seq<char> {
    "group-change-"@ + int_text(rowid as int)
}

/// A message of item type 1 to 3 with no text reports a change to a group.
pub open spec fn is_group_change(m: Message) -> bool {
    1 <= m.item_type <= 3 && text_empty(m.text)
}

/// The first pass over a poll's messages: group changes. Gives the seen
/// keys after it, the rowids taken as group changes, and the events
/// (type, message index, whether chats are included).
pub open spec fn group_pass(msgs: Seq<Message>, seen: Seq<(Seq<char>, u64)>, now: u64) -> (
    Seq<(Seq<char>, u64)>,
    Seq<i64>,
    Seq<(Seq<char>, int, bool)>,
)
    decreases msgs.len(),
{
    if msgs.len() == 0 {
        (seen, Seq::empty(), Seq::empty())
    } else {
        let prev = group_pass(msgs.drop_last(), seen, now);
        let m = msgs.last();
        if is_group_change(m) && !has_key(prev.0, group_key(m.rowid)) {
            let s = prev.0.push((group_key(m.rowid), now));
            let g = prev.1.push(m.rowid);
            match group_change_name(m.item_type, m.group_action_type) {
                Some(n) => (s, g, prev.2.push((n, msgs.len() - 1, true))),
                None => (s, g, prev.2),
            }
        } else {
            prev
        }
    }
}

/// The second pass: messages not taken as group changes and with a date at
/// or after the threshold are new when their GUID is unseen, updated when
/// they differ from their cached state. Gives the seen keys, the cached
/// states and the events after it.
pub open spec fn message_pass(
    msgs: Seq<Message>,
    groups: Seq<i64>,
    seen: Seq<(Seq<char>, u64)>,
    states: Seq<(Seq<char>, MessageState)>,
    after: i64,
    now: u64,
) -> (Seq<(Seq<char>, u64)>, Seq<(Seq<char>, MessageState)>, Seq<(Seq<char>, int, bool)>)
    decreases msgs.len(),
{
    if msgs.len() == 0 {
        (seen, states, Seq::empty())
    } else {
        message_step(
            message_pass(msgs.drop_last(), groups, seen, states, after, now),
            msgs.last(),
            msgs.len() - 1,
            groups,
            after,
            now,
        )
    }
}

/// What the second pass does with the message at index `i`.
pub open spec fn message_step(
    prev: (Seq<(Seq<char>, u64)>, Seq<(Seq<char>, MessageState)>, Seq<(Seq<char>, int, bool)>),
    m: Message,
    i: int,
    groups: Seq<i64>,
    after: i64,
    now: u64,
) -> (Seq<(Seq<char>, u64)>, Seq<(Seq<char>, MessageState)>, Seq<(Seq<char>, int, bool)>) {
    if groups.contains(m.rowid) || !relevant(m, after) {
        prev
    } else if !has_key(prev.0, m.guid@) {
        (
            prev.0.push((m.guid@, now)),
            cached(prev.1, m.guid@, state_of(m, now)),
            prev.2.push(("new-message"@, i, true)),
        )
    } else if has_entry(prev.1, m.guid@) {
        if updated(m, entry_value(prev.1, m.guid@)) {
            (
                prev.0,
                cached(prev.1, m.guid@, state_of(m, now)),
                prev.2.push(("updated-message"@, i, false)),
            )
        } else {
            prev
        }
    } else {
        (prev.0, cached(prev.1, m.guid@, state_of(m, now)), prev.2)
    }
}

/// Seen keys, cached states and events of one poll over `msgs`.
pub open spec fn poll_outcome(
    msgs: Seq<Message>,
    seen: Seq<(Seq<char>, u64)>,
    states: Seq<(Seq<char>, MessageState)>,
    after: i64,
    now: u64,
) -> (Seq<(Seq<char>, u64)>, Seq<(Seq<char>, MessageState)>, Seq<(Seq<char>, int, bool)>) {
    let g = group_pass(msgs, seen, now);
    let p = message_pass(msgs, g.1, g.0, states, after, now);
    (p.0, p.1, g.2 + p.2)
}

/// An event of the message poller: its type, the message it reports (by
/// index in the polled list), and whether the message is serialized with
/// its chats and their participants.
#[derive(Debug)]
pub struct PollEvent {
    pub event_type: String,
    pub message_index: usize,
    pub with_chats: bool,
}

pub open spec fn poll_events_view(s: Seq<PollEvent>) -> Seq<(Seq<char>, int, bool)> {
    s.map_values(|e: PollEvent| (e.event_type@, e.message_index as int, e.with_chats))
}

fn rowid_listed(v: &Vec<i64>, x: i64) -> (r: bool)
    ensures
        r == v@.contains(x),
{
    let mut i: usize = 0;
    while i < v.len()
        invariant
            i <= v.len(),
            forall|j: int| 0 <= j < i ==> v@[j] != x,
        decreases v.len() - i,
    {
        if v[i] == x {
            return true;
        }
        i = i + 1;
    }
    false
}

fn seen_has(seen: &Vec<(String, u64)>, key: &Vec<char>) -> (r: bool)
    ensures
        r == has_key(entries_view(seen@), key@),
{
    let p = key_position(seen, key);
    let ghost v = entries_view(seen@);
    match p {
        Some(i) => {
            assert(v[i as int].0 == key@);
            true
        },
        None => {
            assert forall|i: int| 0 <= i < v.len() implies v[i].0 != key@ by {
                assert(seen@[i].0@ != key@);
            }
            false
        },
    }
}

fn group_pass_exec(messages: &Vec<Message>, seen: &mut Vec<(String, u64)>, now: u64) -> (r: (
    Vec<i64>,
    Vec<PollEvent>,
))
    ensures
        ({
            let g = group_pass(messages@, entries_view(old(seen)@), now);
            &&& entries_view(final(seen)@) == g.0
            &&& r.0@ == g.1
            &&& poll_events_view(r.1@) == g.2
        }),
{
    let ghost s0 = entries_view(seen@);
    let mut groups: Vec<i64> = Vec::new();
    let mut events: Vec<PollEvent> = Vec::new();
    let mut k: usize = 0;
    while k < messages.len()
        invariant
            k <= messages.len(),
            s0 == entries_view(old(seen)@),
            ({
                let g = group_pass(messages@.take(k as int), s0, now);
                &&& entries_view(seen@) == g.0
                &&& groups@ == g.1
                &&& poll_events_view(events@) == g.2
            }),
        decreases messages.len() - k,
    {
        let ghost pre = messages@.take(k as int);
        assert(messages@.take(k + 1).drop_last() =~= pre);
        let m = &messages[k];
        if 1 <= m.item_type && m.item_type <= 3 && is_text_empty(&m.text) {
            let mut key = chars_of("group-change-");
            let digits = i64_text(m.rowid);
            push_all(&mut key, &digits);
            assert(key@ == group_key(m.rowid));
            if !seen_has(seen, &key) {
                let ghost sv = entries_view(seen@);
                seen.push((string_of(&key), now));
                assert(entries_view(seen@) =~= sv.push((key@, now)));
                groups.push(m.rowid);
                match group_change_event(m.item_type, m.group_action_type) {
                    Some(name) => {
                        let ghost ev = poll_events_view(events@);
                        events.push(PollEvent { event_type: name.to_owned(), message_index: k, with_chats: true });
                        assert(poll_events_view(events@) =~= ev.push((name@, k as int, true)));
                    },
                    None => {},
                }
            }
        }
        k = k + 1;
    }
    assert(messages@.take(messages@.len() as int) =~= messages@);
    (groups, events)
}


fn state_position(states: &Vec<(String, MessageState)>, key: &Vec<char>) -> (r: Option<usize>)
    ensures
        match r {
            None => !has_entry(states_view(states@), key@),
            Some(i) => i < states@.len() && has_entry(states_view(states@), key@) && i
                == first_key_index(states_view(states@), key@),
        },
{
    let p = key_position(states, key);
    let ghost v = states_view(states@);
    match p {
        Some(i) => {
            proof {
                assert(v[i as int].0 == key@);
                let w = first_key_index(v, key@);
                assert(0 <= w < v.len() && v[w].0 == key@ && forall|j: int| 0 <= j < w ==> v[j].0 != key@);
                if w < i {
                    assert(states@[w].0@ != key@);
                } else if w > i {
                    assert(v[i as int].0 != key@);
                }
            }
            Some(i)
        },
        None => {
            assert forall|i: int| 0 <= i < v.len() implies v[i].0 != key@ by {
                assert(states@[i].0@ != key@);
            }
            None
        },
    }
}

#[verifier::spinoff_prover]
#[verifier::rlimit(40)]
fn message_step_exec(
    m: &Message,
    k: usize,
    groups: &Vec<i64>,
    state: &mut PollerState,
    events: &mut Vec<PollEvent>,
    after: i64,
    now: u64,
)
    ensures
        ({
            let p = message_step(
                (
                    entries_view(old(state).seen_guids@),
                    states_view(old(state).message_states@),
                    poll_events_view(old(events)@),
                ),
                *m,
                k as int,
                groups@,
                after,
                now,
            );
            &&& entries_view(final(state).seen_guids@) == p.0
            &&& states_view(final(state).message_states@) == p.1
            &&& poll_events_view(final(events)@) == p.2
        }),
        final(state).chat_states == old(state).chat_states,
        final(state).cache_ttl_ms == old(state).cache_ttl_ms,
{
    if rowid_listed(groups, m.rowid) || !is_message_relevant(m, after) {
        return;
    }
    let key = chars_of(m.guid.as_str());
    if !seen_has(&state.seen_guids, &key) {
        let ghost sv = entries_view(state.seen_guids@);
        state.seen_guids.push((string_of(&key), now));
        assert(entries_view(state.seen_guids@) =~= sv.push((key@, now)));
        cache_message_state(&mut state.message_states, m, now);
        let ghost ev = poll_events_view(events@);
        events.push(PollEvent { event_type: "new-message".to_owned(), message_index: k, with_chats: true });
        assert(poll_events_view(events@) =~= ev.push(("new-message"@, k as int, true)));
    } else {
        match state_position(&state.message_states, &key) {
            Some(i) => {
                let prev = state.message_states[i].1;
                assert(entry_value(states_view(state.message_states@), key@) == prev);
                if is_message_updated(m, &prev) {
                    cache_message_state(&mut state.message_states, m, now);
                    let ghost ev = poll_events_view(events@);
                    events.push(PollEvent {
                        event_type: "updated-message".to_owned(),
                        message_index: k,
                        with_chats: false,
                    });
                    assert(poll_events_view(events@) =~= ev.push(("updated-message"@, k as int, false)));
                }
            },
            None => {
                cache_message_state(&mut state.message_states, m, now);
            },
        }
    }
}

fn message_pass_exec(
    messages: &Vec<Message>,
    groups: &Vec<i64>,
    state: &mut PollerState,
    after: i64,
    now: u64,
) -> (r: Vec<PollEvent>)
    ensures
        ({
            let p = message_pass(
                messages@,
                groups@,
                entries_view(old(state).seen_guids@),
                states_view(old(state).message_states@),
                after,
                now,
            );
            &&& entries_view(final(state).seen_guids@) == p.0
            &&& states_view(final(state).message_states@) == p.1
            &&& poll_events_view(r@) == p.2
        }),
        final(state).chat_states == old(state).chat_states,
        final(state).cache_ttl_ms == old(state).cache_ttl_ms,
{
    let ghost s0 = entries_view(state.seen_guids@);
    let ghost t0 = states_view(state.message_states@);
    let mut events: Vec<PollEvent> = Vec::new();
    let mut k: usize = 0;
    while k < messages.len()
        invariant
            k <= messages.len(),
            s0 == entries_view(old(state).seen_guids@),
            t0 == states_view(old(state).message_states@),
            state.chat_states == old(state).chat_states,
            state.cache_ttl_ms == old(state).cache_ttl_ms,
            ({
                let p = message_pass(messages@.take(k as int), groups@, s0, t0, after, now);
                &&& entries_view(state.seen_guids@) == p.0
                &&& states_view(state.message_states@) == p.1
                &&& poll_events_view(events@) == p.2
            }),
        decreases messages.len() - k,
    {
        assert(messages@.take(k + 1).drop_last() =~= messages@.take(k as int));
        message_step_exec(&messages[k], k, groups, state, &mut events, after, now);
        k = k + 1;
    }
    assert(messages@.take(messages@.len() as int) =~= messages@);
    events
}

/// The state after a poll over `msgs` at `now`, and its events, are those
/// that `poll_outcome` gives.
pub open spec fn polled(
    before: PollerState,
    after_poll: PollerState,
    events: Seq<PollEvent>,
    msgs: Seq<Message>,
    after: i64,
    now: u64,
) -> bool {
    let o = poll_outcome(
        msgs,
        entries_view(before.seen_guids@),
        states_view(before.message_states@),
        after,
        now,
    );
    &&& entries_view(after_poll.seen_guids@) == o.0
    &&& states_view(after_poll.message_states@) == o.1
    &&& poll_events_view(events) == o.2
}

impl PollerState {
    /// Decides what one poll over `messages` (read from chat.db, updated
    /// since the threshold) reports, at time `now`: group changes first,
    /// then new and updated messages, each by its index in `messages`.
    pub fn poll_messages_at(&mut self, messages: &Vec<Message>, after_unix_ms: i64, now: u64) -> (r: Vec<PollEvent>)
        ensures
            polled(*old(self), *final(self), r@, messages@, after_unix_ms, now),
            final(self).chat_states == old(self).chat_states,
            final(self).cache_ttl_ms == old(self).cache_ttl_ms,
    {
        let (groups, mut events) = group_pass_exec(messages, &mut self.seen_guids, now);
        let mut rest = message_pass_exec(messages, &groups, self, after_unix_ms, now);
        let ghost e1 = poll_events_view(events@);
        let ghost e2 = poll_events_view(rest@);
        events.append(&mut rest);
        assert(poll_events_view(events@) =~= e1 + e2);
        events
    }

    /// Decides what one poll over `messages` reports, by the clock.
    pub fn poll_messages(&mut self, messages: &Vec<Message>, after_unix_ms: i64) -> (r: Vec<PollEvent>)
        ensures
            exists|now: u64| #[trigger] polled(*old(self), *final(self), r@, messages@, after_unix_ms, now),
            final(self).chat_states == old(self).chat_states,
            final(self).cache_ttl_ms == old(self).cache_ttl_ms,
    {
        let now = monotonic_ms(&self.origin);
        self.poll_messages_at(messages, after_unix_ms, now)
    }
}


/// An event of the chat-read poller, as sent to listeners.
#[derive(Debug)]
pub struct WatcherEvent {
    pub event_type: String,
    pub data: Json,
}

/// Whether a chat's read timestamp is reported: the chat was not cached, or
/// its timestamp moved later than the cached one.
pub open spec fn chat_read_changed(states: Seq<(Seq<char>, ChatState)>, c: Chat) -> bool {
    !has_entry(states, c.guid@) || or_zero(c.last_read_message_timestamp) > entry_value(
        states,
        c.guid@,
    ).last_read_message_timestamp
}

/// What the chat-read poller does with one chat: a reported chat has its
/// state cached and its GUID listed.
pub open spec fn chat_step(prev: (Seq<(Seq<char>, ChatState)>, Seq<Seq<char>>), c: Chat, now: u64) -> (
    Seq<(Seq<char>, ChatState)>,
    Seq<Seq<char>>,
) {
    if chat_read_changed(prev.0, c) {
        (
            cached(
                prev.0,
                c.guid@,
                ChatState { last_read_message_timestamp: or_zero(c.last_read_message_timestamp), cache_time: now },
            ),
            prev.1.push(c.guid@),
        )
    } else {
        prev
    }
}

/// Cached chat states after a poll over `chats`, and the GUIDs reported.
pub open spec fn chat_pass(chats: Seq<Chat>, states: Seq<(Seq<char>, ChatState)>, now: u64) -> (
    Seq<(Seq<char>, ChatState)>,
    Seq<Seq<char>>,
)
    decreases chats.len(),
{
    if chats.len() == 0 {
        (states, Seq::empty())
    } else {
        chat_step(chat_pass(chats.drop_last(), states, now), chats.last(), now)
    }
}

/// The data of a read-status event.
pub open spec fn read_status_json(guid: Seq<char>) -> JsonModel {
    JsonModel::Object(seq![("chatGuid"@, JsonModel::Str(guid)), ("read"@, JsonModel::Bool(true))])
}

fn read_status_event(guid: &str) -> (r: WatcherEvent)
    ensures
        r.event_type@ == "chat-read-status-changed"@,
        json_view(r.data) == read_status_json(guid@),
{
    let mut fields: Vec<(String, Json)> = Vec::new();
    put_field(&mut fields, "chatGuid", Json::Str(guid.to_owned()));
    put_field(&mut fields, "read", Json::Bool(true));
    assert(crate::json::entry_views(fields@) =~= seq![("chatGuid"@, JsonModel::Str(guid@)), ("read"@, JsonModel::Bool(true))]);
    WatcherEvent { event_type: "chat-read-status-changed".to_owned(), data: Json::Object(fields) }
}

fn chat_position(states: &Vec<(String, ChatState)>, key: &Vec<char>) -> (r: Option<usize>)
    ensures
        match r {
            None => !has_entry(chats_view(states@), key@),
            Some(i) => i < states@.len() && has_entry(chats_view(states@), key@) && i
                == first_key_index(chats_view(states@), key@),
        },
{
    let p = key_position(states, key);
    let ghost v = chats_view(states@);
    match p {
        Some(i) => {
            proof {
                assert(v[i as int].0 == key@);
                let w = first_key_index(v, key@);
                assert(0 <= w < v.len() && v[w].0 == key@ && forall|j: int| 0 <= j < w ==> v[j].0 != key@);
                if w < i {
                    assert(states@[w].0@ != key@);
                } else if w > i {
                    assert(v[i as int].0 != key@);
                }
            }
            Some(i)
        },
        None => {
            assert forall|i: int| 0 <= i < v.len() implies v[i].0 != key@ by {
                assert(states@[i].0@ != key@);
            }
            None
        },
    }
}

fn cache_chat_state(states: &mut Vec<(String, ChatState)>, key: &Vec<char>, st: ChatState)
    ensures
        chats_view(final(states)@) == cached(chats_view(old(states)@), key@, st),
{
    let ghost v0 = chats_view(states@);
    match chat_position(states, key) {
        Some(i) => {
            states.set(i, (string_of(key), st));
            assert(chats_view(states@) =~= v0.update(i as int, (key@, st)));
        },
        None => {
            states.push((string_of(key), st));
            assert(chats_view(states@) =~= v0.push((key@, st)));
        },
    }
}

fn chat_step_exec(
    c: &Chat,
    states: &mut Vec<(String, ChatState)>,
    out: &mut Vec<WatcherEvent>,
    Ghost(guids): Ghost<Seq<Seq<char>>>,
    now: u64,
)
    requires
        read_events_match(old(out)@, guids),
    ensures
        ({
            let p = chat_step((chats_view(old(states)@), guids), *c, now);
            &&& chats_view(final(states)@) == p.0
            &&& read_events_match(final(out)@, p.1)
        }),
{
    let ts = opt_or_zero(c.last_read_message_timestamp);
    let key = chars_of(c.guid.as_str());
    let emit = match chat_position(states, &key) {
        Some(i) => {
            assert(entry_value(chats_view(states@), key@) == states@[i as int].1);
            ts > states[i].1.last_read_message_timestamp
        },
        None => true,
    };
    if emit {
        cache_chat_state(states, &key, ChatState { last_read_message_timestamp: ts, cache_time: now });
        let ghost o0 = out@;
        out.push(read_status_event(c.guid.as_str()));
        assert(forall|i: int| 0 <= i < o0.len() ==> out@[i] == o0[i]);
    }
}

/// Events that report, in order, the chats with the given GUIDs as read.
pub open spec fn read_events_match(events: Seq<WatcherEvent>, guids: Seq<Seq<char>>) -> bool {
    &&& events.len() == guids.len()
    &&& forall|i: int|
        0 <= i < events.len() ==> (#[trigger] events[i]).event_type@ == "chat-read-status-changed"@
            && json_view(events[i].data) == read_status_json(guids[i])
}

impl PollerState {
    /// Decides which chats a poll over `chats` (read from chat.db, read
    /// since the threshold) reports as read, at time `now`.
    #[verifier::spinoff_prover]
    #[verifier::rlimit(40)]
    pub fn poll_chat_reads_at(&mut self, chats: &Vec<Chat>, now: u64) -> (r: Vec<WatcherEvent>)
        ensures
            chat_reads_polled(*old(self), *final(self), r@, chats@, now),
            final(self).seen_guids == old(self).seen_guids,
            final(self).message_states == old(self).message_states,
            final(self).cache_ttl_ms == old(self).cache_ttl_ms,
    {
        let ghost c0 = chats_view(self.chat_states@);
        let mut out: Vec<WatcherEvent> = Vec::new();
        let mut k: usize = 0;
        while k < chats.len()
            invariant
                k <= chats.len(),
                c0 == chats_view(old(self).chat_states@),
                self.seen_guids == old(self).seen_guids,
                self.message_states == old(self).message_states,
                self.cache_ttl_ms == old(self).cache_ttl_ms,
                chats_view(self.chat_states@) == chat_pass(chats@.take(k as int), c0, now).0,
                read_events_match(out@, chat_pass(chats@.take(k as int), c0, now).1),
            decreases chats.len() - k,
        {
            assert(chats@.take(k + 1).drop_last() =~= chats@.take(k as int));
            let ghost g = chat_pass(chats@.take(k as int), c0, now).1;
            chat_step_exec(&chats[k], &mut self.chat_states, &mut out, Ghost(g), now);
            k = k + 1;
        }
        assert(chats@.take(chats@.len() as int) =~= chats@);
        out
    }

    /// Decides which chats a poll over `chats` reports as read, by the clock.
    pub fn poll_chat_reads(&mut self, chats: &Vec<Chat>) -> (r: Vec<WatcherEvent>)
        ensures
            exists|now: u64| #[trigger] chat_reads_polled(*old(self), *final(self), r@, chats@, now),
            final(self).seen_guids == old(self).seen_guids,
            final(self).message_states == old(self).message_states,
            final(self).cache_ttl_ms == old(self).cache_ttl_ms,
    {
        let now = monotonic_ms(&self.origin);
        self.poll_chat_reads_at(chats, now)
    }
}

/// The chat states after a read-status poll over `chats` at `now`, and its
/// events, are those that `chat_pass` gives.
pub open spec fn chat_reads_polled(
    before: PollerState,
    after_poll: PollerState,
    events: Seq<WatcherEvent>,
    chats: Seq<Chat>,
    now: u64,
) -> bool {
    let p = chat_pass(chats, chats_view(before.chat_states@), now);
    &&& chats_view(after_poll.chat_states@) == p.0
    &&& read_events_match(events, p.1)
}


proof fn lemma_group_pass_extends(msgs: Seq<Message>, seen: Seq<(Seq<char>, u64)>, now: u64)
    ensures
        group_pass(msgs, seen, now).0.len() >= seen.len(),
        forall|j: int| 0 <= j < seen.len() ==> #[trigger] group_pass(msgs, seen, now).0[j] == seen[j],
        forall|k: int|
            0 <= k < group_pass(msgs, seen, now).2.len() ==> {
                let e = #[trigger] group_pass(msgs, seen, now).2[k];
                &&& 0 <= e.1 < msgs.len()
                &&& e.0 != "new-message"@
            },
    decreases msgs.len(),
{
    reveal_strlit("new-message");
    reveal_strlit("participant-added");
    reveal_strlit("participant-removed");
    reveal_strlit("group-name-change");
    reveal_strlit("participant-left");
    reveal_strlit("group-icon-changed");
    reveal_strlit("group-icon-removed");
    if msgs.len() > 0 {
        lemma_group_pass_extends(msgs.drop_last(), seen, now);
        let m = msgs.last();
        match group_change_name(m.item_type, m.group_action_type) {
            Some(n) => {
                assert(n[0] != "new-message"@[0]);
            },
            None => {},
        }
    }
}

proof fn lemma_message_pass_extends(
    msgs: Seq<Message>,
    groups: Seq<i64>,
    seen: Seq<(Seq<char>, u64)>,
    states: Seq<(Seq<char>, MessageState)>,
    after: i64,
    now: u64,
)
    ensures
        message_pass(msgs, groups, seen, states, after, now).0.len() >= seen.len(),
        forall|j: int|
            0 <= j < seen.len() ==> #[trigger] message_pass(msgs, groups, seen, states, after, now).0[j]
                == seen[j],
        forall|k: int|
            0 <= k < message_pass(msgs, groups, seen, states, after, now).2.len() ==> 0
                <= (#[trigger] message_pass(msgs, groups, seen, states, after, now).2[k]).1 < msgs.len(),
    decreases msgs.len(),
{
    if msgs.len() > 0 {
        lemma_message_pass_extends(msgs.drop_last(), groups, seen, states, after, now);
    }
}

proof fn lemma_seen_not_new(
    msgs: Seq<Message>,
    groups: Seq<i64>,
    seen: Seq<(Seq<char>, u64)>,
    states: Seq<(Seq<char>, MessageState)>,
    after: i64,
    now: u64,
    i: int,
)
    requires
        0 <= i < msgs.len(),
        has_key(seen, msgs[i].guid@),
    ensures
        forall|k: int|
            0 <= k < message_pass(msgs, groups, seen, states, after, now).2.len() && (
            #[trigger] message_pass(msgs, groups, seen, states, after, now).2[k]).1 == i
                ==> message_pass(msgs, groups, seen, states, after, now).2[k].0 != "new-message"@,
    decreases msgs.len(),
{
    let pre = msgs.drop_last();
    let prev = message_pass(pre, groups, seen, states, after, now);
    lemma_message_pass_extends(pre, groups, seen, states, after, now);
    reveal_strlit("new-message");
    reveal_strlit("updated-message");
    assert("updated-message"@[0] != "new-message"@[0]);
    if i == msgs.len() - 1 {
        let w = choose|j: int| 0 <= j < seen.len() && #[trigger] seen[j].0 == msgs[i].guid@;
        assert(prev.0[w] == seen[w]);
        assert(has_key(prev.0, msgs.last().guid@));
    } else {
        assert(pre[i] == msgs[i]);
        lemma_seen_not_new(pre, groups, seen, states, after, now, i);
    }
}

/// A message whose GUID the poller has already seen is never reported as
/// new: every event for it is an update.
pub proof fn law_seen_message_not_new_again(
    msgs: Seq<Message>,
    seen: Seq<(Seq<char>, u64)>,
    states: Seq<(Seq<char>, MessageState)>,
    after: i64,
    now: u64,
    i: int,
)
    requires
        0 <= i < msgs.len(),
        has_key(seen, msgs[i].guid@),
    ensures
        forall|k: int|
            0 <= k < poll_outcome(msgs, seen, states, after, now).2.len() && (
            #[trigger] poll_outcome(msgs, seen, states, after, now).2[k]).1 == i ==> poll_outcome(
                msgs,
                seen,
                states,
                after,
                now,
            ).2[k].0 != "new-message"@,
{
    let g = group_pass(msgs, seen, now);
    lemma_group_pass_extends(msgs, seen, now);
    let w = choose|j: int| 0 <= j < seen.len() && #[trigger] seen[j].0 == msgs[i].guid@;
    assert(g.0[w] == seen[w]);
    lemma_seen_not_new(msgs, g.1, g.0, states, after, now, i);
    let p = message_pass(msgs, g.1, g.0, states, after, now);
    let o = poll_outcome(msgs, seen, states, after, now);
    assert forall|k: int| 0 <= k < o.2.len() && (#[trigger] o.2[k]).1 == i implies o.2[k].0 != "new-message"@ by {
        if k < g.2.len() {
            assert(o.2[k] == g.2[k]);
        } else {
            assert(o.2[k] == p.2[k - g.2.len()]);
        }
    }
}

} // verus!

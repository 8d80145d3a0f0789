//! Webhook targets and the deduplication cache for webhook events.
use vstd::prelude::*;
use crate::clock::{instant_now, monotonic_ms};
use std::time::Instant;
use crate::text::{chars_equal, chars_of, string_of};

verus! {

/// A webhook target: URL + event filter.
#[derive(Debug, Clone)]
pub struct WebhookTarget {
    pub url: String,
    /// Event names this webhook subscribes to (e.g. `["*"]` or `["new-message"]`).
    pub events: Vec<String>,
}

/// How long an event key stays in the cache: one hour, in milliseconds.
pub const TTL_MS: u64 = 3_600_000;

/// Milliseconds from `ts` to `now` (0 when `ts` is later).
pub open spec fn age(ts: u64, now: u64) -> int {
    if now >= ts {
        now - ts
    } else {
        0
    }
}

/// Entries still within `ttl` at `now`, in their order.
pub open spec fn keep_fresh(es: Seq<(Seq<char>, u64)>, now: u64, ttl: u64) -> Seq<(Seq<char>, u64)>
    decreases es.len(),
{
    if es.len() == 0 {
        es
    } else {
        let rest = keep_fresh(es.drop_last(), now, ttl);
        if age(es.last().1, now) < ttl {
            rest.push(es.last())
        } else {
            rest
        }
    }
}

pub open spec fn has_key(es: Seq<(Seq<char>, u64)>, k: Seq<char>) -> bool {
    exists|i: int| 0 <= i < es.len() && #[trigger] es[i].0 == k
}

/// Event deduplication cache: event keys with the time each was first seen.
pub struct EventCache {
    pub entries: Vec<(String, u64)>,
    /// The instant the cache started; its times count from it.
    pub origin: Instant,
}

pub open spec fn entries_view(es: Seq<(String, u64)>) -> Seq<(Seq<char>, u64)> {
    es.map_values(|e: (String, u64)| (e.0@, e.1))
}

impl EventCache {
    pub open spec fn view(&self) -> Seq<(Seq<char>, u64)> {
        entries_view(self.entries@)
    }

    pub fn new() -> (r: Self)
        ensures
            r.view().len() == 0,
    {
        EventCache { entries: Vec::new(), origin: instant_now() }
    }

    /// Drop entries older than the TTL at `now`.
    pub fn cleanup_at(&mut self, now: u64)
        ensures
            final(self).view() == keep_fresh(old(self).view(), now, TTL_MS),
    {
        let mut kept: Vec<(String, u64)> = Vec::new();
        let ghost v0 = self.view();
        let mut i: usize = 0;
        while i < self.entries.len()
            invariant
                i <= self.entries.len(),
                v0 == self.view(),
                entries_view(kept@) == keep_fresh(v0.take(i as int), now, TTL_MS),
            decreases self.entries.len() - i,
        {
            assert(v0.take(i + 1).drop_last() =~= v0.take(i as int));
            let ts = self.entries[i].1;
            let age_ms: u64 = if now >= ts { now - ts } else { 0 };
            if age_ms < TTL_MS {
                let k = string_of(&chars_of(self.entries[i].0.as_str()));
                kept.push((k, ts));
                assert(entries_view(kept@) =~= keep_fresh(v0.take(i as int), now, TTL_MS).push(v0[i as int]));
            }
            i = i + 1;
        }
        assert(v0.take(v0.len() as int) =~= v0);
        self.entries = kept;
    }

    fn contains_key(&self, key: &Vec<char>) -> (r: bool)
        ensures
            r == has_key(self.view(), key@),
    {
        let mut i: usize = 0;
        while i < self.entries.len()
            invariant
                i <= self.entries.len(),
                forall|k: int| 0 <= k < i ==> #[trigger] self.view()[k].0 != key@,
            decreases self.entries.len() - i,
        {
            let c = chars_of(self.entries[i].0.as_str());
            if chars_equal(&c, key) {
                assert(self.view()[i as int].0 == key@);
                return true;
            }
            i = i + 1;
        }
        false
    }

    /// Whether `key` was already seen within the TTL at time `now`; a key not
    /// seen is recorded as first seen at `now`. Expired keys are dropped first.
    pub fn is_duplicate_at(&mut self, key: &str, now: u64) -> (r: bool)
        ensures
            r == has_key(keep_fresh(old(self).view(), now, TTL_MS), key@),
            final(self).view() == (if r {
                keep_fresh(old(self).view(), now, TTL_MS)
            } else {
                keep_fresh(old(self).view(), now, TTL_MS).push((key@, now))
            }),
    {
        self.cleanup_at(now);
        let k = chars_of(key);
        if self.contains_key(&k) {
            return true;
        }
        let ghost v = self.view();
        self.entries.push((string_of(&k), now));
        assert(self.view() =~= v.push((key@, now)));
        false
    }

    /// Check if an event key has been seen recently (by the clock).
    /// Returns true if the event is a duplicate (should be skipped).
    pub fn is_duplicate(&mut self, key: &str) -> (r: bool)
        ensures
            exists|now: u64| {
                &&& r == has_key(keep_fresh(old(self).view(), now, TTL_MS), key@)
                &&& final(self).view() == (if r {
                    keep_fresh(old(self).view(), now, TTL_MS)
                } else {
                    keep_fresh(old(self).view(), now, TTL_MS).push((key@, now))
                })
            },
    {
        let now = monotonic_ms(&self.origin);
        self.is_duplicate_at(key, now)
    }

    /// Remove the entries that have expired by the clock.
    pub fn cleanup(&mut self)
        ensures
            exists|now: u64| final(self).view() == #[trigger] keep_fresh(old(self).view(), now, TTL_MS),
    {
        let now = monotonic_ms(&self.origin);
        self.cleanup_at(now);
        assert(self.view() == keep_fresh(old(self).view(), now, TTL_MS));
    }

    /// Number of cached entries.
    pub fn len(&self) -> (r: usize)
        ensures
            r == self.view().len(),
    {
        self.entries.len()
    }

    pub fn is_empty(&self) -> (r: bool)
        ensures
            r == (self.view().len() == 0),
    {
        self.entries.len() == 0
    }
}

/// An entry recorded at `t` survives a cleanup at any `t2` less than a TTL later.
pub proof fn lemma_fresh_entry_kept(es: Seq<(Seq<char>, u64)>, k: Seq<char>, t: u64, t2: u64)
    requires
        es.len() > 0,
        es.last() == (k, t),
        t <= t2 < t + TTL_MS,
    ensures
        has_key(keep_fresh(es, t2, TTL_MS), k),
{
    let kept = keep_fresh(es, t2, TTL_MS);
    assert(kept.last() == (k, t));
    assert(kept[kept.len() - 1].0 == k);
}

/// A key reported new at time `t` is reported a duplicate at any time from
/// `t` until one TTL later.
pub proof fn law_seen_key_is_duplicate(before: Seq<(Seq<char>, u64)>, k: Seq<char>, t: u64, t2: u64)
    requires
        !has_key(keep_fresh(before, t, TTL_MS), k),
        t <= t2 < t + TTL_MS,
    ensures
        has_key(keep_fresh(keep_fresh(before, t, TTL_MS).push((k, t)), t2, TTL_MS), k),
{
    let after = keep_fresh(before, t, TTL_MS).push((k, t));
    lemma_fresh_entry_kept(after, k, t, t2);
}

/// Seeing one key neither adds nor removes a different key.
pub proof fn law_other_keys_unaffected(es: Seq<(Seq<char>, u64)>, k: Seq<char>, j: Seq<char>, t: u64)
    requires
        k != j,
    ensures
        has_key(keep_fresh(es, t, TTL_MS).push((k, t)), j) == has_key(keep_fresh(es, t, TTL_MS), j),
{
    let f = keep_fresh(es, t, TTL_MS);
    if has_key(f.push((k, t)), j) {
        let i = choose|i: int| 0 <= i < f.push((k, t)).len() && #[trigger] f.push((k, t))[i].0 == j;
        assert(i < f.len());
        assert(f[i].0 == j);
    }
    if has_key(f, j) {
        let i = choose|i: int| 0 <= i < f.len() && #[trigger] f[i].0 == j;
        assert(f.push((k, t))[i].0 == j);
    }
}

// ---------------------------------------------------------------------------
// Event filters and dispatch
// ---------------------------------------------------------------------------

/// Whether an event filter admits an event: `*` admits every event,
/// otherwise the event's name must be listed.
pub open spec fn filter_admits(events: Seq<String>, event_type: Seq<char>) -> bool {
    exists|i: int|
        0 <= i < events.len() && ((#[trigger] events[i])@ == "*"@ || events[i]@ == event_type)
}

/// Whether a webhook's event filter matches the given event type.
pub fn matches_event(target: &WebhookTarget, event_type: &str) -> (r: bool)
    ensures
        r == filter_admits(target.events@, event_type@),
{
    let ev = chars_of(event_type);
    let star = chars_of("*");
    let mut i: usize = 0;
    while i < target.events.len()
        invariant
            i <= target.events.len(),
            ev@ == event_type@,
            star@ == "*"@,
            forall|j: int|
                0 <= j < i ==> !((#[trigger] target.events@[j])@ == "*"@ || target.events@[j]@
                    == event_type@),
        decreases target.events.len() - i,
    {
        let e = chars_of(target.events[i].as_str());
        if chars_equal(&e, &star) || chars_equal(&e, &ev) {
            assert(target.events@[i as int]@ == "*"@ || target.events@[i as int]@ == event_type@);
            return true;
        }
        i = i + 1;
    }
    false
}

/// The URLs of the targets whose filter admits an event, in order.
pub open spec fn admitted_urls(targets: Seq<WebhookTarget>, event_type: Seq<char>) -> Seq<Seq<char>>
    decreases targets.len(),
{
    if targets.len() == 0 {
        Seq::empty()
    } else {
        let rest = admitted_urls(targets.drop_last(), event_type);
        if filter_admits(targets.last().events@, event_type) {
            rest.push(targets.last().url@)
        } else {
            rest
        }
    }
}

/// The URLs an event is posted to: every target whose filter admits it,
/// unless its deduplication key was seen within the TTL (then none).
/// A new key is recorded in the cache.
pub fn plan_dispatch(
    cache: &mut EventCache,
    targets: &Vec<WebhookTarget>,
    event_type: &str,
    dedup_key: Option<&str>,
    now: u64,
) -> (r: Vec<String>)
    ensures
        match dedup_key {
            Some(k) => {
                let dup = has_key(keep_fresh(old(cache).view(), now, TTL_MS), k@);
                &&& final(cache).view() == (if dup {
                    keep_fresh(old(cache).view(), now, TTL_MS)
                } else {
                    keep_fresh(old(cache).view(), now, TTL_MS).push((k@, now))
                })
                &&& dup ==> r@.len() == 0
                &&& !dup ==> urls_view(r@) == admitted_urls(targets@, event_type@)
            },
            None => final(cache).view() == old(cache).view() && urls_view(r@) == admitted_urls(
                targets@,
                event_type@,
            ),
        },
{
    match dedup_key {
        Some(k) => {
            if cache.is_duplicate_at(k, now) {
                return Vec::new();
            }
        },
        None => {},
    }
    let mut urls: Vec<String> = Vec::new();
    let mut i: usize = 0;
    while i < targets.len()
        invariant
            i <= targets.len(),
            urls_view(urls@) == admitted_urls(targets@.subrange(0, i as int), event_type@),
        decreases targets.len() - i,
    {
        proof {
            assert(targets@.subrange(0, i + 1).drop_last() =~= targets@.subrange(0, i as int));
        }
        if matches_event(&targets[i], event_type) {
            let ghost u0 = urls@;
            urls.push(targets[i].url.clone());
            proof {
                assert(urls_view(urls@) =~= urls_view(u0).push(targets@[i as int].url@));
            }
        }
        i = i + 1;
    }
    assert(targets@.subrange(0, targets@.len() as int) =~= targets@);
    urls
}

/// The texts of some strings.
pub open spec fn urls_view(s: Seq<String>) -> Seq<Seq<char>> {
    s.map_values(|u: String| u@)
}

} // verus!

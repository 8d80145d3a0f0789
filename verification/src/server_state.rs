//! State the routes share: which Private API helpers can be used, the
//! sends in flight (by temporary GUID), and the chats showing a typing
//! indicator.
use vstd::prelude::*;
use crate::clock::{instant_now, monotonic_ms};
use std::time::Instant;
use crate::text::{chars_equal, chars_of, string_of};
use crate::webhooks::{age, entries_view, has_key, keep_fresh};

verus! {

/// What is known of the Private API helpers: whether the service runs,
/// which features are enabled, and which helpers are ready.
#[derive(Debug, Clone, Copy)]
pub struct ApiStatus {
    /// The Private API service is running.
    pub available: bool,
    pub messages_ready: bool,
    pub facetime_enabled: bool,
    pub facetime_ready: bool,
    pub findmy_enabled: bool,
    pub findmy_ready: bool,
}

impl ApiStatus {
    /// The iMessage Private API can be used: the service runs and the
    /// Messages helper is ready.
    pub fn require_private_api(&self) -> (r: Result<(), &'static str>)
        ensures
            !self.available ==> (r matches Err(m) && m@ == "Private API is not enabled"@),
            self.available && !self.messages_ready ==> (r matches Err(m) && m@
                == "Private API helper is not connected"@),
            self.available && self.messages_ready ==> r is Ok,
    {
        if !self.available {
            Err("Private API is not enabled")
        } else if !self.messages_ready {
            Err("Private API helper is not connected")
        } else {
            Ok(())
        }
    }

    /// The Find My Private API can be used: it is enabled, the service runs
    /// and the Find My helper is ready.
    pub fn require_findmy_private_api(&self) -> (r: Result<(), &'static str>)
        ensures
            !(self.findmy_enabled && self.available) ==> (r matches Err(m) && m@
                == "FindMy Private API is not enabled"@),
            self.findmy_enabled && self.available && !self.findmy_ready ==> (r matches Err(m) && m@
                == "FindMy Private API helper is not connected"@),
            self.findmy_enabled && self.available && self.findmy_ready ==> r is Ok,
    {
        if !self.findmy_enabled || !self.available {
            Err("FindMy Private API is not enabled")
        } else if !self.findmy_ready {
            Err("FindMy Private API helper is not connected")
        } else {
            Ok(())
        }
    }

    /// The FaceTime Private API can be used: it is enabled, the service
    /// runs and the FaceTime helper is ready.
    pub fn require_facetime_private_api(&self) -> (r: Result<(), &'static str>)
        ensures
            !(self.facetime_enabled && self.available) ==> (r matches Err(m) && m@
                == "FaceTime Private API is not enabled"@),
            self.facetime_enabled && self.available && !self.facetime_ready ==> (r matches Err(m)
                && m@ == "FaceTime Private API helper is not connected"@),
            self.facetime_enabled && self.available && self.facetime_ready ==> r is Ok,
    {
        if !self.facetime_enabled || !self.available {
            Err("FaceTime Private API is not enabled")
        } else if !self.facetime_ready {
            Err("FaceTime Private API helper is not connected")
        } else {
            Ok(())
        }
    }
}

/// How long a send stays in the send cache: five minutes, in milliseconds.
pub const SEND_TTL_MS: u64 = 300_000;

/// Sends in flight, by temporary GUID, with the time each was cached.
pub struct SendCache {
    pub entries: Vec<(String, u64)>,
    /// The instant the cache started; its times count from it.
    pub origin: Instant,
}

impl SendCache {
    pub open spec fn view(&self) -> Seq<(Seq<char>, u64)> {
        entries_view(self.entries@)
    }

    pub fn new() -> (r: Self)
        ensures
            r.view().len() == 0,
    {
        SendCache { entries: Vec::new(), origin: instant_now() }
    }

    fn position(&self, key: &Vec<char>) -> (r: Option<usize>)
        ensures
            match r {
                Some(i) => i < self.view().len() && self.view()[i as int].0 == key@,
                None => !has_key(self.view(), key@),
            },
    {
        let mut i: usize = 0;
        while i < self.entries.len()
            invariant
                i <= self.entries.len(),
                forall|k: int| 0 <= k < i ==> #[trigger] self.view()[k].0 != key@,
            decreases self.entries.len() - i,
        {
            if chars_equal(&chars_of(self.entries[i].0.as_str()), key) {
                return Some(i);
            }
            i = i + 1;
        }
        None
    }

    /// Whether a send with this temporary GUID is in flight.
    pub fn is_send_cached(&self, temp_guid: &str) -> (r: bool)
        ensures
            r == has_key(self.view(), temp_guid@),
    {
        self.position(&chars_of(temp_guid)).is_some()
    }

    /// Records a send as in flight at `now` (a GUID already cached takes the
    /// new time).
    pub fn cache_send_at(&mut self, temp_guid: String, now: u64)
        ensures
            has_key(final(self).view(), temp_guid@),
            forall|k: Seq<char>| k != temp_guid@ ==> (has_key(final(self).view(), k) <==> has_key(old(self).view(), k)),
    {
        let ghost v0 = self.view();
        let key = chars_of(temp_guid.as_str());
        match self.position(&key) {
            Some(i) => {
                self.entries.set(i, (temp_guid, now));
                proof {
                    assert(self.view() =~= v0.update(i as int, (key@, now)));
                    assert(self.view()[i as int].0 == key@);
                    assert forall|k: Seq<char>| k != key@ implies (has_key(self.view(), k) <==> has_key(v0, k)) by {
                        if has_key(v0, k) {
                            let j = choose|j: int| 0 <= j < v0.len() && #[trigger] v0[j].0 == k;
                            assert(self.view()[j].0 == k);
                        }
                        if has_key(self.view(), k) {
                            let j = choose|j: int| 0 <= j < self.view().len() && #[trigger] self.view()[j].0 == k;
                            assert(v0[j].0 == k);
                        }
                    }
                }
            },
            None => {
                self.entries.push((temp_guid, now));
                proof {
                    assert(self.view() =~= v0.push((key@, now)));
                    assert(self.view()[v0.len() as int].0 == key@);
                    assert forall|k: Seq<char>| k != key@ implies (has_key(self.view(), k) <==> has_key(v0, k)) by {
                        if has_key(v0, k) {
                            let j = choose|j: int| 0 <= j < v0.len() && #[trigger] v0[j].0 == k;
                            assert(self.view()[j].0 == k);
                        }
                        if has_key(self.view(), k) {
                            let j = choose|j: int| 0 <= j < self.view().len() && #[trigger] self.view()[j].0 == k;
                            assert(v0[j].0 == k);
                        }
                    }
                }
            },
        }
    }

    /// Records a send as in flight (by the clock).
    pub fn cache_send(&mut self, temp_guid: String)
        ensures
            has_key(final(self).view(), temp_guid@),
            forall|k: Seq<char>| k != temp_guid@ ==> (has_key(final(self).view(), k) <==> has_key(old(self).view(), k)),
    {
        let now = monotonic_ms(&self.origin);
        self.cache_send_at(temp_guid, now);
    }

    /// Forgets a send.
    pub fn uncache_send(&mut self, temp_guid: &str)
        ensures
            !has_key(final(self).view(), temp_guid@),
            forall|k: Seq<char>| k != temp_guid@ ==> (has_key(final(self).view(), k) <==> has_key(old(self).view(), k)),
    {
        let key = chars_of(temp_guid);
        let ghost v0 = self.view();
        let mut kept: Vec<(String, u64)> = Vec::new();
        let mut i: usize = 0;
        while i < self.entries.len()
            invariant
                i <= self.entries.len(),
                v0 == self.view(),
                key@ == temp_guid@,
                forall|j: int| 0 <= j < entries_view(kept@).len() ==> #[trigger] entries_view(kept@)[j].0 != key@,
                forall|k: Seq<char>| k != key@ ==> (has_key(entries_view(kept@), k) <==> has_key(v0.take(i as int), k)),
            decreases self.entries.len() - i,
        {
            let ghost kv = entries_view(kept@);
            assert(v0.take(i + 1) =~= v0.take(i as int).push(v0[i as int]));
            if !chars_equal(&chars_of(self.entries[i].0.as_str()), &key) {
                let e = (string_of(&chars_of(self.entries[i].0.as_str())), self.entries[i].1);
                kept.push(e);
                assert(entries_view(kept@) =~= kv.push(v0[i as int]));
            }
            proof {
                let nv = entries_view(kept@);
                assert forall|k: Seq<char>| k != key@ implies (has_key(nv, k) <==> has_key(v0.take(i + 1), k)) by {
                    let t = v0.take(i + 1);
                    if has_key(t, k) {
                        let j = choose|j: int| 0 <= j < t.len() && #[trigger] t[j].0 == k;
                        if j < i {
                            assert(v0.take(i as int)[j].0 == k);
                            assert(has_key(v0.take(i as int), k));
                            assert(has_key(kv, k));
                            let j3 = choose|j3: int| 0 <= j3 < kv.len() && #[trigger] kv[j3].0 == k;
                            assert(nv[j3].0 == k);
                        } else {
                            assert(nv[nv.len() - 1].0 == k);
                        }
                    }
                    if has_key(nv, k) {
                        let j = choose|j: int| 0 <= j < nv.len() && #[trigger] nv[j].0 == k;
                        if j < kv.len() {
                            assert(kv[j].0 == k);
                            assert(has_key(kv, k));
                            let ti = v0.take(i as int);
                            assert(has_key(ti, k));
                            let j2 = choose|j2: int| 0 <= j2 < ti.len() && #[trigger] ti[j2].0 == k;
                            assert(t[j2].0 == k);
                        } else {
                            assert(t[i as int].0 == k);
                        }
                    }
                }
            }
            i = i + 1;
        }
        assert(v0.take(v0.len() as int) =~= v0);
        self.entries = kept;
    }

    /// Drops the sends cached `SEND_TTL_MS` or more before `now`.
    pub fn purge_at(&mut self, now: u64)
        ensures
            final(self).view() == keep_fresh(old(self).view(), now, SEND_TTL_MS),
    {
        let mut kept: Vec<(String, u64)> = Vec::new();
        let ghost v0 = self.view();
        let mut i: usize = 0;
        while i < self.entries.len()
            invariant
                i <= self.entries.len(),
                v0 == self.view(),
                entries_view(kept@) == keep_fresh(v0.take(i as int), now, SEND_TTL_MS),
            decreases self.entries.len() - i,
        {
            assert(v0.take(i + 1).drop_last() =~= v0.take(i as int));
            let ts = self.entries[i].1;
            let a: u64 = if now >= ts { now - ts } else { 0 };
            if a < SEND_TTL_MS {
                let k = string_of(&chars_of(self.entries[i].0.as_str()));
                kept.push((k, ts));
                assert(entries_view(kept@) =~= keep_fresh(v0.take(i as int), now, SEND_TTL_MS).push(v0[i as int]));
            }
            i = i + 1;
        }
        assert(v0.take(v0.len() as int) =~= v0);
        self.entries = kept;
    }
}

/// Refuses a send whose temporary GUID is already in flight, and otherwise
/// records it at `now`; sends without a temporary GUID (or with an empty
/// one) are not tracked.
pub fn check_send_cache_at(cache: &mut SendCache, temp_guid: Option<&str>, now: u64) -> (r: Result<(), &'static str>)
    ensures
        match temp_guid {
            Some(t) if t@.len() > 0 => if has_key(old(cache).view(), t@) {
                r matches Err(m) && m@ == "This message is already queued to be sent!"@
                    && final(cache).view() == old(cache).view()
            } else {
                r is Ok && has_key(final(cache).view(), t@) && forall|k: Seq<char>|
                    k != t@ ==> (has_key(final(cache).view(), k) <==> has_key(old(cache).view(), k))
            },
            _ => r is Ok && final(cache).view() == old(cache).view(),
        },
{
    match temp_guid {
        Some(t) => {
            if t.is_empty() {
                return Ok(());
            }
            if cache.is_send_cached(t) {
                return Err("This message is already queued to be sent!");
            }
            cache.cache_send_at(t.to_owned(), now);
            Ok(())
        },
        None => Ok(()),
    }
}

/// Chats showing a typing indicator, each once.
pub struct TypingSet {
    pub chats: Vec<String>,
}

impl TypingSet {
    pub open spec fn view(&self) -> Set<Seq<char>> {
        self.chats@.map_values(|s: String| s@).to_set()
    }

    pub fn new() -> (r: Self)
        ensures
            r.view() == Set::<Seq<char>>::empty(),
    {
        let r = TypingSet { chats: Vec::new() };
        assert(r.view() =~= Set::<Seq<char>>::empty());
        r
    }

    fn position(&self, chat: &Vec<char>) -> (r: Option<usize>)
        ensures
            match r {
                Some(i) => i < self.chats@.len() && self.chats@[i as int]@ == chat@,
                None => !self.view().contains(chat@),
            },
    {
        let mut i: usize = 0;
        while i < self.chats.len()
            invariant
                i <= self.chats.len(),
                forall|k: int| 0 <= k < i ==> (#[trigger] self.chats@[k])@ != chat@,
            decreases self.chats.len() - i,
        {
            if chars_equal(&chars_of(self.chats[i].as_str()), chat) {
                return Some(i);
            }
            i = i + 1;
        }
        proof {
            if self.view().contains(chat@) {
                let v = self.chats@.map_values(|s: String| s@);
                let j = choose|j: int| 0 <= j < v.len() && v[j] == chat@;
                assert(self.chats@[j]@ == chat@);
            }
        }
        None
    }

    /// Marks a chat as showing a typing indicator.
    pub fn insert(&mut self, chat: String)
        ensures
            final(self).view() == old(self).view().insert(chat@),
    {
        let key = chars_of(chat.as_str());
        match self.position(&key) {
            Some(i) => {
                proof {
                    let v = self.chats@.map_values(|s: String| s@);
                    assert(v[i as int] == chat@);
                    assert(self.view().contains(chat@));
                    assert(self.view().insert(chat@) =~= self.view());
                }
            },
            None => {
                let ghost v0 = self.chats@.map_values(|s: String| s@);
                self.chats.push(chat);
                proof {
                    let v = self.chats@.map_values(|s: String| s@);
                    assert(v =~= v0.push(key@));
                    assert(v.to_set() =~= v0.to_set().insert(key@)) by {
                        assert forall|x: Seq<char>| v.to_set().contains(x) <==> v0.to_set().insert(key@).contains(x) by {
                            if v.to_set().contains(x) {
                                let j = choose|j: int| 0 <= j < v.len() && v[j] == x;
                                if j < v0.len() {
                                    assert(v0[j] == x);
                                }
                            }
                            if v0.to_set().contains(x) {
                                let j = choose|j: int| 0 <= j < v0.len() && v0[j] == x;
                                assert(v[j] == x);
                            }
                            if x == key@ {
                                assert(v[v0.len() as int] == x);
                            }
                        }
                    }
                }
            },
        }
    }

    /// Clears a chat's typing indicator; whether it was showing one.
    pub fn remove(&mut self, chat: &str) -> (r: bool)
        ensures
            r == old(self).view().contains(chat@),
            final(self).view() == old(self).view().remove(chat@),
    {
        let key = chars_of(chat);
        let ghost v0 = self.chats@.map_values(|s: String| s@);
        let mut kept: Vec<String> = Vec::new();
        let mut found = false;
        let mut i: usize = 0;
        while i < self.chats.len()
            invariant
                i <= self.chats.len(),
                key@ == chat@,
                v0 == self.chats@.map_values(|s: String| s@),
                found == v0.take(i as int).contains(key@),
                kept@.map_values(|s: String| s@).to_set() == v0.take(i as int).to_set().remove(key@),
            decreases self.chats.len() - i,
        {
            let ghost kv = kept@.map_values(|s: String| s@);
            let ghost t0 = v0.take(i as int);
            let ghost t1 = v0.take(i + 1);
            assert(t1 =~= t0.push(v0[i as int]));
            assert(v0[i as int] == self.chats@[i as int]@);
            if chars_equal(&chars_of(self.chats[i].as_str()), &key) {
                found = true;
                proof {
                    assert(t1[i as int] == key@);
                    assert(t1.to_set().remove(key@) =~= t0.to_set().remove(key@)) by {
                        assert forall|x: Seq<char>| t1.to_set().remove(key@).contains(x) <==> t0.to_set().remove(key@).contains(x) by {
                            if t1.to_set().contains(x) && x != key@ {
                                let j = choose|j: int| 0 <= j < t1.len() && t1[j] == x;
                                assert(t0[j] == x);
                            }
                            if t0.to_set().contains(x) {
                                let j = choose|j: int| 0 <= j < t0.len() && t0[j] == x;
                                assert(t1[j] == x);
                            }
                        }
                    }
                }
            } else {
                let s = string_of(&chars_of(self.chats[i].as_str()));
                kept.push(s);
                proof {
                    let nk = kept@.map_values(|s: String| s@);
                    assert(nk =~= kv.push(v0[i as int]));
                    assert(nk.to_set() =~= t1.to_set().remove(key@)) by {
                        assert forall|x: Seq<char>| nk.to_set().contains(x) <==> t1.to_set().remove(key@).contains(x) by {
                            if nk.to_set().contains(x) {
                                let j = choose|j: int| 0 <= j < nk.len() && nk[j] == x;
                                if j < kv.len() {
                                    assert(kv.to_set().contains(x));
                                    let j2 = choose|j2: int| 0 <= j2 < t0.len() && t0[j2] == x;
                                    assert(t1[j2] == x);
                                } else {
                                    assert(t1[i as int] == x);
                                }
                            }
                            if t1.to_set().contains(x) && x != key@ {
                                let j = choose|j: int| 0 <= j < t1.len() && t1[j] == x;
                                if j < i {
                                    assert(t0[j] == x);
                                    assert(kv.to_set().contains(x));
                                    let j2 = choose|j2: int| 0 <= j2 < kv.len() && kv[j2] == x;
                                    assert(nk[j2] == x);
                                } else {
                                    assert(nk[kv.len() as int] == x);
                                }
                            }
                        }
                    }
                }
            }
            proof {
                if t1.contains(key@) && !t0.contains(key@) {
                    let j = choose|j: int| 0 <= j < t1.len() && t1[j] == key@;
                    if j < i {
                        assert(t0[j] == key@);
                    }
                }
                if t0.contains(key@) {
                    let j = choose|j: int| 0 <= j < t0.len() && t0[j] == key@;
                    assert(t1[j] == key@);
                }
            }
            i = i + 1;
        }
        assert(v0.take(v0.len() as int) =~= v0);
        self.chats = kept;
        proof {
            assert(v0.to_set().contains(key@) == v0.contains(key@));
        }
        found
    }
}

} // verus!

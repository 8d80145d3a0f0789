//! Serializer settings, key renaming for decoded plists, and reading
//! `mdls` output.
use vstd::prelude::*;
use crate::config::{home_dir_text, opt_text};
use crate::live_photo::{live_photo_candidate, probe_live_photo, probe_outcome};
use crate::utils::{home_chars_or_empty, path_join, push_path};
use crate::text::{
    chars_equal, chars_of, find_from, occurs_at, slice_of, split_chars, split_on, string_of,
    trim, trim_chars,
};

verus! {

// ---------------------------------------------------------------------------
// Configuration
// ---------------------------------------------------------------------------

/// Configuration for message serialization.
#[derive(Debug, Clone, Copy)]
pub struct MessageSerializerConfig {
    pub parse_attributed_body: bool,
    pub parse_message_summary: bool,
    pub parse_payload_data: bool,
    pub include_chats: bool,
    pub load_chat_participants: bool,
}

impl Default for MessageSerializerConfig {
    fn default() -> (r: Self)
        ensures
            !r.parse_attributed_body && !r.parse_message_summary && !r.parse_payload_data
                && r.include_chats && r.load_chat_participants,
    {
        Self {
            parse_attributed_body: false,
            parse_message_summary: false,
            parse_payload_data: false,
            include_chats: true,
            load_chat_participants: true,
        }
    }
}

impl MessageSerializerConfig {
    /// Config for serializing sent messages (after send/react/edit/unsend).
    pub fn for_sent_message() -> (r: Self)
        ensures
            r.parse_attributed_body && r.parse_message_summary && r.parse_payload_data
                && r.include_chats && !r.load_chat_participants,
    {
        Self {
            parse_attributed_body: true,
            parse_message_summary: true,
            parse_payload_data: true,
            include_chats: true,
            load_chat_participants: false,
        }
    }
}

/// Configuration for attachment serialization.
#[derive(Debug, Clone, Copy)]
pub struct AttachmentSerializerConfig {
    pub load_data: bool,
    pub load_metadata: bool,
}

impl Default for AttachmentSerializerConfig {
    fn default() -> (r: Self)
        ensures
            !r.load_data && r.load_metadata,
    {
        Self { load_data: false, load_metadata: true }
    }
}

/// Configuration for chat serialization.
#[derive(Debug, Clone, Copy)]
pub struct ChatSerializerConfig {
    pub include_participants: bool,
    pub include_messages: bool,
}

impl Default for ChatSerializerConfig {
    fn default() -> (r: Self)
        ensures
            r.include_participants && !r.include_messages,
    {
        Self { include_participants: true, include_messages: false }
    }
}

// ---------------------------------------------------------------------------
// Plist key renaming
// ---------------------------------------------------------------------------

/// Short key -> full key; other keys are kept.
pub open spec fn renamed_key(key: Seq<char>) -> Seq<char> {
    if key == "ec"@ { "editedContent"@ }
    else if key == "ep"@ { "editedParts"@ }
    else if key == "rp"@ { "retractedParts"@ }
    else if key == "euh"@ { "editingUserHandle"@ }
    else if key == "bcg"@ { "backwardsCompatibilityGuid"@ }
    else if key == "d"@ { "date"@ }
    else if key == "t"@ { "text"@ }
    else if key == "otr"@ { "originalTextRange"@ }
    else if key == "amc"@ { "associatedMessageContent"@ }
    else if key == "ams"@ { "associatedMessageSummary"@ }
    else { key }
}

fn is_key(k: &Vec<char>, s: &str) -> (r: bool)
    ensures
        r == (k@ == s@),
{
    let c = chars_of(s);
    chars_equal(k, &c)
}

fn text(s: &str) -> (r: String)
    ensures
        r@ == s@,
{
    string_of(&chars_of(s))
}

/// The full name of a short plist key.
pub fn rename_key(key: &str) -> (r: String)
    ensures
        r@ == renamed_key(key@),
{
    let k = chars_of(key);
    if is_key(&k, "ec") { text("editedContent") }
    else if is_key(&k, "ep") { text("editedParts") }
    else if is_key(&k, "rp") { text("retractedParts") }
    else if is_key(&k, "euh") { text("editingUserHandle") }
    else if is_key(&k, "bcg") { text("backwardsCompatibilityGuid") }
    else if is_key(&k, "d") { text("date") }
    else if is_key(&k, "t") { text("text") }
    else if is_key(&k, "otr") { text("originalTextRange") }
    else if is_key(&k, "amc") { text("associatedMessageContent") }
    else if is_key(&k, "ams") { text("associatedMessageSummary") }
    else { string_of(&k) }
}

// ---------------------------------------------------------------------------
// String maps
// ---------------------------------------------------------------------------

/// A map from strings to strings, kept as a list of distinct keys.
#[derive(Debug, Clone)]
pub struct StringMap {
    pub entries: Vec<(String, String)>,
}

/// The map a list of key/value pairs denotes when later pairs win.
pub open spec fn pairs_map(es: Seq<(String, String)>) -> Map<Seq<char>, Seq<char>>
    decreases es.len(),
{
    if es.len() == 0 {
        Map::empty()
    } else {
        pairs_map(es.drop_last()).insert(es.last().0@, es.last().1@)
    }
}

impl StringMap {
    pub open spec fn view(&self) -> Map<Seq<char>, Seq<char>> {
        pairs_map(self.entries@)
    }

    /// Keys are distinct.
    pub open spec fn wf(&self) -> bool {
        forall|i: int, j: int|
            0 <= i < j < self.entries@.len() ==> #[trigger] self.entries@[i].0@
                != #[trigger] self.entries@[j].0@
    }

    pub fn new() -> (r: Self)
        ensures
            r.wf(),
            r.view() == Map::<Seq<char>, Seq<char>>::empty(),
    {
        StringMap { entries: Vec::new() }
    }

    fn position(&self, key: &Vec<char>) -> (r: Option<usize>)
        ensures
            r matches Some(i) ==> i < self.entries@.len() && self.entries@[i as int].0@ == key@,
            r is None ==> forall|i: int| 0 <= i < self.entries@.len() ==> #[trigger] self.entries@[i].0@ != key@,
    {
        let mut i: usize = 0;
        while i < self.entries.len()
            invariant
                i <= self.entries.len(),
                forall|k: int| 0 <= k < i ==> #[trigger] self.entries@[k].0@ != key@,
            decreases self.entries.len() - i,
        {
            let c = chars_of(self.entries[i].0.as_str());
            if chars_equal(&c, key) {
                return Some(i);
            }
            i = i + 1;
        }
        None
    }

    pub fn len(&self) -> (r: usize)
        ensures
            r == self.entries@.len(),
    {
        self.entries.len()
    }

    pub fn contains_key(&self, key: &str) -> (r: bool)
        requires
            self.wf(),
        ensures
            r == self.view().contains_key(key@),
    {
        let k = chars_of(key);
        proof { lemma_pairs_map_dom(self.entries@); }
        match self.position(&k) {
            Some(_) => true,
            None => false,
        }
    }

    pub fn get(&self, key: &str) -> (r: Option<String>)
        requires
            self.wf(),
        ensures
            r is Some == self.view().contains_key(key@),
            r matches Some(v) ==> v@ == self.view()[key@],
    {
        let k = chars_of(key);
        proof { lemma_pairs_map_dom(self.entries@); }
        match self.position(&k) {
            Some(i) => {
                proof { lemma_pairs_map_distinct_value(self.entries@, i as int); }
                Some(text(self.entries[i].1.as_str()))
            },
            None => None,
        }
    }

    pub fn insert(&mut self, key: String, value: String)
        requires
            old(self).wf(),
        ensures
            final(self).wf(),
            final(self).view() == old(self).view().insert(key@, value@),
    {
        let k = chars_of(key.as_str());
        match self.position(&k) {
            Some(i) => {
                let ghost es = self.entries@;
                let kk = text(self.entries[i].0.as_str());
                let ghost e = (kk, value);
                self.entries.set(i, (kk, value));
                assert(self.entries@ =~= es.update(i as int, e));
                proof { lemma_pairs_map_replace_eq(es, i as int, e, self.entries@); }
            },
            None => {
                let ghost es = self.entries@;
                let ghost e = (key, value);
                self.entries.push((key, value));
                assert(self.entries@.drop_last() =~= es);
                assert(self.entries@.last() == e);
            },
        }
    }
}

pub proof fn lemma_pairs_map_dom(es: Seq<(String, String)>)
    ensures
        forall|k: Seq<char>| pairs_map(es).contains_key(k) <==> exists|i: int| 0 <= i < es.len() && #[trigger] es[i].0@ == k,
    decreases es.len(),
{
    if es.len() > 0 {
        lemma_pairs_map_dom(es.drop_last());
        assert forall|k: Seq<char>| pairs_map(es).contains_key(k) <==> exists|i: int| 0 <= i < es.len() && #[trigger] es[i].0@ == k by {
            if pairs_map(es).contains_key(k) && k != es.last().0@ {
                assert(pairs_map(es.drop_last()).contains_key(k));
                let i = choose|i: int| 0 <= i < es.drop_last().len() && #[trigger] es.drop_last()[i].0@ == k;
                assert(es.drop_last()[i] == es[i]);
                assert(es[i].0@ == k);
            }
            if exists|i: int| 0 <= i < es.len() && #[trigger] es[i].0@ == k {
                let i = choose|i: int| 0 <= i < es.len() && #[trigger] es[i].0@ == k;
                if i < es.len() - 1 {
                    assert(es.drop_last()[i] == es[i]);
                    assert(es.drop_last()[i].0@ == k);
                    assert(pairs_map(es.drop_last()).contains_key(k));
                }
            }
            if k == es.last().0@ {
                assert(es[es.len() - 1].0@ == k);
            }
        }
    }
}

/// With distinct keys, the map holds each entry's value under its key.
pub proof fn lemma_pairs_map_distinct_value(es: Seq<(String, String)>, i: int)
    requires
        0 <= i < es.len(),
        forall|a: int, b: int| 0 <= a < b < es.len() ==> #[trigger] es[a].0@ != #[trigger] es[b].0@,
    ensures
        pairs_map(es).contains_key(es[i].0@),
        pairs_map(es)[es[i].0@] == es[i].1@,
    decreases es.len(),
{
    if i < es.len() - 1 {
        assert(es.drop_last()[i] == es[i]);
        lemma_pairs_map_distinct_value(es.drop_last(), i);
        assert(es[i].0@ != es[es.len() - 1].0@);
    }
}

/// Replacing the value of the entry at `i` (distinct keys) updates the map at that key.
proof fn lemma_pairs_map_replace_eq(
    es: Seq<(String, String)>,
    i: int,
    e: (String, String),
    new_es: Seq<(String, String)>,
)
    requires
        0 <= i < es.len(),
        e.0@ == es[i].0@,
        new_es == es.update(i, e),
        forall|a: int, b: int| 0 <= a < b < es.len() ==> #[trigger] es[a].0@ != #[trigger] es[b].0@,
    ensures
        pairs_map(new_es) == pairs_map(es).insert(e.0@, e.1@),
    decreases es.len(),
{
    if i == es.len() - 1 {
        assert(new_es.drop_last() =~= es.drop_last());
        assert(pairs_map(es).insert(e.0@, e.1@) =~= pairs_map(es.drop_last()).insert(e.0@, e.1@));
    } else {
        assert(new_es.drop_last() =~= es.drop_last().update(i, e));
        lemma_pairs_map_replace_eq(es.drop_last(), i, e, new_es.drop_last());
        assert(es[i].0@ != es.last().0@);
        assert(pairs_map(new_es) =~= pairs_map(es).insert(e.0@, e.1@));
    }
}

// ---------------------------------------------------------------------------
// mdls output
// ---------------------------------------------------------------------------

/// `s` without leading and trailing double quotes.
pub open spec fn strip_quotes_start(s: Seq<char>) -> Seq<char>
    decreases s.len(),
{
    if s.len() > 0 && s[0] == '"' {
        strip_quotes_start(s.drop_first())
    } else {
        s
    }
}

pub open spec fn strip_quotes_end(s: Seq<char>) -> Seq<char>
    decreases s.len(),
{
    if s.len() > 0 && s.last() == '"' {
        strip_quotes_end(s.drop_last())
    } else {
        s
    }
}

pub open spec fn strip_quotes(s: Seq<char>) -> Seq<char> {
    strip_quotes_end(strip_quotes_start(s))
}

fn strip_quotes_chars(v: &Vec<char>) -> (r: Vec<char>)
    ensures
        r@ == strip_quotes(v@),
{
    let n = v.len();
    let mut a: usize = 0;
    assert(v@.subrange(0, n as int) =~= v@);
    while a < n && v[a] == '"'
        invariant
            a <= n,
            n == v.len(),
            strip_quotes_start(v@) == strip_quotes_start(v@.subrange(a as int, n as int)),
        decreases n - a,
    {
        assert(v@.subrange(a as int, n as int).drop_first() =~= v@.subrange(a + 1, n as int));
        a = a + 1;
    }
    let mut b: usize = n;
    while b > a && v[b - 1] == '"'
        invariant
            a <= b <= n,
            n == v.len(),
            strip_quotes_end(v@.subrange(a as int, n as int)) == strip_quotes_end(v@.subrange(a as int, b as int)),
        decreases b - a,
    {
        assert(v@.subrange(a as int, b as int).drop_last() =~= v@.subrange(a as int, b - 1));
        b = b - 1;
    }
    slice_of(v, a, b)
}

/// The key and value one line of `mdls` output gives: the line is split at
/// its first ` = `; the key is trimmed, the value trimmed and unquoted; a
/// `(null)` value gives nothing.
pub open spec fn mdls_entry(line: Seq<char>) -> Option<(Seq<char>, Seq<char>)> {
    let t = trim(line);
    if exists|i: int| occurs_at(t, " = "@, i) {
        let i = choose|i: int| occurs_at(t, " = "@, i) && forall|j: int| 0 <= j < i ==> !occurs_at(t, " = "@, j);
        let key = trim(t.take(i));
        let val = strip_quotes(trim(t.skip(i + 3)));
        if val == "(null)"@ {
            None
        } else {
            Some((key, val))
        }
    } else {
        None
    }
}

/// The map the given lines of `mdls` output give; a later line wins.
pub open spec fn mdls_map(lines: Seq<Seq<char>>) -> Map<Seq<char>, Seq<char>>
    decreases lines.len(),
{
    if lines.len() == 0 {
        Map::empty()
    } else {
        match mdls_entry(lines.last()) {
            Some(kv) => mdls_map(lines.drop_last()).insert(kv.0, kv.1),
            None => mdls_map(lines.drop_last()),
        }
    }
}

fn mdls_line(line: &Vec<char>) -> (r: Option<(String, String)>)
    ensures
        r is None <==> mdls_entry(line@) is None,
        r matches Some(kv) ==> mdls_entry(line@) == Some((kv.0@, kv.1@)),
{
    let t = trim_chars(line);
    let sep = chars_of(" = ");
    proof { reveal_strlit(" = "); }
    match find_from(&t, &sep, 0) {
        None => None,
        Some(i) => {
            let ghost ti = choose|k: int| occurs_at(t@, " = "@, k) && forall|j: int| 0 <= j < k ==> !occurs_at(t@, " = "@, j);
            assert(ti == i as int) by {
                if ti < i as int {
                    assert(!occurs_at(t@, " = "@, ti));
                }
                if ti > i as int {
                    assert(!occurs_at(t@, " = "@, i as int));
                }
            }
            let k0 = slice_of(&t, 0, i);
            let key = trim_chars(&k0);
            let v0 = slice_of(&t, i + 3, t.len());
            let v1 = trim_chars(&v0);
            let val = strip_quotes_chars(&v1);
            let null = chars_of("(null)");
            assert(k0@ =~= t@.take(i as int));
            assert(v0@ =~= t@.skip(i + 3));
            if chars_equal(&val, &null) {
                None
            } else {
                Some((string_of(&key), string_of(&val)))
            }
        },
    }
}

/// Parse `mdls` output (`key = value` lines) into a key/value map.
pub fn parse_mdls_output(output: &str) -> (r: StringMap)
    ensures
        r.wf(),
        r.view() == mdls_map(split_on(output@, '\n')),
{
    let o = chars_of(output);
    let lines = split_chars(&o, '\n');
    let ghost ls = split_on(output@, '\n');
    let mut m = StringMap::new();
    let mut i: usize = 0;
    while i < lines.len()
        invariant
            i <= lines.len(),
            lines@.len() == ls.len(),
            forall|k: int| 0 <= k < lines@.len() ==> #[trigger] lines@[k]@ == ls[k],
            m.wf(),
            m.view() == mdls_map(ls.take(i as int)),
        decreases lines.len() - i,
    {
        assert(ls.take(i + 1).drop_last() =~= ls.take(i as int));
        assert(ls.take(i + 1).last() == lines@[i as int]@);
        match mdls_line(&lines[i]) {
            Some(kv) => {
                m.insert(kv.0, kv.1);
            },
            None => {},
        }
        i = i + 1;
    }
    assert(ls.take(ls.len() as int) =~= ls);
    m
}

// ---------------------------------------------------------------------------
// Live photos
// ---------------------------------------------------------------------------

/// A path with a leading `~` resolved against the home directory (an empty
/// path when there is none): everything after the first two characters is
/// joined onto it.  Other paths are unchanged.
pub open spec fn tilde_resolved(path: Seq<char>, home: Option<Seq<char>>) -> Seq<char> {
    if path.len() > 0 && path[0] == '~' {
        path_join(
            match home {
                Some(h) => h,
                None => Seq::empty(),
            },
            path.subrange(2, path.len() as int),
        )
    } else {
        path
    }
}

/// A path starting with `~` has a second character, and it is ASCII (so
/// that what follows it starts on a character boundary).
pub open spec fn tilde_well_formed(path: Seq<char>) -> bool {
    path.len() > 0 && path[0] == '~' ==> path.len() >= 2 && (path[1] as u32) < 128
}

pub(crate) fn resolve_tilde(file_path: &str, home: &Option<String>) -> (r: Vec<char>)
    requires
        tilde_well_formed(file_path@),
    ensures
        r@ == tilde_resolved(file_path@, opt_text(*home)),
{
    let p = chars_of(file_path);
    if p.len() > 0 && p[0] == '~' {
        let rest = slice_of(&p, 2, p.len());
        if rest.len() > 0 && rest[0] == '/' {
            rest
        } else {
            let base = home_chars_or_empty(home);
            push_path(&base, &rest)
        }
    } else {
        p
    }
}

/// Whether the image at `file_path` (with `~` resolved against `home`) has
/// a live photo `.mov` companion, as `mov_exists` reports.
pub fn has_live_photo_in<F: Fn(&str) -> bool>(
    file_path: &str,
    home: &Option<String>,
    mov_exists: &F,
) -> (r: bool)
    requires
        tilde_well_formed(file_path@),
        forall|a: &str| mov_exists.requires((a,)),
    ensures
        exists|found: Option<Seq<char>>|
            probe_outcome(
                *mov_exists,
                live_photo_candidate(tilde_resolved(file_path@, opt_text(*home))),
                found,
            ) && r == found is Some,
{
    let resolved = string_of(&resolve_tilde(file_path, home));
    let found = probe_live_photo(resolved.as_str(), mov_exists);
    match found {
        Some(_) => true,
        None => false,
    }
}

/// Check if a live photo .mov companion exists for the given image path.
pub fn has_live_photo<F: Fn(&str) -> bool>(file_path: &str, mov_exists: &F) -> (r: bool)
    requires
        tilde_well_formed(file_path@),
        forall|a: &str| mov_exists.requires((a,)),
    ensures
        exists|h: Option<String>, found: Option<Seq<char>>|
            probe_outcome(
                *mov_exists,
                live_photo_candidate(tilde_resolved(file_path@, opt_text(h))),
                found,
            ) && r == found is Some,
{
    let h = home_dir_text();
    has_live_photo_in(file_path, &h, mov_exists)
}

} // verus!

//! Markdown emphasis in message text, turned into iMessage formatting
//! ranges.
//!
//! Fenced code, inline code and URLs are set aside first, then backslash
//! escapes; emphasis markers are then removed pass by pass, longest markers
//! first, and the spans they enclosed recorded as ranges in characters of
//! the text being worked on.  Set-aside text stands in the working text as
//! runs of private-use characters and is put back at the end, and the
//! ranges are then moved to UTF-8 byte offsets of the clean text.
use vstd::prelude::*;
use crate::formatting::{ParsedFormatting, TextFormattingRange, TextFormattingStyle};
use crate::text::{
    chars_equal, chars_of, is_word, is_word_char, is_ws, is_ws_char, occurs_at, push_all, string_of,
};

verus! {

// ---------------------------------------------------------------------------
// UTF-8 lengths
// ---------------------------------------------------------------------------

/// Bytes of a character in UTF-8.
pub open spec fn utf8_width(c: char) -> nat {
    if (c as u32) < 0x80 {
        1
    } else if (c as u32) < 0x800 {
        2
    } else if (c as u32) < 0x10000 {
        3
    } else {
        4
    }
}

/// Bytes of a character sequence in UTF-8.
pub open spec fn utf8_len(s: Seq<char>) -> nat
    decreases s.len(),
{
    if s.len() == 0 {
        0
    } else {
        utf8_len(s.drop_last()) + utf8_width(s.last())
    }
}

pub(crate) proof fn lemma_utf8_len_concat(a: Seq<char>, b: Seq<char>)
    ensures
        utf8_len(a + b) == utf8_len(a) + utf8_len(b),
    decreases b.len(),
{
    if b.len() == 0 {
        assert(a + b =~= a);
    } else {
        lemma_utf8_len_concat(a, b.drop_last());
        assert((a + b).drop_last() =~= a + b.drop_last());
    }
}

pub(crate) proof fn lemma_utf8_len_bounds(s: Seq<char>)
    ensures
        s.len() <= utf8_len(s) <= 4 * s.len(),
    decreases s.len(),
{
    if s.len() > 0 {
        lemma_utf8_len_bounds(s.drop_last());
    }
}

pub(crate) proof fn lemma_utf8_len_push(s: Seq<char>, c: char)
    ensures
        utf8_len(s.push(c)) == utf8_len(s) + utf8_width(c),
{
    assert(s.push(c).drop_last() =~= s);
}

pub(crate) fn char_width(c: char) -> (r: usize)
    ensures
        r == utf8_width(c),
{
    let v = c as u32;
    if v < 0x80 {
        1
    } else if v < 0x800 {
        2
    } else if v < 0x10000 {
        3
    } else {
        4
    }
}

// ---------------------------------------------------------------------------
// Replacement and private-use characters
// ---------------------------------------------------------------------------

/// `t` with each occurrence of `pat`, found left to right without
/// overlapping, replaced by `rep` (what `str::replace` does).
pub open spec fn replaced(t: Seq<char>, pat: Seq<char>, rep: Seq<char>) -> Seq<char>
    decreases t.len(),
{
    if pat.len() == 0 || t.len() < pat.len() {
        t
    } else if t.subrange(0, pat.len() as int) == pat {
        rep + replaced(t.skip(pat.len() as int), pat, rep)
    } else {
        seq![t[0]] + replaced(t.skip(1), pat, rep)
    }
}

pub(crate) fn replace_all(t: &Vec<char>, pat: &Vec<char>, rep: &Vec<char>) -> (r: Vec<char>)
    requires
        pat@.len() > 0,
    ensures
        r@ == replaced(t@, pat@, rep@),
{
    let mut out: Vec<char> = Vec::new();
    let mut i: usize = 0;
    assert(t@.skip(0) =~= t@);
    while i < t.len()
        invariant
            i <= t.len(),
            pat@.len() > 0,
            out@ + replaced(t@.skip(i as int), pat@, rep@) == replaced(t@, pat@, rep@),
        decreases t.len() - i,
    {
        let ghost rest = t@.skip(i as int);
        if pat.len() <= t.len() - i && occurs_at_from(t, pat, i) {
            proof {
                assert(rest.subrange(0, pat@.len() as int) =~= t@.subrange(
                    i as int,
                    i + pat@.len(),
                ));
                assert(rest.skip(pat@.len() as int) =~= t@.skip(i + pat@.len()));
                assert(replaced(rest, pat@, rep@) == rep@ + replaced(
                    t@.skip(i + pat@.len()),
                    pat@,
                    rep@,
                ));
            }
            let ghost o0 = out@;
            push_all(&mut out, rep);
            assert(o0 + replaced(rest, pat@, rep@) =~= out@ + replaced(
                t@.skip(i + pat@.len()),
                pat@,
                rep@,
            ));
            i = i + pat.len();
        } else {
            proof {
                assert(rest.skip(1) =~= t@.skip(i + 1));
                if rest.len() >= pat@.len() {
                    assert(rest.subrange(0, pat@.len() as int) =~= t@.subrange(
                        i as int,
                        i + pat@.len(),
                    ));
                    assert(replaced(rest, pat@, rep@) == seq![rest[0]] + replaced(
                        rest.skip(1),
                        pat@,
                        rep@,
                    ));
                } else {
                    assert(replaced(rest, pat@, rep@) == rest);
                    assert(replaced(rest.skip(1), pat@, rep@) == rest.skip(1));
                    assert(rest =~= seq![rest[0]] + rest.skip(1));
                }
            }
            let ghost o0 = out@;
            out.push(t[i]);
            assert(o0 + replaced(rest, pat@, rep@) =~= out@ + replaced(
                t@.skip(i + 1),
                pat@,
                rep@,
            ));
            i = i + 1;
        }
    }
    assert(t@.skip(i as int) =~= Seq::<char>::empty());
    assert(out@ + replaced(t@.skip(i as int), pat@, rep@) =~= out@);
    out
}

fn occurs_at_from(s: &Vec<char>, p: &Vec<char>, i: usize) -> (r: bool)
    requires
        i + p@.len() <= s@.len(),
    ensures
        r == (s@.subrange(i as int, i + p@.len()) == p@),
{
    let mut k: usize = 0;
    while k < p.len()
        invariant
            k <= p.len(),
            i + p@.len() <= s@.len(),
            i + p.len() <= s.len(),
            forall|j: int| 0 <= j < k ==> s@[i + j] == p@[j],
        decreases p.len() - k,
    {
        if s[i + k] != p[k] {
            assert(s@.subrange(i as int, i + p@.len())[k as int] != p@[k as int]);
            return false;
        }
        k = k + 1;
    }
    assert(s@.subrange(i as int, i + p@.len()) =~= p@);
    true
}

/// The private-use character `base + idx`, or `base` itself past the last
/// code point.
pub open spec fn pua(base: u32, idx: int) -> char {
    if base + idx <= 0x10FFFF {
        ((base + idx) as u32) as char
    } else {
        base as char
    }
}

/// Trusted: calls `char::from_u32`.  The contract claims that it gives the
/// character with that code exactly when the code is a Unicode scalar
/// value (not a surrogate, at most `0x10FFFF`), and nothing otherwise.
#[verifier::external_body]
fn char_from_code(v: u32) -> (r: Option<char>)
    ensures
        (v <= 0xD7FF || (0xE000 <= v && v <= 0x10FFFF)) ==> r == Some(v as char),
        !(v <= 0xD7FF || (0xE000 <= v && v <= 0x10FFFF)) ==> r is None,
{
    char::from_u32(v)
}

/// First private-use character standing for set-aside code and URLs.
pub const PROTECT_BASE: u32 = 0xE000;

/// First private-use character standing for escaped characters.
pub const ESCAPE_BASE: u32 = 0xF000;

fn pua_char(base: u32, idx: usize) -> (r: char)
    requires
        base == PROTECT_BASE || base == ESCAPE_BASE,
    ensures
        r == pua(base, idx as int),
{
    let fallback = match char_from_code(base) {
        Some(c) => c,
        None => ' ',
    };
    if idx <= (0x10FFFF - base) as usize {
        match char_from_code(base + idx as u32) {
            Some(c) => c,
            None => fallback,
        }
    } else {
        fallback
    }
}

/// `n` copies of `c`.
pub open spec fn run_of(c: char, n: nat) -> Seq<char> {
    Seq::new(n, |_i: int| c)
}

proof fn lemma_utf8_len_run(c: char, n: nat)
    ensures
        utf8_len(run_of(c, n)) == n * utf8_width(c),
    decreases n,
{
    if n > 0 {
        let m = (n - 1) as nat;
        lemma_utf8_len_run(c, m);
        assert(run_of(c, n).drop_last() =~= run_of(c, m));
        assert(run_of(c, n).last() == c);
        assert(utf8_len(run_of(c, n)) == utf8_len(run_of(c, m)) + utf8_width(c));
        let w = utf8_width(c);
        assert(m * w + w == n * w) by (nonlinear_arith)
            requires
                n == m + 1,
        ;
    }
}

// ---------------------------------------------------------------------------
// Patterns
// ---------------------------------------------------------------------------

/// The patterns looked for, in the order they are applied.
#[derive(Clone, Copy, PartialEq, Eq, Structural)]
pub enum Pattern {
    /// ```` ``` ```` ... ```` ``` ````
    FencedCode,
    /// `` ` `` then at least one other character, then `` ` ``
    InlineCode,
    /// `http://` or `https://` and the characters up to whitespace, `)`,
    /// `>` or `]`
    Url,
    /// `\` before a markdown punctuation character
    Escape,
    /// `***text***`
    BoldItalicStar,
    /// `___text___`, not inside a word
    BoldItalicUnderscore,
    /// `**text**`
    BoldStar,
    /// `__text__`, not inside a word
    BoldUnderscore,
    /// `*text*`, a lone star on either side
    ItalicStar,
    /// `_text_`, a lone underscore not inside a word
    ItalicUnderscore,
    /// `~~text~~`
    Strikethrough,
}

pub open spec fn marker(p: Pattern) -> char {
    match p {
        Pattern::BoldItalicStar | Pattern::BoldStar | Pattern::ItalicStar => '*',
        Pattern::BoldItalicUnderscore | Pattern::BoldUnderscore | Pattern::ItalicUnderscore => '_',
        Pattern::Strikethrough => '~',
        _ => '`',
    }
}

/// How many marker characters open and close an emphasis.
pub open spec fn marker_count(p: Pattern) -> nat {
    match p {
        Pattern::BoldItalicStar | Pattern::BoldItalicUnderscore => 3,
        Pattern::BoldStar | Pattern::BoldUnderscore | Pattern::Strikethrough => 2,
        Pattern::ItalicStar | Pattern::ItalicUnderscore => 1,
        _ => 0,
    }
}

pub open spec fn is_emphasis(p: Pattern) -> bool {
    marker_count(p) > 0
}

/// `n` copies of `c` stand at `i`.
pub open spec fn run_at(s: Seq<char>, i: int, c: char, n: nat) -> bool {
    0 <= i && i + n <= s.len() && forall|k: int| i <= k < i + n ==> #[trigger] s[k] == c
}

pub open spec fn char_at_is(s: Seq<char>, i: int, c: char) -> bool {
    0 <= i < s.len() && s[i] == c
}

pub open spec fn word_at(s: Seq<char>, i: int) -> bool {
    0 <= i < s.len() && is_word(s[i])
}

/// The markers of an emphasis may open at `i`.
pub open spec fn opens(p: Pattern, s: Seq<char>, i: int) -> bool {
    &&& run_at(s, i, marker(p), marker_count(p))
    &&& match p {
        Pattern::BoldItalicUnderscore | Pattern::BoldUnderscore => !word_at(s, i - 1),
        Pattern::ItalicStar => !char_at_is(s, i - 1, '*') && !char_at_is(s, i + 1, '*'),
        Pattern::ItalicUnderscore => !word_at(s, i - 1) && !char_at_is(s, i + 1, '_'),
        _ => true,
    }
}

/// The markers of an emphasis may close at `q`.
pub open spec fn closes(p: Pattern, s: Seq<char>, q: int) -> bool {
    &&& run_at(s, q, marker(p), marker_count(p))
    &&& match p {
        Pattern::BoldItalicUnderscore | Pattern::BoldUnderscore => !word_at(
            s,
            q + marker_count(p),
        ),
        Pattern::ItalicStar => !char_at_is(s, q - 1, '*') && !char_at_is(s, q + 1, '*'),
        Pattern::ItalicUnderscore => !char_at_is(s, q - 1, '_') && !word_at(s, q + 1),
        _ => true,
    }
}

/// Where the closing markers of an emphasis whose text starts at `lo`
/// stand, searching from `q`: the first place past `lo` where they may
/// close, the text before it holding no line break.
pub open spec fn close_search(p: Pattern, s: Seq<char>, lo: int, q: int) -> Option<int>
    decreases s.len() - q,
{
    if q < 0 || q >= s.len() {
        None
    } else if q > lo && closes(p, s, q) {
        Some(q)
    } else if s[q] == '\n' {
        None
    } else {
        close_search(p, s, lo, q + 1)
    }
}

/// The first run of three backticks at or after `q`.
pub open spec fn fence_search(s: Seq<char>, q: int) -> Option<int>
    decreases s.len() - q,
{
    if q < 0 || q + 3 > s.len() {
        None
    } else if run_at(s, q, '`', 3) {
        Some(q)
    } else {
        fence_search(s, q + 1)
    }
}

/// The first `c` at or after `q`.
pub open spec fn char_search(s: Seq<char>, c: char, q: int) -> Option<int>
    decreases s.len() - q,
{
    if q < 0 || q >= s.len() {
        None
    } else if s[q] == c {
        Some(q)
    } else {
        char_search(s, c, q + 1)
    }
}

pub open spec fn url_char(c: char) -> bool {
    !is_ws(c) && c != ')' && c != '>' && c != ']'
}

/// The end of the run of URL characters starting at `q`.
pub open spec fn url_run_end(s: Seq<char>, q: int) -> int
    decreases s.len() - q,
{
    if q < 0 || q >= s.len() {
        q
    } else if !url_char(s[q]) {
        q
    } else {
        url_run_end(s, q + 1)
    }
}

/// Where the address of a URL starting at `i` begins.
pub open spec fn url_prefix_end(s: Seq<char>, i: int) -> Option<int> {
    if !occurs_at(s, seq!['h', 't', 't', 'p'], i) {
        None
    } else if char_at_is(s, i + 4, 's') && occurs_at(s, seq![':', '/', '/'], i + 5) {
        Some(i + 8)
    } else if occurs_at(s, seq![':', '/', '/'], i + 4) {
        Some(i + 7)
    } else {
        None
    }
}

pub open spec fn escapable(c: char) -> bool {
    ||| c == '\\' || c == '`' || c == '*' || c == '_' || c == '~' || c == '{' || c == '}'
    ||| c == '[' || c == ']' || c == '<' || c == '>' || c == '(' || c == ')' || c == '#'
    ||| c == '+' || c == '-' || c == '.' || c == '!' || c == '|'
}

/// Where a match of `p` starting at `i` ends, if one starts there.
pub open spec fn match_end(p: Pattern, s: Seq<char>, i: int) -> Option<int> {
    match p {
        Pattern::FencedCode => if run_at(s, i, '`', 3) {
            match fence_search(s, i + 3) {
                Some(q) => Some(q + 3),
                None => None,
            }
        } else {
            None
        },
        Pattern::InlineCode => if char_at_is(s, i, '`') {
            match char_search(s, '`', i + 1) {
                Some(q) => if q >= i + 2 {
                    Some(q + 1)
                } else {
                    None
                },
                None => None,
            }
        } else {
            None
        },
        Pattern::Url => match url_prefix_end(s, i) {
            Some(q) => if url_run_end(s, q) > q {
                Some(url_run_end(s, q))
            } else {
                None
            },
            None => None,
        },
        Pattern::Escape => if char_at_is(s, i, '\\') && i + 1 < s.len() && escapable(s[i + 1]) {
            Some(i + 2)
        } else {
            None
        },
        _ => if opens(p, s, i) {
            match close_search(p, s, i + marker_count(p), i + marker_count(p)) {
                Some(q) => Some(q + marker_count(p)),
                None => None,
            }
        } else {
            None
        },
    }
}

/// The first match of `p` starting at or after `from`: (start, end).
pub open spec fn first_match(p: Pattern, s: Seq<char>, from: int) -> Option<(int, int)>
    decreases s.len() - from,
{
    if from < 0 || from >= s.len() {
        None
    } else {
        match match_end(p, s, from) {
            Some(e) => Some((from, e)),
            None => first_match(p, s, from + 1),
        }
    }
}

proof fn lemma_close_search(p: Pattern, s: Seq<char>, lo: int, q: int)
    ensures
        close_search(p, s, lo, q) matches Some(x) ==> q <= x && lo < x && x < s.len() && closes(
            p,
            s,
            x,
        ),
    decreases s.len() - q,
{
    if 0 <= q < s.len() && !(q > lo && closes(p, s, q)) && s[q] != '\n' {
        lemma_close_search(p, s, lo, q + 1);
    }
}

proof fn lemma_fence_search(s: Seq<char>, q: int)
    ensures
        fence_search(s, q) matches Some(x) ==> q <= x && x + 3 <= s.len(),
    decreases s.len() - q,
{
    if 0 <= q && q + 3 <= s.len() && !run_at(s, q, '`', 3) {
        lemma_fence_search(s, q + 1);
    }
}

proof fn lemma_char_search(s: Seq<char>, c: char, q: int)
    ensures
        char_search(s, c, q) matches Some(x) ==> q <= x < s.len() && s[x] == c,
    decreases s.len() - q,
{
    if 0 <= q < s.len() && s[q] != c {
        lemma_char_search(s, c, q + 1);
    }
}

proof fn lemma_url_run_end(s: Seq<char>, q: int)
    requires
        0 <= q <= s.len(),
    ensures
        q <= url_run_end(s, q) <= s.len(),
    decreases s.len() - q,
{
    if q < s.len() && url_char(s[q]) {
        lemma_url_run_end(s, q + 1);
    }
}

/// A match is not empty and lies within the text.
proof fn lemma_match_end(p: Pattern, s: Seq<char>, i: int)
    requires
        0 <= i,
    ensures
        match_end(p, s, i) matches Some(e) ==> i < e <= s.len(),
{
    match p {
        Pattern::FencedCode => lemma_fence_search(s, i + 3),
        Pattern::InlineCode => lemma_char_search(s, '`', i + 1),
        Pattern::Url => {
            if let Some(q) = url_prefix_end(s, i) {
                lemma_url_run_end(s, q);
            }
        },
        Pattern::Escape => {},
        _ => {
            lemma_close_search(p, s, i + marker_count(p), i + marker_count(p));
        },
    }
}

pub proof fn lemma_first_match(p: Pattern, s: Seq<char>, from: int)
    requires
        0 <= from,
    ensures
        first_match(p, s, from) matches Some((a, e)) ==> from <= a < e <= s.len()
            && match_end(p, s, a) == Some(e),
    decreases s.len() - from,
{
    if from < s.len() {
        lemma_match_end(p, s, from);
        if match_end(p, s, from) is None {
            lemma_first_match(p, s, from + 1);
        }
    }
}

pub open spec fn as_int(o: Option<usize>) -> Option<int> {
    match o {
        Some(x) => Some(x as int),
        None => None,
    }
}

fn marker_of(p: Pattern) -> (r: char)
    ensures
        r == marker(p),
{
    match p {
        Pattern::BoldItalicStar | Pattern::BoldStar | Pattern::ItalicStar => '*',
        Pattern::BoldItalicUnderscore | Pattern::BoldUnderscore | Pattern::ItalicUnderscore => '_',
        Pattern::Strikethrough => '~',
        _ => '`',
    }
}

fn count_of(p: Pattern) -> (r: usize)
    ensures
        r == marker_count(p),
{
    match p {
        Pattern::BoldItalicStar | Pattern::BoldItalicUnderscore => 3,
        Pattern::BoldStar | Pattern::BoldUnderscore | Pattern::Strikethrough => 2,
        Pattern::ItalicStar | Pattern::ItalicUnderscore => 1,
        _ => 0,
    }
}

fn run_at_exec(s: &Vec<char>, i: usize, c: char, n: usize) -> (r: bool)
    ensures
        r == run_at(s@, i as int, c, n as nat),
{
    if n > s.len() || i > s.len() - n {
        return false;
    }
    let mut k: usize = 0;
    while k < n
        invariant
            k <= n,
            i + n <= s.len(),
            forall|j: int| i <= j < i + k ==> s@[j] == c,
        decreases n - k,
    {
        if s[i + k] != c {
            return false;
        }
        k = k + 1;
    }
    true
}

fn char_at_is_exec(s: &Vec<char>, i: usize, c: char) -> (r: bool)
    ensures
        r == char_at_is(s@, i as int, c),
{
    i < s.len() && s[i] == c
}

fn word_at_exec(s: &Vec<char>, i: usize) -> (r: bool)
    ensures
        r == word_at(s@, i as int),
{
    i < s.len() && is_word_char(s[i])
}

fn opens_exec(p: Pattern, s: &Vec<char>, i: usize) -> (r: bool)
    requires
        i < s.len(),
    ensures
        r == opens(p, s@, i as int),
{
    if !run_at_exec(s, i, marker_of(p), count_of(p)) {
        return false;
    }
    match p {
        Pattern::BoldItalicUnderscore | Pattern::BoldUnderscore => i == 0 || !word_at_exec(
            s,
            i - 1,
        ),
        Pattern::ItalicStar => (i == 0 || !char_at_is_exec(s, i - 1, '*')) && !char_at_is_exec(
            s,
            i + 1,
            '*',
        ),
        Pattern::ItalicUnderscore => (i == 0 || !word_at_exec(s, i - 1)) && !char_at_is_exec(
            s,
            i + 1,
            '_',
        ),
        _ => true,
    }
}

fn closes_exec(p: Pattern, s: &Vec<char>, q: usize) -> (r: bool)
    requires
        q < s.len(),
    ensures
        r == closes(p, s@, q as int),
{
    if !run_at_exec(s, q, marker_of(p), count_of(p)) {
        return false;
    }
    match p {
        Pattern::BoldItalicUnderscore | Pattern::BoldUnderscore => !word_at_exec(
            s,
            q + count_of(p),
        ),
        Pattern::ItalicStar => (q == 0 || !char_at_is_exec(s, q - 1, '*')) && !char_at_is_exec(
            s,
            q + 1,
            '*',
        ),
        Pattern::ItalicUnderscore => (q == 0 || !char_at_is_exec(s, q - 1, '_')) && !word_at_exec(
            s,
            q + 1,
        ),
        _ => true,
    }
}

fn close_search_exec(p: Pattern, s: &Vec<char>, lo: usize) -> (r: Option<usize>)
    ensures
        as_int(r) == close_search(p, s@, lo as int, lo as int),
{
    let mut q = lo;
    while q < s.len()
        invariant
            lo <= q,
            close_search(p, s@, lo as int, q as int) == close_search(p, s@, lo as int, lo as int),
        decreases s.len() - q,
    {
        if q > lo && closes_exec(p, s, q) {
            return Some(q);
        }
        if s[q] == '\n' {
            return None;
        }
        q = q + 1;
    }
    None
}

fn fence_search_exec(s: &Vec<char>, from: usize) -> (r: Option<usize>)
    ensures
        as_int(r) == fence_search(s@, from as int),
{
    let mut q = from;
    while q < s.len() && s.len() - q >= 3
        invariant
            from <= q,
            fence_search(s@, q as int) == fence_search(s@, from as int),
        decreases s.len() - q,
    {
        if run_at_exec(s, q, '`', 3) {
            return Some(q);
        }
        q = q + 1;
    }
    None
}

fn char_search_exec(s: &Vec<char>, c: char, from: usize) -> (r: Option<usize>)
    ensures
        as_int(r) == char_search(s@, c, from as int),
{
    let mut q = from;
    while q < s.len()
        invariant
            from <= q,
            char_search(s@, c, q as int) == char_search(s@, c, from as int),
        decreases s.len() - q,
    {
        if s[q] == c {
            return Some(q);
        }
        q = q + 1;
    }
    None
}

fn url_char_exec(c: char) -> (r: bool)
    ensures
        r == url_char(c),
{
    !is_ws_char(c) && c != ')' && c != '>' && c != ']'
}

fn url_run_end_exec(s: &Vec<char>, from: usize) -> (r: usize)
    requires
        from <= s.len(),
    ensures
        r == url_run_end(s@, from as int),
{
    let mut q = from;
    while q < s.len() && url_char_exec(s[q])
        invariant
            from <= q <= s.len(),
            url_run_end(s@, q as int) == url_run_end(s@, from as int),
        decreases s.len() - q,
    {
        q = q + 1;
    }
    q
}

fn chars_at(s: &Vec<char>, i: usize, lit: &Vec<char>) -> (r: bool)
    ensures
        r == occurs_at(s@, lit@, i as int),
{
    if lit.len() > s.len() || i > s.len() - lit.len() {
        return false;
    }
    occurs_at_from(s, lit, i)
}

fn url_prefix_end_exec(s: &Vec<char>, i: usize) -> (r: Option<usize>)
    requires
        i < s.len(),
    ensures
        as_int(r) == url_prefix_end(s@, i as int),
{
    let http = vec!['h', 't', 't', 'p'];
    let sep = vec![':', '/', '/'];
    assert(http@ =~= seq!['h', 't', 't', 'p']);
    assert(sep@ =~= seq![':', '/', '/']);
    if !chars_at(s, i, &http) {
        return None;
    }
    if s.len() - i > 4 && s[i + 4] == 's' && chars_at(s, i + 5, &sep) {
        return Some(i + 8);
    }
    if chars_at(s, i + 4, &sep) {
        return Some(i + 7);
    }
    None
}

fn escapable_char(c: char) -> (r: bool)
    ensures
        r == escapable(c),
{
    c == '\\' || c == '`' || c == '*' || c == '_' || c == '~' || c == '{' || c == '}' || c == '['
        || c == ']' || c == '<' || c == '>' || c == '(' || c == ')' || c == '#' || c == '+' || c
        == '-' || c == '.' || c == '!' || c == '|'
}

fn match_end_exec(p: Pattern, s: &Vec<char>, i: usize) -> (r: Option<usize>)
    requires
        i < s.len(),
    ensures
        as_int(r) == match_end(p, s@, i as int),
{
    proof {
        lemma_match_end(p, s@, i as int);
    }
    match p {
        Pattern::FencedCode => {
            if run_at_exec(s, i, '`', 3) {
                match fence_search_exec(s, i + 3) {
                    Some(q) => {
                        proof {
                            lemma_fence_search(s@, i + 3);
                        }
                        Some(q + 3)
                    },
                    None => None,
                }
            } else {
                None
            }
        },
        Pattern::InlineCode => {
            if s[i] == '`' {
                match char_search_exec(s, '`', i + 1) {
                    Some(q) => {
                        proof {
                            lemma_char_search(s@, '`', i + 1);
                        }
                        if q >= i + 2 {
                            Some(q + 1)
                        } else {
                            None
                        }
                    },
                    None => None,
                }
            } else {
                None
            }
        },
        Pattern::Url => match url_prefix_end_exec(s, i) {
            Some(q) => {
                let r = url_run_end_exec(s, q);
                if r > q {
                    Some(r)
                } else {
                    None
                }
            },
            None => None,
        },
        Pattern::Escape => {
            if s[i] == '\\' && i + 1 < s.len() && escapable_char(s[i + 1]) {
                Some(i + 2)
            } else {
                None
            }
        },
        _ => {
            if opens_exec(p, s, i) {
                let d = count_of(p);
                match close_search_exec(p, s, i + d) {
                    Some(q) => {
                        proof {
                            lemma_close_search(p, s@, i + d, i + d);
                        }
                        Some(q + d)
                    },
                    None => None,
                }
            } else {
                None
            }
        },
    }
}

pub open spec fn as_pair(o: Option<(usize, usize)>) -> Option<(int, int)> {
    match o {
        Some((a, b)) => Some((a as int, b as int)),
        None => None,
    }
}

fn first_match_exec(p: Pattern, s: &Vec<char>, from: usize) -> (r: Option<(usize, usize)>)
    ensures
        as_pair(r) == first_match(p, s@, from as int),
{
    let mut i = from;
    while i < s.len()
        invariant
            from <= i,
            first_match(p, s@, i as int) == first_match(p, s@, from as int),
        decreases s.len() - i,
    {
        match match_end_exec(p, s, i) {
            Some(e) => {
                return Some((i, e));
            },
            None => {},
        }
        i = i + 1;
    }
    None
}

// ---------------------------------------------------------------------------
// Setting text aside
// ---------------------------------------------------------------------------

pub open spec fn views(rs: Seq<Vec<char>>) -> Seq<Seq<char>> {
    rs.map_values(|v: Vec<char>| v@)
}

/// Setting aside the matches of `p` found from `from` on: the text with the
/// `k`-th match replaced by as many copies of the private-use character
/// numbered `idx + k` as the match has UTF-8 bytes, and the matches.
pub open spec fn protect_from(p: Pattern, w: Seq<char>, from: int, idx: int) -> (
    Seq<char>,
    Seq<Seq<char>>,
)
    decreases w.len() - from,
{
    if from < 0 || from > w.len() {
        (Seq::empty(), Seq::empty())
    } else {
        match first_match(p, w, from) {
            None => (w.subrange(from, w.len() as int), Seq::empty()),
            Some((a, e)) => {
                proof {
                    lemma_first_match(p, w, from);
                }
                let rest = protect_from(p, w, e, idx + 1);
                (
                    w.subrange(from, a) + run_of(
                        pua(PROTECT_BASE, idx),
                        utf8_len(w.subrange(a, e)),
                    ) + rest.0,
                    seq![w.subrange(a, e)] + rest.1,
                )
            },
        }
    }
}

proof fn lemma_utf8_len_prefix(w: Seq<char>, i: int, j: int)
    requires
        0 <= i <= j <= w.len(),
    ensures
        utf8_len(w.subrange(0, j)) == utf8_len(w.subrange(0, i)) + utf8_len(w.subrange(i, j)),
{
    assert(w.subrange(0, j) =~= w.subrange(0, i) + w.subrange(i, j));
    lemma_utf8_len_concat(w.subrange(0, i), w.subrange(i, j));
}

proof fn lemma_protect_len(p: Pattern, w: Seq<char>, from: int, idx: int)
    requires
        0 <= from <= w.len(),
    ensures
        protect_from(p, w, from, idx).0.len() <= 4 * (w.len() - from),
    decreases w.len() - from,
{
    lemma_first_match(p, w, from);
    if let Some((a, e)) = first_match(p, w, from) {
        lemma_protect_len(p, w, e, idx + 1);
        lemma_utf8_len_bounds(w.subrange(a, e));
    }
}

pub(crate) fn bytes_of(v: &Vec<char>, lo: usize, hi: usize) -> (r: usize)
    requires
        lo <= hi <= v.len(),
        4 * v@.len() <= usize::MAX,
    ensures
        r == utf8_len(v@.subrange(lo as int, hi as int)),
{
    let mut n: usize = 0;
    let mut i = lo;
    assert(v@.subrange(lo as int, lo as int) =~= Seq::<char>::empty());
    while i < hi
        invariant
            lo <= i <= hi <= v.len(),
            4 * v@.len() <= usize::MAX,
            n == utf8_len(v@.subrange(lo as int, i as int)),
        decreases hi - i,
    {
        proof {
            lemma_utf8_len_bounds(v@.subrange(lo as int, i as int));
            assert(v@.subrange(lo as int, i + 1) =~= v@.subrange(lo as int, i as int).push(v@[i as int]));
            lemma_utf8_len_push(v@.subrange(lo as int, i as int), v@[i as int]);
        }
        n = n + char_width(v[i]);
        i = i + 1;
    }
    n
}

fn push_slice(dst: &mut Vec<char>, v: &Vec<char>, lo: usize, hi: usize)
    requires
        lo <= hi <= v.len(),
    ensures
        final(dst)@ == old(dst)@ + v@.subrange(lo as int, hi as int),
{
    let ghost d0 = dst@;
    let mut i = lo;
    while i < hi
        invariant
            lo <= i <= hi <= v.len(),
            dst@ == d0 + v@.subrange(lo as int, i as int),
        decreases hi - i,
    {
        dst.push(v[i]);
        i = i + 1;
        assert(dst@ =~= d0 + v@.subrange(lo as int, i as int));
    }
}

fn slice_vec(v: &Vec<char>, lo: usize, hi: usize) -> (r: Vec<char>)
    requires
        lo <= hi <= v.len(),
    ensures
        r@ == v@.subrange(lo as int, hi as int),
{
    let mut r: Vec<char> = Vec::new();
    push_slice(&mut r, v, lo, hi);
    assert(r@ =~= v@.subrange(lo as int, hi as int));
    r
}

fn push_run(dst: &mut Vec<char>, c: char, n: usize)
    ensures
        final(dst)@ == old(dst)@ + run_of(c, n as nat),
{
    let ghost d0 = dst@;
    let mut k: usize = 0;
    while k < n
        invariant
            k <= n,
            dst@ == d0 + run_of(c, k as nat),
        decreases n - k,
    {
        dst.push(c);
        k = k + 1;
        assert(dst@ =~= d0 + run_of(c, k as nat));
    }
}

/// Sets aside the matches of `p` (code or a URL) in `w`, numbering them on
/// from the regions already set aside.
fn protect_pass(p: Pattern, w: &Vec<char>, regions: &mut Vec<Vec<char>>) -> (r: Vec<char>)
    requires
        4 * w@.len() <= usize::MAX,
    ensures
        r@ == protect_from(p, w@, 0, old(regions)@.len() as int).0,
        views(final(regions)@) == views(old(regions)@) + protect_from(
            p,
            w@,
            0,
            old(regions)@.len() as int,
        ).1,
{
    let ghost r0 = views(regions@);
    let ghost idx0 = regions@.len() as int;
    let mut out: Vec<char> = Vec::new();
    let mut from: usize = 0;
    loop
        invariant
            from <= w.len(),
            4 * w@.len() <= usize::MAX,
            idx0 == old(regions)@.len(),
            r0 == views(old(regions)@),
            out@ + protect_from(p, w@, from as int, regions@.len() as int).0 == protect_from(
                p,
                w@,
                0,
                idx0,
            ).0,
            views(regions@) + protect_from(p, w@, from as int, regions@.len() as int).1 == r0
                + protect_from(p, w@, 0, idx0).1,
        decreases w.len() - from,
    {
        let ghost idx = regions@.len() as int;
        proof {
            lemma_first_match(p, w@, from as int);
        }
        match first_match_exec(p, w, from) {
            None => {
                let ghost o0 = out@;
                push_slice(&mut out, w, from, w.len());
                proof {
                    let pf = protect_from(p, w@, from as int, idx);
                    assert(pf.0 == w@.subrange(from as int, w@.len() as int));
                    assert(pf.1 == Seq::<Seq<char>>::empty());
                    assert(views(regions@) + pf.1 =~= views(regions@));
                    assert(idx0 == old(regions)@.len());
                }
                return out;
            },
            Some((a, e)) => {
                let ghost rest = protect_from(p, w@, e as int, idx + 1);
                let ghost o0 = out@;
                push_slice(&mut out, w, from, a);
                let n = bytes_of(w, a, e);
                let c = pua_char(PROTECT_BASE, regions.len());
                push_run(&mut out, c, n);
                let ghost o1 = out@;
                assert(o0 + protect_from(p, w@, from as int, idx).0 =~= o1 + rest.0);
                let ghost v0 = regions@;
                regions.push(slice_vec(w, a, e));
                proof {
                    assert(views(regions@) =~= views(v0).push(w@.subrange(a as int, e as int)));
                    assert(views(v0) + protect_from(p, w@, from as int, idx).1 =~= views(regions@)
                        + rest.1);
                }
                from = e;
            },
        }
    }
}

/// Replacing the backslash escapes found from `from` on: the text with the
/// `k`-th escape replaced by the private-use character numbered `idx + k`,
/// and the escaped characters.
pub open spec fn escape_from(w: Seq<char>, from: int, idx: int) -> (Seq<char>, Seq<char>)
    decreases w.len() - from,
{
    if from < 0 || from > w.len() {
        (Seq::empty(), Seq::empty())
    } else {
        match first_match(Pattern::Escape, w, from) {
            None => (w.subrange(from, w.len() as int), Seq::empty()),
            Some((a, e)) => {
                proof {
                    lemma_first_match(Pattern::Escape, w, from);
                }
                let rest = escape_from(w, e, idx + 1);
                (
                    w.subrange(from, a) + seq![pua(ESCAPE_BASE, idx)] + rest.0,
                    seq![w[a + 1]] + rest.1,
                )
            },
        }
    }
}

proof fn lemma_escape_len(w: Seq<char>, from: int, idx: int)
    requires
        0 <= from <= w.len(),
    ensures
        escape_from(w, from, idx).0.len() <= w.len() - from,
    decreases w.len() - from,
{
    lemma_first_match(Pattern::Escape, w, from);
    if let Some((a, e)) = first_match(Pattern::Escape, w, from) {
        lemma_escape_len(w, e, idx + 1);
    }
}

fn escape_pass(w: &Vec<char>, escaped: &mut Vec<char>) -> (r: Vec<char>)
    requires
        old(escaped)@.len() == 0,
    ensures
        r@ == escape_from(w@, 0, 0).0,
        final(escaped)@ == escape_from(w@, 0, 0).1,
{
    let mut out: Vec<char> = Vec::new();
    let mut from: usize = 0;
    loop
        invariant
            from <= w.len(),
            out@ + escape_from(w@, from as int, escaped@.len() as int).0 == escape_from(w@, 0, 0).0,
            escaped@ + escape_from(w@, from as int, escaped@.len() as int).1 == escape_from(
                w@,
                0,
                0,
            ).1,
        decreases w.len() - from,
    {
        let ghost idx = escaped@.len() as int;
        proof {
            lemma_first_match(Pattern::Escape, w@, from as int);
        }
        match first_match_exec(Pattern::Escape, w, from) {
            None => {
                push_slice(&mut out, w, from, w.len());
                assert(escaped@ + Seq::<char>::empty() =~= escaped@);
                return out;
            },
            Some((a, e)) => {
                let ghost rest = escape_from(w@, e as int, idx + 1);
                let ghost o0 = out@;
                push_slice(&mut out, w, from, a);
                out.push(pua_char(ESCAPE_BASE, escaped.len()));
                assert(o0 + escape_from(w@, from as int, idx).0 =~= out@ + rest.0);
                let ghost e0 = escaped@;
                escaped.push(w[a + 1]);
                assert(e0 + escape_from(w@, from as int, idx).1 =~= escaped@ + rest.1);
                from = e;
            },
        }
    }
}

// ---------------------------------------------------------------------------
// Emphasis passes
// ---------------------------------------------------------------------------

/// A range: start, length, and the pattern whose styles it carries
/// (counted in characters of the working copy while emphasis is removed,
/// in UTF-8 bytes of the clean text at the end).
pub type Found = (int, int, Pattern);

pub open spec fn found_views(v: Seq<(usize, usize, Pattern)>) -> Seq<Found> {
    v.map_values(|x: (usize, usize, Pattern)| (x.0 as int, x.1 as int, x.2))
}

pub open spec fn ints(v: Seq<usize>) -> Seq<int> {
    v.map_values(|x: usize| x as int)
}

/// `d` consecutive byte positions from `b`.
pub open spec fn marker_positions(b: int, d: nat) -> Seq<int> {
    Seq::new(d, |j: int| b + j)
}

/// Removing the emphasis markers of `p` found from `from` on, `ob`
/// characters having been written before: the text without the markers,
/// the ranges of the text they enclosed (in characters of the text
/// written), and the positions of the markers removed (in characters of
/// `w`).
pub open spec fn emph_from(p: Pattern, w: Seq<char>, from: int, ob: int) -> (
    Seq<char>,
    Seq<Found>,
    Seq<int>,
)
    decreases w.len() - from,
{
    if from < 0 || from > w.len() {
        (Seq::empty(), Seq::empty(), Seq::empty())
    } else {
        match first_match(p, w, from) {
            None => (w.subrange(from, w.len() as int), Seq::empty(), Seq::empty()),
            Some((a, e)) => {
                proof {
                    lemma_first_match(p, w, from);
                }
                let d = marker_count(p) as int;
                let content = w.subrange(a + d, e - d);
                let start = ob + (a - from);
                let rest = emph_from(p, w, e, start + content.len());
                (
                    w.subrange(from, a) + content + rest.0,
                    seq![(start, content.len() as int, p)] + rest.1,
                    marker_positions(a, marker_count(p)) + marker_positions(e - d, marker_count(p))
                        + rest.2,
                )
            },
        }
    }
}

pub open spec fn increasing(rm: Seq<int>) -> bool {
    forall|i: int, j: int| 0 <= i < j < rm.len() ==> rm[i] < rm[j]
}

/// An emphasis match: markers at both ends around at least one character.
proof fn lemma_emph_match(p: Pattern, w: Seq<char>, a: int)
    requires
        is_emphasis(p),
        0 <= a,
        match_end(p, w, a) is Some,
    ensures
        ({
            let e = match_end(p, w, a)->0;
            let d = marker_count(p) as int;
            &&& a + d < e - d
            &&& e <= w.len()
            &&& run_at(w, a, marker(p), marker_count(p))
            &&& run_at(w, e - d, marker(p), marker_count(p))
        }),
{
    let d = marker_count(p) as int;
    lemma_close_search(p, w, a + d, a + d);
}

proof fn lemma_emph_len(p: Pattern, w: Seq<char>, from: int, ob: int)
    requires
        is_emphasis(p),
        0 <= from <= w.len(),
    ensures
        emph_from(p, w, from, ob).0.len() <= w.len() - from,
    decreases w.len() - from,
{
    lemma_first_match(p, w, from);
    if let Some((a, e)) = first_match(p, w, from) {
        lemma_emph_match(p, w, a);
        let d = marker_count(p) as int;
        let content = w.subrange(a + d, e - d);
        let start = ob + (a - from);
        lemma_emph_len(p, w, e, start + content.len());
    }
}

/// The marker positions removed by an emphasis pass increase, and lie
/// within the text from where the pass started.
#[verifier::rlimit(50)]
proof fn lemma_emph_removed(p: Pattern, w: Seq<char>, from: int, ob: int)
    requires
        is_emphasis(p),
        0 <= from <= w.len(),
    ensures
        increasing(emph_from(p, w, from, ob).2),
        forall|i: int|
            0 <= i < emph_from(p, w, from, ob).2.len() ==> from <= #[trigger] emph_from(
                p,
                w,
                from,
                ob,
            ).2[i] < w.len(),
    decreases w.len() - from,
{
    lemma_first_match(p, w, from);
    if let Some((a, e)) = first_match(p, w, from) {
        lemma_emph_match(p, w, a);
        let d = marker_count(p) as int;
        let content = w.subrange(a + d, e - d);
        let start = ob + (a - from);
        let rest = emph_from(p, w, e, start + content.len());
        lemma_emph_removed(p, w, e, start + content.len());
        let m1 = marker_positions(a, marker_count(p));
        let m2 = marker_positions(e - d, marker_count(p));
        let rm = m1 + m2 + rest.2;
        assert forall|i: int, j: int| 0 <= i < j < rm.len() implies rm[i] < rm[j] by {
            if j < d {
            } else if j < 2 * d {
                if i >= d {
                } else {
                }
            } else {
                assert(rest.2[j - 2 * d] >= e);
            }
        }
        assert forall|i: int| 0 <= i < rm.len() implies from <= #[trigger] rm[i] < w.len() by {
            if i >= 2 * d {
                assert(rm[i] == rest.2[i - 2 * d]);
            }
        }
    }
}

/// How many of the positions lie below `x`.
pub open spec fn count_below(rm: Seq<int>, x: int) -> nat
    decreases rm.len(),
{
    if rm.len() == 0 {
        0
    } else {
        count_below(rm.drop_last(), x) + if rm.last() < x {
            1nat
        } else {
            0nat
        }
    }
}

/// A range moved back over the removed positions before it, and shortened
/// by those inside it.
pub open spec fn adjusted(r: Found, rm: Seq<int>) -> Found {
    (
        r.0 - count_below(rm, r.0),
        r.1 - (count_below(rm, r.0 + r.1) - count_below(rm, r.0)),
        r.2,
    )
}

proof fn lemma_count_all(rm: Seq<int>, x: int)
    requires
        forall|i: int| 0 <= i < rm.len() ==> #[trigger] rm[i] < x,
    ensures
        count_below(rm, x) == rm.len(),
    decreases rm.len(),
{
    if rm.len() > 0 {
        lemma_count_all(rm.drop_last(), x);
    }
}

proof fn lemma_count_none(rm: Seq<int>, x: int)
    requires
        forall|i: int| 0 <= i < rm.len() ==> x <= #[trigger] rm[i],
    ensures
        count_below(rm, x) == 0,
    decreases rm.len(),
{
    if rm.len() > 0 {
        lemma_count_none(rm.drop_last(), x);
    }
}

/// Between `lo` and `hi` lie at most `hi - lo` increasing positions.
proof fn lemma_count_window(rm: Seq<int>, lo: int, hi: int)
    requires
        increasing(rm),
        lo <= hi,
    ensures
        count_below(rm, lo) <= count_below(rm, hi),
        count_below(rm, hi) - count_below(rm, lo) <= hi - lo,
    decreases rm.len(),
{
    if rm.len() > 0 {
        let r2 = rm.drop_last();
        let l = rm.last();
        assert(increasing(r2));
        if l < lo {
            lemma_count_window(r2, lo, hi);
        } else if l < hi {
            assert forall|i: int| 0 <= i < r2.len() implies #[trigger] r2[i] < l by {
                assert(rm[i] < rm[rm.len() - 1]);
            }
            lemma_count_all(r2, l);
            lemma_count_all(r2, hi);
            lemma_count_window(r2, lo, l);
        } else {
            lemma_count_window(r2, lo, hi);
        }
    }
}

proof fn lemma_adjusted(r: Found, rm: Seq<int>)
    requires
        increasing(rm),
        forall|i: int| 0 <= i < rm.len() ==> 0 <= #[trigger] rm[i],
        0 <= r.0,
        0 <= r.1,
    ensures
        count_below(rm, r.0) <= r.0,
        count_below(rm, r.0) <= count_below(rm, r.0 + r.1),
        count_below(rm, r.0 + r.1) - count_below(rm, r.0) <= r.1,
        0 <= adjusted(r, rm).0 <= r.0,
        0 <= adjusted(r, rm).1 <= r.1,
{
    lemma_count_none(rm, 0);
    lemma_count_window(rm, 0, r.0);
    lemma_count_window(rm, r.0, r.0 + r.1);
}

fn count_below_exec(rm: &Vec<usize>, x: u128) -> (r: usize)
    ensures
        r == count_below(ints(rm@), x as int),
{
    let mut n: usize = 0;
    let mut i: usize = 0;
    while i < rm.len()
        invariant
            i <= rm.len(),
            n <= i,
            n == count_below(ints(rm@.subrange(0, i as int)), x as int),
        decreases rm.len() - i,
    {
        proof {
            assert(ints(rm@.subrange(0, i + 1)).drop_last() =~= ints(rm@.subrange(0, i as int)));
        }
        if (rm[i] as u128) < x {
            n = n + 1;
        }
        i = i + 1;
    }
    assert(rm@.subrange(0, i as int) =~= rm@);
    n
}

/// Moves each range back over the positions removed.
fn adjust_ranges(f: &Vec<(usize, usize, Pattern)>, rm: &Vec<usize>) -> (r: Vec<(usize, usize, Pattern)>)
    requires
        increasing(ints(rm@)),
    ensures
        found_views(r@) == found_views(f@).map_values(|x: Found| adjusted(x, ints(rm@))),
{
    let mut out: Vec<(usize, usize, Pattern)> = Vec::new();
    let mut k: usize = 0;
    while k < f.len()
        invariant
            k <= f.len(),
            increasing(ints(rm@)),
            found_views(out@) == found_views(f@.subrange(0, k as int)).map_values(
                |x: Found| adjusted(x, ints(rm@)),
            ),
        decreases f.len() - k,
    {
        let (st, len, pat) = f[k];
        let below = count_below_exec(rm, st as u128);
        let upto = count_below_exec(rm, st as u128 + len as u128);
        proof {
            lemma_adjusted((st as int, len as int, pat), ints(rm@));
        }
        let ghost o0 = out@;
        out.push((st - below, len - (upto - below), pat));
        proof {
            assert(found_views(out@) =~= found_views(o0).push(
                adjusted((st as int, len as int, pat), ints(rm@)),
            ));
            assert(found_views(f@.subrange(0, k + 1)) =~= found_views(f@.subrange(0, k as int)).push(
                (st as int, len as int, pat),
            ));
        }
        k = k + 1;
    }
    assert(f@.subrange(0, f@.len() as int) =~= f@);
    out
}

fn push_positions(rm: &mut Vec<usize>, b: usize, d: usize)
    requires
        b + d <= usize::MAX,
    ensures
        ints(final(rm)@) == ints(old(rm)@) + marker_positions(b as int, d as nat),
{
    let ghost r0 = rm@;
    let mut j: usize = 0;
    while j < d
        invariant
            j <= d,
            b + d <= usize::MAX,
            ints(rm@) == ints(r0) + marker_positions(b as int, j as nat),
        decreases d - j,
    {
        let ghost before = rm@;
        rm.push(b + j);
        assert(ints(rm@) =~= ints(before).push((b + j) as int));
        assert(marker_positions(b as int, (j + 1) as nat) =~= marker_positions(b as int, j as nat).push(
            (b + j) as int,
        ));
        j = j + 1;
        assert(ints(rm@) =~= ints(r0) + marker_positions(b as int, j as nat));
    }
}

/// Removes the markers of the emphasis `p` from `w`.
#[verifier::rlimit(60)]
fn emphasis_pass(
    p: Pattern,
    w: &Vec<char>,
    ranges: &mut Vec<(usize, usize, Pattern)>,
    removed: &mut Vec<usize>,
) -> (r: Vec<char>)
    requires
        is_emphasis(p),
        4 * w@.len() <= usize::MAX,
        old(ranges)@.len() == 0,
        old(removed)@.len() == 0,
    ensures
        r@ == emph_from(p, w@, 0, 0).0,
        found_views(final(ranges)@) == emph_from(p, w@, 0, 0).1,
        ints(final(removed)@) == emph_from(p, w@, 0, 0).2,
{
    let mut out: Vec<char> = Vec::new();
    let mut from: usize = 0;
    let mut ob: usize = 0;
    let d = count_of(p);
    assert(found_views(ranges@) =~= Seq::<Found>::empty());
    assert(ints(removed@) =~= Seq::<int>::empty());
    loop
        invariant
            from <= w.len(),
            4 * w@.len() <= usize::MAX,
            is_emphasis(p),
            d == marker_count(p),
            ob <= from,
            out@ + emph_from(p, w@, from as int, ob as int).0 == emph_from(p, w@, 0, 0).0,
            found_views(ranges@) + emph_from(p, w@, from as int, ob as int).1 == emph_from(
                p,
                w@,
                0,
                0,
            ).1,
            ints(removed@) + emph_from(p, w@, from as int, ob as int).2 == emph_from(
                p,
                w@,
                0,
                0,
            ).2,
        decreases w.len() - from,
    {
        proof {
            lemma_first_match(p, w@, from as int);
        }
        match first_match_exec(p, w, from) {
            None => {
                push_slice(&mut out, w, from, w.len());
                proof {
                    let ef = emph_from(p, w@, from as int, ob as int);
                    assert(ef.1 == Seq::<Found>::empty());
                    assert(ef.2 == Seq::<int>::empty());
                    assert(found_views(ranges@) + ef.1 =~= found_views(ranges@));
                    assert(ints(removed@) + ef.2 =~= ints(removed@));
                }
                return out;
            },
            Some((a, e)) => {
                proof {
                    lemma_emph_match(p, w@, a as int);
                }
                let ghost ef = emph_from(p, w@, from as int, ob as int);
                let pre = a - from;
                let cb = (e - d) - (a + d);
                let start = ob + pre;
                let ghost rest = emph_from(p, w@, e as int, (start + cb) as int);
                let ghost o0 = out@;
                push_slice(&mut out, w, from, a);
                push_slice(&mut out, w, a + d, e - d);
                assert(o0 + ef.0 =~= out@ + rest.0);
                let ghost f0 = found_views(ranges@);
                ranges.push((start, cb, p));
                assert(found_views(ranges@) =~= f0.push((start as int, cb as int, p)));
                assert(f0 + ef.1 =~= found_views(ranges@) + rest.1);
                let ghost m0 = ints(removed@);
                push_positions(removed, a, d);
                push_positions(removed, e - d, d);
                assert(m0 + ef.2 =~= ints(removed@) + rest.2);
                ob = start + cb;
                from = e;
            },
        }
    }
}

/// The emphasis patterns in the order they are applied, longest markers
/// first.
pub open spec fn emphasis_order(k: int) -> Pattern {
    if k == 0 {
        Pattern::BoldItalicStar
    } else if k == 1 {
        Pattern::BoldItalicUnderscore
    } else if k == 2 {
        Pattern::BoldStar
    } else if k == 3 {
        Pattern::BoldUnderscore
    } else if k == 4 {
        Pattern::ItalicStar
    } else if k == 5 {
        Pattern::ItalicUnderscore
    } else {
        Pattern::Strikethrough
    }
}

/// One emphasis pass: the ranges found before are moved over the markers
/// it removes, and its own ranges follow them.
pub open spec fn emphasis_step(p: Pattern, w: Seq<char>, f: Seq<Found>) -> (Seq<char>, Seq<Found>) {
    let r = emph_from(p, w, 0, 0);
    (r.0, f.map_values(|x: Found| adjusted(x, r.2)) + r.1)
}

/// The emphasis passes from the `k`-th on.
pub open spec fn emphasis_passes(w: Seq<char>, f: Seq<Found>, k: int) -> (Seq<char>, Seq<Found>)
    decreases 7 - k,
{
    if k < 0 || k >= 7 {
        (w, f)
    } else {
        let st = emphasis_step(emphasis_order(k), w, f);
        emphasis_passes(st.0, st.1, k + 1)
    }
}

fn pattern_at(k: usize) -> (r: Pattern)
    ensures
        r == emphasis_order(k as int),
{
    if k == 0 {
        Pattern::BoldItalicStar
    } else if k == 1 {
        Pattern::BoldItalicUnderscore
    } else if k == 2 {
        Pattern::BoldStar
    } else if k == 3 {
        Pattern::BoldUnderscore
    } else if k == 4 {
        Pattern::ItalicStar
    } else if k == 5 {
        Pattern::ItalicUnderscore
    } else {
        Pattern::Strikethrough
    }
}

fn emphasis_phase(w: Vec<char>) -> (r: (Vec<char>, Vec<(usize, usize, Pattern)>))
    requires
        4 * w@.len() <= usize::MAX,
    ensures
        (r.0@, found_views(r.1@)) == emphasis_passes(w@, Seq::empty(), 0),
        r.0@.len() <= w@.len(),
{
    let ghost w0 = w@;
    let mut cur = w;
    let mut f: Vec<(usize, usize, Pattern)> = Vec::new();
    let mut k: usize = 0;
    assert(found_views(f@) =~= Seq::<Found>::empty());
    while k < 7
        invariant
            k <= 7,
            cur@.len() <= w0.len(),
            4 * w0.len() <= usize::MAX,
            emphasis_passes(cur@, found_views(f@), k as int) == emphasis_passes(
                w0,
                Seq::empty(),
                0,
            ),
        decreases 7 - k,
    {
        let p = pattern_at(k);
        let mut pass_ranges: Vec<(usize, usize, Pattern)> = Vec::new();
        let mut removed: Vec<usize> = Vec::new();
        let next = emphasis_pass(p, &cur, &mut pass_ranges, &mut removed);
        proof {
            lemma_emph_removed(p, cur@, 0, 0);
            lemma_emph_len(p, cur@, 0, 0);
        }
        let mut adj = adjust_ranges(&f, &removed);
        let ghost a0 = found_views(adj@);
        let ghost pr = found_views(pass_ranges@);
        adj.append(&mut pass_ranges);
        proof {
            assert(found_views(adj@) =~= a0 + pr);
            assert(emphasis_step(p, cur@, found_views(f@)) == (next@, found_views(adj@)));
        }
        f = adj;
        cur = next;
        k = k + 1;
    }
    (cur, f)
}

// ---------------------------------------------------------------------------
// Putting text back
// ---------------------------------------------------------------------------

/// The set-aside regions put back, the last first: each run of its
/// private-use character, as long as the region has bytes, replaced by
/// the region.
pub open spec fn restore(t: Seq<char>, regions: Seq<Seq<char>>, n: int) -> Seq<char>
    decreases n,
{
    if n <= 0 {
        t
    } else {
        restore(
            replaced(t, run_of(pua(PROTECT_BASE, n - 1), utf8_len(regions[n - 1])), regions[n - 1]),
            regions,
            n - 1,
        )
    }
}

/// The escaped characters put back, the first first.
pub open spec fn unescape(t: Seq<char>, escaped: Seq<char>, n: int) -> Seq<char>
    decreases n,
{
    if n <= 0 {
        t
    } else {
        replaced(unescape(t, escaped, n - 1), seq![pua(ESCAPE_BASE, n - 1)], seq![escaped[n - 1]])
    }
}

proof fn lemma_protect_regions(p: Pattern, w: Seq<char>, from: int, idx: int)
    requires
        0 <= from <= w.len(),
    ensures
        forall|i: int|
            0 <= i < protect_from(p, w, from, idx).1.len() ==> 0 < (
            #[trigger] protect_from(p, w, from, idx).1[i]).len() <= w.len(),
    decreases w.len() - from,
{
    lemma_first_match(p, w, from);
    if let Some((a, e)) = first_match(p, w, from) {
        lemma_protect_regions(p, w, e, idx + 1);
        let rs = protect_from(p, w, from, idx).1;
        let rest = protect_from(p, w, e, idx + 1).1;
        assert forall|i: int| 0 <= i < rs.len() implies 0 < (#[trigger] rs[i]).len() <= w.len() by {
            if i > 0 {
                assert(rs[i] == rest[i - 1]);
            }
        }
    }
}

fn restore_exec(t: Vec<char>, regions: &Vec<Vec<char>>) -> (r: Vec<char>)
    requires
        forall|i: int|
            0 <= i < regions@.len() ==> 0 < (#[trigger] regions@[i])@.len() && 4 * regions@[i]@.len()
                <= usize::MAX,
    ensures
        r@ == restore(t@, views(regions@), regions@.len() as int),
{
    let ghost t0 = t@;
    let mut cur = t;
    let mut n = regions.len();
    while n > 0
        invariant
            n <= regions.len(),
            forall|i: int|
                0 <= i < regions@.len() ==> 0 < (#[trigger] regions@[i])@.len() && 4
                    * regions@[i]@.len() <= usize::MAX,
            restore(cur@, views(regions@), n as int) == restore(
                t0,
                views(regions@),
                regions@.len() as int,
            ),
        decreases n,
    {
        let i = n - 1;
        let region = &regions[i];
        let bytes = bytes_of(region, 0, region.len());
        proof {
            assert(region@.subrange(0, region@.len() as int) =~= region@);
            lemma_utf8_len_bounds(region@);
        }
        let mut pat: Vec<char> = Vec::new();
        push_run(&mut pat, pua_char(PROTECT_BASE, i), bytes);
        assert(pat@ =~= run_of(pua(PROTECT_BASE, i as int), utf8_len(views(regions@)[i as int])));
        cur = replace_all(&cur, &pat, region);
        n = i;
    }
    cur
}

fn unescape_exec(t: Vec<char>, escaped: &Vec<char>) -> (r: Vec<char>)
    ensures
        r@ == unescape(t@, escaped@, escaped@.len() as int),
{
    let ghost t0 = t@;
    let mut cur = t;
    let mut i: usize = 0;
    while i < escaped.len()
        invariant
            i <= escaped.len(),
            cur@ == unescape(t0, escaped@, i as int),
        decreases escaped.len() - i,
    {
        let pat = vec![pua_char(ESCAPE_BASE, i)];
        let rep = vec![escaped[i]];
        assert(pat@ =~= seq![pua(ESCAPE_BASE, i as int)]);
        assert(rep@ =~= seq![escaped@[i as int]]);
        cur = replace_all(&cur, &pat, &rep);
        i = i + 1;
    }
    cur
}

// ---------------------------------------------------------------------------
// Final ranges
// ---------------------------------------------------------------------------

/// The text a working copy stands for: the set-aside regions and the
/// escaped characters put back.
pub open spec fn clean_of(t: Seq<char>, regions: Seq<Seq<char>>, escaped: Seq<char>) -> Seq<char> {
    unescape(restore(t, regions, regions.len() as int), escaped, escaped.len() as int)
}

/// `i` held within `0..=n`.
pub open spec fn clip(i: int, n: int) -> int {
    if i < 0 {
        0
    } else if i > n {
        n
    } else {
        i
    }
}

/// A range found in characters of the working copy `t`, moved to UTF-8
/// bytes of the clean text: it starts after the bytes that the working
/// copy before it stands for, and ends after those the working copy
/// through it stands for.
pub open spec fn clean_range(t: Seq<char>, regions: Seq<Seq<char>>, escaped: Seq<char>, x: Found) -> Found {
    let b0 = utf8_len(clean_of(t.take(clip(x.0, t.len() as int)), regions, escaped)) as int;
    let b1 = utf8_len(clean_of(t.take(clip(x.0 + x.1, t.len() as int)), regions, escaped)) as int;
    (b0, if b1 >= b0 {
        b1 - b0
    } else {
        0
    }, x.2)
}

/// The ranges found in the working copy `t`, moved to the clean text.
pub open spec fn clean_ranges(t: Seq<char>, regions: Seq<Seq<char>>, escaped: Seq<char>, f: Seq<Found>) -> Seq<Found> {
    f.map_values(|x: Found| clean_range(t, regions, escaped, x))
}

proof fn lemma_replaced_len(t: Seq<char>, pat: Seq<char>, rep: Seq<char>)
    requires
        rep.len() <= pat.len(),
    ensures
        replaced(t, pat, rep).len() <= t.len(),
    decreases t.len(),
{
    if pat.len() == 0 || t.len() < pat.len() {
    } else if t.subrange(0, pat.len() as int) == pat {
        lemma_replaced_len(t.skip(pat.len() as int), pat, rep);
    } else {
        lemma_replaced_len(t.skip(1), pat, rep);
    }
}

proof fn lemma_restore_len(t: Seq<char>, regions: Seq<Seq<char>>, n: int)
    requires
        n <= regions.len(),
    ensures
        restore(t, regions, n).len() <= t.len(),
    decreases n,
{
    if n > 0 {
        let r = regions[n - 1];
        lemma_utf8_len_bounds(r);
        let pat = run_of(pua(PROTECT_BASE, n - 1), utf8_len(r));
        lemma_replaced_len(t, pat, r);
        lemma_restore_len(replaced(t, pat, r), regions, n - 1);
    }
}

proof fn lemma_unescape_len(t: Seq<char>, escaped: Seq<char>, n: int)
    ensures
        unescape(t, escaped, n).len() <= t.len(),
    decreases n,
{
    if n > 0 {
        lemma_unescape_len(t, escaped, n - 1);
        lemma_replaced_len(
            unescape(t, escaped, n - 1),
            seq![pua(ESCAPE_BASE, n - 1)],
            seq![escaped[n - 1]],
        );
    }
}

/// The bytes of the clean text a prefix of the working copy stands for.
fn clean_prefix_bytes(
    t: &Vec<char>,
    k: usize,
    regions: &Vec<Vec<char>>,
    escaped: &Vec<char>,
) -> (r: usize)
    requires
        k <= t.len(),
        4 * t@.len() <= usize::MAX,
        forall|i: int|
            0 <= i < regions@.len() ==> 0 < (#[trigger] regions@[i])@.len() && 4 * regions@[i]@.len()
                <= usize::MAX,
    ensures
        r == utf8_len(clean_of(t@.take(k as int), views(regions@), escaped@)),
{
    let prefix = slice_vec(t, 0, k);
    assert(prefix@ =~= t@.take(k as int));
    let restored = restore_exec(prefix, regions);
    let c = unescape_exec(restored, escaped);
    proof {
        lemma_restore_len(t@.take(k as int), views(regions@), regions@.len() as int);
        lemma_unescape_len(restored@, escaped@, escaped@.len() as int);
        assert(c@.subrange(0, c@.len() as int) =~= c@);
    }
    bytes_of(&c, 0, c.len())
}

/// Moves the ranges found in the working copy `t` to the clean text.
fn clean_ranges_exec(
    t: &Vec<char>,
    regions: &Vec<Vec<char>>,
    escaped: &Vec<char>,
    f: &Vec<(usize, usize, Pattern)>,
) -> (r: Vec<(usize, usize, Pattern)>)
    requires
        4 * t@.len() <= usize::MAX,
        forall|i: int|
            0 <= i < regions@.len() ==> 0 < (#[trigger] regions@[i])@.len() && 4 * regions@[i]@.len()
                <= usize::MAX,
    ensures
        found_views(r@) == clean_ranges(t@, views(regions@), escaped@, found_views(f@)),
{
    let mut out: Vec<(usize, usize, Pattern)> = Vec::new();
    let mut k: usize = 0;
    while k < f.len()
        invariant
            k <= f.len(),
            4 * t@.len() <= usize::MAX,
            forall|i: int|
                0 <= i < regions@.len() ==> 0 < (#[trigger] regions@[i])@.len() && 4
                    * regions@[i]@.len() <= usize::MAX,
            found_views(out@) == clean_ranges(
                t@,
                views(regions@),
                escaped@,
                found_views(f@.subrange(0, k as int)),
            ),
        decreases f.len() - k,
    {
        let (st, len, pat) = f[k];
        let lo = if st > t.len() {
            t.len()
        } else {
            st
        };
        let hi = if st > t.len() || len > t.len() - st {
            t.len()
        } else {
            st + len
        };
        let b0 = clean_prefix_bytes(t, lo, regions, escaped);
        let b1 = clean_prefix_bytes(t, hi, regions, escaped);
        let n = if b1 >= b0 {
            b1 - b0
        } else {
            0
        };
        let ghost o0 = out@;
        out.push((b0, n, pat));
        proof {
            assert(found_views(out@) =~= found_views(o0).push(
                clean_range(t@, views(regions@), escaped@, (st as int, len as int, pat)),
            ));
            assert(found_views(f@.subrange(0, k + 1)) =~= found_views(f@.subrange(0, k as int)).push(
                (st as int, len as int, pat),
            ));
        }
        k = k + 1;
    }
    assert(f@.subrange(0, f@.len() as int) =~= f@);
    out
}

/// The ranges that cover at least one byte, in order.
pub open spec fn nonempty_ranges(s: Seq<Found>) -> Seq<Found>
    decreases s.len(),
{
    if s.len() == 0 {
        s
    } else if s.last().1 > 0 {
        nonempty_ranges(s.drop_last()).push(s.last())
    } else {
        nonempty_ranges(s.drop_last())
    }
}

/// `x` placed after every range of `s` that starts no later than it.
pub open spec fn insert_by_start(s: Seq<Found>, x: Found) -> Seq<Found>
    decreases s.len(),
{
    if s.len() == 0 {
        seq![x]
    } else if s.last().0 <= x.0 {
        s.push(x)
    } else {
        insert_by_start(s.drop_last(), x).push(s.last())
    }
}

/// The ranges in order of their start, those with the same start in the
/// order they came (a stable sort).
pub open spec fn sort_by_start(s: Seq<Found>) -> Seq<Found>
    decreases s.len(),
{
    if s.len() == 0 {
        s
    } else {
        insert_by_start(sort_by_start(s.drop_last()), s.last())
    }
}

pub open spec fn sorted_by_start(s: Seq<Found>) -> bool {
    forall|i: int, j: int| 0 <= i < j < s.len() ==> s[i].0 <= s[j].0
}

proof fn lemma_insert_by_start(s: Seq<Found>, x: Found, pos: int)
    requires
        sorted_by_start(s),
        0 <= pos <= s.len(),
        forall|i: int| 0 <= i < pos ==> s[i].0 <= x.0,
        forall|i: int| pos <= i < s.len() ==> s[i].0 > x.0,
    ensures
        insert_by_start(s, x) == s.insert(pos, x),
        sorted_by_start(s.insert(pos, x)),
    decreases s.len(),
{
    if s.len() > 0 {
        if s.last().0 <= x.0 {
            assert(pos == s.len());
            assert(s.push(x) =~= s.insert(pos, x));
        } else {
            let s2 = s.drop_last();
            lemma_insert_by_start(s2, x, pos);
            assert(s2.insert(pos, x).push(s.last()) =~= s.insert(pos, x));
        }
    }
    let t = s.insert(pos, x);
    assert forall|i: int, j: int| 0 <= i < j < t.len() implies t[i].0 <= t[j].0 by {
        if i < pos && j < pos {
        } else if i < pos && j == pos {
        } else if i < pos {
            assert(t[j] == s[j - 1]);
        } else if i == pos {
            assert(t[j] == s[j - 1]);
        } else {
            assert(t[i] == s[i - 1]);
            assert(t[j] == s[j - 1]);
        }
    }
}

proof fn lemma_insert_members(s: Seq<Found>, x: Found)
    ensures
        insert_by_start(s, x).len() == s.len() + 1,
        forall|i: int|
            0 <= i < insert_by_start(s, x).len() ==> #[trigger] insert_by_start(s, x)[i] == x
                || s.contains(insert_by_start(s, x)[i]),
    decreases s.len(),
{
    if s.len() > 0 && s.last().0 > x.0 {
        let s2 = s.drop_last();
        lemma_insert_members(s2, x);
        let t = insert_by_start(s2, x).push(s.last());
        assert forall|i: int| 0 <= i < t.len() implies #[trigger] t[i] == x || s.contains(t[i]) by {
            if i < t.len() - 1 {
                if t[i] != x {
                    let j = choose|j: int| 0 <= j < s2.len() && s2[j] == t[i];
                    assert(s[j] == t[i]);
                }
            } else {
                assert(s[s.len() - 1] == t[i]);
            }
        }
    } else if s.len() > 0 {
        let t = s.push(x);
        assert forall|i: int| 0 <= i < t.len() implies #[trigger] t[i] == x || s.contains(t[i]) by {
            if i < s.len() {
                assert(s[i] == t[i]);
            }
        }
    }
}

proof fn lemma_insert_sorted(s: Seq<Found>, x: Found)
    requires
        sorted_by_start(s),
    ensures
        sorted_by_start(insert_by_start(s, x)),
    decreases s.len(),
{
    if s.len() > 0 && s.last().0 > x.0 {
        let s2 = s.drop_last();
        lemma_insert_sorted(s2, x);
        lemma_insert_members(s2, x);
        let t2 = insert_by_start(s2, x);
        let t = t2.push(s.last());
        assert forall|i: int, j: int| 0 <= i < j < t.len() implies t[i].0 <= t[j].0 by {
            if j == t.len() - 1 {
                if t2[i] != x {
                    let k = choose|k: int| 0 <= k < s2.len() && s2[k] == t2[i];
                    assert(s[k] == t2[i]);
                }
            } else {
                assert(t[i] == t2[i] && t[j] == t2[j]);
            }
        }
    }
}

proof fn lemma_sort_sorted(s: Seq<Found>)
    ensures
        sorted_by_start(sort_by_start(s)),
        forall|i: int|
            0 <= i < sort_by_start(s).len() ==> s.contains(#[trigger] sort_by_start(s)[i]),
    decreases s.len(),
{
    if s.len() > 0 {
        let s2 = s.drop_last();
        lemma_sort_sorted(s2);
        lemma_insert_sorted(sort_by_start(s2), s.last());
        lemma_insert_members(sort_by_start(s2), s.last());
        let t = sort_by_start(s);
        assert forall|i: int| 0 <= i < t.len() implies s.contains(#[trigger] t[i]) by {
            if t[i] == s.last() {
                assert(s[s.len() - 1] == t[i]);
            } else {
                let k = choose|k: int|
                    0 <= k < sort_by_start(s2).len() && sort_by_start(s2)[k] == t[i];
                let m = choose|m: int| 0 <= m < s2.len() && s2[m] == sort_by_start(s2)[k];
                assert(s[m] == t[i]);
            }
        }
    }
}

proof fn lemma_nonempty_ranges(s: Seq<Found>)
    ensures
        forall|i: int|
            0 <= i < nonempty_ranges(s).len() ==> #[trigger] nonempty_ranges(s)[i].1 > 0,
    decreases s.len(),
{
    if s.len() > 0 {
        lemma_nonempty_ranges(s.drop_last());
        let r = nonempty_ranges(s.drop_last());
        if s.last().1 > 0 {
            assert forall|i: int| 0 <= i < r.push(s.last()).len() implies #[trigger] r.push(
                s.last(),
            )[i].1 > 0 by {
                if i < r.len() {
                    assert(r.push(s.last())[i] == r[i]);
                }
            }
        }
    }
}

/// The ranges markdown parsing gives are sorted by start, and none is empty.
pub proof fn law_markdown_ranges_sorted(text: Seq<char>)
    ensures
        markdown_parse(text) matches Some((clean, f)) ==> (sorted_by_start(f) && forall|i: int|
            0 <= i < f.len() ==> #[trigger] f[i].1 > 0),
{
    if let Some((clean, f)) = markdown_parse(text) {
        let p1 = protect_from(Pattern::FencedCode, text, 0, 0);
        let p2 = protect_from(Pattern::InlineCode, p1.0, 0, p1.1.len() as int);
        let p3 = protect_from(Pattern::Url, p2.0, 0, (p1.1.len() + p2.1.len()) as int);
        let regions = p1.1 + p2.1 + p3.1;
        let es = escape_from(p3.0, 0, 0);
        let em = emphasis_passes(es.0, Seq::empty(), 0);
        let ne = nonempty_ranges(clean_ranges(em.0, regions, es.1, em.1));
        lemma_nonempty_ranges(clean_ranges(em.0, regions, es.1, em.1));
        lemma_sort_sorted(ne);
        assert forall|i: int| 0 <= i < f.len() implies #[trigger] f[i].1 > 0 by {
            let k = choose|k: int| 0 <= k < ne.len() && ne[k] == f[i];
        }
    }
}

fn sort_ranges(f: &Vec<(usize, usize, Pattern)>) -> (r: Vec<(usize, usize, Pattern)>)
    ensures
        found_views(r@) == sort_by_start(nonempty_ranges(found_views(f@))),
{
    let mut out: Vec<(usize, usize, Pattern)> = Vec::new();
    let mut k: usize = 0;
    assert(found_views(f@.subrange(0, 0)) =~= Seq::<Found>::empty());
    while k < f.len()
        invariant
            k <= f.len(),
            found_views(out@) == sort_by_start(nonempty_ranges(found_views(f@.subrange(0, k as int)))),
            sorted_by_start(found_views(out@)),
        decreases f.len() - k,
    {
        let x = f[k];
        let ghost xv = (x.0 as int, x.1 as int, x.2);
        let ghost prev = nonempty_ranges(found_views(f@.subrange(0, k as int)));
        proof {
            let fv = found_views(f@.subrange(0, k + 1));
            assert(fv.drop_last() =~= found_views(f@.subrange(0, k as int)));
            assert(fv.last() == xv);
            if x.1 > 0 {
                assert(nonempty_ranges(fv) == prev.push(xv));
                assert(prev.push(xv).drop_last() =~= prev);
                assert(sort_by_start(prev.push(xv)) == insert_by_start(sort_by_start(prev), xv));
            } else {
                assert(nonempty_ranges(fv) == prev);
            }
        }
        if x.1 > 0 {
            let mut pos: usize = 0;
            while pos < out.len() && out[pos].0 <= x.0
                invariant
                    pos <= out.len(),
                    forall|i: int| 0 <= i < pos ==> out@[i].0 <= x.0,
                decreases out.len() - pos,
            {
                pos = pos + 1;
            }
            proof {
                let s = found_views(out@);
                assert forall|i: int| pos <= i < s.len() implies s[i].0 > x.0 by {
                    assert(s[pos as int].0 <= s[i].0);
                }
                lemma_insert_by_start(s, (x.0 as int, x.1 as int, x.2), pos as int);
            }
            let ghost o0 = out@;
            out.insert(pos, x);
            assert(found_views(out@) =~= found_views(o0).insert(
                pos as int,
                (x.0 as int, x.1 as int, x.2),
            ));
        }
        k = k + 1;
    }
    assert(f@.subrange(0, f@.len() as int) =~= f@);
    out
}

/// The styles a pattern's ranges carry.
pub open spec fn pattern_styles(p: Pattern) -> Seq<TextFormattingStyle> {
    match p {
        Pattern::BoldItalicStar | Pattern::BoldItalicUnderscore => seq![
            TextFormattingStyle::Bold,
            TextFormattingStyle::Italic,
        ],
        Pattern::BoldStar | Pattern::BoldUnderscore => seq![TextFormattingStyle::Bold],
        Pattern::ItalicStar | Pattern::ItalicUnderscore => seq![TextFormattingStyle::Italic],
        Pattern::Strikethrough => seq![TextFormattingStyle::Strikethrough],
        _ => Seq::empty(),
    }
}

fn styles_of(p: Pattern) -> (r: Vec<TextFormattingStyle>)
    ensures
        r@ == pattern_styles(p),
{
    let r = match p {
        Pattern::BoldItalicStar | Pattern::BoldItalicUnderscore => vec![
            TextFormattingStyle::Bold,
            TextFormattingStyle::Italic,
        ],
        Pattern::BoldStar | Pattern::BoldUnderscore => vec![TextFormattingStyle::Bold],
        Pattern::ItalicStar | Pattern::ItalicUnderscore => vec![TextFormattingStyle::Italic],
        Pattern::Strikethrough => vec![TextFormattingStyle::Strikethrough],
        _ => Vec::new(),
    };
    assert(r@ =~= pattern_styles(p));
    r
}

// ---------------------------------------------------------------------------
// Parsing
// ---------------------------------------------------------------------------

/// What markdown parsing makes of a text: nothing for an empty text or
/// one it leaves unchanged, else the text without markers and its ranges.
pub open spec fn markdown_parse(text: Seq<char>) -> Option<(Seq<char>, Seq<Found>)> {
    if text.len() == 0 {
        None
    } else {
        let p1 = protect_from(Pattern::FencedCode, text, 0, 0);
        let p2 = protect_from(Pattern::InlineCode, p1.0, 0, p1.1.len() as int);
        let p3 = protect_from(Pattern::Url, p2.0, 0, (p1.1.len() + p2.1.len()) as int);
        let regions = p1.1 + p2.1 + p3.1;
        let es = escape_from(p3.0, 0, 0);
        let em = emphasis_passes(es.0, Seq::empty(), 0);
        let clean = unescape(restore(em.0, regions, regions.len() as int), es.1, es.1.len() as int);
        if em.1.len() == 0 && clean == text {
            None
        } else {
            Some(
                (
                    clean,
                    sort_by_start(nonempty_ranges(clean_ranges(em.0, regions, es.1, em.1))),
                ),
            )
        }
    }
}

/// The working copy of the text, at most 64 characters for each of its
/// characters and 4 bytes for each of those, has a byte length that fits
/// in `usize`.
pub open spec fn working_copy_fits(text: Seq<char>) -> bool {
    256 * text.len() <= usize::MAX
}

/// A formatting range is the range found, with its pattern's styles.
pub open spec fn range_is(r: TextFormattingRange, f: Found) -> bool {
    r.start == f.0 && r.length == f.1 && r.styles@ == pattern_styles(f.2)
}

/// Parse markdown emphasis markers in message text: the text without the
/// markers and the formatting ranges they gave, or `None` when the text is
/// empty or parsing leaves it unchanged.
///
/// Fenced code, inline code and URLs are left alone, backslash escapes
/// keep the character escaped; emphasis is found longest markers first
/// (`***`, `___`, `**`, `__`, `*`, `_`, `~~`), and ranges are UTF-8 byte
/// offsets into the clean text, sorted by start, empty ones dropped.
pub fn parse_markdown_formatting(text: &str) -> (r: Option<ParsedFormatting>)
    requires
        working_copy_fits(text@),
    ensures
        match markdown_parse(text@) {
            None => r is None,
            Some((clean, found)) => r matches Some(pf) && pf.clean_text@ == clean
                && pf.formatting@.len() == found.len() && forall|i: int|
                0 <= i < found.len() ==> range_is(#[trigger] pf.formatting@[i], found[i]),
        },
{
    let t = chars_of(text);
    if t.len() == 0 {
        return None;
    }
    let ghost n = t@.len();
    let mut regions: Vec<Vec<char>> = Vec::new();
    let w1 = protect_pass(Pattern::FencedCode, &t, &mut regions);
    proof {
        lemma_protect_len(Pattern::FencedCode, t@, 0, 0);
        lemma_protect_regions(Pattern::FencedCode, t@, 0, 0);
    }
    let ghost n1 = regions@.len();
    let w2 = protect_pass(Pattern::InlineCode, &w1, &mut regions);
    proof {
        lemma_protect_len(Pattern::InlineCode, w1@, 0, n1 as int);
        lemma_protect_regions(Pattern::InlineCode, w1@, 0, n1 as int);
    }
    let ghost n2 = regions@.len();
    let w3 = protect_pass(Pattern::Url, &w2, &mut regions);
    proof {
        lemma_protect_len(Pattern::Url, w2@, 0, n2 as int);
        lemma_protect_regions(Pattern::Url, w2@, 0, n2 as int);
        let rv = views(regions@);
        let p1 = protect_from(Pattern::FencedCode, t@, 0, 0);
        let p2 = protect_from(Pattern::InlineCode, p1.0, 0, p1.1.len() as int);
        let p3 = protect_from(Pattern::Url, p2.0, 0, (p1.1.len() + p2.1.len()) as int);
        assert(rv =~= p1.1 + p2.1 + p3.1);
        assert forall|i: int| 0 <= i < regions@.len() implies 0 < (#[trigger] regions@[i])@.len()
            && 4 * regions@[i]@.len() <= usize::MAX by {
            assert(rv[i] == regions@[i]@);
            if i < p1.1.len() {
                assert(rv[i] == p1.1[i]);
            } else if i < p1.1.len() + p2.1.len() {
                assert(rv[i] == p2.1[i - p1.1.len()]);
            } else {
                assert(rv[i] == p3.1[i - p1.1.len() - p2.1.len()]);
            }
        }
    }
    let mut escaped: Vec<char> = Vec::new();
    let w4 = escape_pass(&w3, &mut escaped);
    proof {
        lemma_escape_len(w3@, 0, 0);
    }
    let (w5, found) = emphasis_phase(w4);
    let moved = clean_ranges_exec(&w5, &regions, &escaped, &found);
    let restored = restore_exec(w5, &regions);
    let clean = unescape_exec(restored, &escaped);
    if found.len() == 0 && chars_equal(&clean, &t) {
        return None;
    }
    let sorted = sort_ranges(&moved);
    let mut formatting: Vec<TextFormattingRange> = Vec::new();
    let mut k: usize = 0;
    while k < sorted.len()
        invariant
            k <= sorted.len(),
            formatting@.len() == k,
            forall|i: int|
                0 <= i < k ==> range_is(
                    #[trigger] formatting@[i],
                    found_views(sorted@)[i],
                ),
        decreases sorted.len() - k,
    {
        let (st, len, p) = sorted[k];
        formatting.push(TextFormattingRange { start: st, length: len, styles: styles_of(p) });
        k = k + 1;
    }
    Some(ParsedFormatting { clean_text: string_of(&clean), formatting })
}

// ---------------------------------------------------------------------------
// Backslash escapes
// ---------------------------------------------------------------------------

/// A character no markdown rule reads: an ASCII letter or digit, or a space.
pub open spec fn plain_char(c: char) -> bool {
    ('a' <= c && c <= 'z') || ('A' <= c && c <= 'Z') || ('0' <= c && c <= '9') || c == ' '
}

/// Every character of `s` is plain.
pub open spec fn all_plain(s: Seq<char>) -> bool {
    forall|i: int| 0 <= i < s.len() ==> plain_char(#[trigger] s[i])
}

proof fn lemma_first_match_none(p: Pattern, s: Seq<char>, from: int)
    requires
        forall|i: int| from <= i < s.len() ==> #[trigger] match_end(p, s, i) is None,
    ensures
        first_match(p, s, from) is None,
    decreases s.len() - from,
{
    if 0 <= from < s.len() {
        lemma_first_match_none(p, s, from + 1);
    }
}

proof fn lemma_first_match_at(p: Pattern, s: Seq<char>, from: int, a: int)
    requires
        0 <= from <= a < s.len(),
        forall|i: int| from <= i < a ==> #[trigger] match_end(p, s, i) is None,
        match_end(p, s, a) is Some,
    ensures
        first_match(p, s, from) == Some((a, match_end(p, s, a)->0)),
    decreases a - from,
{
    if from < a {
        lemma_first_match_at(p, s, from + 1, a);
    }
}

proof fn lemma_char_search_none(s: Seq<char>, c: char, q: int)
    requires
        forall|j: int| q <= j < s.len() ==> #[trigger] s[j] != c,
    ensures
        char_search(s, c, q) is None,
    decreases s.len() - q,
{
    if 0 <= q < s.len() {
        lemma_char_search_none(s, c, q + 1);
    }
}

proof fn lemma_replaced_none(u: Seq<char>, p: char, r: Seq<char>)
    requires
        forall|i: int| 0 <= i < u.len() ==> #[trigger] u[i] != p,
    ensures
        replaced(u, seq![p], r) == u,
    decreases u.len(),
{
    if u.len() >= 1 {
        assert(u.subrange(0, 1)[0] == u[0]);
        assert(u.subrange(0, 1) != seq![p]);
        lemma_replaced_none(u.skip(1), p, r);
        assert(seq![u[0]] + u.skip(1) =~= u);
    }
}

proof fn lemma_replaced_once(x: Seq<char>, y: Seq<char>, p: char, r: Seq<char>)
    requires
        forall|i: int| 0 <= i < x.len() ==> #[trigger] x[i] != p,
        forall|i: int| 0 <= i < y.len() ==> #[trigger] y[i] != p,
    ensures
        replaced(x + seq![p] + y, seq![p], r) == x + r + y,
    decreases x.len(),
{
    let t = x + seq![p] + y;
    if x.len() == 0 {
        assert(t.subrange(0, 1) =~= seq![p]);
        assert(t.skip(1) =~= y);
        lemma_replaced_none(y, p, r);
        assert(x + r + y =~= r + y);
    } else {
        assert(t.subrange(0, 1)[0] == x[0]);
        assert(t.subrange(0, 1) != seq![p]);
        assert(t.skip(1) =~= x.skip(1) + seq![p] + y);
        lemma_replaced_once(x.skip(1), y, p, r);
        assert(seq![t[0]] + (x.skip(1) + r + y) =~= x + r + y);
    }
}

/// No emphasis pass finds anything in a text without `*`, `_` or `~`.
proof fn lemma_emphasis_none(w: Seq<char>, k: int)
    requires
        forall|i: int| 0 <= i < w.len() ==> #[trigger] w[i] != '*' && w[i] != '_' && w[i] != '~',
    ensures
        emphasis_passes(w, Seq::empty(), k) == (w, Seq::<Found>::empty()),
    decreases 7 - k,
{
    if 0 <= k < 7 {
        let p = emphasis_order(k);
        assert forall|i: int| 0 <= i < w.len() implies #[trigger] match_end(p, w, i) is None by {
            if opens(p, w, i) {
                assert(w[i] == marker(p));
            }
        }
        lemma_first_match_none(p, w, 0);
        assert(w.subrange(0, w.len() as int) =~= w);
        let st = emphasis_step(p, w, Seq::empty());
        assert(st.1 =~= Seq::<Found>::empty());
        lemma_emphasis_none(w, k + 1);
    }
}

/// The markdown punctuation a backslash can escape.
pub open spec fn escape_punct(c: char) -> bool {
    seq![
        '\\', '`', '*', '_', '~', '{', '}', '[', ']', '<', '>', '(', ')', '#', '+', '-', '.', '!',
        '|',
    ].contains(c)
}

/// Around the escape, every character of `x + \c + y` is plain.
proof fn lemma_escape_positions(x: Seq<char>, c: char, y: Seq<char>)
    requires
        all_plain(x),
        all_plain(y),
    ensures
        ({
            let t = x + seq!['\\', c] + y;
            &&& t[x.len() as int] == '\\'
            &&& t[x.len() + 1int] == c
            &&& forall|i: int|
                0 <= i < t.len() && i != x.len() && i != x.len() + 1 ==> plain_char(#[trigger] t[i])
        }),
{
    let t = x + seq!['\\', c] + y;
    let k = x.len() as int;
    assert forall|i: int| 0 <= i < t.len() && i != k && i != k + 1 implies plain_char(#[trigger] t[i]) by {
        if i < k {
            assert(t[i] == x[i]);
        } else {
            assert(t[i] == y[i - k - 2]);
        }
    }
}

/// Code fences, inline code and URLs set nothing aside in `x + \c + y`.
proof fn lemma_escape_unprotected(x: Seq<char>, c: char, y: Seq<char>)
    requires
        all_plain(x),
        all_plain(y),
        escape_punct(c),
    ensures
        ({
            let t = x + seq!['\\', c] + y;
            &&& protect_from(Pattern::FencedCode, t, 0, 0) == (t, Seq::<Seq<char>>::empty())
            &&& protect_from(Pattern::InlineCode, t, 0, 0) == (t, Seq::<Seq<char>>::empty())
            &&& protect_from(Pattern::Url, t, 0, 0) == (t, Seq::<Seq<char>>::empty())
        }),
{
    let t = x + seq!['\\', c] + y;
    let k = x.len() as int;
    lemma_escape_positions(x, c, y);
    assert forall|i: int| 0 <= i < t.len() implies #[trigger] match_end(Pattern::FencedCode, t, i) is None by {
        if run_at(t, i, '`', 3) {
            assert(t[i] == '`' && t[i + 1] == '`' && t[i + 2] == '`');
        }
    }
    lemma_first_match_none(Pattern::FencedCode, t, 0);
    assert(t.subrange(0, t.len() as int) =~= t);
    assert forall|i: int| 0 <= i < t.len() implies #[trigger] match_end(Pattern::InlineCode, t, i) is None by {
        if char_at_is(t, i, '`') {
            assert(i == k + 1);
            assert forall|j: int| i + 1 <= j < t.len() implies #[trigger] t[j] != '`' by {
                assert(plain_char(t[j]));
            }
            lemma_char_search_none(t, '`', i + 1);
        }
    }
    lemma_first_match_none(Pattern::InlineCode, t, 0);
    assert forall|i: int| 0 <= i < t.len() implies #[trigger] match_end(Pattern::Url, t, i) is None by {
        if occurs_at(t, seq![':', '/', '/'], i + 5) {
            assert(t.subrange(i + 5, i + 8)[0] == t[i + 5]);
            assert(plain_char(t[i + 5]) || t[i + 5] == '\\' || t[i + 5] == c);
        }
        if occurs_at(t, seq![':', '/', '/'], i + 4) {
            assert(t.subrange(i + 4, i + 7)[0] == t[i + 4]);
            assert(plain_char(t[i + 4]) || t[i + 4] == '\\' || t[i + 4] == c);
        }
    }
    lemma_first_match_none(Pattern::Url, t, 0);
}

/// The escape pass replaces the one escape of `x + \c + y`.
proof fn lemma_escape_pass(x: Seq<char>, c: char, y: Seq<char>)
    requires
        all_plain(x),
        all_plain(y),
        escape_punct(c),
    ensures
        escape_from(x + seq!['\\', c] + y, 0, 0) == (x + seq![pua(ESCAPE_BASE, 0)] + y, seq![c]),
{
    let t = x + seq!['\\', c] + y;
    let k = x.len() as int;
    lemma_escape_positions(x, c, y);
    assert forall|i: int| 0 <= i < k implies #[trigger] match_end(Pattern::Escape, t, i) is None by {
        assert(plain_char(t[i]));
    }
    lemma_first_match_at(Pattern::Escape, t, 0, k);
    assert forall|i: int| k + 2 <= i < t.len() implies #[trigger] match_end(Pattern::Escape, t, i) is None by {
        assert(plain_char(t[i]));
    }
    lemma_first_match_none(Pattern::Escape, t, k + 2);
    assert(t.subrange(0, k) =~= x);
    assert(t.subrange(k + 2, t.len() as int) =~= y);
    assert(escape_from(t, k + 2, 1) == (t.subrange(k + 2, t.len() as int), Seq::<char>::empty()));
    assert(match_end(Pattern::Escape, t, k) == Some(k + 2));
    assert(first_match(Pattern::Escape, t, 0) == Some((k, k + 2)));
    let es = escape_from(t, 0, 0);
    assert(es.0 == t.subrange(0, k) + seq![pua(ESCAPE_BASE, 0)] + escape_from(t, k + 2, 1).0);
    assert(es.0 =~= x + seq![pua(ESCAPE_BASE, 0)] + y);
    assert(es.1 =~= seq![c]);
}

/// Emphasis finds nothing in `x + P + y`, and putting `c` back for `P` gives
/// `x + c + y`.
proof fn lemma_escape_finish(x: Seq<char>, c: char, y: Seq<char>)
    requires
        all_plain(x),
        all_plain(y),
    ensures
        ({
            let w = x + seq![pua(ESCAPE_BASE, 0)] + y;
            &&& emphasis_passes(w, Seq::empty(), 0) == (w, Seq::<Found>::empty())
            &&& unescape(w, seq![c], 1) == x + seq![c] + y
        }),
{
    let pu = pua(ESCAPE_BASE, 0);
    assert(pu as u32 == 0xF000);
    let w = x + seq![pu] + y;
    let k = x.len() as int;
    assert forall|i: int| 0 <= i < w.len() implies #[trigger] w[i] != '*' && w[i] != '_' && w[i] != '~' by {
        if i < k {
            assert(w[i] == x[i] && plain_char(x[i]));
        } else if i > k {
            assert(w[i] == y[i - k - 1] && plain_char(y[i - k - 1]));
        }
    }
    lemma_emphasis_none(w, 0);
    assert forall|i: int| 0 <= i < x.len() implies #[trigger] x[i] != pu by {
        assert(plain_char(x[i]));
    }
    assert forall|i: int| 0 <= i < y.len() implies #[trigger] y[i] != pu by {
        assert(plain_char(y[i]));
    }
    lemma_replaced_once(x, y, pu, seq![c]);
    assert(unescape(w, seq![c], 0) == w);
}

/// A backslash before a markdown punctuation character escapes it: in a
/// text of plain characters around such a pair, parsing gives the text with
/// the pair turned into the character alone, and no formatting.  For
/// example `snake\_case` parses to `snake_case`.
pub proof fn law_backslash_escape(x: Seq<char>, c: char, y: Seq<char>)
    requires
        all_plain(x),
        all_plain(y),
        escape_punct(c),
    ensures
        markdown_parse(x + seq!['\\', c] + y) == Some((x + seq![c] + y, Seq::<Found>::empty())),
{
    let t = x + seq!['\\', c] + y;
    lemma_escape_unprotected(x, c, y);
    lemma_escape_pass(x, c, y);
    lemma_escape_finish(x, c, y);
    let p1 = protect_from(Pattern::FencedCode, t, 0, 0);
    let p2 = protect_from(Pattern::InlineCode, p1.0, 0, p1.1.len() as int);
    let p3 = protect_from(Pattern::Url, p2.0, 0, (p1.1.len() + p2.1.len()) as int);
    let regions = p1.1 + p2.1 + p3.1;
    assert(regions =~= Seq::<Seq<char>>::empty());
    let es = escape_from(p3.0, 0, 0);
    let em = emphasis_passes(es.0, Seq::empty(), 0);
    let w = x + seq![pua(ESCAPE_BASE, 0)] + y;
    assert(restore(em.0, regions, 0) == w);
    let clean = unescape(restore(em.0, regions, regions.len() as int), es.1, es.1.len() as int);
    assert(clean == x + seq![c] + y);
    assert(clean.len() != t.len());
    let cr = clean_ranges(em.0, regions, es.1, em.1);
    assert(cr =~= Seq::<Found>::empty());
    assert(nonempty_ranges(cr) == cr);
    assert(sort_by_start(cr) == cr);
}

} // verus!

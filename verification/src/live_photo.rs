//! Where the `.mov` companion of a live photo would be, for an image path.
//!
//! Paths follow Unix rules: `/` separates components, and empty and `.`
//! components do not count as names.
use vstd::prelude::*;
use crate::text::{
    chars_equal, chars_of, contains_char, contains_seq, contains_seq_exec, ends_with_chars,
    has_suffix, lowercase_of, push_str, slice_of, split_chars, split_on, string_of,
    to_lowercase_text, lemma_split_on_nonempty, lemma_split_on_no_sep, occurs_at,
};

verus! {

/// The image extensions that can have a `.mov` companion.
pub open spec fn live_photo_exts() -> Seq<Seq<char>> {
    seq!["png"@, "jpeg"@, "jpg"@, "heic"@, "tiff"@]
}

/// Scanning back from `i`, the index just past the last character of the
/// last named component of `p[..i]` (0 if there is none): trailing slashes
/// and `.` components are skipped.
pub open spec fn named_end(p: Seq<char>, i: int) -> int
    decreases i,
{
    if i <= 0 || i > p.len() {
        0
    } else if p[i - 1] == '/' {
        named_end(p, i - 1)
    } else if p[i - 1] == '.' && (i - 1 == 0 || p[i - 2] == '/') {
        named_end(p, i - 1)
    } else {
        i
    }
}

/// The start of the component that ends at `i`: just past the last `/`
/// before it.
pub open spec fn seg_start(p: Seq<char>, i: int) -> int
    decreases i,
{
    if i <= 0 || i > p.len() {
        0
    } else if p[i - 1] == '/' {
        i
    } else {
        seg_start(p, i - 1)
    }
}

/// The index of the last `.` in `p[lo..i]`.
pub open spec fn last_dot(p: Seq<char>, lo: int, i: int) -> Option<int>
    decreases i - lo,
{
    if i <= lo || i > p.len() || lo < 0 {
        None
    } else if p[i - 1] == '.' {
        Some(i - 1)
    } else {
        last_dot(p, lo, i - 1)
    }
}

/// `Path::extension`: where the extension of the file name starts (the
/// index of its dot) and ends.  A file name without a dot, or whose only
/// dot is its first character, has none; `..` is no file name.
pub open spec fn extension_at(p: Seq<char>) -> Option<(int, int)> {
    let e = named_end(p, p.len() as int);
    if e == 0 {
        None
    } else {
        let s = seg_start(p, e);
        if p.subrange(s, e) == ".."@ {
            None
        } else {
            match last_dot(p, s, e) {
                Some(d) => if d == s {
                    None
                } else {
                    Some((d, e))
                },
                None => None,
            }
        }
    }
}

/// The `.mov` path that would hold the video of a live photo stored at `p`:
/// for a `.heic.jpeg` file, the path with that double extension replaced;
/// otherwise, for a listed image extension (in any letter case), the path
/// with its extension replaced by `mov`.
pub open spec fn live_photo_candidate(p: Seq<char>) -> Option<Seq<char>> {
    if contains_seq(p, ".heic.jpeg"@) {
        if has_suffix(p, ".heic.jpeg"@) {
            Some(p.subrange(0, p.len() - 10) + ".mov"@)
        } else {
            None
        }
    } else {
        match extension_at(p) {
            None => None,
            Some((d, e)) => {
                let ext = lowercase_of(p.subrange(d + 1, e));
                if !live_photo_exts().contains(split_on(ext, '.').last()) {
                    None
                } else if ext.contains('.') {
                    if has_suffix(p, seq!['.'] + ext) {
                        Some(p.subrange(0, p.len() - ext.len() - 1) + ".mov"@)
                    } else {
                        None
                    }
                } else {
                    Some(p.subrange(0, d) + ".mov"@)
                }
            },
        }
    }
}

/// A path has a `.mov` companion only when it ends in `.heic.jpeg` or its
/// file name's extension, lowercased, ends in one of the listed image
/// extensions.  A path ending in `.heic.jpeg` has that double extension
/// replaced; a path without `.heic.jpeg` whose lowercased extension is one
/// of them (and holds no dot) has its extension replaced by `mov`.
pub proof fn law_live_photo_extension(p: Seq<char>)
    ensures
        live_photo_candidate(p) is Some ==> has_suffix(p, ".heic.jpeg"@) || (extension_at(p) matches Some(
            (d, e),
        ) && live_photo_exts().contains(split_on(lowercase_of(p.subrange(d + 1, e)), '.').last())),
        has_suffix(p, ".heic.jpeg"@) ==> live_photo_candidate(p) == Some(
            p.subrange(0, p.len() - 10) + ".mov"@,
        ),
        !contains_seq(p, ".heic.jpeg"@) ==> (extension_at(p) matches Some((d, e)) ==> (
        live_photo_exts().contains(lowercase_of(p.subrange(d + 1, e))) && !lowercase_of(
            p.subrange(d + 1, e),
        ).contains('.') ==> live_photo_candidate(p) == Some(p.subrange(0, d) + ".mov"@))),
{
    reveal_strlit(".heic.jpeg");
    if has_suffix(p, ".heic.jpeg"@) {
        assert(occurs_at(p, ".heic.jpeg"@, p.len() - 10));
    }
    if let Some((d, e)) = extension_at(p) {
        let ext = lowercase_of(p.subrange(d + 1, e));
        if !ext.contains('.') {
            lemma_split_on_no_sep(ext, '.');
        }
    }
}

proof fn lemma_named_end_bounds(p: Seq<char>, i: int)
    ensures
        0 <= named_end(p, i),
        0 <= i <= p.len() ==> named_end(p, i) <= i,
        named_end(p, i) > 0 ==> p[named_end(p, i) - 1] != '/',
    decreases i,
{
    if 0 < i <= p.len() {
        lemma_named_end_bounds(p, i - 1);
    }
}

proof fn lemma_seg_start_bounds(p: Seq<char>, i: int)
    ensures
        0 <= i <= p.len() ==> 0 <= seg_start(p, i) <= i,
    decreases i,
{
    if 0 < i <= p.len() {
        lemma_seg_start_bounds(p, i - 1);
    }
}

proof fn lemma_last_dot_bounds(p: Seq<char>, lo: int, i: int)
    ensures
        last_dot(p, lo, i) matches Some(d) ==> lo <= d < i && p[d] == '.',
    decreases i - lo,
{
    if lo < i <= p.len() && lo >= 0 {
        lemma_last_dot_bounds(p, lo, i - 1);
    }
}

/// Where the extension of the file name of `p` lies, if it has one.
fn extension_span(p: &Vec<char>) -> (r: Option<(usize, usize)>)
    ensures
        match extension_at(p@) {
            Some((d, e)) => r == Some((d as usize, e as usize)) && 0 <= d < e <= p@.len(),
            None => r is None,
        },
{
    let mut e: usize = p.len();
    while e > 0 && (p[e - 1] == '/' || (p[e - 1] == '.' && (e - 1 == 0 || p[e - 2] == '/')))
        invariant
            e <= p.len(),
            named_end(p@, e as int) == named_end(p@, p@.len() as int),
        decreases e,
    {
        e = e - 1;
    }
    proof {
        lemma_named_end_bounds(p@, p@.len() as int);
    }
    if e == 0 {
        return None;
    }
    let mut s: usize = e;
    while s > 0 && p[s - 1] != '/'
        invariant
            s <= e <= p.len(),
            seg_start(p@, s as int) == seg_start(p@, e as int),
        decreases s,
    {
        s = s - 1;
    }
    let seg = slice_of(p, s, e);
    let dotdot = chars_of("..");
    if chars_equal(&seg, &dotdot) {
        return None;
    }
    let mut d: usize = e;
    while d > s && p[d - 1] != '.'
        invariant
            s <= d <= e <= p.len(),
            last_dot(p@, s as int, d as int) == last_dot(p@, s as int, e as int),
        decreases d,
    {
        d = d - 1;
    }
    if d == s || d - 1 == s {
        return None;
    }
    proof {
        lemma_last_dot_bounds(p@, s as int, e as int);
        lemma_seg_start_bounds(p@, e as int);
    }
    Some((d - 1, e))
}

/// Whether `x` is one of the listed image extensions.
fn is_live_photo_ext(x: &Vec<char>) -> (r: bool)
    ensures
        r == live_photo_exts().contains(x@),
{
    let exts = [chars_of("png"), chars_of("jpeg"), chars_of("jpg"), chars_of("heic"), chars_of("tiff")];
    let r = chars_equal(x, &exts[0]) || chars_equal(x, &exts[1]) || chars_equal(x, &exts[2])
        || chars_equal(x, &exts[3]) || chars_equal(x, &exts[4]);
    proof {
        let l = live_photo_exts();
        if r {
            assert(l.contains(x@)) by {
                if x@ == "png"@ { assert(l[0] == x@); }
                else if x@ == "jpeg"@ { assert(l[1] == x@); }
                else if x@ == "jpg"@ { assert(l[2] == x@); }
                else if x@ == "heic"@ { assert(l[3] == x@); }
                else { assert(l[4] == x@); }
            }
        } else {
            assert(!l.contains(x@)) by {
                if l.contains(x@) {
                    let i = choose|i: int| 0 <= i < l.len() && l[i] == x@;
                    assert(i == 0 || i == 1 || i == 2 || i == 3 || i == 4);
                }
            }
        }
    }
    r
}

/// The `.mov` companion path for an image at `path` (see
/// [`live_photo_candidate`]).
pub fn live_photo_mov_path(path: &str) -> (r: Option<String>)
    ensures
        match live_photo_candidate(path@) {
            Some(c) => r matches Some(s) && s@ == c,
            None => r is None,
        },
{
    let p = chars_of(path);
    let double = chars_of(".heic.jpeg");
    proof {
        reveal_strlit(".heic.jpeg");
    }
    if contains_seq_exec(&p, &double) {
        if ends_with_chars(&p, &double) {
            let mut r = slice_of(&p, 0, p.len() - 10);
            push_str(&mut r, ".mov");
            return Some(string_of(&r));
        }
        return None;
    }
    let (d, e) = match extension_span(&p) {
        Some(x) => x,
        None => return None,
    };
    let raw = slice_of(&p, d + 1, e);
    let ext_text = to_lowercase_text(string_of(&raw).as_str());
    let ext = chars_of(ext_text.as_str());
    let parts = split_chars(&ext, '.');
    proof {
        lemma_split_on_nonempty(ext@, '.');
    }
    if !is_live_photo_ext(&parts[parts.len() - 1]) {
        return None;
    }
    if contains_char(&ext, '.') {
        let mut suffix: Vec<char> = Vec::new();
        suffix.push('.');
        let mut k: usize = 0;
        while k < ext.len()
            invariant
                k <= ext.len(),
                suffix@ == seq!['.'] + ext@.subrange(0, k as int),
            decreases ext.len() - k,
        {
            suffix.push(ext[k]);
            k = k + 1;
        }
        assert(ext@.subrange(0, ext@.len() as int) =~= ext@);
        if ends_with_chars(&p, &suffix) {
            let mut r = slice_of(&p, 0, p.len() - suffix.len());
            push_str(&mut r, ".mov");
            return Some(string_of(&r));
        }
        return None;
    }
    let mut r = slice_of(&p, 0, d);
    push_str(&mut r, ".mov");
    Some(string_of(&r))
}

/// What probing for a companion gives: nothing without a candidate;
/// otherwise the candidate when the probe reported it present, and nothing
/// when it reported it absent.
pub open spec fn probe_outcome<F: Fn(&str) -> bool>(probe: F, cand: Option<Seq<char>>, found: Option<Seq<char>>) -> bool {
    match cand {
        None => found is None,
        Some(c) => exists|a: &str, b: bool|
            a@ == c && #[trigger] probe.ensures((a,), b) && found == (if b {
                Some(c)
            } else {
                None
            }),
    }
}

/// The companion of an image at `path`, if `mov_exists` reports it present.
pub fn probe_live_photo<F: Fn(&str) -> bool>(path: &str, mov_exists: &F) -> (r: Option<String>)
    requires
        forall|a: &str| mov_exists.requires((a,)),
    ensures
        probe_outcome(
            *mov_exists,
            live_photo_candidate(path@),
            match r {
                Some(s) => Some(s@),
                None => None,
            },
        ),
{
    match live_photo_mov_path(path) {
        None => None,
        Some(c) => {
            let a: &str = c.as_str();
            let b = mov_exists(a);
            if b {
                Some(c)
            } else {
                None
            }
        },
    }
}

} // verus!

//! Small text and path utilities.
use vstd::prelude::*;
use crate::config::{home_dir_text, opt_text};
use crate::http::path_push;
use crate::text::{chars_of, push_all, slice_of, string_of, trim, trim_chars};

verus! {

/// Text with something other than whitespace in it.
pub fn is_not_empty(s: &str) -> (r: bool)
    ensures
        r == (trim(s@).len() > 0),
{
    let c = chars_of(s);
    let t = trim_chars(&c);
    t.len() > 0
}

/// What one character becomes when escaped for an AppleScript string literal.
pub open spec fn osa_escape_char(c: char) -> Seq<char> {
    if c == '\\' {
        seq!['\\', '\\']
    } else if c == '"' {
        seq!['\\', '"']
    } else {
        seq![c]
    }
}

/// `s` with every backslash and double quote preceded by a backslash.
pub open spec fn osa_escaped(s: Seq<char>) -> Seq<char>
    decreases s.len(),
{
    if s.len() == 0 {
        Seq::empty()
    } else {
        osa_escaped(s.drop_last()) + osa_escape_char(s.last())
    }
}

pub fn escape_osa_chars(s: &Vec<char>) -> (r: Vec<char>)
    ensures
        r@ == osa_escaped(s@),
{
    let mut r: Vec<char> = Vec::new();
    let mut i: usize = 0;
    while i < s.len()
        invariant
            i <= s.len(),
            r@ == osa_escaped(s@.subrange(0, i as int)),
        decreases s.len() - i,
    {
        assert(s@.subrange(0, i + 1).drop_last() =~= s@.subrange(0, i as int));
        let c = s[i];
        if c == '\\' {
            r.push('\\');
            r.push('\\');
        } else if c == '"' {
            r.push('\\');
            r.push('"');
        } else {
            r.push(c);
        }
        assert(r@ =~= osa_escaped(s@.subrange(0, i + 1)));
        i = i + 1;
    }
    assert(s@.subrange(0, s@.len() as int) =~= s@);
    r
}

/// Sanitize a string for AppleScript: escape backslashes and double quotes.
pub fn escape_osa_exp(s: &str) -> (r: String)
    ensures
        r@ == osa_escaped(s@),
{
    let c = chars_of(s);
    let e = escape_osa_chars(&c);
    string_of(&e)
}

/// In escaped text every double quote is preceded by a backslash that is not
/// itself escaped: the escaped text is decoded back to the original by
/// dropping the backslash in front of each escaped character.
pub open spec fn osa_unescaped(s: Seq<char>) -> Seq<char>
    decreases s.len(),
{
    if s.len() == 0 {
        Seq::empty()
    } else if s.len() >= 2 && s[0] == '\\' {
        seq![s[1]] + osa_unescaped(s.skip(2))
    } else {
        seq![s[0]] + osa_unescaped(s.skip(1))
    }
}

proof fn lemma_escaped_append(a: Seq<char>, c: char)
    ensures
        osa_escaped(a.push(c)) == osa_escaped(a) + osa_escape_char(c),
{
    assert(a.push(c).drop_last() =~= a);
}

proof fn lemma_escaped_prepend(c: char, s: Seq<char>)
    ensures
        osa_escaped(seq![c] + s) == osa_escape_char(c) + osa_escaped(s),
    decreases s.len(),
{
    if s.len() == 0 {
        assert((seq![c] + s).drop_last() =~= Seq::<char>::empty());
        assert(seq![c] + s =~= seq![c]);
        assert(osa_escaped(seq![c]) =~= osa_escaped(Seq::<char>::empty()) + osa_escape_char(c));
        assert(osa_escaped(s) =~= Seq::<char>::empty());
        assert(osa_escape_char(c) + osa_escaped(s) =~= osa_escape_char(c));
    } else {
        lemma_escaped_prepend(c, s.drop_last());
        assert((seq![c] + s).drop_last() =~= seq![c] + s.drop_last());
        assert(osa_escaped(seq![c] + s) =~= osa_escaped(seq![c] + s.drop_last())
            + osa_escape_char(s.last()));
        assert(osa_escaped(s) =~= osa_escaped(s.drop_last()) + osa_escape_char(s.last()));
        assert(osa_escape_char(c) + osa_escaped(s) =~= osa_escape_char(c) + osa_escaped(s.drop_last())
            + osa_escape_char(s.last()));
    }
}

/// Unescaping undoes escaping.
pub proof fn law_osa_escape_roundtrip(s: Seq<char>)
    ensures
        osa_unescaped(osa_escaped(s)) == s,
    decreases s.len(),
{
    if s.len() > 0 {
        let c = s[0];
        let rest = s.drop_first();
        assert(s =~= seq![c] + rest);
        lemma_escaped_prepend(c, rest);
        law_osa_escape_roundtrip(rest);
        let e = osa_escaped(s);
        if c == '\\' || c == '"' {
            assert(e.skip(2) =~= osa_escaped(rest));
        } else {
            assert(e.skip(1) =~= osa_escaped(rest));
        }
    }
}

// ---------------------------------------------------------------------------
// Home directory expansion
// ---------------------------------------------------------------------------

/// `s` without its leading slashes.
pub open spec fn without_leading_slashes(s: Seq<char>) -> Seq<char>
    decreases s.len(),
{
    if s.len() > 0 && s[0] == '/' {
        without_leading_slashes(s.subrange(1, s.len() as int))
    } else {
        s
    }
}

/// A path with a leading `~` replaced by the home directory (an empty path
/// when there is none): the rest, without its leading slashes, is joined
/// onto it.  Other paths are unchanged.
pub open spec fn tilde_expanded(path: Seq<char>, home: Option<Seq<char>>) -> Seq<char> {
    if path.len() > 0 && path[0] == '~' {
        path_push(
            match home {
                Some(h) => h,
                None => Seq::empty(),
            },
            without_leading_slashes(path.subrange(1, path.len() as int)),
        )
    } else {
        path
    }
}

/// Joins a path component list onto a base, as the standard path type does:
/// an absolute path replaces the base.
pub open spec fn path_join(base: Seq<char>, p: Seq<char>) -> Seq<char> {
    if p.len() > 0 && p[0] == '/' {
        p
    } else {
        path_push(base, p)
    }
}

pub(crate) fn push_path(base: &Vec<char>, seg: &Vec<char>) -> (r: Vec<char>)
    ensures
        r@ == path_push(base@, seg@),
{
    let mut r = slice_of(base, 0, base.len());
    if base.len() > 0 && base[base.len() - 1] != '/' {
        r.push('/');
    }
    push_all(&mut r, seg);
    r
}

pub(crate) fn home_chars_or_empty(home: &Option<String>) -> (r: Vec<char>)
    ensures
        r@ == (match opt_text(*home) {
            Some(h) => h,
            None => Seq::empty(),
        }),
{
    match home {
        Some(h) => chars_of(h.as_str()),
        None => Vec::new(),
    }
}

/// Expands a leading `~` against the given home directory.
pub fn expand_tilde_in(path: &str, home: &Option<String>) -> (r: String)
    ensures
        r@ == tilde_expanded(path@, opt_text(*home)),
{
    let p = chars_of(path);
    if p.len() == 0 || p[0] != '~' {
        return string_of(&p);
    }
    let mut i: usize = 1;
    while i < p.len() && p[i] == '/'
        invariant
            1 <= i <= p.len(),
            without_leading_slashes(p@.subrange(i as int, p@.len() as int))
                == without_leading_slashes(p@.subrange(1, p@.len() as int)),
        decreases p.len() - i,
    {
        proof {
            assert(p@.subrange(i as int, p@.len() as int).subrange(1, p@.len() - i) =~= p@.subrange(
                i + 1,
                p@.len() as int,
            ));
        }
        i = i + 1;
    }
    let rest = slice_of(&p, i, p.len());
    let base = home_chars_or_empty(home);
    string_of(&push_path(&base, &rest))
}

/// Expands `~` to the user's home directory in a file path: `~/path` and a
/// bare `~` go under the home directory; other paths are unchanged.
pub fn expand_tilde(path: &str) -> (r: String)
    ensures
        exists|h: Option<String>| r@ == tilde_expanded(path@, opt_text(h)),
        !(path@.len() > 0 && path@[0] == '~') ==> r@ == path@,
{
    let h = home_dir_text();
    expand_tilde_in(path, &h)
}

} // verus!

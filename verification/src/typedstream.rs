//! Decoder for Apple's typedstream format (NSArchiver), in which chat.db
//! stores the `attributedBody` of a message.
//!
//! The decoder reads the stream header, then groups of typed values, each
//! introduced by a type-encoding string ("@", "is", "[5c]", ...).  Objects
//! (NSString, NSAttributedString, NSDictionary, NSData, NSNumber) are decoded
//! into [`Decoded`] values; strings and objects seen once may be referenced
//! again through the decoder's shared tables.
use vstd::prelude::*;
use crate::decimal::{bounded_digits, parse_digits};
use crate::json::{
    entry_views, json_view, json_views, lemma_entry_views, lemma_json_views, lemma_object_of_push,
    object_of, object_set, Json, JsonModel, RealValue,
};
use crate::text::{chars_equal, chars_of, slice_of, string_of};
use crate::stream_model::{
    at, class_finish, dv, lemma_objects_push, name_entries, opt_dv, lemma_objects_update, lemma_same_dv,
    lemma_shared_after_bounds, objects_v, outcome, referenced_entry, sp_chain, sp_class,
    sp_cstring, state_of, texts_v, DState, DV, OV, sp_value, sp_object, sp_contents, sp_nsstring,
    sp_nsattributed, sp_nsdictionary, sp_nsdata, sp_nsnumber, sp_generic, sp_runs, sp_array,
    sp_struct, sp_typed_values, sp_typed_value, sp_pairs, sp_skip, sp_elements, sp_fields, sp_group,
    sp_all, runs_outcome, group_outcome, values_v, pairs_v, runs_v, attrs_v, shared_v, attrs_of,
    slot_of, lemma_values_push, lemma_pairs_push, lemma_runs_push, lemma_shared_push,
    lemma_dict_attrs_v, lemma_same_attrs_v, RunV, ahead, not_behind, decoded, stream_text,
    lemma_first_text_v,
};

verus! {

// ---------------------------------------------------------------------------
// Type encodings
// ---------------------------------------------------------------------------

pub open spec fn is_open_bracket(c: char) -> bool {
    c == '[' || c == '{' || c == '('
}

pub open spec fn closing_of(c: char) -> char {
    if c == '[' {
        ']'
    } else if c == '{' {
        '}'
    } else {
        ')'
    }
}

/// Where a bracketed encoding ends: scanning from `j` with `depth` brackets
/// open, the index just past the bracket that closes the outermost one (or
/// the end of the string if it never closes).
pub open spec fn bracket_end(s: Seq<char>, j: int, depth: int, open: char, close: char) -> int
    decreases s.len() - j,
{
    if j >= s.len() || depth <= 0 || j < 0 {
        j
    } else {
        let d2 = if s[j] == open {
            depth + 1
        } else if s[j] == close {
            depth - 1
        } else {
            depth
        };
        bracket_end(s, j + 1, d2, open, close)
    }
}

/// End of the single encoding that starts at index `i`.
pub open spec fn encoding_end(s: Seq<char>, i: int) -> int {
    if is_open_bracket(s[i]) {
        bracket_end(s, i + 1, 1, s[i], closing_of(s[i]))
    } else {
        i + 1
    }
}

proof fn lemma_bracket_end_bounds(s: Seq<char>, j: int, depth: int, open: char, close: char)
    requires
        0 <= j <= s.len(),
    ensures
        j <= bracket_end(s, j, depth, open, close) <= s.len(),
    decreases s.len() - j,
{
    if j < s.len() && depth > 0 {
        let d2 = if s[j] == open {
            depth + 1
        } else if s[j] == close {
            depth - 1
        } else {
            depth
        };
        lemma_bracket_end_bounds(s, j + 1, d2, open, close);
    }
}

proof fn lemma_encoding_end_bounds(s: Seq<char>, i: int)
    requires
        0 <= i < s.len(),
    ensures
        i < encoding_end(s, i) <= s.len(),
{
    if is_open_bracket(s[i]) {
        lemma_bracket_end_bounds(s, i + 1, 1, s[i], closing_of(s[i]));
    }
}

/// The encodings of `s[i..]`, one per value, left to right.
pub open spec fn encodings_from(s: Seq<char>, i: int) -> Seq<Seq<char>>
    decreases s.len() - i,
{
    if i < 0 || i >= s.len() {
        Seq::empty()
    } else {
        let e = encoding_end(s, i);
        if e <= i || e > s.len() {
            Seq::empty()
        } else {
            seq![s.subrange(i, e)] + encodings_from(s, e)
        }
    }
}

/// The encodings a type-encoding string lists: "is" is ["i", "s"], while a
/// bracketed array, struct or union encoding stays whole.
pub open spec fn encodings(s: Seq<char>) -> Seq<Seq<char>> {
    encodings_from(s, 0)
}

proof fn lemma_encodings_from_short(s: Seq<char>, i: int)
    requires
        0 <= i,
    ensures
        forall|k: int|
            0 <= k < encodings_from(s, i).len() ==> 0 < (#[trigger] encodings_from(s, i)[k]).len()
                <= s.len() - i,
    decreases s.len() - i,
{
    if i < s.len() {
        lemma_encoding_end_bounds(s, i);
        let e = encoding_end(s, i);
        lemma_encodings_from_short(s, e);
        assert forall|k: int|
            0 <= k < encodings_from(s, i).len() implies 0 < (
            #[trigger] encodings_from(s, i)[k]).len() <= s.len() - i by {
            if k > 0 {
                assert(encodings_from(s, i)[k] == encodings_from(s, e)[k - 1]);
            }
        }
    }
}

/// Every encoding `encodings(s)` lists is non-empty and no longer than `s`.
pub proof fn lemma_encodings_short(s: Seq<char>)
    ensures
        forall|k: int|
            0 <= k < encodings(s).len() ==> 0 < (#[trigger] encodings(s)[k]).len() <= s.len(),
{
    lemma_encodings_from_short(s, 0);
}

/// Index just past the encoding that starts at `i` (which must be in range).
fn encoding_end_exec(s: &Vec<char>, i: usize) -> (e: usize)
    requires
        i < s.len(),
    ensures
        e == encoding_end(s@, i as int),
        i < e <= s.len(),
{
    proof {
        lemma_encoding_end_bounds(s@, i as int);
    }
    let open = s[i];
    if !(open == '[' || open == '{' || open == '(') {
        return i + 1;
    }
    let close = if open == '[' {
        ']'
    } else if open == '{' {
        '}'
    } else {
        ')'
    };
    let mut depth: usize = 1;
    let mut j: usize = i + 1;
    while j < s.len() && depth > 0
        invariant
            i < j <= s.len(),
            depth <= j,
            open == s@[i as int],
            close == closing_of(open),
            is_open_bracket(open),
            bracket_end(s@, j as int, depth as int, open, close) == encoding_end(s@, i as int),
        decreases s.len() - j,
    {
        if s[j] == open {
            depth = depth + 1;
        } else if s[j] == close {
            depth = depth - 1;
        }
        j = j + 1;
    }
    j
}

/// Splits a type-encoding string into the encodings of its values.
pub fn split_encoding_chars(s: &Vec<char>) -> (r: Vec<Vec<char>>)
    ensures
        r@.len() == encodings(s@).len(),
        forall|k: int| 0 <= k < r@.len() ==> #[trigger] r@[k]@ == encodings(s@)[k],
{
    let mut r: Vec<Vec<char>> = Vec::new();
    let mut i: usize = 0;
    while i < s.len()
        invariant
            i <= s.len(),
            r@.len() + encodings_from(s@, i as int).len() == encodings(s@).len(),
            forall|k: int| 0 <= k < r@.len() ==> #[trigger] r@[k]@ == encodings(s@)[k],
            forall|k: int|
                0 <= k < encodings_from(s@, i as int).len() ==> #[trigger] encodings_from(
                    s@,
                    i as int,
                )[k] == encodings(s@)[r@.len() + k],
        decreases s.len() - i,
    {
        let e = encoding_end_exec(s, i);
        let piece = slice_of(s, i, e);
        proof {
            let rest = encodings_from(s@, e as int);
            assert(encodings_from(s@, i as int) == seq![s@.subrange(i as int, e as int)] + rest);
            assert(encodings_from(s@, i as int)[0] == encodings(s@)[r@.len() as int]);
            assert forall|k: int| 0 <= k < rest.len() implies #[trigger] rest[k] == encodings(
                s@,
            )[r@.len() + 1 + k] by {
                assert(encodings_from(s@, i as int)[k + 1] == rest[k]);
            }
        }
        r.push(piece);
        i = e;
    }
    r
}

/// Splits a type-encoding string: `"is"` gives `["i", "s"]`, `"[10C]i"` gives
/// `["[10C]", "i"]`.
pub fn split_encodings(enc: &str) -> (r: Vec<String>)
    ensures
        r@.len() == encodings(enc@).len(),
        forall|k: int| 0 <= k < r@.len() ==> #[trigger] r@[k]@ == encodings(enc@)[k],
{
    let chars = chars_of(enc);
    let parts = split_encoding_chars(&chars);
    let mut r: Vec<String> = Vec::new();
    for k in 0..parts.len()
        invariant
            parts@.len() == encodings(enc@).len(),
            forall|j: int| 0 <= j < parts@.len() ==> #[trigger] parts@[j]@ == encodings(enc@)[j],
            r@.len() == k,
            forall|j: int| 0 <= j < k ==> #[trigger] r@[j]@ == encodings(enc@)[j],
    {
        r.push(string_of(&parts[k]));
    }
    r
}

/// Length of the run of ASCII digits that starts `s`.
pub open spec fn digit_run(s: Seq<char>) -> int
    decreases s.len(),
{
    if s.len() == 0 || !crate::text::is_ascii_digit(s[0]) {
        0
    } else {
        1 + digit_run(s.subrange(1, s.len() as int))
    }
}

proof fn lemma_digit_run(s: Seq<char>)
    ensures
        0 <= digit_run(s) <= s.len(),
        forall|k: int| 0 <= k < digit_run(s) ==> crate::text::is_ascii_digit(#[trigger] s[k]),
        digit_run(s) < s.len() ==> !crate::text::is_ascii_digit(s[digit_run(s)]),
    decreases s.len(),
{
    if s.len() > 0 && crate::text::is_ascii_digit(s[0]) {
        let t = s.subrange(1, s.len() as int);
        lemma_digit_run(t);
        assert forall|k: int| 0 <= k < digit_run(s) implies crate::text::is_ascii_digit(
            #[trigger] s[k],
        ) by {
            if k > 0 {
                assert(s[k] == t[k - 1]);
            }
        }
    }
}

/// What lies between the outer brackets `open` ... `close` of `enc`, if it
/// has them.
pub open spec fn bracket_inner(enc: Seq<char>, open: char, close: char) -> Option<Seq<char>> {
    if enc.len() >= 2 && enc[0] == open && enc[enc.len() - 1] == close {
        Some(enc.subrange(1, enc.len() - 1))
    } else {
        None
    }
}

/// An array encoding `[<count><element>]`: the count (which must fit in a
/// `usize`) and the element's encoding.
pub open spec fn array_encoding(enc: Seq<char>) -> Option<(nat, Seq<char>)> {
    match bracket_inner(enc, '[', ']') {
        Some(inner) => {
            let n = digit_run(inner);
            match bounded_digits(inner.subrange(0, n), usize::MAX as nat) {
                Some(v) => Some((v, inner.subrange(n, inner.len() as int))),
                None => None,
            }
        },
        None => None,
    }
}

/// Index of the first `c` in `s` at or after `i`, if any.
pub open spec fn first_index_of(s: Seq<char>, c: char, i: int) -> Option<int>
    decreases s.len() - i,
{
    if i < 0 || i >= s.len() {
        None
    } else if s[i] == c {
        Some(i)
    } else {
        first_index_of(s, c, i + 1)
    }
}

/// The field list of a struct encoding `{name=fields}` or `{fields}`.
pub open spec fn struct_field_list(inner: Seq<char>) -> Seq<char> {
    match first_index_of(inner, '=', 0) {
        Some(p) => inner.subrange(p + 1, inner.len() as int),
        None => inner,
    }
}

/// The encodings of a struct's fields.
pub open spec fn struct_encoding(enc: Seq<char>) -> Option<Seq<Seq<char>>> {
    match bracket_inner(enc, '{', '}') {
        Some(inner) => Some(encodings(struct_field_list(inner))),
        None => None,
    }
}

fn bracket_inner_exec(enc: &Vec<char>, open: char, close: char) -> (r: Option<Vec<char>>)
    ensures
        match bracket_inner(enc@, open, close) {
            Some(inner) => r matches Some(v) && v@ == inner,
            None => r is None,
        },
{
    if enc.len() >= 2 && enc[0] == open && enc[enc.len() - 1] == close {
        Some(slice_of(enc, 1, enc.len() - 1))
    } else {
        None
    }
}

/// Parses an array encoding into its count and element encoding.
pub fn parse_array_chars(enc: &Vec<char>) -> (r: Result<(usize, Vec<char>), ()>)
    ensures
        match array_encoding(enc@) {
            Some((n, e)) => r matches Ok((m, v)) && m == n && v@ == e,
            None => r is Err,
        },
        r matches Ok((m, v)) ==> v@.len() + 2 <= enc@.len(),
{
    let inner = match bracket_inner_exec(enc, '[', ']') {
        Some(v) => v,
        None => return Err(()),
    };
    let mut n: usize = 0;
    while n < inner.len() && '0' <= inner[n] && inner[n] <= '9'
        invariant
            n <= inner.len(),
            forall|k: int| 0 <= k < n ==> crate::text::is_ascii_digit(#[trigger] inner@[k]),
        decreases inner.len() - n,
    {
        n = n + 1;
    }
    proof {
        lemma_digit_run(inner@);
        // the scan stopped exactly where the digit run ends
        if digit_run(inner@) < n {
            assert(!crate::text::is_ascii_digit(inner@[digit_run(inner@)]));
        }
        if n < digit_run(inner@) {
            assert(crate::text::is_ascii_digit(inner@[n as int]));
        }
    }
    let digits = slice_of(&inner, 0, n);
    let value = parse_digits(&digits, 0, usize::MAX as u64);
    proof {
        assert(digits@.subrange(0, digits@.len() as int) =~= digits@);
    }
    match value {
        Some(v) => Ok((v as usize, slice_of(&inner, n, inner.len()))),
        None => Err(()),
    }
}

/// Parses an array encoding: `"[5c]"` gives `(5, "c")`.
pub fn parse_array_encoding(enc: &str) -> (r: Result<(usize, String), ()>)
    ensures
        match array_encoding(enc@) {
            Some((n, e)) => r matches Ok((m, v)) && m == n && v@ == e,
            None => r is Err,
        },
{
    let chars = chars_of(enc);
    match parse_array_chars(&chars) {
        Ok((n, e)) => Ok((n, string_of(&e))),
        Err(()) => Err(()),
    }
}

/// Parses a struct encoding into the encodings of its fields.
pub fn parse_struct_chars(enc: &Vec<char>) -> (r: Result<Vec<Vec<char>>, ()>)
    ensures
        match struct_encoding(enc@) {
            Some(fields) => r matches Ok(v) && v@.len() == fields.len() && forall|k: int|
                0 <= k < v@.len() ==> #[trigger] v@[k]@ == fields[k],
            None => r is Err,
        },
        r matches Ok(v) ==> forall|k: int|
            0 <= k < v@.len() ==> 0 < #[trigger] v@[k]@.len() && v@[k]@.len() + 2 <= enc@.len(),
{
    let inner = match bracket_inner_exec(enc, '{', '}') {
        Some(v) => v,
        None => return Err(()),
    };
    let mut p: usize = 0;
    while p < inner.len() && inner[p] != '='
        invariant
            p <= inner.len(),
            first_index_of(inner@, '=', p as int) == first_index_of(inner@, '=', 0),
        decreases inner.len() - p,
    {
        p = p + 1;
    }
    let fields = if p < inner.len() {
        slice_of(&inner, p + 1, inner.len())
    } else {
        inner
    };
    proof {
        lemma_encodings_short(fields@);
    }
    Ok(split_encoding_chars(&fields))
}

/// Parses a struct encoding: `"{name=ii}"` and `"{ii}"` both give
/// `["i", "i"]`.
pub fn parse_struct_encoding(enc: &str) -> (r: Result<Vec<String>, ()>)
    ensures
        match struct_encoding(enc@) {
            Some(fields) => r matches Ok(v) && v@.len() == fields.len() && forall|k: int|
                0 <= k < v@.len() ==> #[trigger] v@[k]@ == fields[k],
            None => r is Err,
        },
{
    let chars = chars_of(enc);
    match parse_struct_chars(&chars) {
        Ok(parts) => {
            let mut r: Vec<String> = Vec::new();
            for k in 0..parts.len()
                invariant
                    r@.len() == k,
                    forall|j: int| 0 <= j < k ==> #[trigger] r@[j]@ == parts@[j]@,
            {
                r.push(string_of(&parts[k]));
            }
            Ok(r)
        },
        Err(()) => Err(()),
    }
}

// ---------------------------------------------------------------------------
// Decoded values
// ---------------------------------------------------------------------------

/// A decoded value.
#[derive(Debug)]
pub enum Decoded {
    Null,
    Int(i64),
    Real(RealValue),
    Str(String),
    Bytes(Vec<u8>),
    Object(Box<DecodedObject>),
}

/// A decoded Objective-C object.
#[derive(Debug)]
pub enum DecodedObject {
    String(String),
    AttributedString { string: String, runs: Vec<AttrRun> },
    Dictionary(Vec<(Decoded, Decoded)>),
    Data(Vec<u8>),
    Number(Decoded),
    Generic(String),
}

/// One attribute run of an NSAttributedString: a range of the text (in
/// UTF-16 code units) and the attributes that apply to it.
#[derive(Debug)]
pub struct AttrRun {
    pub offset: usize,
    pub length: usize,
    pub attributes: Vec<(String, Decoded)>,
}

// --- structural equality over views -----------------------------------------

/// Two decoded values hold the same content (strings and byte payloads
/// compared by their contents).
pub open spec fn same(a: Decoded, b: Decoded) -> bool
    decreases a,
{
    match a {
        Decoded::Str(x) => b matches Decoded::Str(y) && x@ == y@,
        Decoded::Bytes(x) => b matches Decoded::Bytes(y) && x@ == y@,
        Decoded::Object(x) => b matches Decoded::Object(y) && same_object(*x, *y),
        _ => a == b,
    }
}

pub open spec fn same_object(a: DecodedObject, b: DecodedObject) -> bool
    decreases a,
{
    match a {
        DecodedObject::String(x) => b matches DecodedObject::String(y) && x@ == y@,
        DecodedObject::AttributedString { string, runs } => b matches DecodedObject::AttributedString {
            string: s2,
            runs: r2,
        } && string@ == s2@ && same_runs(runs@, r2@),
        DecodedObject::Dictionary(p) => b matches DecodedObject::Dictionary(p2) && same_pairs(
            p@,
            p2@,
        ),
        DecodedObject::Data(x) => b matches DecodedObject::Data(y) && x@ == y@,
        DecodedObject::Number(x) => b matches DecodedObject::Number(y) && same(x, y),
        DecodedObject::Generic(x) => b matches DecodedObject::Generic(y) && x@ == y@,
    }
}

pub open spec fn same_pairs(a: Seq<(Decoded, Decoded)>, b: Seq<(Decoded, Decoded)>) -> bool
    decreases a,
{
    a.len() == b.len() && (a.len() == 0 || (same(a[a.len() - 1].0, b[b.len() - 1].0) && same(
        a[a.len() - 1].1,
        b[b.len() - 1].1,
    ) && same_pairs(a.subrange(0, a.len() - 1), b.subrange(0, b.len() - 1))))
}

pub open spec fn same_attrs(a: Seq<(String, Decoded)>, b: Seq<(String, Decoded)>) -> bool
    decreases a,
{
    a.len() == b.len() && (a.len() == 0 || (a[a.len() - 1].0@ == b[b.len() - 1].0@ && same(
        a[a.len() - 1].1,
        b[b.len() - 1].1,
    ) && same_attrs(a.subrange(0, a.len() - 1), b.subrange(0, b.len() - 1))))
}

pub open spec fn same_runs(a: Seq<AttrRun>, b: Seq<AttrRun>) -> bool
    decreases a,
{
    a.len() == b.len() && (a.len() == 0 || (a[a.len() - 1].offset == b[b.len() - 1].offset
        && a[a.len() - 1].length == b[b.len() - 1].length && same_attrs(
        a[a.len() - 1].attributes@,
        b[b.len() - 1].attributes@,
    ) && same_runs(a.subrange(0, a.len() - 1), b.subrange(0, b.len() - 1))))
}

// --- the longest byte payload -------------------------------------------------

pub open spec fn max3(a: nat, b: nat, c: nat) -> nat {
    if a >= b && a >= c {
        a
    } else if b >= c {
        b
    } else {
        c
    }
}

/// The length of the longest byte payload (byte array or NSData) anywhere in
/// a decoded value.
pub open spec fn byte_bound(d: Decoded) -> nat
    decreases d,
{
    match d {
        Decoded::Bytes(b) => b@.len(),
        Decoded::Object(o) => object_byte_bound(*o),
        _ => 0,
    }
}

pub open spec fn object_byte_bound(o: DecodedObject) -> nat
    decreases o,
{
    match o {
        DecodedObject::AttributedString { string, runs } => runs_byte_bound(runs@),
        DecodedObject::Dictionary(p) => pairs_byte_bound(p@),
        DecodedObject::Data(b) => b@.len(),
        DecodedObject::Number(x) => byte_bound(x),
        _ => 0,
    }
}

pub open spec fn pairs_byte_bound(s: Seq<(Decoded, Decoded)>) -> nat
    decreases s,
{
    if s.len() == 0 {
        0
    } else {
        max3(
            byte_bound(s[s.len() - 1].0),
            byte_bound(s[s.len() - 1].1),
            pairs_byte_bound(s.subrange(0, s.len() - 1)),
        )
    }
}

pub open spec fn attrs_byte_bound(s: Seq<(String, Decoded)>) -> nat
    decreases s,
{
    if s.len() == 0 {
        0
    } else {
        max3(byte_bound(s[s.len() - 1].1), 0, attrs_byte_bound(s.subrange(0, s.len() - 1)))
    }
}

pub open spec fn runs_byte_bound(s: Seq<AttrRun>) -> nat
    decreases s,
{
    if s.len() == 0 {
        0
    } else {
        max3(
            attrs_byte_bound(s[s.len() - 1].attributes@),
            0,
            runs_byte_bound(s.subrange(0, s.len() - 1)),
        )
    }
}

// --- facts about `same` -------------------------------------------------------

proof fn lemma_same_bound(a: Decoded, b: Decoded)
    requires
        same(a, b),
    ensures
        byte_bound(a) == byte_bound(b),
    decreases a,
{
    match a {
        Decoded::Object(x) => {
            if let Decoded::Object(y) = b {
                lemma_same_object_bound(*x, *y);
            }
        },
        _ => {},
    }
}

proof fn lemma_same_object_bound(a: DecodedObject, b: DecodedObject)
    requires
        same_object(a, b),
    ensures
        object_byte_bound(a) == object_byte_bound(b),
    decreases a,
{
    match a {
        DecodedObject::AttributedString { string, runs } => {
            if let DecodedObject::AttributedString { string: s2, runs: r2 } = b {
                lemma_same_runs_bound(runs@, r2@);
            }
        },
        DecodedObject::Dictionary(p) => {
            if let DecodedObject::Dictionary(p2) = b {
                lemma_same_pairs_bound(p@, p2@);
            }
        },
        DecodedObject::Number(x) => {
            if let DecodedObject::Number(y) = b {
                lemma_same_bound(x, y);
            }
        },
        _ => {},
    }
}

proof fn lemma_same_pairs_bound(a: Seq<(Decoded, Decoded)>, b: Seq<(Decoded, Decoded)>)
    requires
        same_pairs(a, b),
    ensures
        pairs_byte_bound(a) == pairs_byte_bound(b),
    decreases a,
{
    if a.len() > 0 {
        lemma_same_bound(a[a.len() - 1].0, b[b.len() - 1].0);
        lemma_same_bound(a[a.len() - 1].1, b[b.len() - 1].1);
        lemma_same_pairs_bound(a.subrange(0, a.len() - 1), b.subrange(0, b.len() - 1));
    }
}

proof fn lemma_same_attrs_bound(a: Seq<(String, Decoded)>, b: Seq<(String, Decoded)>)
    requires
        same_attrs(a, b),
    ensures
        attrs_byte_bound(a) == attrs_byte_bound(b),
    decreases a,
{
    if a.len() > 0 {
        lemma_same_bound(a[a.len() - 1].1, b[b.len() - 1].1);
        lemma_same_attrs_bound(a.subrange(0, a.len() - 1), b.subrange(0, b.len() - 1));
    }
}

proof fn lemma_same_runs_bound(a: Seq<AttrRun>, b: Seq<AttrRun>)
    requires
        same_runs(a, b),
    ensures
        runs_byte_bound(a) == runs_byte_bound(b),
    decreases a,
{
    if a.len() > 0 {
        lemma_same_attrs_bound(a[a.len() - 1].attributes@, b[b.len() - 1].attributes@);
        lemma_same_runs_bound(a.subrange(0, a.len() - 1), b.subrange(0, b.len() - 1));
    }
}

// --- deep copies --------------------------------------------------------------

/// A copy of a decoded value.
pub fn copy_decoded(d: &Decoded) -> (r: Decoded)
    ensures
        same(r, *d),
    decreases d,
{
    match d {
        Decoded::Null => Decoded::Null,
        Decoded::Int(n) => Decoded::Int(*n),
        Decoded::Real(x) => Decoded::Real(*x),
        Decoded::Str(s) => Decoded::Str(s.clone()),
        Decoded::Bytes(b) => Decoded::Bytes(b.clone()),
        Decoded::Object(o) => Decoded::Object(Box::new(copy_object(o))),
    }
}

fn copy_object(o: &DecodedObject) -> (r: DecodedObject)
    ensures
        same_object(r, *o),
    decreases o,
{
    match o {
        DecodedObject::String(s) => DecodedObject::String(s.clone()),
        DecodedObject::AttributedString { string, runs } => DecodedObject::AttributedString {
            string: string.clone(),
            runs: copy_runs(runs),
        },
        DecodedObject::Dictionary(p) => DecodedObject::Dictionary(copy_pairs(p)),
        DecodedObject::Data(b) => DecodedObject::Data(b.clone()),
        DecodedObject::Number(x) => DecodedObject::Number(copy_decoded(x)),
        DecodedObject::Generic(s) => DecodedObject::Generic(s.clone()),
    }
}

fn copy_pairs(v: &Vec<(Decoded, Decoded)>) -> (r: Vec<(Decoded, Decoded)>)
    ensures
        same_pairs(r@, v@),
    decreases v,
{
    let mut r: Vec<(Decoded, Decoded)> = Vec::new();
    let mut k: usize = 0;
    while k < v.len()
        invariant
            k <= v.len(),
            same_pairs(r@, v@.subrange(0, k as int)),
        decreases v.len() - k,
    {
        proof {
            assert(decreases_to!(v => v[k as int]));
        }
        let a = copy_decoded(&v[k].0);
        let b = copy_decoded(&v[k].1);
        let ghost r0 = r@;
        r.push((a, b));
        proof {
            assert(r@.subrange(0, r@.len() - 1) =~= r0);
            assert(v@.subrange(0, k + 1).subrange(0, k as int) =~= v@.subrange(0, k as int));
        }
        k = k + 1;
    }
    assert(v@.subrange(0, v@.len() as int) =~= v@);
    r
}

fn copy_attrs(v: &Vec<(String, Decoded)>) -> (r: Vec<(String, Decoded)>)
    ensures
        same_attrs(r@, v@),
    decreases v,
{
    let mut r: Vec<(String, Decoded)> = Vec::new();
    let mut k: usize = 0;
    while k < v.len()
        invariant
            k <= v.len(),
            same_attrs(r@, v@.subrange(0, k as int)),
        decreases v.len() - k,
    {
        proof {
            assert(decreases_to!(v => v[k as int]));
        }
        let b = copy_decoded(&v[k].1);
        let ghost r0 = r@;
        r.push((v[k].0.clone(), b));
        proof {
            assert(r@.subrange(0, r@.len() - 1) =~= r0);
            assert(v@.subrange(0, k + 1).subrange(0, k as int) =~= v@.subrange(0, k as int));
        }
        k = k + 1;
    }
    assert(v@.subrange(0, v@.len() as int) =~= v@);
    r
}

fn copy_runs(v: &Vec<AttrRun>) -> (r: Vec<AttrRun>)
    ensures
        same_runs(r@, v@),
    decreases v,
{
    let mut r: Vec<AttrRun> = Vec::new();
    let mut k: usize = 0;
    while k < v.len()
        invariant
            k <= v.len(),
            same_runs(r@, v@.subrange(0, k as int)),
        decreases v.len() - k,
    {
        proof {
            assert(decreases_to!(v => v[k as int]));
        }
        let attributes = copy_attrs(&v[k].attributes);
        let ghost r0 = r@;
        r.push(AttrRun { offset: v[k].offset, length: v[k].length, attributes });
        proof {
            assert(r@.subrange(0, r@.len() - 1) =~= r0);
            assert(v@.subrange(0, k + 1).subrange(0, k as int) =~= v@.subrange(0, k as int));
        }
        k = k + 1;
    }
    assert(v@.subrange(0, v@.len() as int) =~= v@);
    r
}

// ---------------------------------------------------------------------------
// Stream tags and the byte-level reading rules
// ---------------------------------------------------------------------------

pub const TAG_INTEGER_2: i8 = -127;
pub const TAG_INTEGER_4: i8 = -126;
pub const TAG_FLOATING_POINT: i8 = -125;
pub const TAG_NEW: i8 = -124;
pub const TAG_NIL: i8 = -123;
pub const TAG_END_OF_OBJECT: i8 = -122;
pub const FIRST_TAG: i8 = -128;
pub const LAST_TAG: i8 = -111;
/// The number that refers to the first entry of a shared table.
pub const FIRST_REF: i64 = -110;

/// Whether a head byte is one of the tag values rather than a literal.
pub fn in_tag_range(v: i8) -> (r: bool)
    ensures
        r == (FIRST_TAG <= v <= LAST_TAG),
{
    FIRST_TAG <= v && v <= LAST_TAG
}

/// The byte order a stream declares in its signature.
#[derive(Clone, Copy, Debug, PartialEq, Eq, Structural)]
pub enum ByteOrder {
    Big,
    Little,
}

/// A byte read as a signed head value.
pub open spec fn head_value(b: u8) -> int {
    if b < 128 {
        b as int
    } else {
        b as int - 256
    }
}

/// The unsigned number two bytes hold in the given order.
pub open spec fn word2(b: Seq<u8>, order: ByteOrder) -> int {
    match order {
        ByteOrder::Little => b[0] + 256 * b[1],
        ByteOrder::Big => 256 * b[0] + b[1],
    }
}

/// The unsigned number four bytes hold in the given order.
pub open spec fn word4(b: Seq<u8>, order: ByteOrder) -> int {
    match order {
        ByteOrder::Little => b[0] + 256 * b[1] + 65536 * b[2] + 16777216 * b[3],
        ByteOrder::Big => 16777216 * b[0] + 65536 * b[1] + 256 * b[2] + b[3],
    }
}

/// The unsigned number eight bytes hold in the given order.
pub open spec fn word8(b: Seq<u8>, order: ByteOrder) -> int {
    match order {
        ByteOrder::Little => word4(b.subrange(0, 4), order) + 4294967296 * word4(
            b.subrange(4, 8),
            order,
        ),
        ByteOrder::Big => 4294967296 * word4(b.subrange(0, 4), order) + word4(
            b.subrange(4, 8),
            order,
        ),
    }
}

/// An integer after its head: a head outside the tag range is the value
/// itself (as a signed or unsigned byte); the two integer tags are followed
/// by two or four bytes in the stream's byte order.  Gives the value and the
/// position after it.
pub open spec fn integer_after(data: Seq<u8>, pos: int, order: ByteOrder, signed: bool, head: i8) -> Option<(int, int)> {
    if !(FIRST_TAG <= head <= LAST_TAG) {
        Some(
            (
                if signed || head >= 0 {
                    head as int
                } else {
                    head + 256
                },
                pos,
            ),
        )
    } else if head == TAG_INTEGER_2 {
        if 0 <= pos && pos + 2 <= data.len() {
            let u = word2(data.subrange(pos, pos + 2), order);
            Some((if signed && u >= 32768 { u - 65536 } else { u }, pos + 2))
        } else {
            None
        }
    } else if head == TAG_INTEGER_4 {
        if 0 <= pos && pos + 4 <= data.len() {
            let u = word4(data.subrange(pos, pos + 4), order);
            Some((if signed && u >= 2147483648 { u - 4294967296 } else { u }, pos + 4))
        } else {
            None
        }
    } else {
        None
    }
}

/// A head byte followed by an integer.
pub open spec fn integer_at(data: Seq<u8>, pos: int, order: ByteOrder, signed: bool) -> Option<(int, int)> {
    if 0 <= pos < data.len() {
        integer_after(data, pos + 1, order, signed, head_value(data[pos]) as i8)
    } else {
        None
    }
}

/// A floating-point value after its head: the float tag is followed by the
/// raw bits (four bytes for a float, eight for a double); any other head
/// starts a signed integer.
pub open spec fn real_after(data: Seq<u8>, pos: int, order: ByteOrder, double: bool, head: i8) -> Option<(RealValue, int)> {
    if head == TAG_FLOATING_POINT {
        let n: int = if double { 8 } else { 4 };
        if 0 <= pos && pos + n <= data.len() {
            if double {
                Some((RealValue::Double(word8(data.subrange(pos, pos + 8), order) as u64), pos + 8))
            } else {
                Some((RealValue::Single(word4(data.subrange(pos, pos + 4), order) as u32), pos + 4))
            }
        } else {
            None
        }
    } else {
        match integer_after(data, pos, order, true, head) {
            Some((v, p)) => Some((RealValue::Whole(v as i64), p)),
            None => None,
        }
    }
}

/// An unshared string after its head: nil, or a length then that many bytes.
pub open spec fn unshared_after(data: Seq<u8>, pos: int, order: ByteOrder, head: i8) -> Option<(Option<Seq<u8>>, int)> {
    if head == TAG_NIL {
        Some((None, pos))
    } else {
        match integer_after(data, pos, order, false, head) {
            Some((n, p)) => if p + n <= data.len() {
                Some((Some(data.subrange(p, p + n)), p + n))
            } else {
                None
            },
            None => None,
        }
    }
}

/// The shared string table of a decoder, by content.
pub open spec fn table_view(t: Seq<Vec<u8>>) -> Seq<Seq<u8>> {
    t.map_values(|v: Vec<u8>| v@)
}

/// A shared string after its head: nil; a new string (another head and an
/// unshared string), which joins the table; or a reference to an earlier
/// table entry.  Gives the string, the position after it and the table.
pub open spec fn shared_after(data: Seq<u8>, pos: int, order: ByteOrder, table: Seq<Seq<u8>>, head: i8) -> Option<(Option<Seq<u8>>, int, Seq<Seq<u8>>)> {
    if head == TAG_NIL {
        Some((None, pos, table))
    } else if head == TAG_NEW {
        if 0 <= pos < data.len() {
            match unshared_after(data, pos + 1, order, head_value(data[pos]) as i8) {
                Some((Some(s), p)) => Some((Some(s), p, table.push(s))),
                _ => None,
            }
        } else {
            None
        }
    } else {
        match integer_after(data, pos, order, true, head) {
            Some((r, p)) => if FIRST_REF <= r && r - FIRST_REF < table.len() {
                Some((Some(table[r - FIRST_REF]), p, table))
            } else {
                None
            },
            None => None,
        }
    }
}


/// "typedstream": the signature of a big-endian stream.
pub open spec fn big_endian_signature() -> Seq<u8> {
    seq![116u8, 121u8, 112u8, 101u8, 100u8, 115u8, 116u8, 114u8, 101u8, 97u8, 109u8]
}

/// "streamtyped": the signature of a little-endian stream.
pub open spec fn little_endian_signature() -> Seq<u8> {
    seq![115u8, 116u8, 114u8, 101u8, 97u8, 109u8, 116u8, 121u8, 112u8, 101u8, 100u8]
}

/// The byte order a signature declares.
pub open spec fn signature_order(sig: Seq<u8>) -> Option<ByteOrder> {
    if sig == big_endian_signature() {
        Some(ByteOrder::Big)
    } else if sig == little_endian_signature() {
        Some(ByteOrder::Little)
    } else {
        None
    }
}

/// The stream header: version 4, an 11-byte signature that fixes the byte
/// order, and a system version.  Gives the byte order and where the header
/// ends.
pub open spec fn header_end(data: Seq<u8>) -> Option<(ByteOrder, int)> {
    match integer_at(data, 0, ByteOrder::Big, false) {
        Some((version, p1)) => if version != 4 {
            None
        } else {
            match integer_at(data, p1, ByteOrder::Big, false) {
                Some((n, p2)) => if n != 11 || p2 + 11 > data.len() {
                    None
                } else {
                    match signature_order(data.subrange(p2, p2 + 11)) {
                        Some(o) => match integer_at(data, p2 + 11, o, false) {
                            Some((_, p3)) => Some((o, p3)),
                            None => None,
                        },
                        None => None,
                    }
                },
                None => None,
            }
        },
        None => None,
    }
}

/// The text `String::from_utf8_lossy` makes of some bytes: the bytes decoded
/// as UTF-8, each invalid sequence replaced by U+FFFD.
pub uninterp spec fn utf8_lossy(b: Seq<u8>) -> Seq<char>;

/// Trusted: calls `String::from_utf8_lossy` (and takes ownership of the
/// result); the text is named `utf8_lossy` of the bytes.
#[verifier::external_body]
pub(crate) fn lossy_text(b: &[u8]) -> (r: String)
    ensures
        r@ == utf8_lossy(b@),
{
    String::from_utf8_lossy(b).into_owned()
}

fn matches_signature(sig: &[u8], expected: [u8; 11]) -> (r: bool)
    requires
        sig@.len() == 11,
    ensures
        r == (sig@ == expected@),
{
    let mut i: usize = 0;
    while i < 11
        invariant
            i <= 11,
            sig@.len() == 11,
            forall|k: int| 0 <= k < i ==> sig@[k] == expected@[k],
        decreases 11 - i,
    {
        if sig[i] != expected[i] {
            return false;
        }
        i = i + 1;
    }
    assert(sig@ =~= expected@);
    true
}

fn order_of_signature(sig: &[u8]) -> (r: Option<ByteOrder>)
    requires
        sig@.len() == 11,
    ensures
        r == signature_order(sig@),
{
    let big: [u8; 11] = [116, 121, 112, 101, 100, 115, 116, 114, 101, 97, 109];
    let little: [u8; 11] = [115, 116, 114, 101, 97, 109, 116, 121, 112, 101, 100];
    assert(big@ =~= big_endian_signature());
    assert(little@ =~= little_endian_signature());
    if matches_signature(sig, big) {
        Some(ByteOrder::Big)
    } else if matches_signature(sig, little) {
        Some(ByteOrder::Little)
    } else {
        None
    }
}

// ---------------------------------------------------------------------------
// The decoder
// ---------------------------------------------------------------------------

/// Decoding state: the stream, the read position, the byte order, and the
/// two shared tables (strings, and objects/classes/C strings).
pub struct Decoder<'a> {
    pub data: &'a [u8],
    pub pos: usize,
    pub order: ByteOrder,
    pub strings: Vec<Vec<u8>>,
    pub objects: Vec<Option<Decoded>>,
}

/// `b` is `a` with only the position changed, to `p`.
pub open spec fn moved(a: Decoder, b: Decoder, p: int) -> bool {
    &&& b.data@ == a.data@
    &&& b.order == a.order
    &&& b.strings == a.strings
    &&& b.objects == a.objects
    &&& b.pos == p
}

impl<'a> Decoder<'a> {
    /// Whether the whole stream has been read.
    pub fn eof(&self) -> (r: bool)
        ensures
            r == (self.pos >= self.data@.len()),
    {
        self.pos >= self.data.len()
    }

    /// The next `n` bytes.
    pub fn read_exact(&mut self, n: usize) -> (r: Result<&'a [u8], ()>)
        ensures
            old(self).pos <= old(self).data@.len() && n <= old(self).data@.len() - old(self).pos
                ==> (r matches Ok(s) && s@ == old(self).data@.subrange(
                old(self).pos as int,
                old(self).pos + n,
            ) && moved(*old(self), *final(self), old(self).pos + n)),
            !(old(self).pos <= old(self).data@.len() && n <= old(self).data@.len()
                - old(self).pos) ==> r is Err && *final(self) == *old(self),
    {
        if self.pos > self.data.len() || n > self.data.len() - self.pos {
            return Err(());
        }
        let s = &self.data[self.pos..self.pos + n];
        self.pos = self.pos + n;
        Ok(s)
    }

    /// The next byte, as a signed head value.
    pub fn read_head(&mut self) -> (r: Result<i8, ()>)
        ensures
            old(self).pos <= old(self).data@.len() ==> final(self).pos <= final(self).data@.len(),
            old(self).pos < old(self).data@.len() ==> (r matches Ok(h) && h as int == head_value(
                old(self).data@[old(self).pos as int],
            ) && moved(*old(self), *final(self), old(self).pos + 1)),
            old(self).pos >= old(self).data@.len() ==> r is Err && *final(self) == *old(self),
    {
        let s = self.read_exact(1)?;
        let b = s[0];
        if b < 128 {
            Ok(b as i8)
        } else {
            Ok((b as i16 - 256) as i8)
        }
    }

    /// An integer after its head byte (see [`integer_after`]).
    pub fn read_integer_h(&mut self, signed: bool, head: i8) -> (r: Result<i64, ()>)
        ensures
            old(self).pos <= old(self).data@.len() ==> final(self).pos <= final(self).data@.len(),
            match integer_after(old(self).data@, old(self).pos as int, old(self).order, signed, head) {
                Some((v, p)) => r == Ok::<i64, ()>(v as i64) && v == v as i64 && moved(
                    *old(self),
                    *final(self),
                    p,
                ),
                None => r is Err && *final(self) == *old(self),
            },
    {
        if !in_tag_range(head) {
            if signed || head >= 0 {
                return Ok(head as i64);
            } else {
                return Ok(head as i64 + 256);
            }
        }
        if head == TAG_INTEGER_2 {
            let b = self.read_exact(2)?;
            proof {
                assert(b@[0] == b[0] && b@[1] == b[1]);
            }
            let u: i64 = match self.order {
                ByteOrder::Little => b[0] as i64 + 256 * (b[1] as i64),
                ByteOrder::Big => 256 * (b[0] as i64) + b[1] as i64,
            };
            if signed && u >= 32768 {
                Ok(u - 65536)
            } else {
                Ok(u)
            }
        } else if head == TAG_INTEGER_4 {
            let b = self.read_exact(4)?;
            let u: i64 = match self.order {
                ByteOrder::Little => b[0] as i64 + 256 * (b[1] as i64) + 65536 * (b[2] as i64)
                    + 16777216 * (b[3] as i64),
                ByteOrder::Big => 16777216 * (b[0] as i64) + 65536 * (b[1] as i64) + 256 * (
                b[2] as i64) + b[3] as i64,
            };
            if signed && u >= 2147483648 {
                Ok(u - 4294967296)
            } else {
                Ok(u)
            }
        } else {
            Err(())
        }
    }

    /// A head byte followed by an integer (see [`integer_at`]).
    pub fn read_integer(&mut self, signed: bool) -> (r: Result<i64, ()>)
        ensures
            old(self).pos <= old(self).data@.len() ==> final(self).pos <= final(self).data@.len(),
            match integer_at(old(self).data@, old(self).pos as int, old(self).order, signed) {
                Some((v, p)) => r == Ok::<i64, ()>(v as i64) && v == v as i64 && moved(
                    *old(self),
                    *final(self),
                    p,
                ),
                None => r is Err,
            },
            moved(*old(self), *final(self), final(self).pos as int),
            old(self).pos <= final(self).pos,
    {
        let head = self.read_head()?;
        self.read_integer_h(signed, head)
    }

    /// Four bytes in the stream's order, as an unsigned number.
    fn word4_of(b0: u8, b1: u8, b2: u8, b3: u8, order: ByteOrder) -> (r: u64)
        ensures
            r == word4(seq![b0, b1, b2, b3], order),
    {
        match order {
            ByteOrder::Little => b0 as u64 + 256 * (b1 as u64) + 65536 * (b2 as u64) + 16777216 * (
            b3 as u64),
            ByteOrder::Big => 16777216 * (b0 as u64) + 65536 * (b1 as u64) + 256 * (b2 as u64)
                + b3 as u64,
        }
    }

    /// A float (four bytes) or a double (eight bytes) after its head (see
    /// [`real_after`]).
    pub fn read_real_h(&mut self, double: bool, head: i8) -> (r: Result<RealValue, ()>)
        ensures
            old(self).pos <= old(self).data@.len() ==> final(self).pos <= final(self).data@.len(),
            match real_after(old(self).data@, old(self).pos as int, old(self).order, double, head) {
                Some((v, p)) => r == Ok::<RealValue, ()>(v) && moved(*old(self), *final(self), p),
                None => r is Err && *final(self) == *old(self),
            },
    {
        if head == TAG_FLOATING_POINT {
            if double {
                let b = self.read_exact(8)?;
                let w0 = Self::word4_of(b[0], b[1], b[2], b[3], self.order);
                let w1 = Self::word4_of(b[4], b[5], b[6], b[7], self.order);
                proof {
                    assert(b@.subrange(0, 4) =~= seq![b[0], b[1], b[2], b[3]]);
                    assert(b@.subrange(4, 8) =~= seq![b[4], b[5], b[6], b[7]]);
                    assert(b@.subrange(0, 4) == b@.subrange(0, 8).subrange(0, 4));
                }
                let bits: u64 = match self.order {
                    ByteOrder::Little => w0 + 4294967296 * w1,
                    ByteOrder::Big => 4294967296 * w0 + w1,
                };
                Ok(RealValue::Double(bits))
            } else {
                let b = self.read_exact(4)?;
                let w = Self::word4_of(b[0], b[1], b[2], b[3], self.order);
                proof {
                    assert(b@ =~= seq![b[0], b[1], b[2], b[3]]);
                }
                Ok(RealValue::Single(w as u32))
            }
        } else {
            let v = self.read_integer_h(true, head)?;
            Ok(RealValue::Whole(v))
        }
    }

    /// An unshared string after its head (see [`unshared_after`]).
    pub fn read_unshared_string_h(&mut self, head: i8) -> (r: Result<Option<Vec<u8>>, ()>)
        ensures
            old(self).pos <= old(self).data@.len() ==> final(self).pos <= final(self).data@.len(),
            match unshared_after(old(self).data@, old(self).pos as int, old(self).order, head) {
                Some((v, p)) => r matches Ok(o) && (match o {
                    Some(b) => v == Some(b@),
                    None => v is None,
                }) && moved(*old(self), *final(self), p),
                None => r is Err,
            },
            moved(*old(self), *final(self), final(self).pos as int),
            old(self).pos <= final(self).pos,
    {
        if head == TAG_NIL {
            return Ok(None);
        }
        let n = self.read_integer_h(false, head)?;
        if n < 0 || n as u64 > usize::MAX as u64 {
            return Err(());
        }
        let s = self.read_exact(n as usize)?;
        Ok(Some(vstd::slice::slice_to_vec(s)))
    }

    /// A shared string after its head (see [`shared_after`]).
    pub fn read_shared_string_h(&mut self, head: i8) -> (r: Result<Option<Vec<u8>>, ()>)
        ensures
            old(self).pos <= old(self).data@.len() ==> final(self).pos <= final(self).data@.len(),
            match shared_after(
                old(self).data@,
                old(self).pos as int,
                old(self).order,
                table_view(old(self).strings@),
                head,
            ) {
                Some((v, p, t)) => r matches Ok(o) && (match o {
                    Some(b) => v == Some(b@),
                    None => v is None,
                }) && final(self).pos == p && table_view(final(self).strings@) == t,
                None => r is Err,
            },
            final(self).data@ == old(self).data@,
            final(self).order == old(self).order,
            final(self).objects == old(self).objects,
            old(self).pos <= final(self).pos,
            old(self).strings@.len() <= final(self).strings@.len(),
    {
        if head == TAG_NIL {
            return Ok(None);
        }
        if head == TAG_NEW {
            let h2 = self.read_head()?;
            let s = match self.read_unshared_string_h(h2)? {
                Some(s) => s,
                None => return Err(()),
            };
            let ghost t0 = self.strings@;
            self.strings.push(s.clone());
            proof {
                assert(table_view(self.strings@) =~= table_view(t0).push(s@));
            }
            return Ok(Some(s));
        }
        let ref_num = self.read_integer_h(true, head)?;
        if ref_num < FIRST_REF {
            return Err(());
        }
        let idx = ref_num - FIRST_REF;
        if idx as u64 >= self.strings.len() as u64 {
            return Err(());
        }
        let s = self.strings[idx as usize].clone();
        proof {
            assert(table_view(self.strings@)[idx as int] == self.strings@[idx as int]@);
        }
        Ok(Some(s))
    }

    /// A head byte followed by a shared string.
    pub fn read_shared_string(&mut self) -> (r: Result<Option<Vec<u8>>, ()>)
        ensures
            old(self).pos <= old(self).data@.len() ==> final(self).pos <= final(self).data@.len(),
            match old(self).data@.len() > old(self).pos {
                true => match shared_after(
                    old(self).data@,
                    old(self).pos + 1,
                    old(self).order,
                    table_view(old(self).strings@),
                    head_value(old(self).data@[old(self).pos as int]) as i8,
                ) {
                    Some((v, p, t)) => r matches Ok(o) && (match o {
                        Some(b) => v == Some(b@),
                        None => v is None,
                    }) && final(self).pos == p && table_view(final(self).strings@) == t,
                    None => r is Err,
                },
                false => r is Err,
            },
            final(self).data@ == old(self).data@,
            final(self).order == old(self).order,
            final(self).objects == old(self).objects,
            old(self).pos <= final(self).pos,
            old(self).strings@.len() <= final(self).strings@.len(),
    {
        let h = self.read_head()?;
        self.read_shared_string_h(h)
    }

    /// Reads the stream header (see [`header_end`]) and sets the byte order.
    fn read_header(&mut self) -> (r: Result<(), ()>)
        requires
            old(self).pos == 0,
            old(self).order == ByteOrder::Big,
        ensures
            match header_end(old(self).data@) {
                Some((o, p)) => r is Ok && final(self).pos == p && final(self).order == o,
                None => r is Err,
            },
            final(self).data@ == old(self).data@,
            final(self).strings == old(self).strings,
            final(self).objects == old(self).objects,
    {
        let version = self.read_integer(false)?;
        if version != 4 {
            return Err(());
        }
        let sig_len = self.read_integer(false)?;
        if sig_len != 11 {
            return Err(());
        }
        let sig = self.read_exact(11)?;
        self.order = match order_of_signature(sig) {
            Some(o) => o,
            None => return Err(()),
        };
        let _system_version = self.read_integer(false)?;
        Ok(())
    }

    /// A decoder positioned after the header of `data`.
    pub fn new(data: &'a [u8]) -> (r: Result<Decoder<'a>, ()>)
        ensures
            match header_end(data@) {
                Some((o, p)) => r matches Ok(d) && d.data@ == data@ && d.pos == p && d.order == o
                    && d.strings@.len() == 0 && d.objects@.len() == 0,
                None => r is Err,
            },
    {
        let mut d = Decoder {
            data,
            pos: 0,
            order: ByteOrder::Big,
            strings: Vec::new(),
            objects: Vec::new(),
        };
        d.read_header()?;
        Ok(d)
    }
}

// ---------------------------------------------------------------------------
// Objects and typed values
// ---------------------------------------------------------------------------

/// What a class reference `n` names: the class whose name the object-table
/// entry it names holds, or none when that entry is not a name.
spec fn class_referenced(objects: Seq<Option<Decoded>>, n: int, r: Result<Option<ClassInfo>, ()>) -> bool {
    if FIRST_REF <= n && n - FIRST_REF < objects.len() && (objects[n - FIRST_REF] matches Some(
        Decoded::Str(_),
    )) {
        r matches Ok(Some(c)) && (objects[n - FIRST_REF] matches Some(Decoded::Str(s)) && c.name@
            == s@)
    } else {
        r matches Ok(None)
    }
}

/// The class `c` is the first of a chain read from decoder `a`: its name is
/// the text of the shared string that follows the chain's first tag.
spec fn first_class_named(a: Decoder, c: Option<ClassInfo>, name: Seq<char>) -> bool {
    &&& a.pos + 1 < a.data@.len()
    &&& c matches Some(ci) && ci.name@ == name
    &&& shared_after(
        a.data@,
        a.pos + 2,
        a.order,
        table_view(a.strings@),
        head_value(a.data@[a.pos + 1]) as i8,
    ) matches Some((Some(bytes), _, _)) && name == utf8_lossy(bytes)
}

/// A class chain that begins with a new class was read from decoder `a` to
/// decoder `b`, giving `c`: the first class, whose name joined the object
/// table at its first new entry.
spec fn new_class_read(a: Decoder, c: Option<ClassInfo>, b: Decoder) -> bool {
    &&& c matches Some(ci) && first_class_named(a, c, ci.name@)
    &&& a.objects@.len() < b.objects@.len()
    &&& c matches Some(ci) && (b.objects@[a.objects@.len() as int] matches Some(Decoded::Str(s))
        && s@ == ci.name@)
}

/// What reading a class chain gave: the class's name, and the state after
/// it; nothing when it failed.
spec fn class_outcome(r: Result<Option<ClassInfo>, ()>, d: Decoder) -> Option<(Option<Seq<char>>, DState)> {
    match r {
        Ok(Some(c)) => Some((Some(c.name@), state_of(d))),
        Ok(None) => Some((None, state_of(d))),
        Err(_) => None,
    }
}

/// A class from a class chain.
struct ClassInfo {
    name: String,
    #[allow(dead_code)]
    version: i64,
}

/// The key a dictionary entry contributes to an attribute list: the text of
/// an NSString key or of a plain string; other keys are skipped.
pub open spec fn dict_key(k: Decoded) -> Option<Seq<char>> {
    match k {
        Decoded::Object(o) => match *o {
            DecodedObject::String(s) => Some(s@),
            _ => None,
        },
        Decoded::Str(s) => Some(s@),
        _ => None,
    }
}

/// `r` lists, in order, the entries of `p` whose key is a string, each with
/// its key's text and a copy of its value.
pub open spec fn attrs_from_pairs(r: Seq<(String, Decoded)>, p: Seq<(Decoded, Decoded)>) -> bool
    decreases p.len(),
{
    if p.len() == 0 {
        r.len() == 0
    } else {
        let last = p[p.len() - 1];
        let rest = p.subrange(0, p.len() - 1);
        match dict_key(last.0) {
            Some(k) => r.len() > 0 && r[r.len() - 1].0@ == k && same(r[r.len() - 1].1, last.1)
                && attrs_from_pairs(r.subrange(0, r.len() - 1), rest),
            None => attrs_from_pairs(r, rest),
        }
    }
}

/// The attribute list of a decoded NSDictionary; any other value has none.
pub open spec fn dict_attrs(r: Seq<(String, Decoded)>, val: Decoded) -> bool {
    match val {
        Decoded::Object(o) => match *o {
            DecodedObject::Dictionary(p) => attrs_from_pairs(r, p@),
            _ => r.len() == 0,
        },
        _ => r.len() == 0,
    }
}

proof fn lemma_attrs_from_pairs_bound(r: Seq<(String, Decoded)>, p: Seq<(Decoded, Decoded)>)
    requires
        attrs_from_pairs(r, p),
    ensures
        attrs_byte_bound(r) <= pairs_byte_bound(p),
    decreases p.len(),
{
    if p.len() > 0 {
        let last = p[p.len() - 1];
        let rest = p.subrange(0, p.len() - 1);
        match dict_key(last.0) {
            Some(k) => {
                lemma_attrs_from_pairs_bound(r.subrange(0, r.len() - 1), rest);
                lemma_same_bound(r[r.len() - 1].1, last.1);
            },
            None => {
                lemma_attrs_from_pairs_bound(r, rest);
            },
        }
    }
}

/// The attributes an NSDictionary value holds, keyed by their string keys.
pub fn extract_dict_attrs(val: &Decoded) -> (r: Vec<(String, Decoded)>)
    ensures
        dict_attrs(r@, *val),
        attrs_byte_bound(r@) <= byte_bound(*val),
{
    match val {
        Decoded::Object(obj) => match &**obj {
            DecodedObject::Dictionary(pairs) => {
                let mut result: Vec<(String, Decoded)> = Vec::new();
                let mut k: usize = 0;
                while k < pairs.len()
                    invariant
                        k <= pairs.len(),
                        attrs_from_pairs(result@, pairs@.subrange(0, k as int)),
                    decreases pairs.len() - k,
                {
                    proof {
                        assert(pairs@.subrange(0, k + 1).subrange(0, k as int) =~= pairs@.subrange(
                            0,
                            k as int,
                        ));
                        assert(pairs@.subrange(0, k + 1)[k as int] == pairs@[k as int]);
                    }
                    let key: Option<String> = match &pairs[k].0 {
                        Decoded::Object(ko) => match &**ko {
                            DecodedObject::String(s) => Some(s.clone()),
                            _ => None,
                        },
                        Decoded::Str(s) => Some(s.clone()),
                        _ => None,
                    };
                    match key {
                        Some(key) => {
                            let ghost r0 = result@;
                            let v = copy_decoded(&pairs[k].1);
                            result.push((key, v));
                            proof {
                                assert(result@.subrange(0, result@.len() - 1) =~= r0);
                            }
                        },
                        None => {},
                    }
                    k = k + 1;
                }
                proof {
                    assert(pairs@.subrange(0, pairs@.len() as int) =~= pairs@);
                    lemma_attrs_from_pairs_bound(result@, pairs@);
                }
                result
            },
            _ => Vec::new(),
        },
        _ => Vec::new(),
    }
}

/// The number of UTF-16 code units a text takes: two for a character
/// outside the Basic Multilingual Plane, one otherwise.
pub open spec fn utf16_len(s: Seq<char>) -> nat
    decreases s.len(),
{
    if s.len() == 0 {
        0
    } else {
        utf16_len(s.drop_last()) + if s.last() as u32 > 0xFFFF {
            2nat
        } else {
            1nat
        }
    }
}

/// The UTF-16 length of a text, if it fits in a `usize`.
pub fn utf16_length(s: &str) -> (r: Option<usize>)
    ensures
        r matches Some(n) ==> n == utf16_len(s@),
        r is None ==> utf16_len(s@) > usize::MAX,
{
    let chars = chars_of(s);
    let mut n: usize = 0;
    let mut i: usize = 0;
    while i < chars.len()
        invariant
            i <= chars.len(),
            chars@ == s@,
            n == utf16_len(chars@.subrange(0, i as int)),
        decreases chars.len() - i,
    {
        proof {
            assert(chars@.subrange(0, i + 1).drop_last() =~= chars@.subrange(0, i as int));
        }
        let w: usize = if chars[i] as u32 > 0xFFFF {
            2
        } else {
            1
        };
        if n > usize::MAX - w {
            proof {
                lemma_utf16_len_grows(chars@, i + 1, chars@.len() as int);
                assert(chars@.subrange(0, chars@.len() as int) =~= chars@);
            }
            return None;
        }
        n = n + w;
        i = i + 1;
    }
    assert(chars@.subrange(0, chars@.len() as int) =~= chars@);
    Some(n)
}

proof fn lemma_utf16_len_grows(s: Seq<char>, i: int, j: int)
    requires
        0 <= i <= j <= s.len(),
    ensures
        utf16_len(s.subrange(0, i)) <= utf16_len(s.subrange(0, j)),
    decreases j - i,
{
    if i < j {
        lemma_utf16_len_grows(s, i, j - 1);
        assert(s.subrange(0, j).drop_last() =~= s.subrange(0, j - 1));
    }
}

/// Whether a string's text is exactly `lit`.
fn text_is(s: &String, lit: &str) -> (r: bool)
    ensures
        r == (s@ == lit@),
{
    let a = chars_of(s.as_str());
    let b = chars_of(lit);
    chars_equal(&a, &b)
}

/// Where a list of attribute runs ends: the end of its last run (0 for none).
pub open spec fn runs_end(rs: Seq<AttrRun>) -> int {
    if rs.len() == 0 {
        0
    } else {
        rs.last().offset + rs.last().length
    }
}

/// The runs cover a text of `n` UTF-16 units in order: each starts where the
/// ones before it end (the first at 0) and before `n`, and the last reaches
/// `n`.
pub open spec fn runs_cover(rs: Seq<AttrRun>, n: int) -> bool {
    &&& forall|j: int|
        0 <= j < rs.len() ==> #[trigger] rs[j].offset == runs_end(rs.take(j)) && rs[j].offset < n
    &&& runs_end(rs) >= n
}

/// Whether a one-character encoding names an unsigned integer.
pub open spec fn unsigned_code(c: char) -> bool {
    c == 'S' || c == 'I' || c == 'L' || c == 'Q'
}

/// Whether a one-character encoding names a signed integer.
pub open spec fn signed_code(c: char) -> bool {
    c == 's' || c == 'i' || c == 'l' || c == 'q'
}

/// Whether a type encoding names a kind of value the decoder reads: one of
/// the one-character codes, an array or a struct.
pub open spec fn known_encoding(e: Seq<char>) -> bool {
    ||| e.len() == 1 && (e[0] == 'C' || e[0] == 'c' || unsigned_code(e[0]) || signed_code(e[0])
        || e[0] == 'f' || e[0] == 'd' || e[0] == '+' || e[0] == '*' || e[0] == '%' || e[0]
        == ':' || e[0] == '#' || e[0] == '@' || e[0] == '!')
    ||| e.len() >= 1 && (e[0] == '[' || e[0] == '{')
}

/// Only the position moved, to `p`, and the object table is as it was.
pub open spec fn advanced(a: Decoder, b: Decoder, p: int) -> bool {
    b.pos == p && b.objects@ == a.objects@
}

/// What reading a value of the one-character encoding `c` does, from decoder
/// `a` to decoder `b` with result `r`, for the codes whose value is a plain
/// number, string or nothing: a byte (`C` unsigned, `c` signed), an integer
/// (`SILQ` unsigned, `silq` signed), a float or double (`f`, `d`), an
/// unshared string (`+`), a shared string (`%`, `:`) or nothing (`!`).
/// The other codes are not described here.
#[verifier::opaque]
pub open spec fn scalar_read(c: char, a: Decoder, r: Result<Decoded, ()>, b: Decoder) -> bool {
    let data = a.data@;
    let pos = a.pos as int;
    if c == 'C' || c == 'c' {
        if pos < data.len() {
            r == Ok::<Decoded, ()>(
                Decoded::Int(
                    if c == 'C' {
                        data[pos] as i64
                    } else {
                        head_value(data[pos]) as i64
                    },
                ),
            ) && advanced(a, b, pos + 1) && b.strings == a.strings
        } else {
            r is Err
        }
    } else if unsigned_code(c) || signed_code(c) {
        match integer_at(data, pos, a.order, signed_code(c)) {
            Some((v, p)) => r == Ok::<Decoded, ()>(Decoded::Int(v as i64)) && advanced(a, b, p)
                && b.strings == a.strings,
            None => r is Err,
        }
    } else if c == 'f' || c == 'd' {
        if pos < data.len() {
            match real_after(data, pos + 1, a.order, c == 'd', head_at(a)) {
                Some((x, p)) => r == Ok::<Decoded, ()>(Decoded::Real(x)) && advanced(a, b, p)
                    && b.strings == a.strings,
                None => r is Err,
            }
        } else {
            r is Err
        }
    } else if c == '+' {
        if pos < data.len() {
            match unshared_after(data, pos + 1, a.order, head_at(a)) {
                Some((Some(s), p)) => (r matches Ok(Decoded::Str(t)) && t@ == utf8_lossy(s))
                    && advanced(a, b, p) && b.strings == a.strings,
                Some((None, p)) => r == Ok::<Decoded, ()>(Decoded::Null) && advanced(a, b, p)
                    && b.strings == a.strings,
                None => r is Err,
            }
        } else {
            r is Err
        }
    } else if c == '%' || c == ':' {
        if pos < data.len() {
            match shared_after(data, pos + 1, a.order, table_view(a.strings@), head_at(a)) {
                Some((Some(s), p, t)) => (r matches Ok(Decoded::Str(u)) && u@ == utf8_lossy(s))
                    && advanced(a, b, p) && table_view(b.strings@) == t,
                Some((None, p, t)) => r == Ok::<Decoded, ()>(Decoded::Null) && advanced(a, b, p)
                    && table_view(b.strings@) == t,
                None => r is Err,
            }
        } else {
            r is Err
        }
    } else if c == '!' {
        r == Ok::<Decoded, ()>(Decoded::Null) && unchanged(a, b) && b.strings == a.strings
    } else {
        true
    }
}

/// A new object `d` was read from decoder `a` to decoder `b`: it holds the
/// table entry reserved for it when it began (the first one past `a`'s
/// table), and the byte it ends with is the end-of-object tag.
pub open spec fn new_object_read(a: Decoder, d: Decoded, b: Decoder) -> bool {
    &&& a.objects@.len() < b.objects@.len()
    &&& b.objects@[a.objects@.len() as int] matches Some(e) && same(e, d)
    &&& 0 < b.pos <= b.data@.len()
    &&& head_value(b.data@[b.pos - 1]) == TAG_END_OF_OBJECT
}

/// Whether a one-character encoding is one of those [`scalar_read`]
/// describes.
pub open spec fn scalar_code(c: char) -> bool {
    c == 'C' || c == 'c' || unsigned_code(c) || signed_code(c) || c == 'f' || c == 'd' || c == '+'
        || c == '%' || c == ':' || c == '!'
}

/// Whether every encoding of a list is a one-character scalar code.
pub open spec fn all_scalar(encs: Seq<Seq<char>>) -> bool {
    forall|k: int| 0 <= k < encs.len() ==> (#[trigger] encs[k]).len() == 1 && scalar_code(encs[k][0])
}

/// Where reading a value of the scalar code `c` at `pos` ends, with the
/// shared string table after it; nothing when it does not read.
#[verifier::opaque]
pub open spec fn scalar_step(data: Seq<u8>, order: ByteOrder, pos: int, table: Seq<Seq<u8>>, c: char) -> Option<(int, Seq<Seq<u8>>)> {
    if c == 'C' || c == 'c' {
        if 0 <= pos < data.len() {
            Some((pos + 1, table))
        } else {
            None
        }
    } else if unsigned_code(c) || signed_code(c) {
        match integer_at(data, pos, order, signed_code(c)) {
            Some((_, p)) => Some((p, table)),
            None => None,
        }
    } else if c == 'f' || c == 'd' {
        if 0 <= pos < data.len() {
            match real_after(data, pos + 1, order, c == 'd', head_value(data[pos]) as i8) {
                Some((_, p)) => Some((p, table)),
                None => None,
            }
        } else {
            None
        }
    } else if c == '+' {
        if 0 <= pos < data.len() {
            match unshared_after(data, pos + 1, order, head_value(data[pos]) as i8) {
                Some((_, p)) => Some((p, table)),
                None => None,
            }
        } else {
            None
        }
    } else if c == '%' || c == ':' {
        if 0 <= pos < data.len() {
            match shared_after(data, pos + 1, order, table, head_value(data[pos]) as i8) {
                Some((_, p, t)) => Some((p, t)),
                None => None,
            }
        } else {
            None
        }
    } else if c == '!' {
        Some((pos, table))
    } else {
        None
    }
}

/// Where reading values of the scalar encodings `encs` in turn from `pos`
/// ends, with the shared string table after them; nothing when one of them
/// does not read.
pub open spec fn scalars_end(data: Seq<u8>, order: ByteOrder, pos: int, table: Seq<Seq<u8>>, encs: Seq<Seq<char>>) -> Option<(int, Seq<Seq<u8>>)>
    decreases encs.len(),
{
    if encs.len() == 0 {
        Some((pos, table))
    } else {
        match scalars_end(data, order, pos, table, encs.drop_last()) {
            Some((p, t)) => scalar_step(data, order, p, t, encs.last()[0]),
            None => None,
        }
    }
}

/// Values of scalar encodings that all read also read when only the first
/// `k` of them are taken.
proof fn lemma_scalars_prefix(data: Seq<u8>, order: ByteOrder, pos: int, table: Seq<Seq<u8>>, encs: Seq<Seq<char>>, k: int)
    requires
        0 <= k <= encs.len(),
        scalars_end(data, order, pos, table, encs) is Some,
    ensures
        scalars_end(data, order, pos, table, encs.take(k)) is Some,
    decreases encs.len(),
{
    if k == encs.len() {
        assert(encs.take(k) =~= encs);
    } else {
        assert(encs.take(k) =~= encs.drop_last().take(k));
        lemma_scalars_prefix(data, order, pos, table, encs.drop_last(), k);
    }
}

/// A scalar code whose value reads, by [`scalar_step`], is read by a decoder
/// that reads as [`scalar_read`] says, to where [`scalar_step`] says.
proof fn lemma_scalar_step_read(c: char, a: Decoder, r: Result<Decoded, ()>, b: Decoder)
    requires
        scalar_code(c),
        scalar_step(a.data@, a.order, a.pos as int, table_view(a.strings@), c) is Some,
        scalar_read(c, a, r, b),
    ensures
        r is Ok,
        scalar_step(a.data@, a.order, a.pos as int, table_view(a.strings@), c) == Some(
            (b.pos as int, table_view(b.strings@)),
        ),
{
    reveal(scalar_step);
    reveal(scalar_read);
}

/// An unshared string that reads is read, by a decoder that reads as
/// [`scalar_read`] says for `+`, as its text.
proof fn lemma_plus_read(a: Decoder, r: Result<Decoded, ()>, b: Decoder)
    requires
        scalar_read('+', a, r, b),
        a.pos < a.data@.len(),
    ensures
        match unshared_after(a.data@, a.pos + 1, a.order, head_at(a)) {
            Some((Some(s), p)) => (r matches Ok(Decoded::Str(x)) && x@ == utf8_lossy(s)) && b.pos
                == p && b.strings == a.strings,
            _ => true,
        },
{
    reveal(scalar_read);
}

/// An integer that reads is read, by a decoder that reads as
/// [`scalar_read`] says for an integer code, as its value.
proof fn lemma_integer_read(c: char, a: Decoder, r: Result<Decoded, ()>, b: Decoder)
    requires
        scalar_read(c, a, r, b),
        unsigned_code(c) || signed_code(c),
    ensures
        match integer_at(a.data@, a.pos as int, a.order, signed_code(c)) {
            Some((v, p)) => r == Ok::<Decoded, ()>(Decoded::Int(v as i64)) && b.pos == p
                && b.strings == a.strings,
            None => true,
        },
{
    reveal(scalar_read);
}

/// The group of typed values at `pos` begins well: a head, then a shared
/// type-encoding string that reads.
pub open spec fn group_header_reads(data: Seq<u8>, order: ByteOrder, pos: int, table: Seq<Seq<u8>>) -> bool {
    0 <= pos < data.len() && shared_after(data, pos + 1, order, table, head_value(data[pos]) as i8)
        matches Some((Some(_), _, _))
}

/// The encodings the group of typed values at `pos` lists (none when its
/// encoding string does not read).
pub open spec fn group_encodings(data: Seq<u8>, order: ByteOrder, pos: int, table: Seq<Seq<u8>>) -> Seq<Seq<char>> {
    if 0 <= pos < data.len() {
        match shared_after(data, pos + 1, order, table, head_value(data[pos]) as i8) {
            Some((Some(b), _, _)) => encodings(utf8_lossy(b)),
            _ => Seq::empty(),
        }
    } else {
        Seq::empty()
    }
}

/// The group of typed values at `pos` lists only one-character scalar
/// encodings, and the values of all of them read.
pub open spec fn scalar_group_reads(data: Seq<u8>, order: ByteOrder, pos: int, table: Seq<Seq<u8>>) -> bool {
    0 <= pos < data.len() && match shared_after(
        data,
        pos + 1,
        order,
        table,
        head_value(data[pos]) as i8,
    ) {
        Some((Some(b), q, t)) => all_scalar(encodings(utf8_lossy(b))) && scalars_end(
            data,
            order,
            q,
            t,
            encodings(utf8_lossy(b)),
        ) is Some,
        _ => false,
    }
}

/// A class chain of one new class at `pos`: the new-class tag, the class
/// name as a shared string, its version, and a nil superclass.  Gives the
/// name, where the chain ends and the shared string table after it.
pub open spec fn single_class_chain(data: Seq<u8>, order: ByteOrder, pos: int, table: Seq<Seq<u8>>) -> Option<(Seq<char>, int, Seq<Seq<u8>>)> {
    if 0 <= pos && pos + 1 < data.len() && head_value(data[pos]) as i8 == TAG_NEW {
        match shared_after(data, pos + 2, order, table, head_value(data[pos + 1]) as i8) {
            Some((Some(b), p1, t1)) => match integer_at(data, p1, order, true) {
                Some((_, p2)) => if 0 <= p2 < data.len() && head_value(data[p2]) as i8 == TAG_NIL {
                    Some((utf8_lossy(b), p2 + 1, t1))
                } else {
                    None
                },
                None => None,
            },
            _ => None,
        }
    } else {
        None
    }
}

/// A group of typed values at `pos` whose only encoding is an unshared
/// string (`+`) that reads: gives its text, where the group ends and the
/// shared string table after it.
pub open spec fn text_group(data: Seq<u8>, order: ByteOrder, pos: int, table: Seq<Seq<u8>>) -> Option<(Seq<char>, int, Seq<Seq<u8>>)> {
    if 0 <= pos < data.len() {
        match shared_after(data, pos + 1, order, table, head_value(data[pos]) as i8) {
            Some((Some(b), q, t)) => if encodings(utf8_lossy(b)) == seq![seq!['+']] && 0 <= q
                < data.len() {
                match unshared_after(data, q + 1, order, head_value(data[q]) as i8) {
                    Some((Some(s), p)) => Some((utf8_lossy(s), p, t)),
                    _ => None,
                }
            } else {
                None
            },
            _ => None,
        }
    } else {
        None
    }
}

/// A new NSString (or NSMutableString) object at `pos`, with a class chain
/// of its one class: gives its text, where it ends (after its
/// end-of-object tag) and the shared string table after it.
pub open spec fn string_object_at(data: Seq<u8>, order: ByteOrder, pos: int, table: Seq<Seq<u8>>) -> Option<(Seq<char>, int, Seq<Seq<u8>>)> {
    if 0 <= pos < data.len() && head_value(data[pos]) as i8 == TAG_NEW {
        match single_class_chain(data, order, pos + 1, table) {
            Some((name, p1, t1)) => if name == "NSString"@ || name == "NSMutableString"@ {
                match text_group(data, order, p1, t1) {
                    Some((text, p2, t2)) => if 0 <= p2 < data.len() && head_value(data[p2]) as i8
                        == TAG_END_OF_OBJECT {
                        Some((text, p2 + 1, t2))
                    } else {
                        None
                    },
                    None => None,
                }
            } else {
                None
            },
            None => None,
        }
    } else {
        None
    }
}

/// A group of typed values at `pos` whose only encoding is an object (`@`),
/// and that object is a string as [`string_object_at`] reads one: gives its
/// text, where the group ends and the shared string table after it.
pub open spec fn string_object_group(data: Seq<u8>, order: ByteOrder, pos: int, table: Seq<Seq<u8>>) -> Option<(Seq<char>, int, Seq<Seq<u8>>)> {
    if 0 <= pos < data.len() {
        match shared_after(data, pos + 1, order, table, head_value(data[pos]) as i8) {
            Some((Some(b), q, t)) => if encodings(utf8_lossy(b)) == seq![seq!['@']] {
                string_object_at(data, order, q, t)
            } else {
                None
            },
            _ => None,
        }
    } else {
        None
    }
}

/// A group of typed values at `pos` whose only encoding is an integer code
/// (`SILQ` or `silq`) whose value reads: gives the integer, where the group
/// ends and the shared string table after it.
pub open spec fn integer_group(data: Seq<u8>, order: ByteOrder, pos: int, table: Seq<Seq<u8>>) -> Option<(int, int, Seq<Seq<u8>>)> {
    if 0 <= pos < data.len() {
        match shared_after(data, pos + 1, order, table, head_value(data[pos]) as i8) {
            Some((Some(b), q, t)) => {
                let e = encodings(utf8_lossy(b));
                if e.len() == 1 && e[0].len() == 1 && (unsigned_code(e[0][0]) || signed_code(
                    e[0][0],
                )) {
                    match integer_at(data, q, order, signed_code(e[0][0])) {
                        Some((v, p)) => Some((v, p, t)),
                        None => None,
                    }
                } else {
                    None
                }
            },
            _ => None,
        }
    } else {
        None
    }
}

/// The group of typed values at `pos` lists an encoding the decoder does
/// not read.
pub open spec fn group_has_unknown(data: Seq<u8>, order: ByteOrder, pos: int, table: Seq<Seq<u8>>) -> bool {
    exists|k: int|
        0 <= k < group_encodings(data, order, pos, table).len() && !known_encoding(
            #[trigger] group_encodings(data, order, pos, table)[k],
        )
}

/// The first group after a header that ends at `p` (byte order `o`) does
/// not decode: its encoding string does not read, or it lists an encoding
/// the decoder does not read.
pub open spec fn first_group_fails(data: Seq<u8>, o: ByteOrder, p: int) -> bool {
    !group_header_reads(data, o, p, Seq::empty()) || group_has_unknown(data, o, p, Seq::empty())
}

/// The text of an optional string.
pub open spec fn text_opt(r: Option<String>) -> Option<Seq<char>> {
    match r {
        Some(s) => Some(s@),
        None => None,
    }
}

/// The JSON model of an optional JSON value.
pub open spec fn json_opt(r: Option<Json>) -> Option<JsonModel> {
    match r {
        Some(j) => Some(json_view(j)),
        None => None,
    }
}

/// What the plain text of an attributedBody blob is, as far as the
/// decoder's contracts state it: nothing for an empty blob, one without a
/// valid header, or one whose first group does not decode; the text of a
/// plain NSString when that is the first group; and never an empty text.
pub open spec fn extracted_text(data: Seq<u8>, r: Option<Seq<char>>) -> bool {
    &&& (data.len() == 0 || header_end(data) is None) ==> r is None
    &&& (r matches Some(s) ==> s.len() > 0)
    &&& (header_end(data) matches Some((o, p)) ==> (first_group_fails(data, o, p) ==> r is None))
    &&& (header_end(data) matches Some((o, p)) ==> (string_object_group(data, o, p, Seq::empty())
        matches Some((text, _, _)) ==> (text.len() > 0 ==> r == Some(text))))
}

/// The JSON array `v` renders the decoded values `vs`: one element for each
/// value rendered (the attributed strings among them, or all of them when
/// there is none), each the JSON of its value when that value holds no
/// byte payload.
pub open spec fn renders_values(vs: Seq<Decoded>, v: Seq<JsonModel>) -> bool {
    &&& v.len() == rendered_values(vs).len()
    &&& forall|i: int|
        0 <= i < v.len() && byte_bound(#[trigger] rendered_values(vs)[i]) == 0 ==> v[i] == json_of(
            rendered_values(vs)[i],
        )
}

/// What an attributedBody blob renders as, as far as the decoder's
/// contracts state it: nothing for an empty blob, one without a valid
/// header, or one whose first group does not decode; a non-empty array
/// otherwise when the first group is all scalar values that read or a
/// plain NSString; exactly `[text]` for a blob that holds only a plain
/// NSString with that text; and in any case the rendering of decoded values
/// whose attributed strings have runs that cover their text.
pub open spec fn rendered_body(data: Seq<u8>, r: Option<JsonModel>) -> bool {
    &&& (data.len() == 0 || header_end(data) is None) ==> r is None
    &&& (r matches Some(j) ==> (j matches JsonModel::Array(v) && v.len() > 0))
    &&& (r matches Some(JsonModel::Array(v)) ==> exists|vs: Seq<Decoded>|
        renders_values(vs, v) && forall|k: int| 0 <= k < vs.len() ==> runs_fit(#[trigger] vs[k]))
    &&& (header_end(data) matches Some((o, p)) ==> (first_group_fails(data, o, p) ==> r is None))
    &&& (header_end(data) matches Some((o, p)) ==> (scalar_group_reads(data, o, p, Seq::empty())
        && group_encodings(data, o, p, Seq::empty()).len() > 0 ==> r is Some))
    &&& (header_end(data) matches Some((o, p)) ==> (string_object_group(data, o, p, Seq::empty())
        is Some ==> r is Some))
    &&& (header_end(data) matches Some((o, p)) ==> (string_object_group(data, o, p, Seq::empty())
        matches Some((text, e, _)) ==> (e == data.len() ==> r == Some(
        JsonModel::Array(seq![JsonModel::Str(text)]),
    ))))
}

/// The value is an NSString object with the text `t`.
pub open spec fn string_object_is(d: Decoded, t: Seq<char>) -> bool {
    d matches Decoded::Object(o) && (*o matches DecodedObject::String(s) && s@ == t)
}

/// Nothing was read: the position and the object table are as they were.
pub open spec fn unchanged(a: Decoder, b: Decoder) -> bool {
    b.pos == a.pos && b.objects@ == a.objects@
}

/// The head byte at a decoder's position, as a signed value.
pub open spec fn head_at(d: Decoder) -> i8 {
    head_value(d.data@[d.pos as int]) as i8
}

/// `after` is the object table `before` with one more entry: the text `s`.
pub open spec fn table_joined(before: Seq<Option<Decoded>>, after: Seq<Option<Decoded>>, s: Seq<
    char,
>) -> bool {
    &&& after.len() == before.len() + 1
    &&& after.subrange(0, before.len() as int) == before
    &&& after[before.len() as int] matches Some(Decoded::Str(u)) && u@ == s
}

/// What reading a reference to the object table gives: a copy of the entry
/// the number `n` names, or an error when it names no entry that holds an
/// object.
pub open spec fn referenced(objects: Seq<Option<Decoded>>, n: int, r: Result<Decoded, ()>) -> bool {
    if FIRST_REF <= n && n - FIRST_REF < objects.len() && objects[n - FIRST_REF] is Some {
        r matches Ok(d) && objects[n - FIRST_REF] matches Some(e) && same(d, e)
    } else {
        r is Err
    }
}

/// An attributed string's runs cover its text (see [`runs_cover`]); other
/// values need nothing.
pub open spec fn runs_fit(d: Decoded) -> bool {
    match d {
        Decoded::Object(o) => match *o {
            DecodedObject::AttributedString { string, runs } => runs_cover(
                runs@,
                utf16_len(string@) as int,
            ),
            _ => true,
        },
        _ => true,
    }
}

proof fn lemma_same_runs_fields(a: Seq<AttrRun>, b: Seq<AttrRun>)
    requires
        same_runs(a, b),
    ensures
        a.len() == b.len(),
        forall|j: int|
            0 <= j < a.len() ==> (#[trigger] a[j]).offset == b[j].offset && a[j].length
                == b[j].length,
    decreases a.len(),
{
    if a.len() > 0 {
        let a2 = a.subrange(0, a.len() - 1);
        let b2 = b.subrange(0, b.len() - 1);
        lemma_same_runs_fields(a2, b2);
        assert forall|j: int| 0 <= j < a.len() implies (#[trigger] a[j]).offset == b[j].offset
            && a[j].length == b[j].length by {
            if j < a.len() - 1 {
                assert(a[j] == a2[j] && b[j] == b2[j]);
            }
        }
    }
}

/// A copy of a value whose runs fit has runs that fit.
proof fn lemma_same_fit(a: Decoded, b: Decoded)
    requires
        same(a, b),
        runs_fit(b),
    ensures
        runs_fit(a),
{
    if let Decoded::Object(oa) = a {
        if let DecodedObject::AttributedString { string, runs } = *oa {
            let ob = b->Object_0;
            let rb = (*ob)->AttributedString_runs;
            lemma_same_runs_fields(runs@, rb@);
            let n = utf16_len(string@) as int;
            assert forall|j: int| 0 <= j < runs@.len() implies #[trigger] runs@[j].offset
                == runs_end(runs@.take(j)) && runs@[j].offset < n by {
                assert(rb@[j].offset == runs_end(rb@.take(j)));
                if j > 0 {
                    assert(runs@.take(j).last() == runs@[j - 1]);
                    assert(rb@.take(j).last() == rb@[j - 1]);
                }
            }
            if runs@.len() > 0 {
                assert(runs@.last() == runs@[runs@.len() - 1]);
                assert(rb@.last() == rb@[rb@.len() - 1]);
            }
        }
    }
}

/// The decoder state may change only by reading further, and by tables that
/// only grow.
pub open spec fn progressed(a: Decoder, b: Decoder) -> bool {
    &&& b.data@ == a.data@
    &&& b.order == a.order
    &&& a.pos <= b.pos
    &&& a.objects@.len() <= b.objects@.len()
}

impl<'a> Decoder<'a> {
    /// The decoder is past the header, and every object in its table holds
    /// byte payloads shorter than the stream and, if it is an attributed
    /// string, runs that cover its text.
    pub open spec fn wf(&self) -> bool {
        &&& 0 < self.pos <= self.data@.len()
        &&& forall|i: int|
            0 <= i < self.objects@.len() ==> (#[trigger] self.objects@[i] matches Some(d)
                ==> byte_bound(d) < self.data@.len() && runs_fit(d))
    }

    /// A copy of the object the reference number `ref_num` names.
    fn object_at(&self, ref_num: i64) -> (r: Result<Decoded, ()>)
        requires
            self.wf(),
        ensures
            r matches Ok(d) ==> byte_bound(d) < self.data@.len() && runs_fit(d),
            r matches Ok(d) ==> (FIRST_REF <= ref_num && ref_num - FIRST_REF < self.objects@.len()
                && (self.objects@[ref_num - FIRST_REF] matches Some(e) && same(d, e))),
            r is Err ==> !(FIRST_REF <= ref_num && ref_num - FIRST_REF < self.objects@.len()
                && self.objects@[ref_num - FIRST_REF] is Some),
            r matches Ok(d) ==> referenced_entry(objects_v(self.objects@), ref_num as int) == Some(
                dv(d),
            ),
            r is Err ==> referenced_entry(objects_v(self.objects@), ref_num as int) is None,
    {
        if ref_num < FIRST_REF {
            return Err(());
        }
        let idx: i128 = ref_num as i128 - FIRST_REF as i128;
        if idx >= self.objects.len() as i128 {
            return Err(());
        }
        match &self.objects[idx as usize] {
            Some(d) => {
                let c = copy_decoded(d);
                proof {
                    lemma_same_bound(c, *d);
                    lemma_same_fit(c, *d);
                    lemma_same_dv(c, *d);
                    assert(self.objects@[idx as int] matches Some(_));
                    assert(objects_v(self.objects@)[idx as int] == Some(dv(*d)));
                }
                Ok(c)
            },
            None => {
                proof {
                    assert(objects_v(self.objects@)[idx as int] is None);
                }
                Err(())
            },
        }
    }

    /// Reads a class chain and adds its new classes to the object table;
    /// gives the most specific class.
    fn read_class(&mut self) -> (r: Result<Option<ClassInfo>, ()>)
        requires
            old(self).wf(),
        ensures
            final(self).wf(),
            progressed(*old(self), *final(self)),
            old(self).pos >= old(self).data@.len() ==> r is Err,
            old(self).pos < old(self).data@.len() && head_at(*old(self)) == TAG_NIL ==> (
            r matches Ok(None) && advanced(*old(self), *final(self), old(self).pos + 1)),
            old(self).pos < old(self).data@.len() && head_at(*old(self)) != TAG_NIL && head_at(
                *old(self),
            ) != TAG_NEW ==> match integer_after(
                old(self).data@,
                old(self).pos + 1,
                old(self).order,
                true,
                head_at(*old(self)),
            ) {
                Some((n, p)) => advanced(*old(self), *final(self), p) && class_referenced(
                    old(self).objects@,
                    n,
                    r,
                ),
                None => r is Err,
            },
            old(self).pos < old(self).data@.len() && head_at(*old(self)) == TAG_NEW ==> (
            r matches Ok(c) ==> new_class_read(*old(self), c, *final(self))),
            single_class_chain(
                old(self).data@,
                old(self).order,
                old(self).pos as int,
                table_view(old(self).strings@),
            ) matches Some((name, e, t)) ==> (r matches Ok(Some(c)) && c.name@ == name
                && final(self).pos == e && table_view(final(self).strings@) == t),
            sp_class(old(self).data@, old(self).order, state_of(*old(self))) == class_outcome(
                r,
                *final(self),
            ),
    {
        let ghost s0 = state_of(*old(self));
        let ghost chain = single_class_chain(
            old(self).data@,
            old(self).order,
            old(self).pos as int,
            table_view(old(self).strings@),
        );
        let mut head = self.read_head()?;
        let mut first: Option<ClassInfo> = None;
        let mut names: Vec<String> = Vec::new();
        proof {
            assert(texts_v(names@) =~= Seq::<Seq<char>>::empty());
            assert(state_of(*self) == at(s0, s0.pos + 1));
            assert(head == head_value(self.data@[s0.pos]) as i8);
        }
        while head == TAG_NEW
            invariant
                self.wf(),
                progressed(*old(self), *self),
                self.objects == old(self).objects,
                names@.len() == 0 ==> (head == head_at(*old(self)) && self.pos == old(self).pos + 1
                    && self.strings == old(self).strings && old(self).pos < old(self).data@.len()),
                names@.len() > 0 ==> head_at(*old(self)) == TAG_NEW,
                first is None <==> names@.len() == 0,
                names@.len() > 0 ==> first_class_named(*old(self), first, names@[0]@),
                chain == single_class_chain(
                    old(self).data@,
                    old(self).order,
                    old(self).pos as int,
                    table_view(old(self).strings@),
                ),
                chain matches Some((name, e, t)) ==> (names@.len() == 0 || (names@.len() == 1
                    && head == TAG_NIL && self.pos == e && table_view(self.strings@) == t && (
                first matches Some(c) && c.name@ == name))),
                s0 == state_of(*old(self)),
                sp_class(self.data@, self.order, s0) == class_finish(
                    sp_chain(self.data@, self.order, state_of(*self), head, texts_v(names@)),
                ),
                self.pos <= self.data@.len(),
            decreases self.data@.len() - self.pos,
        {
            let ghost sa = state_of(*self);
            let ghost na = texts_v(names@);
            let name_bytes = match self.read_shared_string()? {
                Some(b) => b,
                None => return Err(()),
            };
            let name = lossy_text(name_bytes.as_slice());
            let ghost p_name = self.pos as int;
            let version = self.read_integer(true)?;
            let ghost q = self.pos as int;
            proof {
                lemma_shared_after_bounds(
                    self.data@,
                    sa.pos + 1,
                    self.order,
                    sa.strings,
                    head_value(self.data@[sa.pos]) as i8,
                );
            }
            names.push(name.clone());
            proof {
                assert(texts_v(names@) =~= na.push(name@));
            }
            if first.is_none() {
                first = Some(ClassInfo { name, version });
            }
            head = self.read_head()?;
            proof {
                assert(state_of(*self) == DState {
                    pos: q + 1,
                    strings: table_view(self.strings@),
                    objects: sa.objects,
                });
            }
        }
        let ghost sb = state_of(*self);
        let mut ref_class: Option<ClassInfo> = None;
        if head != TAG_NIL {
            let ref_num = self.read_integer_h(true, head)?;
            if ref_num >= FIRST_REF {
                let idx: i128 = ref_num as i128 - FIRST_REF as i128;
                if idx < self.objects.len() as i128 {
                    proof {
                        assert(objects_v(self.objects@)[idx as int] == opt_dv(
                            self.objects@[idx as int],
                        ));
                    }
                    match &self.objects[idx as usize] {
                        Some(Decoded::Str(name)) => {
                            ref_class = Some(ClassInfo { name: name.clone(), version: 0 });
                        },
                        _ => {},
                    }
                }
            }
        }
        proof {
            assert(sp_chain(self.data@, self.order, sb, head, texts_v(names@)) == Some(
                (
                    texts_v(names@),
                    match ref_class {
                        Some(c) => Some(c.name@),
                        None => None::<Seq<char>>,
                    },
                    state_of(*self),
                ),
            ));
        }
        let ghost chain_objects = objects_v(self.objects@);
        let ghost o_len = self.objects@.len();
        let ghost p2 = self.pos;
        let ghost s2 = self.strings;
        proof {
            assert(self.objects@.subrange(0, o_len as int) =~= old(self).objects@);
        }
        let mut k: usize = 0;
        while k < names.len()
            invariant
                self.wf(),
                progressed(*old(self), *self),
                k <= names.len(),
                o_len == old(self).objects@.len(),
                self.pos == p2,
                self.objects@.len() == o_len + k,
                self.objects@.subrange(0, o_len as int) == old(self).objects@,
                k > 0 ==> (self.objects@[o_len as int] matches Some(Decoded::Str(s)) && s@
                    == names@[0]@),
                self.strings == s2,
                objects_v(self.objects@) == chain_objects + name_entries(texts_v(names@)).take(
                    k as int,
                ),
            decreases names.len() - k,
        {
            let ghost o0 = self.objects@;
            self.objects.push(Some(Decoded::Str(names[k].clone())));
            proof {
                lemma_objects_push(o0, Some(Decoded::Str(names@[k as int])));
                assert(name_entries(texts_v(names@)).take(k + 1) =~= name_entries(
                    texts_v(names@),
                ).take(k as int).push(Some(DV::Str(names@[k as int]@))));
                assert forall|i: int| 0 <= i < self.objects@.len() implies (
                #[trigger] self.objects@[i] matches Some(d) ==> byte_bound(d)
                    < self.data@.len()) by {
                    if i < o0.len() {
                        assert(self.objects@[i] == o0[i]);
                    }
                }
                assert(self.objects@.subrange(0, o_len as int) =~= o0.subrange(0, o_len as int));
                if k > 0 {
                    assert(self.objects@[o_len as int] == o0[o_len as int]);
                }
            }
            k = k + 1;
        }
        proof {
            if names@.len() == 0 {
                assert(self.objects@ =~= self.objects@.subrange(0, o_len as int));
            }
            assert(name_entries(texts_v(names@)).take(names@.len() as int) =~= name_entries(
                texts_v(names@),
            ));
        }
        match first {
            Some(c) => Ok(Some(c)),
            None => Ok(ref_class),
        }
    }

    /// A C string after its head: nil, a new shared string (which also joins
    /// the object table), or a reference to an object-table entry.
    fn read_cstring(&mut self, head: i8) -> (r: Result<Decoded, ()>)
        requires
            old(self).wf(),
        ensures
            final(self).wf(),
            progressed(*old(self), *final(self)),
            r matches Ok(d) ==> byte_bound(d) < final(self).data@.len(),
            r matches Ok(d) ==> runs_fit(d),
            head == TAG_NIL ==> (r matches Ok(Decoded::Null) && final(self).pos == old(self).pos
                && final(self).objects@ == old(self).objects@),
            head == TAG_NEW ==> if old(self).pos < old(self).data@.len() {
                match shared_after(
                    old(self).data@,
                    old(self).pos + 1,
                    old(self).order,
                    table_view(old(self).strings@),
                    head_at(*old(self)),
                ) {
                    Some((Some(b), p, t)) => r matches Ok(Decoded::Str(s)) && s@ == utf8_lossy(b)
                        && final(self).pos == p && table_view(final(self).strings@) == t
                        && table_joined(old(self).objects@, final(self).objects@, s@),
                    _ => r is Err,
                }
            } else {
                r is Err
            },
            head != TAG_NIL && head != TAG_NEW ==> match integer_after(
                old(self).data@,
                old(self).pos as int,
                old(self).order,
                true,
                head,
            ) {
                Some((n, p)) => final(self).pos == p && final(self).objects@ == old(self).objects@
                    && referenced(old(self).objects@, n, r),
                None => r is Err,
            },
            sp_cstring(old(self).data@, old(self).order, state_of(*old(self)), head) == outcome(
                r,
                *final(self),
            ),
    {
        if head == TAG_NIL {
            return Ok(Decoded::Null);
        }
        if head == TAG_NEW {
            let s = match self.read_shared_string()? {
                Some(s) => s,
                None => return Err(()),
            };
            let text = lossy_text(s.as_slice());
            let val = Decoded::Str(text.clone());
            let ghost o0 = self.objects@;
            self.objects.push(Some(Decoded::Str(text)));
            proof {
                lemma_objects_push(o0, Some(Decoded::Str(text)));
                assert(self.objects@.subrange(0, o0.len() as int) =~= o0);
                assert forall|i: int| 0 <= i < self.objects@.len() implies (
                #[trigger] self.objects@[i] matches Some(d) ==> byte_bound(d)
                    < self.data@.len()) by {
                    if i < o0.len() {
                        assert(self.objects@[i] == o0[i]);
                    }
                }
            }
            return Ok(val);
        }
        let ref_num = self.read_integer_h(true, head)?;
        self.object_at(ref_num)
    }

    /// A value of the given type encoding.
    #[verifier::spinoff_prover]
    #[verifier::rlimit(60)]
    fn read_value(&mut self, enc: &Vec<char>) -> (r: Result<Decoded, ()>)
        requires
            old(self).wf(),
        ensures
            final(self).wf(),
            progressed(*old(self), *final(self)),
            r matches Ok(d) ==> byte_bound(d) < final(self).data@.len(),
            r matches Ok(d) ==> runs_fit(d),
            enc@.len() == 1 ==> scalar_read(enc@[0], *old(self), r, *final(self)),
            enc@.len() == 1 && enc@[0] == '#' ==> (r matches Ok(d) ==> (d is Str || d is Null)),
            !known_encoding(enc@) ==> (r is Err && unchanged(*old(self), *final(self))),
            enc@ == seq!['@'] ==> (string_object_at(
                old(self).data@,
                old(self).order,
                old(self).pos as int,
                table_view(old(self).strings@),
            ) matches Some((text, e, t)) ==> ((r matches Ok(d) && string_object_is(d, text))
                && final(self).pos == e && table_view(final(self).strings@) == t)),
            sp_value(old(self).data@, old(self).order, state_of(*old(self)), enc@) == outcome(r, *final(self)),
        decreases old(self).data@.len() - old(self).pos, enc@.len(), 2int,
    {
        proof {
            reveal(scalar_read);
        }
        if enc.len() == 1 {
            let c = enc[0];
            if c == 'C' {
                let b = self.read_exact(1)?;
                return Ok(Decoded::Int(b[0] as i64));
            }
            if c == 'c' {
                let b = self.read_exact(1)?;
                let v = b[0];
                return Ok(
                    Decoded::Int(
                        if v < 128 {
                            v as i64
                        } else {
                            v as i64 - 256
                        },
                    ),
                );
            }
            if c == 'S' || c == 'I' || c == 'L' || c == 'Q' {
                let h = self.read_head()?;
                let n = self.read_integer_h(false, h)?;
                return Ok(Decoded::Int(n));
            }
            if c == 's' || c == 'i' || c == 'l' || c == 'q' {
                let h = self.read_head()?;
                let n = self.read_integer_h(true, h)?;
                return Ok(Decoded::Int(n));
            }
            if c == 'f' || c == 'd' {
                let h = self.read_head()?;
                let x = self.read_real_h(c == 'd', h)?;
                return Ok(Decoded::Real(x));
            }
            if c == '+' {
                let h = self.read_head()?;
                return match self.read_unshared_string_h(h)? {
                    Some(b) => Ok(Decoded::Str(lossy_text(b.as_slice()))),
                    None => Ok(Decoded::Null),
                };
            }
            if c == '*' {
                let h = self.read_head()?;
                return self.read_cstring(h);
            }
            if c == '%' || c == ':' {
                let h = self.read_head()?;
                return match self.read_shared_string_h(h)? {
                    Some(b) => Ok(Decoded::Str(lossy_text(b.as_slice()))),
                    None => Ok(Decoded::Null),
                };
            }
            if c == '#' {
                return match self.read_class()? {
                    Some(class) => Ok(Decoded::Str(class.name)),
                    None => Ok(Decoded::Null),
                };
            }
            if c == '@' {
                return self.read_object();
            }
            if c == '!' {
                return Ok(Decoded::Null);
            }
        }
        if enc.len() >= 1 && enc[0] == '[' {
            return self.read_array(enc);
        }
        if enc.len() >= 1 && enc[0] == '{' {
            return self.read_struct(enc);
        }
        Err(())
    }

    /// An object: nil, a reference to an earlier object, or a new object (a
    /// class chain, the class's contents, and an end-of-object tag), which
    /// joins the object table.
    #[verifier::spinoff_prover]
    #[verifier::rlimit(100)]
    fn read_object(&mut self) -> (r: Result<Decoded, ()>)
        requires
            old(self).wf(),
        ensures
            final(self).wf(),
            progressed(*old(self), *final(self)),
            r matches Ok(d) ==> byte_bound(d) < final(self).data@.len(),
            r matches Ok(d) ==> runs_fit(d),
            old(self).pos >= old(self).data@.len() ==> r is Err,
            old(self).pos < old(self).data@.len() && head_at(*old(self)) == TAG_NIL ==> (
            r matches Ok(Decoded::Null) && advanced(*old(self), *final(self), old(self).pos + 1)),
            old(self).pos < old(self).data@.len() && head_at(*old(self)) != TAG_NIL && head_at(
                *old(self),
            ) != TAG_NEW ==> match integer_after(
                old(self).data@,
                old(self).pos + 1,
                old(self).order,
                true,
                head_at(*old(self)),
            ) {
                Some((n, p)) => advanced(*old(self), *final(self), p) && referenced(
                    old(self).objects@,
                    n,
                    r,
                ),
                None => r is Err,
            },
            old(self).pos < old(self).data@.len() && head_at(*old(self)) == TAG_NEW ==> (
            r matches Ok(d) ==> new_object_read(*old(self), d, *final(self))),
            string_object_at(
                old(self).data@,
                old(self).order,
                old(self).pos as int,
                table_view(old(self).strings@),
            ) matches Some((text, e, t)) ==> ((r matches Ok(d) && string_object_is(d, text))
                && final(self).pos == e && table_view(final(self).strings@) == t),
            sp_object(old(self).data@, old(self).order, state_of(*old(self))) == outcome(r, *final(self)),
        decreases old(self).data@.len() - old(self).pos, 0int, 0int,
    {
        let ghost s0 = state_of(*self);
        let head = self.read_head()?;
        if head == TAG_NIL {
            return Ok(Decoded::Null);
        }
        if head != TAG_NEW {
            let ref_num = self.read_integer_h(true, head)?;
            return self.object_at(ref_num);
        }
        let obj_idx = self.objects.len();
        let ghost o0 = self.objects@;
        self.objects.push(None);
        proof {
            lemma_objects_push(o0, None);
            assert(state_of(*self) == DState {
                pos: s0.pos + 1,
                strings: s0.strings,
                objects: s0.objects.push(None),
            });
        }
        proof {
            assert forall|i: int| 0 <= i < self.objects@.len() implies (
            #[trigger] self.objects@[i] matches Some(d) ==> byte_bound(d) < self.data@.len()) by {
                if i < o0.len() {
                    assert(self.objects@[i] == o0[i]);
                }
            }
        }
        let class = match self.read_class()? {
            Some(c) => c,
            None => return Err(()),
        };
        let ghost s2 = state_of(*self);
        let decoded = self.decode_contents(&class.name)?;
        let copy = copy_decoded(&decoded);
        proof {
            lemma_same_bound(copy, decoded);
            lemma_same_fit(copy, decoded);
            lemma_same_dv(copy, decoded);
        }
        let ghost o1 = self.objects@;
        let ghost s3 = state_of(*self);
        self.objects.set(obj_idx, Some(copy));
        proof {
            lemma_objects_update(o1, obj_idx as int, Some(copy));
            assert forall|i: int| 0 <= i < self.objects@.len() implies (
            #[trigger] self.objects@[i] matches Some(d) ==> byte_bound(d) < self.data@.len()) by {
                if i != obj_idx {
                    assert(self.objects@[i] == o1[i]);
                }
            }
        }
        let end = self.read_head()?;
        if end != TAG_END_OF_OBJECT {
            return Err(());
        }
        Ok(decoded)
    }

    /// The contents of an object of the named class.
    fn decode_contents(&mut self, name: &String) -> (r: Result<Decoded, ()>)
        requires
            old(self).wf(),
        ensures
            final(self).wf(),
            progressed(*old(self), *final(self)),
            r matches Ok(d) ==> byte_bound(d) < final(self).data@.len(),
            r matches Ok(d) ==> runs_fit(d),
            name@ == "NSString"@ || name@ == "NSMutableString"@ ==> (text_group(
                old(self).data@,
                old(self).order,
                old(self).pos as int,
                table_view(old(self).strings@),
            ) matches Some((text, p, t)) ==> ((r matches Ok(d) && string_object_is(d, text))
                && final(self).pos == p && table_view(final(self).strings@) == t)),
            sp_contents(old(self).data@, old(self).order, state_of(*old(self)), name@) == outcome(
                r,
                *final(self),
            ),
        decreases old(self).data@.len() - old(self).pos, 0int, 4int,
    {
        if text_is(name, "NSString") || text_is(name, "NSMutableString") {
            self.decode_nsstring()
        } else if text_is(name, "NSAttributedString") || text_is(name, "NSMutableAttributedString") {
            self.decode_nsattributedstring()
        } else if text_is(name, "NSDictionary") || text_is(name, "NSMutableDictionary") {
            self.decode_nsdictionary()
        } else if text_is(name, "NSData") || text_is(name, "NSMutableData") {
            self.decode_nsdata()
        } else if text_is(name, "NSNumber") || text_is(name, "NSValue") {
            self.decode_nsnumber()
        } else if text_is(name, "NSObject") {
            Ok(Decoded::Null)
        } else {
            self.decode_generic()
        }
    }

    /// NSString: its text, as an unshared string.
    fn decode_nsstring(&mut self) -> (r: Result<Decoded, ()>)
        requires
            old(self).wf(),
        ensures
            final(self).wf(),
            progressed(*old(self), *final(self)),
            r matches Ok(d) ==> byte_bound(d) < final(self).data@.len(),
            r matches Ok(d) ==> runs_fit(d),
            text_group(
                old(self).data@,
                old(self).order,
                old(self).pos as int,
                table_view(old(self).strings@),
            ) matches Some((text, p, t)) ==> ((r matches Ok(d) && string_object_is(d, text))
                && final(self).pos == p && table_view(final(self).strings@) == t),
            sp_nsstring(old(self).data@, old(self).order, state_of(*old(self))) == outcome(r, *final(self)),
        decreases old(self).data@.len() - old(self).pos, 0int, 3int,
    {
        let val = self.read_typed_value()?;
        match val {
            Decoded::Str(s) => Ok(Decoded::Object(Box::new(DecodedObject::String(s)))),
            _ => Err(()),
        }
    }

    /// NSAttributedString: an embedded NSString, then the attribute runs
    /// that cover its UTF-16 length.
    fn decode_nsattributedstring(&mut self) -> (r: Result<Decoded, ()>)
        requires
            old(self).wf(),
        ensures
            final(self).wf(),
            progressed(*old(self), *final(self)),
            r matches Ok(d) ==> byte_bound(d) < final(self).data@.len(),
            r matches Ok(d) ==> runs_fit(d),
            r matches Ok(d) ==> (d matches Decoded::Object(o) && (*o matches DecodedObject::AttributedString {
                string,
                runs,
            } && runs_cover(runs@, utf16_len(string@) as int))),
            sp_nsattributed(old(self).data@, old(self).order, state_of(*old(self))) == outcome(r, *final(self)),
        decreases old(self).data@.len() - old(self).pos, 0int, 3int,
    {
        let string_val = self.read_typed_value()?;
        let text = match &string_val {
            Decoded::Object(obj) => match &**obj {
                DecodedObject::String(s) => s.clone(),
                _ => return Err(()),
            },
            _ => return Err(()),
        };
        let text_len = match utf16_length(text.as_str()) {
            Some(n) => n,
            None => return Err(()),
        };
        let runs = self.read_attributed_string_runs(text_len)?;
        Ok(Decoded::Object(Box::new(DecodedObject::AttributedString { string: text, runs })))
    }

    /// The attribute runs of an NSAttributedString.  Each run is a
    /// (reference, length) pair; the first run with a given reference is
    /// followed by its attribute dictionary, which later runs share.
    #[verifier::spinoff_prover]
    #[verifier::rlimit(80)]
    fn read_attributed_string_runs(&mut self, text_len: usize) -> (r: Result<Vec<AttrRun>, ()>)
        requires
            old(self).wf(),
        ensures
            final(self).wf(),
            progressed(*old(self), *final(self)),
            r matches Ok(v) ==> runs_byte_bound(v@) < final(self).data@.len(),
            r matches Ok(v) ==> runs_cover(v@, text_len as int),
            text_len == 0 ==> (r matches Ok(v) && v@.len() == 0 && unchanged(
                *old(self),
                *final(self),
            )),
            sp_runs(old(self).data@, old(self).order, state_of(*old(self)), text_len as int, 0, Seq::empty(), Seq::empty()) == runs_outcome(
                r,
                *final(self),
            ),
        decreases old(self).data@.len() - old(self).pos, 0int, 3int,
    {
        let mut runs: Vec<AttrRun> = Vec::new();
        let mut index: usize = 0;
        let mut shared: Vec<(i64, Vec<(String, Decoded)>)> = Vec::new();
        let ghost s0 = state_of(*self);
        proof {
            assert(runs_v(runs@) == Seq::<RunV>::empty());
            assert(shared_v(shared@) =~= Seq::<(i64, Seq<(Seq<char>, DV)>)>::empty());
        }
        while index < text_len
            invariant
                s0 == state_of(*old(self)),
                sp_runs(self.data@, self.order, s0, text_len as int, 0, Seq::empty(), Seq::empty())
                    == sp_runs(
                    self.data@,
                    self.order,
                    state_of(*self),
                    text_len as int,
                    index as int,
                    shared_v(shared@),
                    runs_v(runs@),
                ),
                self.wf(),
                progressed(*old(self), *self),
                index == runs_end(runs@),
                forall|j: int|
                    0 <= j < runs@.len() ==> #[trigger] runs@[j].offset == runs_end(
                        runs@.take(j),
                    ) && runs@[j].offset < text_len,
                runs@.len() == 0 ==> unchanged(*old(self), *self),
                runs_byte_bound(runs@) < self.data@.len(),
                forall|j: int|
                    0 <= j < shared@.len() ==> attrs_byte_bound((#[trigger] shared@[j]).1@)
                        < self.data@.len(),
            decreases self.data@.len() - self.pos,
        {
            let ghost sa = state_of(*self);
            let ghost sv = shared_v(shared@);
            let ghost rv = runs_v(runs@);
            let (_, range_vals) = self.read_typed_values()?;
            let ghost s2 = state_of(*self);
            if range_vals.len() < 2 {
                return Err(());
            }
            proof {
                assert(values_v(range_vals@)[0] == dv(range_vals@[0]));
                assert(values_v(range_vals@)[1] == dv(range_vals@[1]));
            }
            let reference = match &range_vals[0] {
                Decoded::Int(n) => *n,
                _ => return Err(()),
            };
            let run_length = match &range_vals[1] {
                Decoded::Int(n) => *n as usize,
                _ => return Err(()),
            };
            let mut slot: usize = 0;
            while slot < shared.len() && shared[slot].0 != reference
                invariant
                    slot <= shared.len(),
                    sv == shared_v(shared@),
                    slot_of(sv, reference, slot as int) == slot_of(sv, reference, 0),
                decreases shared.len() - slot,
            {
                proof {
                    assert(sv[slot as int].0 == shared@[slot as int].0);
                }
                slot = slot + 1;
            }
            proof {
                if slot < shared.len() {
                    assert(sv[slot as int].0 == shared@[slot as int].0);
                }
            }
            if slot == shared.len() {
                let dict_val = self.read_typed_value()?;
                let attrs = extract_dict_attrs(&dict_val);
                proof {
                    lemma_dict_attrs_v(attrs@, dict_val);
                    lemma_shared_push(shared@, (reference, attrs));
                }
                let ghost s0 = shared@;
                shared.push((reference, attrs));
                proof {
                    assert forall|j: int| 0 <= j < shared@.len() implies attrs_byte_bound(
                        (#[trigger] shared@[j]).1@,
                    ) < self.data@.len() by {
                        if j < s0.len() {
                            assert(shared@[j] == s0[j]);
                        }
                    }
                }
            }
            let attributes = copy_attrs(&shared[slot].1);
            proof {
                lemma_same_attrs_bound(attributes@, shared@[slot as int].1@);
                lemma_same_attrs_v(attributes@, shared@[slot as int].1@);
                assert(shared_v(shared@)[slot as int].1 == attrs_v(shared@[slot as int].1@));
            }
            let ghost r0 = runs@;
            let ghost s3 = state_of(*self);
            runs.push(AttrRun { offset: index, length: run_length, attributes });
            proof {
                lemma_runs_push(r0, AttrRun { offset: index, length: run_length, attributes });
                assert(runs@.subrange(0, runs@.len() - 1) =~= r0);
                assert(runs@.take(r0.len() as int) =~= r0);
                assert forall|j: int| 0 <= j < r0.len() implies runs@.take(j) =~= r0.take(j) by {}
            }
            index = match index.checked_add(run_length) {
                Some(v) => v,
                None => return Err(()),
            };
        }
        Ok(runs)
    }

    /// NSDictionary: a count, then that many key and value pairs.
    #[verifier::spinoff_prover]
    #[verifier::rlimit(80)]
    fn decode_nsdictionary(&mut self) -> (r: Result<Decoded, ()>)
        requires
            old(self).wf(),
        ensures
            final(self).wf(),
            progressed(*old(self), *final(self)),
            r matches Ok(d) ==> byte_bound(d) < final(self).data@.len(),
            r matches Ok(d) ==> runs_fit(d),
            r matches Ok(d) ==> (d matches Decoded::Object(o) && *o is Dictionary),
            integer_group(
                old(self).data@,
                old(self).order,
                old(self).pos as int,
                table_view(old(self).strings@),
            ) matches Some((n, _, _)) ==> (r matches Ok(d) ==> (d matches Decoded::Object(o) && (
            *o matches DecodedObject::Dictionary(pairs) && pairs@.len() == (n as i64) as usize))),
            sp_nsdictionary(old(self).data@, old(self).order, state_of(*old(self))) == outcome(r, *final(self)),
        decreases old(self).data@.len() - old(self).pos, 0int, 3int,
    {
        let count_val = self.read_typed_value()?;
        let count = match count_val {
            Decoded::Int(n) => n as usize,
            _ => return Err(()),
        };
        let ghost sc = state_of(*self);
        proof {
            assert(Seq::<(Decoded, Decoded)>::empty().len() == 0);
            assert(pairs_v(Seq::<(Decoded, Decoded)>::empty()) == Seq::<(DV, DV)>::empty());
        }
        let ghost declared = integer_group(
            old(self).data@,
            old(self).order,
            old(self).pos as int,
            table_view(old(self).strings@),
        );
        let mut pairs: Vec<(Decoded, Decoded)> = Vec::new();
        let mut i: usize = 0;
        while i < count
            invariant
                self.wf(),
                progressed(*old(self), *self),
                pairs@.len() == i,
                i <= count,
                declared == integer_group(
                    old(self).data@,
                    old(self).order,
                    old(self).pos as int,
                    table_view(old(self).strings@),
                ),
                declared matches Some((n, _, _)) ==> count == (n as i64) as usize,
                pairs_byte_bound(pairs@) < self.data@.len(),
                sp_nsdictionary(self.data@, self.order, state_of(*old(self))) == match sp_pairs(
                    self.data@,
                    self.order,
                    sc,
                    count as int,
                    Seq::empty(),
                ) {
                    Some((p, s3)) => Some((DV::Obj(Box::new(OV::Dictionary(p))), s3)),
                    None => None,
                },
                sp_pairs(self.data@, self.order, sc, count as int, Seq::empty()) == sp_pairs(
                    self.data@,
                    self.order,
                    state_of(*self),
                    (count - i) as int,
                    pairs_v(pairs@),
                ),
            decreases count - i,
        {
            let key = self.read_typed_value()?;
            let value = self.read_typed_value()?;
            let ghost p0 = pairs@;
            pairs.push((key, value));
            proof {
                assert(pairs@.subrange(0, pairs@.len() - 1) =~= p0);
                lemma_pairs_push(p0, (key, value));
            }
            i = i + 1;
        }
        Ok(Decoded::Object(Box::new(DecodedObject::Dictionary(pairs))))
    }

    /// NSData: a length, then a byte array, cut to that length.
    fn decode_nsdata(&mut self) -> (r: Result<Decoded, ()>)
        requires
            old(self).wf(),
        ensures
            final(self).wf(),
            progressed(*old(self), *final(self)),
            r matches Ok(d) ==> byte_bound(d) < final(self).data@.len(),
            r matches Ok(d) ==> runs_fit(d),
            r matches Ok(d) ==> (d matches Decoded::Object(o) && *o is Data),
            integer_group(
                old(self).data@,
                old(self).order,
                old(self).pos as int,
                table_view(old(self).strings@),
            ) matches Some((n, _, _)) ==> (r matches Ok(d) ==> (d matches Decoded::Object(o) && (
            *o matches DecodedObject::Data(b) && b@.len() <= (n as i64) as usize))),
            sp_nsdata(old(self).data@, old(self).order, state_of(*old(self))) == outcome(r, *final(self)),
        decreases old(self).data@.len() - old(self).pos, 0int, 3int,
    {
        let len_val = self.read_typed_value()?;
        let len = match len_val {
            Decoded::Int(n) => n as usize,
            _ => return Err(()),
        };
        let data_val = self.read_typed_value()?;
        let mut bytes: Vec<u8> = match data_val {
            Decoded::Bytes(b) => b,
            _ => Vec::new(),
        };
        if bytes.len() >= len {
            bytes.truncate(len);
        }
        Ok(Decoded::Object(Box::new(DecodedObject::Data(bytes))))
    }

    /// NSNumber and NSValue: a type encoding, then the value.
    fn decode_nsnumber(&mut self) -> (r: Result<Decoded, ()>)
        requires
            old(self).wf(),
        ensures
            final(self).wf(),
            progressed(*old(self), *final(self)),
            r matches Ok(d) ==> byte_bound(d) < final(self).data@.len(),
            r matches Ok(d) ==> runs_fit(d),
            sp_nsnumber(old(self).data@, old(self).order, state_of(*old(self))) == outcome(r, *final(self)),
        decreases old(self).data@.len() - old(self).pos, 0int, 3int,
    {
        let _enc_val = self.read_typed_value()?;
        let val = self.read_typed_value()?;
        Ok(Decoded::Object(Box::new(DecodedObject::Number(val))))
    }

    /// An object of any other class: its typed values are read and
    /// dropped, up to (not including) its end-of-object tag.
    fn decode_generic(&mut self) -> (r: Result<Decoded, ()>)
        requires
            old(self).wf(),
        ensures
            final(self).wf(),
            progressed(*old(self), *final(self)),
            r matches Ok(d) ==> byte_bound(d) < final(self).data@.len(),
            r matches Ok(d) ==> runs_fit(d),
            old(self).pos >= old(self).data@.len() ==> r is Err,
            r matches Ok(d) ==> (d is Null && final(self).pos < final(self).data@.len() && head_at(
                *final(self),
            ) == TAG_END_OF_OBJECT),
            old(self).pos < old(self).data@.len() && head_at(*old(self)) == TAG_END_OF_OBJECT ==> (
            r matches Ok(Decoded::Null) && unchanged(*old(self), *final(self))),
            sp_generic(old(self).data@, old(self).order, state_of(*old(self))) == outcome(r, *final(self)),
        decreases old(self).data@.len() - old(self).pos, 0int, 3int,
    {
        loop
            invariant
                self.wf(),
                progressed(*old(self), *self),
                self.pos == old(self).pos ==> self.objects@ == old(self).objects@,
                sp_generic(self.data@, self.order, state_of(*old(self))) == sp_generic(
                    self.data@,
                    self.order,
                    state_of(*self),
                ),
                self.pos == old(self).pos ==> self.strings == old(self).strings,
                old(self).pos < old(self).data@.len() && head_at(*old(self)) == TAG_END_OF_OBJECT
                    ==> self.pos == old(self).pos,
            decreases self.data@.len() - self.pos,
        {
            if self.eof() {
                return Err(());
            }
            let ghost before = self.pos;
            let ghost sb = state_of(*self);
            let head = self.read_head()?;
            if head == TAG_END_OF_OBJECT {
                self.pos = self.pos - 1;
                proof {
                    assert(state_of(*self) == sb);
                }
                return Ok(Decoded::Null);
            }
            let enc_bytes = match self.read_shared_string_h(head)? {
                Some(b) => b,
                None => return Err(()),
            };
            let enc = lossy_text(enc_bytes.as_slice());
            let enc_chars = chars_of(enc.as_str());
            let encs = split_encoding_chars(&enc_chars);
            let ghost sp = state_of(*self);
            let ghost all = encodings(enc@);
            proof {
                assert(head == head_value(self.data@[sb.pos]) as i8);
                assert(sp_generic(self.data@, self.order, sb) == match sp_skip(
                    self.data@,
                    self.order,
                    sp,
                    all,
                    0,
                ) {
                    Some(s2) => if ahead(self.data@, sb, s2) {
                        sp_generic(self.data@, self.order, s2)
                    } else {
                        None
                    },
                    None => None,
                });
            }
            let mut k: usize = 0;
            while k < encs.len()
                invariant
                    all == encodings(enc@),
                    encs@.len() == all.len(),
                    forall|i: int| 0 <= i < encs@.len() ==> #[trigger] encs@[i]@ == all[i],
                    sp_skip(self.data@, self.order, sp, all, 0) == sp_skip(
                        self.data@,
                        self.order,
                        state_of(*self),
                        all,
                        k as int,
                    ),
                    sb.pos == before,
                    sp_generic(self.data@, self.order, sb) == match sp_skip(
                        self.data@,
                        self.order,
                        sp,
                        all,
                        0,
                    ) {
                        Some(s2) => if ahead(self.data@, sb, s2) {
                            sp_generic(self.data@, self.order, s2)
                        } else {
                            None
                        },
                        None => None,
                    },
                    sp_generic(self.data@, self.order, state_of(*old(self))) == sp_generic(
                        self.data@,
                        self.order,
                        sb,
                    ),
                    self.wf(),
                    progressed(*old(self), *self),
                    old(self).pos <= before < self.pos,
                    old(self).pos < old(self).data@.len() && head_at(*old(self))
                        == TAG_END_OF_OBJECT ==> self.pos == old(self).pos,
                decreases encs.len() - k,
            {
                let _ = self.read_value(&encs[k])?;
                k = k + 1;
            }
        }
    }

    /// An array: a byte array is read whole; the elements of any other array
    /// are read and dropped.
    fn read_array(&mut self, enc: &Vec<char>) -> (r: Result<Decoded, ()>)
        requires
            old(self).wf(),
        ensures
            final(self).wf(),
            progressed(*old(self), *final(self)),
            r matches Ok(d) ==> byte_bound(d) < final(self).data@.len(),
            match array_encoding(enc@) {
                None => r is Err && unchanged(*old(self), *final(self)),
                Some((n, e)) => if e == seq!['c'] || e == seq!['C'] {
                    if old(self).pos + n <= old(self).data@.len() {
                        (r matches Ok(Decoded::Bytes(b)) && b@ == old(self).data@.subrange(
                            old(self).pos as int,
                            old(self).pos + n,
                        ) && final(self).pos == old(self).pos + n
                            && final(self).objects@ == old(self).objects@)
                    } else {
                        r is Err
                    }
                } else {
                    (r matches Ok(d) ==> d is Null) && (n == 0 ==> (r matches Ok(Decoded::Null)
                        && unchanged(*old(self), *final(self))))
                },
            },
            sp_array(old(self).data@, old(self).order, state_of(*old(self)), enc@) == outcome(r, *final(self)),
        decreases old(self).data@.len() - old(self).pos, enc@.len(), 1int,
    {
        let (len, elem) = parse_array_chars(enc)?;
        if elem.len() == 1 && (elem[0] == 'c' || elem[0] == 'C') {
            proof {
                assert(elem@ =~= seq![elem@[0]]);
            }
            let data = self.read_exact(len)?;
            return Ok(Decoded::Bytes(vstd::slice::slice_to_vec(data)));
        }
        proof {
            assert(!(elem@ == seq!['c'] || elem@ == seq!['C']));
        }
        let ghost s0 = state_of(*self);
        let mut i: usize = 0;
        while i < len
            invariant
                s0 == state_of(*old(self)),
                sp_elements(self.data@, self.order, s0, elem@, len as int) == sp_elements(
                    self.data@,
                    self.order,
                    state_of(*self),
                    elem@,
                    (len - i) as int,
                ),
                self.wf(),
                progressed(*old(self), *self),
                elem@.len() + 2 <= enc@.len(),
                i <= len,
                array_encoding(enc@) == Some((len as nat, elem@)),
                !(elem@ == seq!['c'] || elem@ == seq!['C']),
                i == 0 ==> unchanged(*old(self), *self),
            decreases len - i,
        {
            let _ = self.read_value(&elem)?;
            i = i + 1;
        }
        Ok(Decoded::Null)
    }

    /// A struct: its fields are read and dropped.
    fn read_struct(&mut self, enc: &Vec<char>) -> (r: Result<Decoded, ()>)
        requires
            old(self).wf(),
        ensures
            final(self).wf(),
            progressed(*old(self), *final(self)),
            r matches Ok(d) ==> byte_bound(d) < final(self).data@.len(),
            match struct_encoding(enc@) {
                None => r is Err && unchanged(*old(self), *final(self)),
                Some(fields) => (r matches Ok(d) ==> d is Null) && (fields.len() == 0 ==> (
                r matches Ok(Decoded::Null) && unchanged(*old(self), *final(self)))),
            },
            sp_struct(old(self).data@, old(self).order, state_of(*old(self)), enc@) == outcome(r, *final(self)),
        decreases old(self).data@.len() - old(self).pos, enc@.len(), 1int,
    {
        let fields = parse_struct_chars(enc)?;
        let ghost s0 = state_of(*self);
        let ghost fs = struct_encoding(enc@)->0;
        let ghost bound = enc@.len() - 1;
        let mut k: usize = 0;
        while k < fields.len()
            invariant
                s0 == state_of(*old(self)),
                fs == struct_encoding(enc@)->0,
                bound == enc@.len() - 1,
                forall|j: int| 0 <= j < fields@.len() ==> #[trigger] fields@[j]@ == fs[j],
                sp_fields(self.data@, self.order, s0, fs, 0, bound) == sp_fields(
                    self.data@,
                    self.order,
                    state_of(*self),
                    fs,
                    k as int,
                    bound,
                ),
                self.wf(),
                progressed(*old(self), *self),
                k == 0 ==> unchanged(*old(self), *self),
                k <= fields.len(),
                struct_encoding(enc@) matches Some(fs) && fs.len() == fields@.len(),
                forall|j: int|
                    0 <= j < fields@.len() ==> #[trigger] fields@[j]@.len() + 2 <= enc@.len(),
            decreases fields.len() - k,
        {
            let _ = self.read_value(&fields[k])?;
            k = k + 1;
        }
        Ok(Decoded::Null)
    }

    /// A group of typed values: a shared type-encoding string, then one value
    /// per encoding it lists.  Gives the encoding string and the values.
    #[verifier::spinoff_prover]
    #[verifier::rlimit(60)]
    fn read_typed_values(&mut self) -> (r: Result<(String, Vec<Decoded>), ()>)
        requires
            old(self).wf(),
        ensures
            final(self).wf(),
            progressed(*old(self), *final(self)),
            r is Ok ==> old(self).pos < final(self).pos,
            r matches Ok((_, v)) ==> forall|i: int|
                0 <= i < v@.len() ==> byte_bound(#[trigger] v@[i]) < final(self).data@.len()
                    && runs_fit(v@[i]),
            old(self).pos >= old(self).data@.len() ==> r is Err,
            old(self).pos < old(self).data@.len() ==> match shared_after(
                old(self).data@,
                old(self).pos + 1,
                old(self).order,
                table_view(old(self).strings@),
                head_at(*old(self)),
            ) {
                Some((Some(b), p, t)) => (r matches Ok((e, v)) ==> (e@ == utf8_lossy(b) && v@.len()
                    == encodings(e@).len())) && (encodings(utf8_lossy(b)).len() == 0 ==> (
                r matches Ok((e, v)) && v@.len() == 0 && final(self).pos == p
                    && final(self).objects@ == old(self).objects@)) && (all_scalar(
                    encodings(utf8_lossy(b)),
                ) && scalars_end(old(self).data@, old(self).order, p, t, encodings(utf8_lossy(b)))
                    is Some ==> (r matches Ok((e, v)) && v@.len() == encodings(e@).len())),
                _ => r is Err,
            },
            text_group(
                old(self).data@,
                old(self).order,
                old(self).pos as int,
                table_view(old(self).strings@),
            ) matches Some((text, p, t)) ==> (r matches Ok((e, v)) && v@.len() == 1 && (
            v@[0] matches Decoded::Str(x) && x@ == text) && final(self).pos == p && table_view(
                final(self).strings@,
            ) == t),
            string_object_group(
                old(self).data@,
                old(self).order,
                old(self).pos as int,
                table_view(old(self).strings@),
            ) matches Some((text, p, t)) ==> (r matches Ok((e, v)) && v@.len() == 1
                && string_object_is(v@[0], text) && final(self).pos == p && table_view(
                final(self).strings@,
            ) == t),
            integer_group(
                old(self).data@,
                old(self).order,
                old(self).pos as int,
                table_view(old(self).strings@),
            ) matches Some((n, p, t)) ==> (r matches Ok((e, v)) && v@.len() == 1 && v@[0]
                == Decoded::Int(n as i64) && final(self).pos == p && table_view(
                final(self).strings@,
            ) == t),
            group_has_unknown(
                old(self).data@,
                old(self).order,
                old(self).pos as int,
                table_view(old(self).strings@),
            ) ==> r is Err,
            sp_typed_values(old(self).data@, old(self).order, state_of(*old(self))) == group_outcome(r, *final(self)),
        decreases old(self).data@.len() - old(self).pos, 0int, 1int,
    {
        let head = self.read_head()?;
        let enc_bytes = match self.read_shared_string_h(head)? {
            Some(b) => b,
            None => return Err(()),
        };
        let ghost after_enc = self.pos as int;
        let ghost t_after = table_view(self.strings@);
        let enc = lossy_text(enc_bytes.as_slice());
        let enc_chars = chars_of(enc.as_str());
        let encs = split_encoding_chars(&enc_chars);
        let ghost all = encodings(enc@);
        let ghost scalar = all_scalar(all) && scalars_end(
            old(self).data@,
            old(self).order,
            after_enc,
            t_after,
            all,
        ) is Some;
        let ghost tg = text_group(
            old(self).data@,
            old(self).order,
            old(self).pos as int,
            table_view(old(self).strings@),
        );
        let ghost og = string_object_group(
            old(self).data@,
            old(self).order,
            old(self).pos as int,
            table_view(old(self).strings@),
        );
        let ghost ig = integer_group(
            old(self).data@,
            old(self).order,
            old(self).pos as int,
            table_view(old(self).strings@),
        );
        let ghost sp = state_of(*self);
        proof {
            assert(head == head_value(self.data@[old(self).pos as int]) as i8);
            assert(sp_typed_values(self.data@, self.order, state_of(*old(self))) == sp_group(
                self.data@,
                self.order,
                sp,
                all,
                0,
                Seq::empty(),
            ));
        }
        let mut values: Vec<Decoded> = Vec::new();
        proof {
            assert(values_v(values@) =~= Seq::<DV>::empty());
        }
        let mut k: usize = 0;
        while k < encs.len()
            invariant
                sp_typed_values(self.data@, self.order, state_of(*old(self))) == sp_group(
                    self.data@,
                    self.order,
                    sp,
                    all,
                    0,
                    Seq::empty(),
                ),
                sp_group(self.data@, self.order, sp, all, 0, Seq::empty()) == sp_group(
                    self.data@,
                    self.order,
                    state_of(*self),
                    all,
                    k as int,
                    values_v(values@),
                ),
                self.wf(),
                progressed(*old(self), *self),
                old(self).pos < self.pos,
                k <= encs.len(),
                values@.len() == k,
                tg == text_group(
                    old(self).data@,
                    old(self).order,
                    old(self).pos as int,
                    table_view(old(self).strings@),
                ),
                tg is Some ==> all == seq![seq!['+']],
                og == string_object_group(
                    old(self).data@,
                    old(self).order,
                    old(self).pos as int,
                    table_view(old(self).strings@),
                ),
                og is Some ==> all == seq![seq!['@']],
                ig == integer_group(
                    old(self).data@,
                    old(self).order,
                    old(self).pos as int,
                    table_view(old(self).strings@),
                ),
                ig is Some ==> all.len() == 1 && all[0].len() == 1 && (unsigned_code(all[0][0])
                    || signed_code(all[0][0])),
                forall|i: int| 0 <= i < k ==> known_encoding(#[trigger] all[i]),
                ig matches Some((n, p, t)) ==> (k == 1 ==> (values@[0] == Decoded::Int(n as i64)
                    && self.pos == p && table_view(self.strings@) == t)),
                og matches Some((text, p, t)) ==> (k == 1 ==> (string_object_is(values@[0], text)
                    && self.pos == p && table_view(self.strings@) == t)),
                tg matches Some((text, p, t)) ==> (k == 1 ==> (values@[0] matches Decoded::Str(x)
                    && x@ == text && self.pos == p && table_view(self.strings@) == t)),
                encs@.len() == encodings(enc@).len(),
                all == encodings(enc@),
                forall|i: int| 0 <= i < encs@.len() ==> #[trigger] encs@[i]@ == all[i],
                k == 0 ==> self.pos == after_enc && self.objects@ == old(self).objects@
                    && table_view(self.strings@) == t_after,
                old(self).pos < old(self).data@.len(),
                shared_after(
                    old(self).data@,
                    old(self).pos + 1,
                    old(self).order,
                    table_view(old(self).strings@),
                    head_at(*old(self)),
                ) matches Some((Some(b), q, t)) && enc@ == utf8_lossy(b) && q == after_enc && t
                    == t_after,
                scalar == (all_scalar(all) && scalars_end(
                    old(self).data@,
                    old(self).order,
                    after_enc,
                    t_after,
                    all,
                ) is Some),
                scalar ==> scalars_end(
                    old(self).data@,
                    old(self).order,
                    after_enc,
                    t_after,
                    all.take(k as int),
                ) == Some((self.pos as int, table_view(self.strings@))),
                forall|i: int|
                    0 <= i < values@.len() ==> byte_bound(#[trigger] values@[i])
                        < self.data@.len() && runs_fit(values@[i]),
            decreases encs.len() - k,
        {
            proof {
                if scalar {
                    lemma_scalars_prefix(
                        old(self).data@,
                        old(self).order,
                        after_enc,
                        t_after,
                        all,
                        k + 1,
                    );
                    assert(all.take(k + 1).drop_last() =~= all.take(k as int));
                    assert(all.take(k + 1).last() == all[k as int]);
                    assert(all[k as int].len() == 1 && scalar_code(all[k as int][0]));
                    assert(encs@[k as int]@ == all[k as int]);
                }
            }
            let ghost pre = *self;
            let res = self.read_value(&encs[k]);
            proof {
                if scalar {
                    lemma_scalar_step_read(all[k as int][0], pre, res, *self);
                }
                if tg is Some {
                    assert(encs@[k as int]@ == seq!['+']);
                    lemma_plus_read(pre, res, *self);
                }
                if og is Some {
                    assert(encs@[k as int]@ == seq!['@']);
                }
                if ig is Some {
                    assert(encs@[k as int]@ == all[0]);
                    lemma_integer_read(all[0][0], pre, res, *self);
                }
            }
            let v = match res {
                Ok(v) => v,
                Err(e) => return Err(e),
            };
            proof {
                assert(known_encoding(all[k as int]));
                lemma_values_push(values@, v);
            }
            values.push(v);
            k = k + 1;
        }
        proof {
            assert(group_encodings(
                old(self).data@,
                old(self).order,
                old(self).pos as int,
                table_view(old(self).strings@),
            ) == all);
        }
        Ok((enc, values))
    }

    /// The first value of the next group of typed values.
    fn read_typed_value(&mut self) -> (r: Result<Decoded, ()>)
        requires
            old(self).wf(),
        ensures
            final(self).wf(),
            progressed(*old(self), *final(self)),
            r is Ok ==> old(self).pos < final(self).pos,
            r matches Ok(d) ==> byte_bound(d) < final(self).data@.len(),
            r matches Ok(d) ==> runs_fit(d),
            text_group(
                old(self).data@,
                old(self).order,
                old(self).pos as int,
                table_view(old(self).strings@),
            ) matches Some((text, p, t)) ==> ((r matches Ok(Decoded::Str(x)) && x@ == text)
                && final(self).pos == p && table_view(final(self).strings@) == t),
            integer_group(
                old(self).data@,
                old(self).order,
                old(self).pos as int,
                table_view(old(self).strings@),
            ) matches Some((n, p, t)) ==> (r == Ok::<Decoded, ()>(Decoded::Int(n as i64))
                && final(self).pos == p && table_view(final(self).strings@) == t),
            sp_typed_value(old(self).data@, old(self).order, state_of(*old(self))) == outcome(r, *final(self)),
        decreases old(self).data@.len() - old(self).pos, 0int, 2int,
    {
        let (_, vals) = self.read_typed_values()?;
        if vals.len() == 0 {
            return Err(());
        }
        let mut vals = vals;
        Ok(vals.remove(0))
    }

    /// Every value of every group of typed values, up to the end of the
    /// stream or the first group that does not decode.
    #[verifier::spinoff_prover]
    #[verifier::rlimit(100)]
    fn decode_all(&mut self) -> (r: Vec<Decoded>)
        requires
            old(self).wf(),
        ensures
            values_v(r@) == sp_all(old(self).data@, old(self).order, state_of(*old(self))),
            forall|i: int|
                0 <= i < r@.len() ==> byte_bound(#[trigger] r@[i]) < old(self).data@.len()
                    && runs_fit(r@[i]),
            !group_header_reads(
                old(self).data@,
                old(self).order,
                old(self).pos as int,
                table_view(old(self).strings@),
            ) ==> r@.len() == 0,
            group_header_reads(
                old(self).data@,
                old(self).order,
                old(self).pos as int,
                table_view(old(self).strings@),
            ) && r@.len() > 0 ==> r@.len() >= group_encodings(
                old(self).data@,
                old(self).order,
                old(self).pos as int,
                table_view(old(self).strings@),
            ).len(),
            scalar_group_reads(
                old(self).data@,
                old(self).order,
                old(self).pos as int,
                table_view(old(self).strings@),
            ) ==> r@.len() >= group_encodings(
                old(self).data@,
                old(self).order,
                old(self).pos as int,
                table_view(old(self).strings@),
            ).len(),
            string_object_group(
                old(self).data@,
                old(self).order,
                old(self).pos as int,
                table_view(old(self).strings@),
            ) matches Some((text, _, _)) ==> (r@.len() >= 1 && string_object_is(r@[0], text)),
            string_object_group(
                old(self).data@,
                old(self).order,
                old(self).pos as int,
                table_view(old(self).strings@),
            ) matches Some((text, e, _)) ==> (e == old(self).data@.len() ==> (r@.len() == 1
                && string_object_is(r@[0], text))),
            group_has_unknown(
                old(self).data@,
                old(self).order,
                old(self).pos as int,
                table_view(old(self).strings@),
            ) ==> r@.len() == 0,
    {
        let ghost data0 = old(self).data@;
        let ghost order0 = old(self).order;
        let ghost pos0 = old(self).pos as int;
        let ghost table0 = table_view(old(self).strings@);
        let ghost mut first_done = false;
        let ghost s0 = state_of(*old(self));
        let mut results: Vec<Decoded> = Vec::new();
        proof {
            assert(values_v(results@) =~= Seq::<DV>::empty());
            assert(Seq::<DV>::empty() + sp_all(data0, order0, s0) =~= sp_all(data0, order0, s0));
        }
        while !self.eof()
            invariant_except_break
                !first_done ==> (self.pos == pos0 && self.strings == old(self).strings),
                sp_all(data0, order0, s0) == values_v(results@) + sp_all(
                    data0,
                    order0,
                    state_of(*self),
                ),
            invariant
                s0 == state_of(*old(self)),
                self.wf(),
                self.data@ == old(self).data@,
                self.order == old(self).order,
                data0 == old(self).data@,
                order0 == old(self).order,
                pos0 == old(self).pos,
                table0 == table_view(old(self).strings@),
                forall|i: int|
                    0 <= i < results@.len() ==> byte_bound(#[trigger] results@[i])
                        < self.data@.len() && runs_fit(results@[i]),
                !first_done ==> results@.len() == 0,
                first_done ==> group_header_reads(data0, order0, pos0, table0) && results@.len()
                    >= group_encodings(data0, order0, pos0, table0).len(),
                !first_done && scalar_group_reads(data0, order0, pos0, table0) ==> self.pos
                    == pos0,
                !first_done && string_object_group(data0, order0, pos0, table0) is Some
                    ==> self.pos == pos0,
                first_done ==> (string_object_group(data0, order0, pos0, table0) matches Some(
                    (text, _, _),
                ) ==> results@.len() >= 1 && string_object_is(results@[0], text)),
                first_done ==> (string_object_group(data0, order0, pos0, table0) matches Some(
                    (text, e, _),
                ) ==> (e == data0.len() ==> results@.len() == 1 && self.pos == e)),
                first_done ==> !group_has_unknown(data0, order0, pos0, table0),
            ensures
                sp_all(data0, order0, s0) == values_v(results@),
                self.wf(),
                self.data@ == old(self).data@,
                forall|i: int|
                    0 <= i < results@.len() ==> byte_bound(#[trigger] results@[i])
                        < self.data@.len() && runs_fit(results@[i]),
                !first_done ==> results@.len() == 0,
                first_done ==> group_header_reads(data0, order0, pos0, table0) && results@.len()
                    >= group_encodings(data0, order0, pos0, table0).len(),
                scalar_group_reads(data0, order0, pos0, table0) ==> first_done,
                string_object_group(data0, order0, pos0, table0) is Some ==> first_done,
                first_done ==> (string_object_group(data0, order0, pos0, table0) matches Some(
                    (text, _, _),
                ) ==> results@.len() >= 1 && string_object_is(results@[0], text)),
                first_done ==> (string_object_group(data0, order0, pos0, table0) matches Some(
                    (text, e, _),
                ) ==> (e == data0.len() ==> results@.len() == 1)),
                first_done ==> !group_has_unknown(data0, order0, pos0, table0),
            decreases self.data@.len() - self.pos,
        {
            let ghost sb = state_of(*self);
            match self.read_typed_values() {
                Ok((_, vals)) => {
                    let ghost r0 = results@.len();
                    let ghost rs0 = results@;
                    proof {
                        assert(sp_all(data0, order0, sb) == values_v(vals@) + sp_all(
                            data0,
                            order0,
                            state_of(*self),
                        ));
                    }
                    append_copies(&mut results, &vals, self.data.len());
                    proof {
                        if r0 > 0 {
                            assert(results@[0] == results@.subrange(0, r0 as int)[0]);
                        }
                        first_done = true;
                        assert(values_v(rs0) + (values_v(vals@) + sp_all(
                            data0,
                            order0,
                            state_of(*self),
                        )) =~= values_v(results@) + sp_all(data0, order0, state_of(*self)));
                    }
                },
                Err(_) => {
                    proof {
                        assert(sp_all(data0, order0, sb) =~= Seq::<DV>::empty());
                        assert(values_v(results@) + Seq::<DV>::empty() =~= values_v(results@));
                    }
                    break;
                },
            }
        }
        results
    }
}

/// Appends a copy of each of `vals` to `results`.
fn append_copies(results: &mut Vec<Decoded>, vals: &Vec<Decoded>, limit: usize)
    requires
        forall|i: int|
            0 <= i < vals@.len() ==> byte_bound(#[trigger] vals@[i]) < limit && runs_fit(vals@[i]),
        forall|i: int|
            0 <= i < old(results)@.len() ==> byte_bound(#[trigger] old(results)@[i]) < limit
                && runs_fit(old(results)@[i]),
    ensures
        final(results)@.len() == old(results)@.len() + vals@.len(),
        final(results)@.subrange(0, old(results)@.len() as int) == old(results)@,
        old(results)@.len() == 0 && vals@.len() > 0 ==> same(final(results)@[0], vals@[0]),
        values_v(final(results)@) == values_v(old(results)@) + values_v(vals@),
        forall|i: int|
            0 <= i < final(results)@.len() ==> byte_bound(#[trigger] final(results)@[i]) < limit
                && runs_fit(final(results)@[i]),
{
    let ghost rs0 = results@;
    let ghost r0 = rs0.len();
    proof {
        assert(values_v(vals@).take(0) =~= Seq::<DV>::empty());
        assert(values_v(results@) + values_v(vals@).take(0) =~= values_v(results@));
        assert(results@.subrange(0, r0 as int) =~= rs0);
    }
    let mut k: usize = 0;
    while k < vals.len()
        invariant
            values_v(results@) == values_v(rs0) + values_v(vals@).take(k as int),
            results@.len() == r0 + k,
            rs0.len() == r0,
            rs0 == old(results)@,
            results@.subrange(0, r0 as int) == rs0,
            r0 == 0 && k >= 1 ==> same(results@[0], vals@[0]),
            k <= vals.len(),
            forall|i: int|
                0 <= i < vals@.len() ==> byte_bound(#[trigger] vals@[i]) < limit && runs_fit(
                    vals@[i],
                ),
            forall|i: int|
                0 <= i < results@.len() ==> byte_bound(#[trigger] results@[i]) < limit
                    && runs_fit(results@[i]),
        decreases vals.len() - k,
    {
        let c = copy_decoded(&vals[k]);
        proof {
            lemma_same_bound(c, vals@[k as int]);
            lemma_same_fit(c, vals@[k as int]);
        }
        let ghost before = results@;
        results.push(c);
        proof {
            lemma_same_dv(c, vals@[k as int]);
            lemma_values_push(before, c);
            assert(values_v(vals@).take(k + 1) =~= values_v(vals@).take(k as int).push(
                dv(vals@[k as int]),
            ));
            assert(values_v(rs0) + values_v(vals@).take(k + 1) =~= (values_v(rs0) + values_v(
                vals@,
            ).take(k as int)).push(dv(vals@[k as int])));
            assert forall|i: int| 0 <= i < results@.len() implies byte_bound(
                #[trigger] results@[i],
            ) < limit && runs_fit(results@[i]) by {
                if i < before.len() {
                    assert(results@[i] == before[i]);
                }
            }
            assert(results@.subrange(0, r0 as int) =~= before.subrange(0, r0 as int));
            if r0 == 0 && k >= 1 {
                assert(results@[0] == before[0]);
            }
        }
        k = k + 1;
    }
    proof {
        assert(values_v(vals@).take(vals@.len() as int) =~= values_v(vals@));
    }
}

// ---------------------------------------------------------------------------
// JSON rendering
// ---------------------------------------------------------------------------

/// Whether a value is an NSData object.
pub open spec fn is_data(d: Decoded) -> bool {
    d matches Decoded::Object(o) && *o matches DecodedObject::Data(_)
}

/// The JSON form of a decoded value whose byte payloads are all empty: an
/// attributed string becomes `{"string", "runs"}`, each run
/// `{"range": [offset, length], "attributes": {...}}`; a dictionary becomes
/// an object of its string-keyed entries; NSString, numbers and plain values
/// become the value; byte arrays and other objects become null.
pub open spec fn json_of(d: Decoded) -> JsonModel
    decreases d,
{
    match d {
        Decoded::Null => JsonModel::Null,
        Decoded::Int(n) => JsonModel::Int(n as int),
        Decoded::Real(x) => JsonModel::Real(x),
        Decoded::Str(s) => JsonModel::Str(s@),
        Decoded::Bytes(_) => JsonModel::Null,
        Decoded::Object(o) => object_json(*o),
    }
}

pub open spec fn object_json(o: DecodedObject) -> JsonModel
    decreases o,
{
    match o {
        DecodedObject::String(s) => JsonModel::Str(s@),
        DecodedObject::Number(v) => json_of(v),
        DecodedObject::AttributedString { string, runs } => JsonModel::Object(
            seq![("string"@, JsonModel::Str(string@)), ("runs"@, JsonModel::Array(runs_json(runs@)))],
        ),
        DecodedObject::Dictionary(p) => JsonModel::Object(object_of(dict_entries(p@))),
        _ => JsonModel::Null,
    }
}

pub open spec fn runs_json(rs: Seq<AttrRun>) -> Seq<JsonModel>
    decreases rs,
{
    if rs.len() == 0 {
        Seq::empty()
    } else {
        runs_json(rs.subrange(0, rs.len() - 1)).push(run_json(rs[rs.len() - 1]))
    }
}

pub open spec fn run_json(r: AttrRun) -> JsonModel
    decreases r,
{
    JsonModel::Object(
        seq![
            ("range"@, JsonModel::Array(seq![JsonModel::Int(r.offset as int), JsonModel::Int(r.length as int)])),
            ("attributes"@, JsonModel::Object(object_of(attr_entries(r.attributes@)))),
        ],
    )
}

/// The entries of an attribute list; an NSData attribute whose payload
/// renders as null is left out.
pub open spec fn attr_entries(a: Seq<(String, Decoded)>) -> Seq<(Seq<char>, JsonModel)>
    decreases a,
{
    if a.len() == 0 {
        Seq::empty()
    } else {
        let rest = attr_entries(a.subrange(0, a.len() - 1));
        let last = a[a.len() - 1];
        if is_data(last.1) && json_of(last.1) is Null {
            rest
        } else {
            rest.push((last.0@, json_of(last.1)))
        }
    }
}

/// The entries of a dictionary whose keys are strings.
pub open spec fn dict_entries(p: Seq<(Decoded, Decoded)>) -> Seq<(Seq<char>, JsonModel)>
    decreases p,
{
    if p.len() == 0 {
        Seq::empty()
    } else {
        let rest = dict_entries(p.subrange(0, p.len() - 1));
        let last = p[p.len() - 1];
        match dict_key(last.0) {
            Some(k) => rest.push((k, json_of(last.1))),
            None => rest,
        }
    }
}

// --- bounds of parts -----------------------------------------------------------

proof fn lemma_pairs_bound_index(p: Seq<(Decoded, Decoded)>, i: int)
    requires
        0 <= i < p.len(),
    ensures
        byte_bound(p[i].0) <= pairs_byte_bound(p),
        byte_bound(p[i].1) <= pairs_byte_bound(p),
    decreases p.len(),
{
    if i < p.len() - 1 {
        lemma_pairs_bound_index(p.subrange(0, p.len() - 1), i);
    }
}

proof fn lemma_attrs_bound_index(a: Seq<(String, Decoded)>, i: int)
    requires
        0 <= i < a.len(),
    ensures
        byte_bound(a[i].1) <= attrs_byte_bound(a),
    decreases a.len(),
{
    if i < a.len() - 1 {
        lemma_attrs_bound_index(a.subrange(0, a.len() - 1), i);
    }
}

proof fn lemma_runs_bound_index(rs: Seq<AttrRun>, i: int)
    requires
        0 <= i < rs.len(),
    ensures
        attrs_byte_bound(rs[i].attributes@) <= runs_byte_bound(rs),
    decreases rs.len(),
{
    if i < rs.len() - 1 {
        lemma_runs_bound_index(rs.subrange(0, rs.len() - 1), i);
    }
}

/// The longest byte payload in a sequence of values.
pub open spec fn seq_byte_bound(s: Seq<Decoded>) -> nat
    decreases s.len(),
{
    if s.len() == 0 {
        0
    } else {
        max3(byte_bound(s[s.len() - 1]), 0, seq_byte_bound(s.subrange(0, s.len() - 1)))
    }
}

proof fn lemma_seq_bound_index(s: Seq<Decoded>)
    ensures
        forall|i: int| 0 <= i < s.len() ==> byte_bound(#[trigger] s[i]) <= seq_byte_bound(s),
    decreases s.len(),
{
    if s.len() > 0 {
        let t = s.subrange(0, s.len() - 1);
        lemma_seq_bound_index(t);
        assert forall|i: int| 0 <= i < s.len() implies byte_bound(#[trigger] s[i])
            <= seq_byte_bound(s) by {
            if i < s.len() - 1 {
                assert(s[i] == t[i]);
            }
        }
    }
}

proof fn lemma_seq_bound_below(s: Seq<Decoded>, n: nat)
    requires
        s.len() > 0,
        forall|i: int| 0 <= i < s.len() ==> byte_bound(#[trigger] s[i]) < n,
    ensures
        seq_byte_bound(s) < n,
    decreases s.len(),
{
    let t = s.subrange(0, s.len() - 1);
    assert(byte_bound(s[s.len() - 1]) < n);
    if t.len() > 0 {
        assert forall|i: int| 0 <= i < t.len() implies byte_bound(#[trigger] t[i]) < n by {
            assert(t[i] == s[i]);
        }
        lemma_seq_bound_below(t, n);
    } else {
        assert(seq_byte_bound(t) == 0);
    }
}

// --- rendering --------------------------------------------------------------------

/// The JSON form of a decoded value.  An NSData payload is decoded again as
/// a typedstream; it renders as that decoding, or null if there is none.
pub fn decoded_to_json(val: &Decoded) -> (r: Json)
    ensures
        byte_bound(*val) == 0 ==> json_view(r) == json_of(*val),
        *val matches Decoded::Object(o) ==> (*o matches DecodedObject::AttributedString {
            string,
            runs,
        } ==> (r matches Json::Object(f) && f@.len() == 2 && f@[1].0@ == "runs"@ && (f@[1].1 matches Json::Array(v)
            && v@.len() == runs@.len() && forall|i: int|
            0 <= i < v@.len() ==> range_rendered(#[trigger] v@[i], runs@[i])))),
    decreases byte_bound(*val), 1int, *val,
{
    match val {
        Decoded::Null => Json::Null,
        Decoded::Int(n) => Json::Int(*n),
        Decoded::Real(x) => Json::Real(*x),
        Decoded::Str(s) => Json::Str(s.clone()),
        Decoded::Bytes(_) => Json::Null,
        Decoded::Object(obj) => match &**obj {
            DecodedObject::String(s) => Json::Str(s.clone()),
            DecodedObject::Number(v) => decoded_to_json(v),
            DecodedObject::Data(bytes) => match decode_attributed_body(bytes.as_slice()) {
                Some(j) => j,
                None => Json::Null,
            },
            DecodedObject::AttributedString { string, runs } => {
                let rendered = runs_to_json(runs);
                let mut fields: Vec<(String, Json)> = Vec::new();
                fields.push(("string".to_owned(), Json::Str(string.clone())));
                fields.push(("runs".to_owned(), Json::Array(rendered)));
                proof {
                    lemma_entry_views(fields@);
                    lemma_json_views(rendered@);
                    if byte_bound(*val) == 0 {
                        assert(entry_views(fields@) =~= seq![
                            ("string"@, JsonModel::Str(string@)),
                            ("runs"@, JsonModel::Array(runs_json(runs@))),
                        ]);
                    }
                }
                Json::Object(fields)
            },
            DecodedObject::Dictionary(pairs) => Json::Object(dict_to_json(pairs)),
            DecodedObject::Generic(_) => Json::Null,
        },
    }
}

/// The JSON forms of attribute runs.
fn runs_to_json(runs: &Vec<AttrRun>) -> (r: Vec<Json>)
    ensures
        runs_byte_bound(runs@) == 0 ==> json_views(r@) == runs_json(runs@),
        r@.len() == runs@.len(),
        forall|i: int| 0 <= i < r@.len() ==> range_rendered(#[trigger] r@[i], runs@[i]),
    decreases runs_byte_bound(runs@), 1int, *runs,
{
    let mut out: Vec<Json> = Vec::new();
    let mut k: usize = 0;
    while k < runs.len()
        invariant
            k <= runs.len(),
            out@.len() == k,
            forall|i: int| 0 <= i < k ==> range_rendered(#[trigger] out@[i], runs@[i]),
            runs_byte_bound(runs@) == 0 ==> json_views(out@) == runs_json(
                runs@.subrange(0, k as int),
            ),
        decreases runs.len() - k,
    {
        proof {
            lemma_runs_bound_index(runs@, k as int);
            assert(decreases_to!(*runs => runs[k as int]));
            assert(runs@.subrange(0, k + 1).subrange(0, k as int) =~= runs@.subrange(0, k as int));
        }
        let run = &runs[k];
        let attrs = attrs_to_json(&run.attributes);
        let mut range: Vec<Json> = Vec::new();
        range.push(Json::Uint(run.offset as u64));
        range.push(Json::Uint(run.length as u64));
        let mut fields: Vec<(String, Json)> = Vec::new();
        fields.push(("range".to_owned(), Json::Array(range)));
        fields.push(("attributes".to_owned(), Json::Object(attrs)));
        let j = Json::Object(fields);
        proof {
            lemma_json_views(range@);
            lemma_entry_views(fields@);
            if runs_byte_bound(runs@) == 0 {
                assert(json_views(range@) =~= seq![
                    JsonModel::Int(run.offset as int),
                    JsonModel::Int(run.length as int),
                ]);
                assert(entry_views(fields@) =~= seq![
                    ("range"@, JsonModel::Array(json_views(range@))),
                    ("attributes"@, JsonModel::Object(object_of(attr_entries(run.attributes@)))),
                ]);
                assert(json_view(j) == run_json(runs@[k as int]));
            }
        }
        proof {
            lemma_json_views(range@);
            assert(json_views(range@) =~= seq![
                JsonModel::Int(run.offset as int),
                JsonModel::Int(run.length as int),
            ]);
            assert(range_rendered(j, runs@[k as int]));
        }
        let ghost o0 = out@;
        out.push(j);
        proof {
            assert(out@.subrange(0, out@.len() - 1) =~= o0);
            assert forall|i: int| 0 <= i < k + 1 implies range_rendered(#[trigger] out@[i], runs@[i]) by {
                if i < k {
                    assert(out@[i] == o0[i]);
                }
            }
        }
        k = k + 1;
    }
    assert(runs@.subrange(0, runs@.len() as int) =~= runs@);
    out
}

/// The JSON `j` of an attribute run is an object whose first entry is
/// `"range": [offset, length]` of the run `r`.
pub open spec fn range_rendered(j: Json, r: AttrRun) -> bool {
    j matches Json::Object(f) && f@.len() == 2 && f@[0].0@ == "range"@ && json_view(f@[0].1)
        == JsonModel::Array(seq![JsonModel::Int(r.offset as int), JsonModel::Int(r.length as int)])
}

/// Each run of an attributed string renders with the range `[offset,
/// length]` of that run, in the order of the runs: the second number is the
/// run's length, not where it ends.
pub proof fn law_attributed_run_ranges(string: String, runs: Vec<AttrRun>)
    ensures
        json_of(Decoded::Object(Box::new(DecodedObject::AttributedString { string, runs })))
            matches JsonModel::Object(f) && f.len() == 2 && f[0] == ("string"@, JsonModel::Str(
            string@,
        )) && f[1].0 == "runs"@ && (f[1].1 matches JsonModel::Array(v) && v.len() == runs@.len()
            && forall|i: int|
            0 <= i < v.len() ==> (#[trigger] v[i] matches JsonModel::Object(g) && g.len() == 2
                && g[0] == ("range"@, JsonModel::Array(
                seq![JsonModel::Int(runs@[i].offset as int), JsonModel::Int(runs@[i].length as int)],
            )))),
{
    lemma_runs_json_index(runs@);
}

proof fn lemma_runs_json_index(rs: Seq<AttrRun>)
    ensures
        runs_json(rs).len() == rs.len(),
        forall|i: int| 0 <= i < rs.len() ==> #[trigger] runs_json(rs)[i] == run_json(rs[i]),
    decreases rs.len(),
{
    if rs.len() > 0 {
        let d = rs.subrange(0, rs.len() - 1);
        lemma_runs_json_index(d);
        assert forall|i: int| 0 <= i < rs.len() implies #[trigger] runs_json(rs)[i] == run_json(rs[i]) by {
            if i < rs.len() - 1 {
                assert(d[i] == rs[i]);
            }
        }
    }
}

/// The object entries of an attribute list.
fn attrs_to_json(attrs: &Vec<(String, Decoded)>) -> (r: Vec<(String, Json)>)
    ensures
        attrs_byte_bound(attrs@) == 0 ==> entry_views(r@) == object_of(attr_entries(attrs@)),
    decreases attrs_byte_bound(attrs@), 1int, *attrs,
{
    let mut out: Vec<(String, Json)> = Vec::new();
    let mut k: usize = 0;
    while k < attrs.len()
        invariant
            k <= attrs.len(),
            attrs_byte_bound(attrs@) == 0 ==> entry_views(out@) == object_of(
                attr_entries(attrs@.subrange(0, k as int)),
            ),
        decreases attrs.len() - k,
    {
        proof {
            lemma_attrs_bound_index(attrs@, k as int);
            assert(decreases_to!(*attrs => attrs[k as int]));
            assert(attrs@.subrange(0, k + 1).subrange(0, k as int) =~= attrs@.subrange(
                0,
                k as int,
            ));
        }
        let val = &attrs[k].1;
        let json_val = decoded_to_json(val);
        let skip = match &json_val {
            Json::Null => match val {
                Decoded::Object(o) => match &**o {
                    DecodedObject::Data(_) => true,
                    _ => false,
                },
                _ => false,
            },
            _ => false,
        };
        if !skip {
            proof {
                if attrs_byte_bound(attrs@) == 0 {
                    lemma_object_of_push(
                        attr_entries(attrs@.subrange(0, k as int)),
                        (attrs@[k as int].0@, json_of(*val)),
                    );
                }
            }
            object_set(&mut out, attrs[k].0.clone(), json_val);
        }
        k = k + 1;
    }
    assert(attrs@.subrange(0, attrs@.len() as int) =~= attrs@);
    out
}

/// The object entries of a dictionary.
fn dict_to_json(pairs: &Vec<(Decoded, Decoded)>) -> (r: Vec<(String, Json)>)
    ensures
        pairs_byte_bound(pairs@) == 0 ==> entry_views(r@) == object_of(dict_entries(pairs@)),
    decreases pairs_byte_bound(pairs@), 1int, *pairs,
{
    let mut out: Vec<(String, Json)> = Vec::new();
    let mut k: usize = 0;
    while k < pairs.len()
        invariant
            k <= pairs.len(),
            pairs_byte_bound(pairs@) == 0 ==> entry_views(out@) == object_of(
                dict_entries(pairs@.subrange(0, k as int)),
            ),
        decreases pairs.len() - k,
    {
        proof {
            lemma_pairs_bound_index(pairs@, k as int);
            assert(decreases_to!(*pairs => pairs[k as int]));
            assert(pairs@.subrange(0, k + 1).subrange(0, k as int) =~= pairs@.subrange(
                0,
                k as int,
            ));
        }
        let key: Option<String> = match &pairs[k].0 {
            Decoded::Object(ko) => match &**ko {
                DecodedObject::String(s) => Some(s.clone()),
                _ => None,
            },
            Decoded::Str(s) => Some(s.clone()),
            _ => None,
        };
        match key {
            Some(key) => {
                let j = decoded_to_json(&pairs[k].1);
                proof {
                    if pairs_byte_bound(pairs@) == 0 {
                        lemma_object_of_push(
                            dict_entries(pairs@.subrange(0, k as int)),
                            (key@, json_of(pairs@[k as int].1)),
                        );
                    }
                }
                object_set(&mut out, key, j);
            },
            None => {},
        }
        k = k + 1;
    }
    assert(pairs@.subrange(0, pairs@.len() as int) =~= pairs@);
    out
}

/// Whether a value is an NSAttributedString.
pub open spec fn is_attributed(d: Decoded) -> bool {
    d matches Decoded::Object(o) && *o matches DecodedObject::AttributedString { .. }
}

/// The attributed strings among some values, in order.
pub open spec fn attributed_values(s: Seq<Decoded>) -> Seq<Decoded>
    decreases s.len(),
{
    if s.len() == 0 {
        Seq::empty()
    } else {
        let rest = attributed_values(s.subrange(0, s.len() - 1));
        if is_attributed(s[s.len() - 1]) {
            rest.push(s[s.len() - 1])
        } else {
            rest
        }
    }
}

/// The values a decoded body renders: its attributed strings if it has any,
/// otherwise all of them.
pub open spec fn rendered_values(s: Seq<Decoded>) -> Seq<Decoded> {
    if attributed_values(s).len() > 0 {
        attributed_values(s)
    } else {
        s
    }
}

proof fn lemma_attributed_values(s: Seq<Decoded>)
    ensures
        attributed_values(s).len() <= s.len(),
        forall|i: int|
            0 <= i < attributed_values(s).len() ==> exists|j: int|
                0 <= j < s.len() && #[trigger] attributed_values(s)[i] == s[j],
    decreases s.len(),
{
    if s.len() > 0 {
        let t = s.subrange(0, s.len() - 1);
        lemma_attributed_values(t);
        assert forall|i: int| 0 <= i < attributed_values(s).len() implies exists|j: int|
            0 <= j < s.len() && #[trigger] attributed_values(s)[i] == s[j] by {
            if i < attributed_values(t).len() {
                let j = choose|j: int| 0 <= j < t.len() && attributed_values(t)[i] == t[j];
                assert(s[j] == t[j]);
            } else {
                assert(attributed_values(s)[i] == s[s.len() - 1]);
            }
        }
    }
}

/// Renders decoded values as a JSON array: the attributed strings among
/// them, or all of them if there is none; nothing if there are no values.
pub fn values_to_json(values: &Vec<Decoded>) -> (r: Option<Json>)
    ensures
        r is None <==> values@.len() == 0,
        r matches Some(j) ==> (j matches Json::Array(v) && v@.len() == rendered_values(
            values@,
        ).len() && forall|i: int|
            0 <= i < v@.len() && byte_bound(#[trigger] rendered_values(values@)[i]) == 0
                ==> json_view(v@[i]) == json_of(rendered_values(values@)[i])),
    decreases seq_byte_bound(values@), 2int, Decoded::Null,
{
    proof {
        lemma_seq_bound_index(values@);
    }
    let mut attributed: Vec<Json> = Vec::new();
    let mut k: usize = 0;
    while k < values.len()
        invariant
            k <= values.len(),
            forall|i: int|
                0 <= i < values@.len() ==> byte_bound(#[trigger] values@[i]) <= seq_byte_bound(
                    values@,
                ),
            attributed@.len() == attributed_values(values@.subrange(0, k as int)).len(),
            forall|i: int|
                0 <= i < attributed@.len() && byte_bound(
                    #[trigger] attributed_values(values@.subrange(0, k as int))[i],
                ) == 0 ==> json_view(attributed@[i]) == json_of(
                    attributed_values(values@.subrange(0, k as int))[i],
                ),
        decreases values.len() - k,
    {
        proof {
            assert(values@.subrange(0, k + 1).subrange(0, k as int) =~= values@.subrange(
                0,
                k as int,
            ));
        }
        let is_attr = match &values[k] {
            Decoded::Object(o) => match &**o {
                DecodedObject::AttributedString { .. } => true,
                _ => false,
            },
            _ => false,
        };
        if is_attr {
            attributed.push(decoded_to_json(&values[k]));
        }
        k = k + 1;
    }
    proof {
        assert(values@.subrange(0, values@.len() as int) =~= values@);
    }
    if attributed.len() > 0 {
        return Some(Json::Array(attributed));
    }
    let mut all: Vec<Json> = Vec::new();
    let mut k: usize = 0;
    while k < values.len()
        invariant
            k <= values.len(),
            forall|i: int|
                0 <= i < values@.len() ==> byte_bound(#[trigger] values@[i]) <= seq_byte_bound(
                    values@,
                ),
            all@.len() == k,
            forall|i: int|
                0 <= i < k && byte_bound(#[trigger] values@[i]) == 0 ==> json_view(all@[i])
                    == json_of(values@[i]),
        decreases values.len() - k,
    {
        all.push(decoded_to_json(&values[k]));
        k = k + 1;
    }
    if all.len() > 0 {
        Some(Json::Array(all))
    } else {
        None
    }
}

proof fn lemma_integer_at_bounds(data: Seq<u8>, pos: int, order: ByteOrder, signed: bool)
    ensures
        integer_at(data, pos, order, signed) matches Some((v, p)) ==> pos < p <= data.len(),
{
}

proof fn lemma_header_end_bounds(data: Seq<u8>)
    ensures
        header_end(data) matches Some((o, p)) ==> 0 < p <= data.len(),
{
    lemma_integer_at_bounds(data, 0, ByteOrder::Big, false);
    if let Some((v, p1)) = integer_at(data, 0, ByteOrder::Big, false) {
        lemma_integer_at_bounds(data, p1, ByteOrder::Big, false);
        if let Some((n, p2)) = integer_at(data, p1, ByteOrder::Big, false) {
            if let Some(o) = signature_order(data.subrange(p2, p2 + 11)) {
                lemma_integer_at_bounds(data, p2 + 11, o, false);
            }
        }
    }
}

/// The decoded values of a stream, if its header is valid.
pub fn decode_values(data: &[u8]) -> (r: Option<Vec<Decoded>>)
    ensures
        r is None <==> header_end(data@) is None,
        r matches Some(v) ==> forall|i: int|
            0 <= i < v@.len() ==> byte_bound(#[trigger] v@[i]) < data@.len() && runs_fit(v@[i]),
        header_end(data@) matches Some((o, p)) ==> (r matches Some(v) && (!group_header_reads(
            data@,
            o,
            p,
            Seq::empty(),
        ) ==> v@.len() == 0) && (scalar_group_reads(data@, o, p, Seq::empty()) ==> v@.len()
            >= group_encodings(data@, o, p, Seq::empty()).len())),
        header_end(data@) matches Some((o, p)) ==> (string_object_group(data@, o, p, Seq::empty())
            matches Some((text, _, _)) ==> (r matches Some(v) && v@.len() >= 1 && string_object_is(
            v@[0],
            text,
        ))),
        header_end(data@) matches Some((o, p)) ==> (string_object_group(data@, o, p, Seq::empty())
            matches Some((text, e, _)) ==> (e == data@.len() ==> (r matches Some(v) && v@.len() == 1
            && string_object_is(v@[0], text)))),
        header_end(data@) matches Some((o, p)) ==> (group_has_unknown(data@, o, p, Seq::empty())
            ==> (r matches Some(v) && v@.len() == 0)),
        decoded(data@) == match r {
            Some(v) => Some(values_v(v@)),
            None => None::<Seq<DV>>,
        },
{
    let mut decoder = match Decoder::new(data) {
        Ok(d) => d,
        Err(_) => return None,
    };
    proof {
        lemma_header_end_bounds(data@);
        assert(table_view(decoder.strings@) =~= Seq::<Seq<u8>>::empty());
        assert(objects_v(decoder.objects@) =~= Seq::<Option<DV>>::empty());
        assert(state_of(decoder) == DState {
            pos: decoder.pos as int,
            strings: Seq::empty(),
            objects: Seq::empty(),
        });
    }
    Some(decoder.decode_all())
}

/// Decodes an attributedBody blob to JSON: an array of its attributed
/// strings (each with its text and runs), or of all its values if it has no
/// attributed string.  Nothing for an empty or invalid blob, or one without
/// values.
#[verifier::spinoff_prover]
#[verifier::rlimit(40)]
pub fn decode_attributed_body(data: &[u8]) -> (r: Option<Json>)
    ensures
        rendered_body(data@, json_opt(r)),
        data@.len() > 0 ==> match decoded(data@) {
            Some(m) => (r is None <==> m.len() == 0),
            None => r is None,
        },
        json_opt(r) matches Some(JsonModel::Array(v)) ==> exists|vs: Seq<Decoded>|
            decoded(data@) == Some(values_v(vs)) && renders_values(vs, v),
    decreases data@.len(), 0int, Decoded::Null,
{
    if data.len() == 0 {
        return None;
    }
    let values = match decode_values(data) {
        Some(v) => v,
        None => return None,
    };
    proof {
        if values@.len() > 0 {
            lemma_seq_bound_below(values@, data@.len());
        }
        lemma_attributed_values(values@);
    }
    let r = values_to_json(&values);
    proof {
        if r is Some {
            assert(values@.len() > 0);
        }
        if r is Some && r->0 is Array {
            let v = r->0->Array_0;
            lemma_json_views(v@);
            assert(renders_values(values@, json_views(v@)));
            assert forall|k: int| 0 <= k < values@.len() implies runs_fit(#[trigger] values@[k]) by {
                assert(byte_bound(values@[k]) < data@.len());
            }
            assert(json_opt(r) == Some(JsonModel::Array(json_views(v@))));
            assert(exists|vs: Seq<Decoded>|
                renders_values(vs, json_views(v@)) && forall|k: int|
                    0 <= k < vs.len() ==> runs_fit(#[trigger] vs[k]));
            assert(decoded(data@) == Some(values_v(values@)) && renders_values(
                values@,
                json_views(v@),
            ));
        }
        if values@.len() == 1 && (values@[0] matches Decoded::Object(o) && *o is String) {
            let x = values@[0];
            assert(values@.subrange(0, values@.len() - 1) =~= Seq::<Decoded>::empty());
            assert(attributed_values(Seq::<Decoded>::empty()) == Seq::<Decoded>::empty());
            assert(!is_attributed(x));
            assert(attributed_values(values@) =~= Seq::<Decoded>::empty());
            assert(rendered_values(values@) == values@);
            assert(byte_bound(x) == 0);
            if r is Some && r->0 is Array {
                let v = r->0->Array_0;
                assert(v@.subrange(0, v@.len() - 1) =~= Seq::<Json>::empty());
                assert(json_views(Seq::<Json>::empty()) == Seq::<JsonModel>::empty());
                assert(byte_bound(rendered_values(values@)[0]) == 0);
                assert(json_view(v@[0]) == json_of(x));
                assert(json_views(v@) =~= seq![json_of(x)]);
            }
        }
    }
    proof {
        let jr = json_opt(r);
        assert(jr matches Some(j) ==> (j matches JsonModel::Array(v) && v.len() > 0));
        assert(jr matches Some(JsonModel::Array(v)) ==> exists|vs: Seq<Decoded>|
            renders_values(vs, v) && forall|k: int| 0 <= k < vs.len() ==> runs_fit(#[trigger] vs[k]));
        assert(header_end(data@) matches Some((o, p)) ==> (first_group_fails(data@, o, p) ==> jr is None));
        assert(header_end(data@) matches Some((o, p)) ==> (scalar_group_reads(data@, o, p, Seq::empty())
            && group_encodings(data@, o, p, Seq::empty()).len() > 0 ==> jr is Some));
        assert(header_end(data@) matches Some((o, p)) ==> (string_object_group(data@, o, p, Seq::empty())
            is Some ==> jr is Some));
        assert(header_end(data@) matches Some((o, p)) ==> (string_object_group(data@, o, p, Seq::empty())
            matches Some((text, e, _)) ==> (e == data@.len() ==> jr == Some(
            JsonModel::Array(seq![JsonModel::Str(text)]),
        ))));
    }
    r
}

/// The text a decoded value offers: the non-empty text of an
/// NSAttributedString or NSString.
pub open spec fn text_of(d: Decoded) -> Option<Seq<char>> {
    match d {
        Decoded::Object(o) => match *o {
            DecodedObject::AttributedString { string, .. } => if string@.len() > 0 {
                Some(string@)
            } else {
                None
            },
            DecodedObject::String(s) => if s@.len() > 0 {
                Some(s@)
            } else {
                None
            },
            _ => None,
        },
        _ => None,
    }
}

/// The first text any of the values offers, from index `i` on.
pub open spec fn first_text_from(s: Seq<Decoded>, i: int) -> Option<Seq<char>>
    decreases s.len() - i,
{
    if i < 0 || i >= s.len() {
        None
    } else {
        match text_of(s[i]) {
            Some(t) => Some(t),
            None => first_text_from(s, i + 1),
        }
    }
}

/// The first non-empty text of an attributed string or string among the
/// values.
pub fn first_text(values: &Vec<Decoded>) -> (r: Option<String>)
    ensures
        match first_text_from(values@, 0) {
            Some(t) => r matches Some(s) && s@ == t,
            None => r is None,
        },
{
    let mut k: usize = 0;
    while k < values.len()
        invariant
            k <= values.len(),
            first_text_from(values@, k as int) == first_text_from(values@, 0),
        decreases values.len() - k,
    {
        match &values[k] {
            Decoded::Object(obj) => match &**obj {
                DecodedObject::AttributedString { string, .. } => {
                    if !string.as_str().is_empty() {
                        return Some(string.clone());
                    }
                },
                DecodedObject::String(s) => {
                    if !s.as_str().is_empty() {
                        return Some(s.clone());
                    }
                },
                _ => {},
            },
            _ => {},
        }
        k = k + 1;
    }
    None
}

/// The plain text of an attributedBody blob: the first non-empty text of
/// its attributed strings and strings.  Nothing for an empty or invalid
/// blob, or one without text.
pub fn extract_text(data: &[u8]) -> (r: Option<String>)
    ensures
        text_opt(r) == stream_text(decoded(data@)),
        extracted_text(data@, text_opt(r)),
{
    if data.len() == 0 {
        return None;
    }
    let values = match decode_values(data) {
        Some(v) => v,
        None => return None,
    };
    proof {
        if values@.len() > 0 {
            assert(first_text_from(values@, 0) == match text_of(values@[0]) {
                Some(t) => Some(t),
                None => first_text_from(values@, 1),
            });
        }
    }
    let r = first_text(&values);
    proof {
        if r is Some {
            lemma_first_text_nonempty(values@, 0);
        }
        lemma_first_text_v(values@, 0);
    }
    r
}

proof fn lemma_first_text_nonempty(s: Seq<Decoded>, i: int)
    ensures
        first_text_from(s, i) matches Some(t) ==> t.len() > 0,
    decreases s.len() - i,
{
    if 0 <= i < s.len() {
        lemma_first_text_nonempty(s, i + 1);
    }
}

} // verus!

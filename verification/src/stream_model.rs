//! What a typedstream decodes to, written as spec functions over the bytes:
//! the model of a decoded value, the model of the decoder's state, and one
//! spec function per step of the decoder.
use vstd::prelude::*;
use crate::json::RealValue;
use crate::typedstream::{
    array_encoding, encodings, head_value, header_end, integer_after, integer_at, real_after,
    shared_after, struct_encoding, table_view, unshared_after, utf16_len, utf8_lossy, AttrRun,
    ByteOrder, Decoded, DecodedObject, Decoder, FIRST_REF, TAG_END_OF_OBJECT, TAG_NEW, TAG_NIL,
    same, same_object, same_pairs, same_attrs, same_runs, attrs_from_pairs, dict_key, dict_attrs,
    text_of, first_text_from,
};

verus! {

// ---------------------------------------------------------------------------
// Models of decoded values
// ---------------------------------------------------------------------------

/// A decoded value, by content.
pub enum DV {
    Null,
    Int(i64),
    Real(RealValue),
    Str(Seq<char>),
    Bytes(Seq<u8>),
    Obj(Box<OV>),
}

/// A decoded object, by content.
pub enum OV {
    String(Seq<char>),
    Attributed(Seq<char>, Seq<RunV>),
    Dictionary(Seq<(DV, DV)>),
    Data(Seq<u8>),
    Number(DV),
    Generic(Seq<char>),
}

/// An attribute run, by content.
pub struct RunV {
    pub offset: int,
    pub length: int,
    pub attrs: Seq<(Seq<char>, DV)>,
}

/// The model of a decoded value.
pub open spec fn dv(d: Decoded) -> DV
    decreases d,
{
    match d {
        Decoded::Null => DV::Null,
        Decoded::Int(n) => DV::Int(n),
        Decoded::Real(x) => DV::Real(x),
        Decoded::Str(s) => DV::Str(s@),
        Decoded::Bytes(b) => DV::Bytes(b@),
        Decoded::Object(o) => DV::Obj(Box::new(ov(*o))),
    }
}

/// The model of a decoded object.
pub open spec fn ov(o: DecodedObject) -> OV
    decreases o,
{
    match o {
        DecodedObject::String(s) => OV::String(s@),
        DecodedObject::AttributedString { string, runs } => OV::Attributed(string@, runs_v(runs@)),
        DecodedObject::Dictionary(p) => OV::Dictionary(pairs_v(p@)),
        DecodedObject::Data(b) => OV::Data(b@),
        DecodedObject::Number(x) => OV::Number(dv(x)),
        DecodedObject::Generic(s) => OV::Generic(s@),
    }
}

/// The model of a list of dictionary entries.
pub open spec fn pairs_v(p: Seq<(Decoded, Decoded)>) -> Seq<(DV, DV)>
    decreases p,
{
    if p.len() == 0 {
        Seq::empty()
    } else {
        pairs_v(p.subrange(0, p.len() - 1)).push((dv(p[p.len() - 1].0), dv(p[p.len() - 1].1)))
    }
}

/// The model of an attribute list.
pub open spec fn attrs_v(a: Seq<(String, Decoded)>) -> Seq<(Seq<char>, DV)>
    decreases a,
{
    if a.len() == 0 {
        Seq::empty()
    } else {
        attrs_v(a.subrange(0, a.len() - 1)).push((a[a.len() - 1].0@, dv(a[a.len() - 1].1)))
    }
}

/// The model of a list of attribute runs.
pub open spec fn runs_v(rs: Seq<AttrRun>) -> Seq<RunV>
    decreases rs,
{
    if rs.len() == 0 {
        Seq::empty()
    } else {
        runs_v(rs.subrange(0, rs.len() - 1)).push(
            RunV {
                offset: rs[rs.len() - 1].offset as int,
                length: rs[rs.len() - 1].length as int,
                attrs: attrs_v(rs[rs.len() - 1].attributes@),
            },
        )
    }
}

/// The model of a list of decoded values.
pub open spec fn values_v(s: Seq<Decoded>) -> Seq<DV> {
    s.map_values(|d: Decoded| dv(d))
}

// ---------------------------------------------------------------------------
// The decoder's state
// ---------------------------------------------------------------------------

/// What the decoder knows at a point of the stream: the read position, the
/// shared string table, and the object table.
pub struct DState {
    pub pos: int,
    pub strings: Seq<Seq<u8>>,
    pub objects: Seq<Option<DV>>,
}

/// The model of an object-table entry.
pub open spec fn opt_dv(x: Option<Decoded>) -> Option<DV> {
    match x {
        Some(d) => Some(dv(d)),
        None => None,
    }
}

/// The model of an object table.
pub open spec fn objects_v(o: Seq<Option<Decoded>>) -> Seq<Option<DV>> {
    o.map_values(|x: Option<Decoded>| opt_dv(x))
}

/// The state of a decoder.
pub open spec fn state_of(d: Decoder) -> DState {
    DState { pos: d.pos as int, strings: table_view(d.strings@), objects: objects_v(d.objects@) }
}

/// What a step that gives a value ended with: the value and the state, or
/// nothing when it failed.
pub open spec fn outcome(r: Result<Decoded, ()>, d: Decoder) -> Option<(DV, DState)> {
    match r {
        Ok(x) => Some((dv(x), state_of(d))),
        Err(_) => None,
    }
}

/// `s` at position `p`.
pub open spec fn at(s: DState, p: int) -> DState {
    DState { pos: p, ..s }
}

/// The head byte at the position of `s`.
pub open spec fn head_of(data: Seq<u8>, s: DState) -> i8 {
    head_value(data[s.pos]) as i8
}

/// `b` lies further on in the stream than `a`.
pub open spec fn ahead(data: Seq<u8>, a: DState, b: DState) -> bool {
    a.pos < b.pos <= data.len()
}

/// `b` lies no earlier in the stream than `a`.
pub open spec fn not_behind(data: Seq<u8>, a: DState, b: DState) -> bool {
    a.pos <= b.pos <= data.len()
}

/// The position is inside the stream or at its end.
pub open spec fn in_stream(data: Seq<u8>, s: DState) -> bool {
    0 <= s.pos <= data.len()
}

// ---------------------------------------------------------------------------
// Steps that do not nest
// ---------------------------------------------------------------------------

/// A value of a one-character code that holds no other value: a byte (`C`
/// unsigned, `c` signed), an integer (`SILQ` unsigned, `silq` signed), a
/// float or double (`f`, `d`), an unshared string (`+`), a shared string
/// (`%`, `:`) or nothing (`!`).
pub open spec fn sp_scalar(data: Seq<u8>, o: ByteOrder, s: DState, c: char) -> Option<(DV, DState)> {
    let pos = s.pos;
    if c == '!' {
        Some((DV::Null, s))
    } else if !(0 <= pos < data.len()) {
        None
    } else if c == 'C' {
        Some((DV::Int(data[pos] as i64), at(s, pos + 1)))
    } else if c == 'c' {
        Some((DV::Int(head_value(data[pos]) as i64), at(s, pos + 1)))
    } else if c == 'S' || c == 'I' || c == 'L' || c == 'Q' || c == 's' || c == 'i' || c == 'l'
        || c == 'q' {
        match integer_at(data, pos, o, c == 's' || c == 'i' || c == 'l' || c == 'q') {
            Some((v, p)) => Some((DV::Int(v as i64), at(s, p))),
            None => None,
        }
    } else if c == 'f' || c == 'd' {
        match real_after(data, pos + 1, o, c == 'd', head_of(data, s)) {
            Some((x, p)) => Some((DV::Real(x), at(s, p))),
            None => None,
        }
    } else if c == '+' {
        match unshared_after(data, pos + 1, o, head_of(data, s)) {
            Some((Some(b), p)) => Some((DV::Str(utf8_lossy(b)), at(s, p))),
            Some((None, p)) => Some((DV::Null, at(s, p))),
            None => None,
        }
    } else if c == '%' || c == ':' {
        match shared_after(data, pos + 1, o, s.strings, head_of(data, s)) {
            Some((Some(b), p, t)) => Some(
                (DV::Str(utf8_lossy(b)), DState { pos: p, strings: t, objects: s.objects }),
            ),
            Some((None, p, t)) => Some((DV::Null, DState { pos: p, strings: t, objects: s.objects })),
            None => None,
        }
    } else {
        None
    }
}

/// The object-table entry a reference number names.
pub open spec fn referenced_entry(objects: Seq<Option<DV>>, n: int) -> Option<DV> {
    if FIRST_REF <= n && n - FIRST_REF < objects.len() {
        objects[n - FIRST_REF]
    } else {
        None
    }
}

/// A C string after its head: nil, a new shared string (which also joins
/// the object table), or a reference to an object-table entry.
pub open spec fn sp_cstring(data: Seq<u8>, o: ByteOrder, s: DState, head: i8) -> Option<(DV, DState)> {
    if head == TAG_NIL {
        Some((DV::Null, s))
    } else if head == TAG_NEW {
        if 0 <= s.pos < data.len() {
            match shared_after(data, s.pos + 1, o, s.strings, head_of(data, s)) {
                Some((Some(b), p, t)) => Some(
                    (
                        DV::Str(utf8_lossy(b)),
                        DState {
                            pos: p,
                            strings: t,
                            objects: s.objects.push(Some(DV::Str(utf8_lossy(b)))),
                        },
                    ),
                ),
                _ => None,
            }
        } else {
            None
        }
    } else {
        match integer_after(data, s.pos, o, true, head) {
            Some((n, p)) => match referenced_entry(s.objects, n) {
                Some(d) => Some((d, at(s, p))),
                None => None,
            },
            None => None,
        }
    }
}

/// The rest of a class chain, from the head `head` on: each new class (a
/// shared string and a version) adds its name; the chain ends with nil or
/// with a reference, which names a class when the entry it names is a
/// string.  Gives the names, the class a reference names, and the state.
pub open spec fn sp_chain(
    data: Seq<u8>,
    o: ByteOrder,
    s: DState,
    head: i8,
    names: Seq<Seq<char>>,
) -> Option<(Seq<Seq<char>>, Option<Seq<char>>, DState)>
    decreases data.len() - s.pos,
{
    if !in_stream(data, s) {
        None
    } else if head == TAG_NEW {
        if s.pos < data.len() {
            match shared_after(data, s.pos + 1, o, s.strings, head_of(data, s)) {
                Some((Some(b), p, t)) => match integer_at(data, p, o, true) {
                    Some((_, q)) => if s.pos < q < data.len() {
                        sp_chain(
                            data,
                            o,
                            DState { pos: q + 1, strings: t, objects: s.objects },
                            head_value(data[q]) as i8,
                            names.push(utf8_lossy(b)),
                        )
                    } else {
                        None
                    },
                    None => None,
                },
                _ => None,
            }
        } else {
            None
        }
    } else if head == TAG_NIL {
        Some((names, None, s))
    } else {
        match integer_after(data, s.pos, o, true, head) {
            Some((n, p)) => Some(
                (
                    names,
                    match referenced_entry(s.objects, n) {
                        Some(DV::Str(name)) => Some(name),
                        _ => None,
                    },
                    at(s, p),
                ),
            ),
            None => None,
        }
    }
}

/// The names of a class chain as object-table entries.
pub open spec fn name_entries(names: Seq<Seq<char>>) -> Seq<Option<DV>> {
    names.map_values(|n: Seq<char>| Some(DV::Str(n)))
}

/// A class chain: its first new class, or else the class its reference
/// names; its new classes join the object table.
pub open spec fn sp_class(data: Seq<u8>, o: ByteOrder, s: DState) -> Option<(Option<Seq<char>>, DState)> {
    if !(0 <= s.pos < data.len()) {
        None
    } else {
        class_finish(sp_chain(data, o, at(s, s.pos + 1), head_of(data, s), Seq::empty()))
    }
}

/// A read class chain's outcome: its first new class, or else the class its
/// reference names; its new classes join the object table.
pub open spec fn class_finish(x: Option<(Seq<Seq<char>>, Option<Seq<char>>, DState)>) -> Option<(Option<Seq<char>>, DState)> {
    match x {
        Some((names, rc, s2)) => Some(
            (
                if names.len() > 0 {
                    Some(names[0])
                } else {
                    rc
                },
                DState { objects: s2.objects + name_entries(names), ..s2 },
            ),
        ),
        None => None,
    }
}

/// The texts of a list of strings.
pub open spec fn texts_v(names: Seq<String>) -> Seq<Seq<char>> {
    names.map_values(|x: String| x@)
}

// ---------------------------------------------------------------------------
// Steps that nest
// ---------------------------------------------------------------------------

/// The first component of the decreasing measure of the decoding steps.
pub open spec fn room(data: Seq<u8>, s: DState) -> int {
    2 * (data.len() - s.pos)
}

/// A value of the given type encoding.
pub open spec fn sp_value(data: Seq<u8>, o: ByteOrder, s: DState, enc: Seq<char>) -> Option<(DV, DState)>
    decreases room(data, s), enc.len(), 2int, 0int,
{
    if !in_stream(data, s) {
        None
    } else if enc.len() == 1 && enc[0] == '*' {
        if s.pos < data.len() {
            sp_cstring(data, o, at(s, s.pos + 1), head_of(data, s))
        } else {
            None
        }
    } else if enc.len() == 1 && enc[0] == '#' {
        match sp_class(data, o, s) {
            Some((Some(name), s2)) => Some((DV::Str(name), s2)),
            Some((None, s2)) => Some((DV::Null, s2)),
            None => None,
        }
    } else if enc.len() == 1 && enc[0] == '@' {
        sp_object(data, o, s)
    } else if enc.len() == 1 && (enc[0] != '[' && enc[0] != '{') {
        sp_scalar(data, o, s, enc[0])
    } else if enc.len() >= 1 && enc[0] == '[' {
        sp_array(data, o, s, enc)
    } else if enc.len() >= 1 && enc[0] == '{' {
        sp_struct(data, o, s, enc)
    } else {
        None
    }
}

/// An object: nil, a reference to an earlier object, or a new object (a
/// class chain, the class's contents, and an end-of-object tag), which
/// joins the object table at the entry reserved when it began.
pub open spec fn sp_object(data: Seq<u8>, o: ByteOrder, s: DState) -> Option<(DV, DState)>
    decreases room(data, s), 0int, 0int, 0int,
{
    if !(0 <= s.pos < data.len()) {
        None
    } else {
        let head = head_of(data, s);
        if head == TAG_NIL {
            Some((DV::Null, at(s, s.pos + 1)))
        } else if head != TAG_NEW {
            match integer_after(data, s.pos + 1, o, true, head) {
                Some((n, p)) => match referenced_entry(s.objects, n) {
                    Some(d) => Some((d, at(s, p))),
                    None => None,
                },
                None => None,
            }
        } else {
            let idx = s.objects.len() as int;
            let s1 = DState { pos: s.pos + 1, strings: s.strings, objects: s.objects.push(None) };
            match sp_class(data, o, s1) {
                Some((Some(name), s2)) => if s.pos < s2.pos <= data.len() {
                    match sp_contents(data, o, s2, name) {
                        Some((d, s3)) => if 0 <= s3.pos < data.len() && head_of(data, s3)
                            == TAG_END_OF_OBJECT && idx < s3.objects.len() {
                            Some(
                                (
                                    d,
                                    DState {
                                        pos: s3.pos + 1,
                                        strings: s3.strings,
                                        objects: s3.objects.update(idx, Some(d)),
                                    },
                                ),
                            )
                        } else {
                            None
                        },
                        None => None,
                    }
                } else {
                    None
                },
                _ => None,
            }
        }
    }
}

/// The contents of an object of the named class.
pub open spec fn sp_contents(data: Seq<u8>, o: ByteOrder, s: DState, name: Seq<char>) -> Option<(DV, DState)>
    decreases room(data, s), 0int, 4int, 0int,
{
    if name == "NSString"@ || name == "NSMutableString"@ {
        sp_nsstring(data, o, s)
    } else if name == "NSAttributedString"@ || name == "NSMutableAttributedString"@ {
        sp_nsattributed(data, o, s)
    } else if name == "NSDictionary"@ || name == "NSMutableDictionary"@ {
        sp_nsdictionary(data, o, s)
    } else if name == "NSData"@ || name == "NSMutableData"@ {
        sp_nsdata(data, o, s)
    } else if name == "NSNumber"@ || name == "NSValue"@ {
        sp_nsnumber(data, o, s)
    } else if name == "NSObject"@ {
        Some((DV::Null, s))
    } else {
        sp_generic(data, o, s)
    }
}

/// NSString: its text, as an unshared string.
pub open spec fn sp_nsstring(data: Seq<u8>, o: ByteOrder, s: DState) -> Option<(DV, DState)>
    decreases room(data, s), 0int, 3int, 0int,
{
    match sp_typed_value(data, o, s) {
        Some((DV::Str(t), s2)) => Some((DV::Obj(Box::new(OV::String(t))), s2)),
        _ => None,
    }
}

/// NSAttributedString: an embedded NSString, then the attribute runs that
/// cover its UTF-16 length.
pub open spec fn sp_nsattributed(data: Seq<u8>, o: ByteOrder, s: DState) -> Option<(DV, DState)>
    decreases room(data, s), 0int, 3int, 0int,
{
    match sp_typed_value(data, o, s) {
        Some((DV::Obj(x), s2)) => match *x {
            OV::String(t) => if utf16_len(t) <= usize::MAX && ahead(data, s, s2) {
                match sp_runs(data, o, s2, utf16_len(t) as int, 0, Seq::empty(), Seq::empty()) {
                    Some((runs, s3)) => Some((DV::Obj(Box::new(OV::Attributed(t, runs))), s3)),
                    None => None,
                }
            } else {
                None
            },
            _ => None,
        },
        _ => None,
    }
}

/// The key a dictionary entry gives an attribute list.
pub open spec fn key_text(k: DV) -> Option<Seq<char>> {
    match k {
        DV::Obj(x) => match *x {
            OV::String(t) => Some(t),
            _ => None,
        },
        DV::Str(t) => Some(t),
        _ => None,
    }
}

/// The entries of `p` whose key is a string, each with its key's text.
pub open spec fn string_keyed(p: Seq<(DV, DV)>) -> Seq<(Seq<char>, DV)>
    decreases p.len(),
{
    if p.len() == 0 {
        Seq::empty()
    } else {
        let rest = string_keyed(p.subrange(0, p.len() - 1));
        match key_text(p[p.len() - 1].0) {
            Some(k) => rest.push((k, p[p.len() - 1].1)),
            None => rest,
        }
    }
}

/// The attribute list a value gives: the string-keyed entries of a
/// dictionary; nothing for any other value.
pub open spec fn attrs_of(v: DV) -> Seq<(Seq<char>, DV)> {
    match v {
        DV::Obj(x) => match *x {
            OV::Dictionary(p) => string_keyed(p),
            _ => Seq::empty(),
        },
        _ => Seq::empty(),
    }
}

/// The first slot at or after `i` whose reference is `r`, or the length.
pub open spec fn slot_of(shared: Seq<(i64, Seq<(Seq<char>, DV)>)>, r: i64, i: int) -> int
    decreases shared.len() - i,
{
    if i < 0 || i >= shared.len() {
        shared.len() as int
    } else if shared[i].0 == r {
        i
    } else {
        slot_of(shared, r, i + 1)
    }
}

/// The attribute runs from the one at `index` on, up to the text length.
/// Each run is a group holding a reference and a length; the first run with
/// a given reference is followed by its attribute dictionary, which later
/// runs with that reference share.
pub open spec fn sp_runs(
    data: Seq<u8>,
    o: ByteOrder,
    s: DState,
    text_len: int,
    index: int,
    shared: Seq<(i64, Seq<(Seq<char>, DV)>)>,
    runs: Seq<RunV>,
) -> Option<(Seq<RunV>, DState)>
    decreases room(data, s), 0int, 3int, 0int,
{
    if !in_stream(data, s) {
        None
    } else if index >= text_len {
        Some((runs, s))
    } else {
        match sp_typed_values(data, o, s) {
            Some((vals, s2)) => if vals.len() < 2 || !(vals[0] is Int) || !(vals[1] is Int) {
                None
            } else {
                let reference = vals[0]->Int_0;
                let length = (vals[1]->Int_0) as usize as int;
                let k = slot_of(shared, reference, 0);
                let found: Option<(Seq<(Seq<char>, DV)>, Seq<(i64, Seq<(Seq<char>, DV)>)>, DState)> =
                    if k < shared.len() {
                    Some((shared[k].1, shared, s2))
                } else if ahead(data, s, s2) {
                    match sp_typed_value(data, o, s2) {
                        Some((d, s3)) => Some(
                            (attrs_of(d), shared.push((reference, attrs_of(d))), s3),
                        ),
                        None => None,
                    }
                } else {
                    None
                };
                match found {
                    Some((attrs, shared2, s3)) => if index + length <= usize::MAX && ahead(
                        data,
                        s,
                        s3,
                    ) {
                        sp_runs(
                            data,
                            o,
                            s3,
                            text_len,
                            index + length,
                            shared2,
                            runs.push(RunV { offset: index, length, attrs }),
                        )
                    } else {
                        None
                    },
                    None => None,
                }
            },
            None => None,
        }
    }
}

/// NSDictionary: a count, then that many key and value pairs.
pub open spec fn sp_nsdictionary(data: Seq<u8>, o: ByteOrder, s: DState) -> Option<(DV, DState)>
    decreases room(data, s), 0int, 3int, 0int,
{
    match sp_typed_value(data, o, s) {
        Some((DV::Int(n), s2)) => if ahead(data, s, s2) {
            match sp_pairs(data, o, s2, n as usize as int, Seq::empty()) {
                Some((pairs, s3)) => Some((DV::Obj(Box::new(OV::Dictionary(pairs))), s3)),
                None => None,
            }
        } else {
            None
        },
        _ => None,
    }
}

/// `count` more key and value pairs after `pairs`.
pub open spec fn sp_pairs(
    data: Seq<u8>,
    o: ByteOrder,
    s: DState,
    count: int,
    pairs: Seq<(DV, DV)>,
) -> Option<(Seq<(DV, DV)>, DState)>
    decreases room(data, s), 0int, 3int, 0int,
{
    if !in_stream(data, s) {
        None
    } else if count <= 0 {
        Some((pairs, s))
    } else {
        match sp_typed_value(data, o, s) {
            Some((k, s2)) => if ahead(data, s, s2) {
                match sp_typed_value(data, o, s2) {
                    Some((v, s3)) => if ahead(data, s2, s3) {
                        sp_pairs(data, o, s3, count - 1, pairs.push((k, v)))
                    } else {
                        None
                    },
                    None => None,
                }
            } else {
                None
            },
            None => None,
        }
    }
}

/// NSData: a length, then a byte array, cut to that length.
pub open spec fn sp_nsdata(data: Seq<u8>, o: ByteOrder, s: DState) -> Option<(DV, DState)>
    decreases room(data, s), 0int, 3int, 0int,
{
    match sp_typed_value(data, o, s) {
        Some((DV::Int(n), s2)) => if ahead(data, s, s2) {
            match sp_typed_value(data, o, s2) {
                Some((v, s3)) => {
                    let len = n as usize as int;
                    let bytes = match v {
                        DV::Bytes(b) => b,
                        _ => Seq::empty(),
                    };
                    let cut = if bytes.len() >= len {
                        bytes.take(len)
                    } else {
                        bytes
                    };
                    Some((DV::Obj(Box::new(OV::Data(cut))), s3))
                },
                None => None,
            }
        } else {
            None
        },
        _ => None,
    }
}

/// NSNumber and NSValue: a type encoding, then the value.
pub open spec fn sp_nsnumber(data: Seq<u8>, o: ByteOrder, s: DState) -> Option<(DV, DState)>
    decreases room(data, s), 0int, 3int, 0int,
{
    match sp_typed_value(data, o, s) {
        Some((_, s2)) => if ahead(data, s, s2) {
            match sp_typed_value(data, o, s2) {
                Some((v, s3)) => Some((DV::Obj(Box::new(OV::Number(v))), s3)),
                None => None,
            }
        } else {
            None
        },
        None => None,
    }
}

/// An object of any other class: its groups of typed values are read and
/// dropped, up to (not including) its end-of-object tag.
pub open spec fn sp_generic(data: Seq<u8>, o: ByteOrder, s: DState) -> Option<(DV, DState)>
    decreases room(data, s), 0int, 3int, 0int,
{
    if !(0 <= s.pos < data.len()) {
        None
    } else if head_of(data, s) == TAG_END_OF_OBJECT {
        Some((DV::Null, s))
    } else {
        match shared_after(data, s.pos + 1, o, s.strings, head_of(data, s)) {
            Some((Some(b), p, t)) => if s.pos < p <= data.len() {
                match sp_skip(
                    data,
                    o,
                    DState { pos: p, strings: t, objects: s.objects },
                    encodings(utf8_lossy(b)),
                    0,
                ) {
                    Some(s2) => if ahead(data, s, s2) {
                        sp_generic(data, o, s2)
                    } else {
                        None
                    },
                    None => None,
                }
            } else {
                None
            },
            _ => None,
        }
    }
}

/// Values of the encodings from the `k`-th on, read and dropped.
pub open spec fn sp_skip(data: Seq<u8>, o: ByteOrder, s: DState, encs: Seq<Seq<char>>, k: int) -> Option<DState>
    decreases room(data, s) + 1, 0int, 0int, encs.len() - k,
{
    if !in_stream(data, s) || k < 0 {
        None
    } else if k >= encs.len() {
        Some(s)
    } else {
        match sp_value(data, o, s, encs[k]) {
            Some((_, s2)) => if not_behind(data, s, s2) {
                sp_skip(data, o, s2, encs, k + 1)
            } else {
                None
            },
            None => None,
        }
    }
}

/// An array: a byte array is read whole; the elements of any other array
/// are read and dropped.
pub open spec fn sp_array(data: Seq<u8>, o: ByteOrder, s: DState, enc: Seq<char>) -> Option<(DV, DState)>
    decreases room(data, s), enc.len(), 1int, 0int,
{
    match array_encoding(enc) {
        Some((n, e)) => if e == seq!['c'] || e == seq!['C'] {
            if 0 <= s.pos && s.pos + n <= data.len() {
                Some((DV::Bytes(data.subrange(s.pos, s.pos + n)), at(s, s.pos + n)))
            } else {
                None
            }
        } else if e.len() + 2 <= enc.len() {
            match sp_elements(data, o, s, e, n as int) {
                Some(s2) => Some((DV::Null, s2)),
                None => None,
            }
        } else {
            None
        },
        None => None,
    }
}

/// `count` more values of the encoding `e`, read and dropped.
pub open spec fn sp_elements(data: Seq<u8>, o: ByteOrder, s: DState, e: Seq<char>, count: int) -> Option<DState>
    decreases room(data, s), e.len() + 1, 0int, count,
{
    if !in_stream(data, s) {
        None
    } else if count <= 0 {
        Some(s)
    } else {
        match sp_value(data, o, s, e) {
            Some((_, s2)) => if not_behind(data, s, s2) {
                sp_elements(data, o, s2, e, count - 1)
            } else {
                None
            },
            None => None,
        }
    }
}

/// A struct: its fields are read and dropped.
pub open spec fn sp_struct(data: Seq<u8>, o: ByteOrder, s: DState, enc: Seq<char>) -> Option<(DV, DState)>
    decreases room(data, s), enc.len(), 1int, 0int,
{
    match struct_encoding(enc) {
        Some(fields) => if enc.len() >= 1 {
            match sp_fields(data, o, s, fields, 0, (enc.len() - 1) as int) {
                Some(s2) => Some((DV::Null, s2)),
                None => None,
            }
        } else {
            None
        },
        None => None,
    }
}

/// The fields from the `k`-th on, each of an encoding shorter than `bound`,
/// read and dropped.
pub open spec fn sp_fields(
    data: Seq<u8>,
    o: ByteOrder,
    s: DState,
    fields: Seq<Seq<char>>,
    k: int,
    bound: int,
) -> Option<DState>
    decreases room(data, s), bound, 0int, fields.len() - k,
{
    if !in_stream(data, s) || k < 0 || bound < 0 {
        None
    } else if k >= fields.len() {
        Some(s)
    } else if fields[k].len() >= bound {
        None
    } else {
        match sp_value(data, o, s, fields[k]) {
            Some((_, s2)) => if not_behind(data, s, s2) {
                sp_fields(data, o, s2, fields, k + 1, bound)
            } else {
                None
            },
            None => None,
        }
    }
}

/// A group of typed values: a shared type-encoding string, then one value
/// per encoding it lists.
pub open spec fn sp_typed_values(data: Seq<u8>, o: ByteOrder, s: DState) -> Option<(Seq<DV>, DState)>
    decreases room(data, s), 0int, 1int, 0int,
{
    if !(0 <= s.pos < data.len()) {
        None
    } else {
        match shared_after(data, s.pos + 1, o, s.strings, head_of(data, s)) {
            Some((Some(b), p, t)) => if s.pos < p <= data.len() {
                sp_group(
                    data,
                    o,
                    DState { pos: p, strings: t, objects: s.objects },
                    encodings(utf8_lossy(b)),
                    0,
                    Seq::empty(),
                )
            } else {
                None
            },
            _ => None,
        }
    }
}

/// The values of the encodings from the `k`-th on, after `vals`.
pub open spec fn sp_group(
    data: Seq<u8>,
    o: ByteOrder,
    s: DState,
    encs: Seq<Seq<char>>,
    k: int,
    vals: Seq<DV>,
) -> Option<(Seq<DV>, DState)>
    decreases room(data, s) + 1, 0int, 0int, encs.len() - k,
{
    if !in_stream(data, s) || k < 0 {
        None
    } else if k >= encs.len() {
        Some((vals, s))
    } else {
        match sp_value(data, o, s, encs[k]) {
            Some((v, s2)) => if not_behind(data, s, s2) {
                sp_group(data, o, s2, encs, k + 1, vals.push(v))
            } else {
                None
            },
            None => None,
        }
    }
}

/// The first value of the next group of typed values.
pub open spec fn sp_typed_value(data: Seq<u8>, o: ByteOrder, s: DState) -> Option<(DV, DState)>
    decreases room(data, s), 0int, 2int, 0int,
{
    match sp_typed_values(data, o, s) {
        Some((vals, s2)) => if vals.len() > 0 {
            Some((vals[0], s2))
        } else {
            None
        },
        None => None,
    }
}

/// Every value of every group of typed values, up to the end of the stream
/// or the first group that does not decode.
pub open spec fn sp_all(data: Seq<u8>, o: ByteOrder, s: DState) -> Seq<DV>
    decreases data.len() - s.pos,
{
    if !(0 <= s.pos < data.len()) {
        Seq::empty()
    } else {
        match sp_typed_values(data, o, s) {
            Some((vals, s2)) => if ahead(data, s, s2) {
                vals + sp_all(data, o, s2)
            } else {
                Seq::empty()
            },
            None => Seq::empty(),
        }
    }
}

/// What a typedstream decodes to: every value of every group after the
/// header, up to the first group that does not decode; nothing when the
/// header is not valid.
pub open spec fn decoded(data: Seq<u8>) -> Option<Seq<DV>> {
    match header_end(data) {
        Some((o, p)) => Some(
            sp_all(data, o, DState { pos: p, strings: Seq::empty(), objects: Seq::empty() }),
        ),
        None => None,
    }
}

/// The shared attribute lists of the runs read so far, by content.
pub open spec fn shared_v(sh: Seq<(i64, Vec<(String, Decoded)>)>) -> Seq<(i64, Seq<(Seq<char>, DV)>)> {
    sh.map_values(|e: (i64, Vec<(String, Decoded)>)| (e.0, attrs_v(e.1@)))
}

/// What reading attribute runs gave: the runs and the state after them;
/// nothing when it failed.
pub open spec fn runs_outcome(r: Result<Vec<AttrRun>, ()>, d: Decoder) -> Option<(Seq<RunV>, DState)> {
    match r {
        Ok(v) => Some((runs_v(v@), state_of(d))),
        Err(_) => None,
    }
}

/// What reading a group of typed values gave: the values and the state
/// after them; nothing when it failed.
pub open spec fn group_outcome(r: Result<(String, Vec<Decoded>), ()>, d: Decoder) -> Option<(Seq<DV>, DState)> {
    match r {
        Ok((_, v)) => Some((values_v(v@), state_of(d))),
        Err(_) => None,
    }
}

/// The text a value offers: the non-empty text of an NSAttributedString or
/// an NSString.
pub open spec fn dv_text(v: DV) -> Option<Seq<char>> {
    match v {
        DV::Obj(x) => match *x {
            OV::Attributed(t, _) => if t.len() > 0 {
                Some(t)
            } else {
                None
            },
            OV::String(t) => if t.len() > 0 {
                Some(t)
            } else {
                None
            },
            _ => None,
        },
        _ => None,
    }
}

/// The first text any of the values offers, from index `i` on.
pub open spec fn first_text_in(s: Seq<DV>, i: int) -> Option<Seq<char>>
    decreases s.len() - i,
{
    if i < 0 || i >= s.len() {
        None
    } else {
        match dv_text(s[i]) {
            Some(t) => Some(t),
            None => first_text_in(s, i + 1),
        }
    }
}

/// The text of a stream: the first text its values offer; nothing when the
/// stream does not decode.
pub open spec fn stream_text(d: Option<Seq<DV>>) -> Option<Seq<char>> {
    match d {
        Some(vs) => first_text_in(vs, 0),
        None => None,
    }
}

// ---------------------------------------------------------------------------
// Facts about the models
// ---------------------------------------------------------------------------

/// Values with the same content have the same model.
pub proof fn lemma_same_dv(a: Decoded, b: Decoded)
    requires
        same(a, b),
    ensures
        dv(a) == dv(b),
    decreases a,
{
    if let Decoded::Object(x) = a {
        if let Decoded::Object(y) = b {
            lemma_same_ov(*x, *y);
        }
    }
}

pub proof fn lemma_same_ov(a: DecodedObject, b: DecodedObject)
    requires
        same_object(a, b),
    ensures
        ov(a) == ov(b),
    decreases a,
{
    match a {
        DecodedObject::AttributedString { string, runs } => {
            if let DecodedObject::AttributedString { string: s2, runs: r2 } = b {
                lemma_same_runs_v(runs@, r2@);
            }
        },
        DecodedObject::Dictionary(p) => {
            if let DecodedObject::Dictionary(p2) = b {
                lemma_same_pairs_v(p@, p2@);
            }
        },
        DecodedObject::Number(x) => {
            if let DecodedObject::Number(y) = b {
                lemma_same_dv(x, y);
            }
        },
        _ => {},
    }
}

pub proof fn lemma_same_pairs_v(a: Seq<(Decoded, Decoded)>, b: Seq<(Decoded, Decoded)>)
    requires
        same_pairs(a, b),
    ensures
        pairs_v(a) == pairs_v(b),
    decreases a,
{
    if a.len() > 0 {
        lemma_same_dv(a[a.len() - 1].0, b[b.len() - 1].0);
        lemma_same_dv(a[a.len() - 1].1, b[b.len() - 1].1);
        lemma_same_pairs_v(a.subrange(0, a.len() - 1), b.subrange(0, b.len() - 1));
    }
}

pub proof fn lemma_same_attrs_v(a: Seq<(String, Decoded)>, b: Seq<(String, Decoded)>)
    requires
        same_attrs(a, b),
    ensures
        attrs_v(a) == attrs_v(b),
    decreases a,
{
    if a.len() > 0 {
        lemma_same_dv(a[a.len() - 1].1, b[b.len() - 1].1);
        lemma_same_attrs_v(a.subrange(0, a.len() - 1), b.subrange(0, b.len() - 1));
    }
}

pub proof fn lemma_same_runs_v(a: Seq<AttrRun>, b: Seq<AttrRun>)
    requires
        same_runs(a, b),
    ensures
        runs_v(a) == runs_v(b),
    decreases a,
{
    if a.len() > 0 {
        lemma_same_attrs_v(a[a.len() - 1].attributes@, b[b.len() - 1].attributes@);
        lemma_same_runs_v(a.subrange(0, a.len() - 1), b.subrange(0, b.len() - 1));
    }
}

/// Where a shared string ends: no earlier than where it began.
pub proof fn lemma_shared_after_bounds(data: Seq<u8>, pos: int, o: ByteOrder, t: Seq<Seq<u8>>, head: i8)
    ensures
        shared_after(data, pos, o, t, head) matches Some((_, p, _)) ==> pos <= p,
        integer_after(data, pos, o, true, head) matches Some((_, p)) ==> pos <= p,
{
}

/// The attribute list taken from a dictionary value is the string-keyed
/// entries of its model.
pub proof fn lemma_dict_attrs_v(r: Seq<(String, Decoded)>, val: Decoded)
    requires
        dict_attrs(r, val),
    ensures
        attrs_v(r) == attrs_of(dv(val)),
{
    match val {
        Decoded::Object(o) => match *o {
            DecodedObject::Dictionary(p) => {
                lemma_attrs_from_pairs_v(r, p@);
            },
            _ => {},
        },
        _ => {},
    }
}

/// The texts of values and of their models agree.
pub proof fn lemma_first_text_v(s: Seq<Decoded>, i: int)
    ensures
        first_text_from(s, i) == first_text_in(values_v(s), i),
    decreases s.len() - i,
{
    if 0 <= i < s.len() {
        lemma_first_text_v(s, i + 1);
        assert(values_v(s)[i] == dv(s[i]));
    }
}

/// An entry pushed onto a list of values.
pub proof fn lemma_values_push(s: Seq<Decoded>, x: Decoded)
    ensures
        values_v(s.push(x)) == values_v(s).push(dv(x)),
{
    assert(values_v(s.push(x)) =~= values_v(s).push(dv(x)));
}

/// An entry pushed onto a list of dictionary entries.
pub proof fn lemma_pairs_push(p: Seq<(Decoded, Decoded)>, x: (Decoded, Decoded))
    ensures
        pairs_v(p.push(x)) == pairs_v(p).push((dv(x.0), dv(x.1))),
{
    assert(p.push(x).subrange(0, p.len() as int) =~= p);
}

/// A run pushed onto a list of runs.
pub proof fn lemma_runs_push(rs: Seq<AttrRun>, x: AttrRun)
    ensures
        runs_v(rs.push(x)) == runs_v(rs).push(
            RunV { offset: x.offset as int, length: x.length as int, attrs: attrs_v(x.attributes@) },
        ),
{
    assert(rs.push(x).subrange(0, rs.len() as int) =~= rs);
}

/// An entry pushed onto a list of shared attribute lists.
pub proof fn lemma_shared_push(sh: Seq<(i64, Vec<(String, Decoded)>)>, x: (i64, Vec<(String, Decoded)>))
    ensures
        shared_v(sh.push(x)) == shared_v(sh).push((x.0, attrs_v(x.1@))),
{
    assert(shared_v(sh.push(x)) =~= shared_v(sh).push((x.0, attrs_v(x.1@))));
}

/// An entry pushed onto an object table.
pub proof fn lemma_objects_push(o: Seq<Option<Decoded>>, x: Option<Decoded>)
    ensures
        objects_v(o.push(x)) == objects_v(o).push(opt_dv(x)),
{
    assert(objects_v(o.push(x)) =~= objects_v(o).push(opt_dv(x)));
}

/// An entry of an object table replaced.
pub proof fn lemma_objects_update(o: Seq<Option<Decoded>>, i: int, x: Option<Decoded>)
    requires
        0 <= i < o.len(),
    ensures
        objects_v(o.update(i, x)) == objects_v(o).update(i, opt_dv(x)),
{
    assert(objects_v(o.update(i, x)) =~= objects_v(o).update(i, opt_dv(x)));
}

/// The attribute list taken from the string-keyed entries of a dictionary.
pub proof fn lemma_attrs_from_pairs_v(r: Seq<(String, Decoded)>, p: Seq<(Decoded, Decoded)>)
    requires
        attrs_from_pairs(r, p),
    ensures
        attrs_v(r) == string_keyed(pairs_v(p)),
    decreases p.len(),
{
    if p.len() > 0 {
        let last = p[p.len() - 1];
        let rest = p.subrange(0, p.len() - 1);
        let pv = pairs_v(rest).push((dv(last.0), dv(last.1)));
        assert(pairs_v(p) == pv);
        assert(pv.subrange(0, pv.len() - 1) =~= pairs_v(rest));
        assert(pv[pv.len() - 1] == (dv(last.0), dv(last.1)));
        match dict_key(last.0) {
            Some(k) => {
                lemma_attrs_from_pairs_v(r.subrange(0, r.len() - 1), rest);
                lemma_same_dv(r[r.len() - 1].1, last.1);
                assert(key_text(dv(last.0)) == Some(k));
            },
            None => {
                lemma_attrs_from_pairs_v(r, rest);
                assert(key_text(dv(last.0)) is None);
            },
        }
    }
}

} // verus!

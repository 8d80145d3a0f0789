//! Property-list values of chat.db blobs, rendered as JSON.
//!
//! The blobs are parsed by the property-list reader; what the rendering
//! does with the parsed values (key renaming, unwrapping, range objects,
//! nested blobs) is here.
use vstd::prelude::*;
use crate::json::{
    entry_views, json_view, json_views, lemma_entry_views, lemma_json_views, lemma_object_of_push,
    object_of, object_set, Json, JsonModel, RealValue,
};
use crate::serializers::{rename_key, renamed_key};
use crate::typedstream::{decode_attributed_body, header_end};

verus! {

/// A property-list value.
#[derive(Debug)]
pub enum PlistValue {
    Array(Vec<PlistValue>),
    /// Entries in order, each key once.
    Dictionary(Vec<(String, PlistValue)>),
    Boolean(bool),
    /// A data blob, with its own contents parsed as a property list where
    /// they are one.
    Data(Vec<u8>, Option<Box<PlistValue>>),
    /// A date, in its XML form.
    Date(String),
    /// A real number, by the bits of its `f64`.
    Real(u64),
    Integer(i128),
    String(String),
    Uid(u64),
    /// A kind of value that has no JSON form.
    Other,
}

/// The mathematical property-list value: strings and data by their
/// contents, arrays and dictionaries as sequences.
pub enum PlistModel {
    Array(Seq<PlistModel>),
    Dictionary(Seq<(Seq<char>, PlistModel)>),
    Boolean(bool),
    Data(Seq<u8>, Option<Box<PlistModel>>),
    Date(Seq<char>),
    Real(u64),
    Integer(int),
    String(Seq<char>),
    Uid(u64),
    Other,
}

/// The model of a property-list value.
pub open spec fn plist_model(v: PlistValue) -> PlistModel
    decreases v,
{
    match v {
        PlistValue::Array(items) => PlistModel::Array(plist_models(items@)),
        PlistValue::Dictionary(d) => PlistModel::Dictionary(plist_entry_models(d@)),
        PlistValue::Boolean(b) => PlistModel::Boolean(b),
        PlistValue::Data(b, nested) => PlistModel::Data(
            b@,
            match nested {
                Some(n) => Some(Box::new(plist_model(*n))),
                None => None,
            },
        ),
        PlistValue::Date(s) => PlistModel::Date(s@),
        PlistValue::Real(bits) => PlistModel::Real(bits),
        PlistValue::Integer(n) => PlistModel::Integer(n as int),
        PlistValue::String(s) => PlistModel::String(s@),
        PlistValue::Uid(u) => PlistModel::Uid(u),
        PlistValue::Other => PlistModel::Other,
    }
}

pub open spec fn plist_models(s: Seq<PlistValue>) -> Seq<PlistModel>
    decreases s,
{
    if s.len() == 0 {
        Seq::empty()
    } else {
        plist_models(s.subrange(0, s.len() - 1)).push(plist_model(s[s.len() - 1]))
    }
}

pub open spec fn plist_entry_models(s: Seq<(String, PlistValue)>) -> Seq<(Seq<char>, PlistModel)>
    decreases s,
{
    if s.len() == 0 {
        Seq::empty()
    } else {
        plist_entry_models(s.subrange(0, s.len() - 1)).push(
            (s[s.len() - 1].0@, plist_model(s[s.len() - 1].1)),
        )
    }
}

/// What the property-list reader (`plist::from_bytes` into a
/// `plist::Value`) makes of some bytes, with each data blob inside read
/// again the same way; nothing when it refuses them.
pub uninterp spec fn plist_read(bytes: Seq<u8>) -> Option<PlistModel>;

/// A value read from `bytes` is what the reader makes of them.
pub open spec fn plist_parse_ok(bytes: Seq<u8>, p: Option<PlistValue>) -> bool {
    match p {
        Some(v) => plist_read(bytes) == Some(plist_model(v)),
        None => plist_read(bytes) is None,
    }
}

#[verifier::external_type_specification]
#[verifier::external_body]
pub struct ExPlistValue(plist::Value);

/// Trusted: calls `plist::from_bytes` for a `plist::Value` and converts the
/// value one for one (see [`plist_value_of`]); the contract claims that
/// the result is what the reader makes of the bytes, and nothing exactly
/// when the reader refuses them.
#[verifier::external_body]
pub fn read_plist(bytes: &[u8]) -> (r: Option<PlistValue>)
    ensures
        match r {
            Some(v) => plist_read(bytes@) == Some(plist_model(v)),
            None => plist_read(bytes@) is None,
        },
{
    match plist::from_bytes::<plist::Value>(bytes) {
        Ok(v) => Some(plist_value_of(&v)),
        Err(_) => None,
    }
}

/// Trusted: the conversion half of [`read_plist`]: each `plist::Value`
/// variant becomes the same variant (a date by `Date::to_xml_format`, a
/// real by `f64::to_bits`, a UID by `Uid::get`), and each data blob is read
/// again by [`read_plist`].
#[verifier::external_body]
fn plist_value_of(v: &plist::Value) -> PlistValue {
    match v {
        plist::Value::Array(a) => PlistValue::Array(a.iter().map(plist_value_of).collect()),
        plist::Value::Dictionary(_) => plist_dictionary_of(v),
        plist::Value::Boolean(b) => PlistValue::Boolean(*b),
        plist::Value::Data(b) => PlistValue::Data(b.clone(), read_plist(b).map(Box::new)),
        plist::Value::Date(d) => PlistValue::Date(d.to_xml_format()),
        plist::Value::Real(f) => PlistValue::Real(f.to_bits()),
        plist::Value::Integer(_) => plist_integer_of(v),
        plist::Value::String(s) => PlistValue::String(s.clone()),
        plist::Value::Uid(u) => PlistValue::Uid(u.get()),
        _ => PlistValue::Other,
    }
}

/// Trusted: the entries of a `plist::Value` dictionary, in its order, each
/// value converted by [`plist_value_of`].
#[verifier::external_body]
fn plist_dictionary_of(v: &plist::Value) -> PlistValue {
    match v.as_dictionary() {
        Some(d) => PlistValue::Dictionary(d.iter().map(|(k, x)| (k.clone(), plist_value_of(x))).collect()),
        None => PlistValue::Other,
    }
}

/// Trusted: a `plist::Value` integer by `Value::as_signed_integer`, or else
/// by `Value::as_unsigned_integer`.
#[verifier::external_body]
fn plist_integer_of(v: &plist::Value) -> PlistValue {
    match v.as_signed_integer() {
        Some(n) => PlistValue::Integer(n as i128),
        None => match v.as_unsigned_integer() {
            Some(n) => PlistValue::Integer(n as i128),
            None => PlistValue::Other,
        },
    }
}

/// The JSON number of a property-list integer: signed when it fits in
/// `i64`, unsigned when it fits in `u64`, none otherwise.
pub open spec fn integer_json(n: i128) -> JsonModel {
    if i64::MIN <= n <= i64::MAX {
        JsonModel::Int(n as int)
    } else if 0 <= n <= u64::MAX {
        JsonModel::Int(n as int)
    } else {
        JsonModel::Null
    }
}

fn integer_to_json(n: i128) -> (r: Json)
    ensures
        json_view(r) == integer_json(n),
{
    if i64::MIN as i128 <= n && n <= i64::MAX as i128 {
        Json::Int(n as i64)
    } else if 0 <= n && n <= u64::MAX as i128 {
        Json::Uint(n as u64)
    } else {
        Json::Null
    }
}

/// No data blob in the value is a typedstream (every blob's header is
/// invalid), so blobs render through their parsed contents.
pub open spec fn no_typedstream(v: PlistValue) -> bool
    decreases v,
{
    match v {
        PlistValue::Array(items) => all_no_typedstream(items@),
        PlistValue::Dictionary(d) => entries_no_typedstream(d@),
        PlistValue::Data(bytes, nested) => header_end(bytes@) is None && match nested {
            Some(n) => no_typedstream(*n),
            None => true,
        },
        _ => true,
    }
}

pub open spec fn all_no_typedstream(s: Seq<PlistValue>) -> bool
    decreases s,
{
    s.len() == 0 || (no_typedstream(s[s.len() - 1]) && all_no_typedstream(
        s.subrange(0, s.len() - 1),
    ))
}

pub open spec fn entries_no_typedstream(s: Seq<(String, PlistValue)>) -> bool
    decreases s,
{
    s.len() == 0 || (no_typedstream(s[s.len() - 1].1) && entries_no_typedstream(
        s.subrange(0, s.len() - 1),
    ))
}

proof fn lemma_all_no_typedstream(s: Seq<PlistValue>, i: int)
    requires
        all_no_typedstream(s),
        0 <= i < s.len(),
    ensures
        no_typedstream(s[i]),
    decreases s.len(),
{
    if i < s.len() - 1 {
        lemma_all_no_typedstream(s.subrange(0, s.len() - 1), i);
    }
}

proof fn lemma_entries_no_typedstream(s: Seq<(String, PlistValue)>, i: int)
    requires
        entries_no_typedstream(s),
        0 <= i < s.len(),
    ensures
        no_typedstream(s[i].1),
    decreases s.len(),
{
    if i < s.len() - 1 {
        lemma_entries_no_typedstream(s.subrange(0, s.len() - 1), i);
    }
}

/// The JSON form of a message property list: a dictionary whose only key is
/// `0` becomes that entry's value, one with exactly the keys `lo` and `le`
/// becomes `[lo, le]`, any other dictionary an object with its short keys
/// renamed; a data blob becomes the typedstream it holds (a single-element
/// array unwrapped), or else its parsed contents, or null.  Here blobs are
/// not typedstreams.
pub open spec fn plist_json(v: PlistValue) -> JsonModel
    decreases v,
{
    match v {
        PlistValue::Array(items) => JsonModel::Array(plist_jsons(items@)),
        PlistValue::Dictionary(d) => if d@.len() == 1 && d@[0].0@ == "0"@ {
            plist_json(d@[0].1)
        } else if is_range(d@) {
            if d@[0].0@ == "lo"@ {
                JsonModel::Array(seq![plist_json(d@[0].1), plist_json(d@[1].1)])
            } else {
                JsonModel::Array(seq![plist_json(d@[1].1), plist_json(d@[0].1)])
            }
        } else {
            JsonModel::Object(object_of(renamed_entries(d@)))
        },
        PlistValue::Boolean(b) => JsonModel::Bool(b),
        PlistValue::Data(_, nested) => match nested {
            Some(n) => plist_json(*n),
            None => JsonModel::Null,
        },
        PlistValue::Date(s) => JsonModel::Str(s@),
        PlistValue::Real(bits) => JsonModel::Real(RealValue::Double(bits)),
        PlistValue::Integer(n) => integer_json(n),
        PlistValue::String(s) => JsonModel::Str(s@),
        PlistValue::Uid(u) => JsonModel::Int(u as int),
        PlistValue::Other => JsonModel::Null,
    }
}

pub open spec fn plist_jsons(s: Seq<PlistValue>) -> Seq<JsonModel>
    decreases s,
{
    if s.len() == 0 {
        Seq::empty()
    } else {
        plist_jsons(s.subrange(0, s.len() - 1)).push(plist_json(s[s.len() - 1]))
    }
}

/// The dictionary's entries with renamed keys and rendered values.
pub open spec fn renamed_entries(d: Seq<(String, PlistValue)>) -> Seq<(Seq<char>, JsonModel)>
    decreases d,
{
    if d.len() == 0 {
        Seq::empty()
    } else {
        renamed_entries(d.subrange(0, d.len() - 1)).push(
            (renamed_key(d[d.len() - 1].0@), plist_json(d[d.len() - 1].1)),
        )
    }
}

/// A range object: exactly the two keys `lo` and `le`.
pub open spec fn is_range(d: Seq<(String, PlistValue)>) -> bool {
    d.len() == 2 && ((d[0].0@ == "lo"@ && d[1].0@ == "le"@) || (d[0].0@ == "le"@ && d[1].0@
        == "lo"@))
}

fn key_is(k: &String, lit: &str) -> (r: bool)
    ensures
        r == (k@ == lit@),
{
    *k == lit.to_owned()
}

/// Renders a message property list as JSON (see [`plist_json`]).
pub fn plist_to_json(val: &PlistValue) -> (r: Json)
    ensures
        no_typedstream(*val) ==> json_view(r) == plist_json(*val),
    decreases val,
{
    match val {
        PlistValue::Array(items) => {
            let mut out: Vec<Json> = Vec::new();
            let mut k: usize = 0;
            while k < items.len()
                invariant
                    k <= items.len(),
                    out@.len() == k,
                    *val == PlistValue::Array(*items),
                    no_typedstream(*val) ==> json_views(out@) == plist_jsons(
                        items@.subrange(0, k as int),
                    ),
                decreases items.len() - k,
            {
                proof {
                    assert((*val)->Array_0 == *items);
                    assert(decreases_to!(*val => *items));
                    assert(decreases_to!(*items => items[k as int]));
                    assert(decreases_to!(*val => items[k as int]));
                }
                let j = plist_to_json(&items[k]);
                let ghost o0 = out@;
                out.push(j);
                proof {
                    assert(out@.subrange(0, out@.len() - 1) =~= o0);
                    assert(items@.subrange(0, k + 1).subrange(0, k as int) =~= items@.subrange(
                        0,
                        k as int,
                    ));
                    if no_typedstream(*val) {
                        lemma_all_no_typedstream(items@, k as int);
                    }
                }
                k = k + 1;
            }
            assert(items@.subrange(0, items@.len() as int) =~= items@);
            Json::Array(out)
        },
        PlistValue::Dictionary(d) => {
            if d.len() == 1 && key_is(&d[0].0, "0") {
                proof {
                    assert(decreases_to!(*val => d[0]));
                    if no_typedstream(*val) {
                        lemma_entries_no_typedstream(d@, 0);
                    }
                }
                return plist_to_json(&d[0].1);
            }
            if d.len() == 2 && ((key_is(&d[0].0, "lo") && key_is(&d[1].0, "le")) || (key_is(
                &d[0].0,
                "le",
            ) && key_is(&d[1].0, "lo"))) {
                proof {
                    assert(decreases_to!(*val => d[0]));
                    assert(decreases_to!(*val => d[1]));
                    if no_typedstream(*val) {
                        lemma_entries_no_typedstream(d@, 0);
                        lemma_entries_no_typedstream(d@, 1);
                    }
                }
                let first = plist_to_json(&d[0].1);
                let second = plist_to_json(&d[1].1);
                let mut pair: Vec<Json> = Vec::new();
                if key_is(&d[0].0, "lo") {
                    pair.push(first);
                    pair.push(second);
                } else {
                    pair.push(second);
                    pair.push(first);
                }
                proof {
                    lemma_json_views(pair@);
                    assert(json_views(pair@) =~= seq![json_view(pair@[0]), json_view(pair@[1])]);
                }
                return Json::Array(pair);
            }
            let mut out: Vec<(String, Json)> = Vec::new();
            let mut k: usize = 0;
            while k < d.len()
                invariant
                    k <= d.len(),
                    *val == PlistValue::Dictionary(*d),
                    no_typedstream(*val) ==> entry_views(out@) == object_of(
                        renamed_entries(d@.subrange(0, k as int)),
                    ),
                decreases d.len() - k,
            {
                proof {
                    assert((*val)->Dictionary_0 == *d);
                    assert(decreases_to!(*val => *d));
                    assert(decreases_to!(*d => d[k as int]));
                    assert(decreases_to!(*val => d[k as int]));
                    assert(d@.subrange(0, k + 1).subrange(0, k as int) =~= d@.subrange(
                        0,
                        k as int,
                    ));
                    if no_typedstream(*val) {
                        lemma_entries_no_typedstream(d@, k as int);
                    }
                }
                let j = plist_to_json(&d[k].1);
                let key = rename_key(d[k].0.as_str());
                proof {
                    if no_typedstream(*val) {
                        lemma_object_of_push(
                            renamed_entries(d@.subrange(0, k as int)),
                            (renamed_key(d@[k as int].0@), plist_json(d@[k as int].1)),
                        );
                    }
                }
                object_set(&mut out, key, j);
                k = k + 1;
            }
            assert(d@.subrange(0, d@.len() as int) =~= d@);
            Json::Object(out)
        },
        PlistValue::Boolean(b) => Json::Bool(*b),
        PlistValue::Data(bytes, nested) => match decode_attributed_body(bytes.as_slice()) {
            Some(decoded) => match decoded {
                Json::Array(arr) => {
                    if arr.len() == 1 {
                        let mut arr = arr;
                        arr.remove(0)
                    } else {
                        Json::Array(arr)
                    }
                },
                other => other,
            },
            None => match nested {
                Some(n) => plist_to_json(n),
                None => Json::Null,
            },
        },
        PlistValue::Date(s) => Json::Str(s.clone()),
        PlistValue::Real(bits) => Json::Real(RealValue::Double(*bits)),
        PlistValue::Integer(n) => integer_to_json(*n),
        PlistValue::String(s) => Json::Str(s.clone()),
        PlistValue::Uid(u) => Json::Uint(*u),
        PlistValue::Other => Json::Null,
    }
}

/// The JSON form of a property list as it is: dictionaries keep their keys,
/// data blobs become null.
pub open spec fn plist_raw_json(v: PlistValue) -> JsonModel
    decreases v,
{
    match v {
        PlistValue::Array(items) => JsonModel::Array(plist_raw_jsons(items@)),
        PlistValue::Dictionary(d) => JsonModel::Object(object_of(raw_entries(d@))),
        PlistValue::Boolean(b) => JsonModel::Bool(b),
        PlistValue::Data(_, _) => JsonModel::Null,
        PlistValue::Date(s) => JsonModel::Str(s@),
        PlistValue::Real(bits) => JsonModel::Real(RealValue::Double(bits)),
        PlistValue::Integer(n) => integer_json(n),
        PlistValue::String(s) => JsonModel::Str(s@),
        PlistValue::Uid(u) => JsonModel::Int(u as int),
        PlistValue::Other => JsonModel::Null,
    }
}

pub open spec fn plist_raw_jsons(s: Seq<PlistValue>) -> Seq<JsonModel>
    decreases s,
{
    if s.len() == 0 {
        Seq::empty()
    } else {
        plist_raw_jsons(s.subrange(0, s.len() - 1)).push(plist_raw_json(s[s.len() - 1]))
    }
}

pub open spec fn raw_entries(d: Seq<(String, PlistValue)>) -> Seq<(Seq<char>, JsonModel)>
    decreases d,
{
    if d.len() == 0 {
        Seq::empty()
    } else {
        raw_entries(d.subrange(0, d.len() - 1)).push(
            (d[d.len() - 1].0@, plist_raw_json(d[d.len() - 1].1)),
        )
    }
}

/// Renders a property list as JSON without message-specific processing.
pub fn plist_to_json_raw(val: &PlistValue) -> (r: Json)
    ensures
        json_view(r) == plist_raw_json(*val),
    decreases val,
{
    match val {
        PlistValue::Array(items) => {
            let mut out: Vec<Json> = Vec::new();
            let mut k: usize = 0;
            while k < items.len()
                invariant
                    k <= items.len(),
                    out@.len() == k,
                    *val == PlistValue::Array(*items),
                    json_views(out@) == plist_raw_jsons(items@.subrange(0, k as int)),
                decreases items.len() - k,
            {
                proof {
                    assert((*val)->Array_0 == *items);
                    assert(decreases_to!(*val => *items));
                    assert(decreases_to!(*items => items[k as int]));
                    assert(decreases_to!(*val => items[k as int]));
                }
                let j = plist_to_json_raw(&items[k]);
                let ghost o0 = out@;
                out.push(j);
                proof {
                    assert(out@.subrange(0, out@.len() - 1) =~= o0);
                    assert(items@.subrange(0, k + 1).subrange(0, k as int) =~= items@.subrange(
                        0,
                        k as int,
                    ));
                }
                k = k + 1;
            }
            assert(items@.subrange(0, items@.len() as int) =~= items@);
            Json::Array(out)
        },
        PlistValue::Dictionary(d) => {
            let mut out: Vec<(String, Json)> = Vec::new();
            let mut k: usize = 0;
            while k < d.len()
                invariant
                    k <= d.len(),
                    *val == PlistValue::Dictionary(*d),
                    entry_views(out@) == object_of(raw_entries(d@.subrange(0, k as int))),
                decreases d.len() - k,
            {
                proof {
                    assert((*val)->Dictionary_0 == *d);
                    assert(decreases_to!(*val => *d));
                    assert(decreases_to!(*d => d[k as int]));
                    assert(decreases_to!(*val => d[k as int]));
                    assert(d@.subrange(0, k + 1).subrange(0, k as int) =~= d@.subrange(
                        0,
                        k as int,
                    ));
                }
                let j = plist_to_json_raw(&d[k].1);
                proof {
                    lemma_object_of_push(
                        raw_entries(d@.subrange(0, k as int)),
                        (d@[k as int].0@, plist_raw_json(d@[k as int].1)),
                    );
                }
                object_set(&mut out, d[k].0.clone(), j);
                k = k + 1;
            }
            assert(d@.subrange(0, d@.len() as int) =~= d@);
            Json::Object(out)
        },
        PlistValue::Boolean(b) => Json::Bool(*b),
        PlistValue::Data(_, _) => Json::Null,
        PlistValue::Date(s) => Json::Str(s.clone()),
        PlistValue::Real(bits) => Json::Real(RealValue::Double(*bits)),
        PlistValue::Integer(n) => integer_to_json(*n),
        PlistValue::String(s) => Json::Str(s.clone()),
        PlistValue::Uid(u) => Json::Uint(*u),
        PlistValue::Other => Json::Null,
    }
}

/// What reading a blob with the property-list reader gives, and the JSON
/// made of it: nothing for an empty blob or one the reader refuses.
pub open spec fn read_outcome(
    data: &[u8],
    r: Option<Json>,
    raw: bool,
) -> bool {
    if data@.len() == 0 {
        r is None
    } else {
        exists|p: Option<PlistValue>|
            #[trigger] plist_parse_ok(data@, p) && match p {
                None => r is None,
                Some(v) => r matches Some(j) && (if raw {
                    json_view(j) == plist_raw_json(v)
                } else {
                    no_typedstream(v) ==> json_view(j) == plist_json(v)
                }),
            }
    }
}

/// Decode a message property-list blob (message_summary_info or
/// payload_data) to JSON, reading it with the property-list reader.
pub fn decode_message_plist(data: &[u8]) -> (r: Option<Json>)
    ensures
        read_outcome(data, r, false),
{
    if data.len() == 0 {
        return None;
    }
    let p = read_plist(data);
    assert(plist_parse_ok(data@, p));
    match &p {
        Some(v) => Some(plist_to_json(v)),
        None => None,
    }
}

/// Decode a chat's properties blob to JSON, reading it with the property-list reader,
/// without message-specific processing.
pub fn decode_chat_properties(data: &[u8]) -> (r: Option<Json>)
    ensures
        read_outcome(data, r, true),
{
    if data.len() == 0 {
        return None;
    }
    let p = read_plist(data);
    assert(plist_parse_ok(data@, p));
    match &p {
        Some(v) => Some(plist_to_json_raw(v)),
        None => None,
    }
}

} // verus!

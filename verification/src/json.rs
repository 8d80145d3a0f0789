//! JSON values as the API renders them, their mathematical model, and
//! building objects entry by entry.
use vstd::prelude::*;

verus! {

/// A floating-point value as the stream holds it: the raw bits of an `f32`
/// or `f64`, or an integer stored where a float was expected.
#[derive(Clone, Copy, Debug, PartialEq, Eq, Structural)]
pub enum RealValue {
    Single(u32),
    Double(u64),
    Whole(i64),
}

/// A JSON value, as a decoded body is rendered for the API.
#[derive(Debug, PartialEq)]
pub enum Json {
    Null,
    Bool(bool),
    Int(i64),
    Uint(u64),
    Real(RealValue),
    Str(String),
    Array(Vec<Json>),
    Object(Vec<(String, Json)>),
}

/// The mathematical JSON value: numbers as integers, strings, arrays and
/// objects as sequences.
pub enum JsonModel {
    Null,
    Bool(bool),
    Int(int),
    Real(RealValue),
    Str(Seq<char>),
    Array(Seq<JsonModel>),
    Object(Seq<(Seq<char>, JsonModel)>),
}

pub open spec fn json_view(j: Json) -> JsonModel
    decreases j,
{
    match j {
        Json::Null => JsonModel::Null,
        Json::Bool(b) => JsonModel::Bool(b),
        Json::Int(n) => JsonModel::Int(n as int),
        Json::Uint(n) => JsonModel::Int(n as int),
        Json::Real(x) => JsonModel::Real(x),
        Json::Str(s) => JsonModel::Str(s@),
        Json::Array(v) => JsonModel::Array(json_views(v@)),
        Json::Object(f) => JsonModel::Object(entry_views(f@)),
    }
}

pub open spec fn json_views(s: Seq<Json>) -> Seq<JsonModel>
    decreases s,
{
    if s.len() == 0 {
        Seq::empty()
    } else {
        json_views(s.subrange(0, s.len() - 1)).push(json_view(s[s.len() - 1]))
    }
}

pub open spec fn entry_views(s: Seq<(String, Json)>) -> Seq<(Seq<char>, JsonModel)>
    decreases s,
{
    if s.len() == 0 {
        Seq::empty()
    } else {
        entry_views(s.subrange(0, s.len() - 1)).push(
            (s[s.len() - 1].0@, json_view(s[s.len() - 1].1)),
        )
    }
}

pub proof fn lemma_json_views(s: Seq<Json>)
    ensures
        json_views(s).len() == s.len(),
        forall|i: int| 0 <= i < s.len() ==> #[trigger] json_views(s)[i] == json_view(s[i]),
    decreases s.len(),
{
    if s.len() > 0 {
        lemma_json_views(s.subrange(0, s.len() - 1));
    }
}

pub proof fn lemma_entry_views(s: Seq<(String, Json)>)
    ensures
        entry_views(s).len() == s.len(),
        forall|i: int|
            0 <= i < s.len() ==> #[trigger] entry_views(s)[i] == (s[i].0@, json_view(s[i].1)),
    decreases s.len(),
{
    if s.len() > 0 {
        lemma_entry_views(s.subrange(0, s.len() - 1));
    }
}

/// Index of the first entry of an object with key `k`, from index `i` on.
pub open spec fn key_index(f: Seq<(Seq<char>, JsonModel)>, k: Seq<char>, i: int) -> Option<int>
    decreases f.len() - i,
{
    if i < 0 || i >= f.len() {
        None
    } else if f[i].0 == k {
        Some(i)
    } else {
        key_index(f, k, i + 1)
    }
}

/// Setting key `k` of an object: an existing entry keeps its place and
/// takes the new value; a new key goes last.
pub open spec fn object_insert(f: Seq<(Seq<char>, JsonModel)>, k: Seq<char>, v: JsonModel) -> Seq<(Seq<char>, JsonModel)> {
    match key_index(f, k, 0) {
        Some(i) => f.update(i, (k, v)),
        None => f.push((k, v)),
    }
}

/// The object that setting each entry in turn, starting from an empty
/// object, produces.
pub open spec fn object_of(entries: Seq<(Seq<char>, JsonModel)>) -> Seq<(Seq<char>, JsonModel)>
    decreases entries.len(),
{
    if entries.len() == 0 {
        Seq::empty()
    } else {
        object_insert(
            object_of(entries.subrange(0, entries.len() - 1)),
            entries[entries.len() - 1].0,
            entries[entries.len() - 1].1,
        )
    }
}

/// Sets key `k` of an object's entries to `v`.
pub fn object_set(f: &mut Vec<(String, Json)>, k: String, v: Json)
    ensures
        entry_views(final(f)@) == object_insert(entry_views(old(f)@), k@, json_view(v)),
{
    let mut i: usize = 0;
    while i < f.len() && !(f[i].0 == k)
        invariant
            i <= f.len(),
            key_index(entry_views(f@), k@, i as int) == key_index(entry_views(f@), k@, 0),
        decreases f.len() - i,
    {
        proof {
            lemma_entry_views(f@);
        }
        i = i + 1;
    }
    proof {
        lemma_entry_views(f@);
    }
    let ghost f0 = f@;
    let ghost jv = json_view(v);
    let ghost kv = k@;
    if i < f.len() {
        f.set(i, (k, v));
        proof {
            lemma_entry_views(f@);
            lemma_entry_views(f0);
            assert(entry_views(f@) =~= entry_views(f0).update(i as int, (kv, jv)));
        }
    } else {
        f.push((k, v));
        proof {
            lemma_entry_views(f@);
            lemma_entry_views(f0);
            assert(entry_views(f@) =~= entry_views(f0).push((kv, jv)));
        }
    }
}

pub proof fn lemma_object_of_push(e: Seq<(Seq<char>, JsonModel)>, x: (Seq<char>, JsonModel))
    ensures
        object_of(e.push(x)) == object_insert(object_of(e), x.0, x.1),
{
    assert(e.push(x).subrange(0, e.len() as int) =~= e);
}

/// The value of key `k` in an object (its first entry with that key).
pub open spec fn model_get(f: Seq<(Seq<char>, JsonModel)>, k: Seq<char>) -> Option<JsonModel> {
    match key_index(f, k, 0) {
        Some(i) => Some(f[i].1),
        None => None,
    }
}

/// The value of key `k` among an object's entries.
pub fn field_of<'a>(fields: &'a Vec<(String, Json)>, key: &str) -> (r: Option<&'a Json>)
    ensures
        match model_get(entry_views(fields@), key@) {
            Some(m) => r matches Some(j) && json_view(*j) == m,
            None => r is None,
        },
{
    proof {
        lemma_entry_views(fields@);
    }
    let k = key.to_owned();
    let mut i: usize = 0;
    while i < fields.len()
        invariant
            i <= fields.len(),
            k@ == key@,
            entry_views(fields@).len() == fields@.len(),
            forall|j: int|
                0 <= j < fields@.len() ==> #[trigger] entry_views(fields@)[j] == (
                    fields@[j].0@,
                    json_view(fields@[j].1),
                ),
            key_index(entry_views(fields@), key@, i as int) == key_index(
                entry_views(fields@),
                key@,
                0,
            ),
        decreases fields.len() - i,
    {
        if fields[i].0 == k {
            return Some(&fields[i].1);
        }
        i = i + 1;
    }
    None
}

/// A JSON string for some text.
pub fn json_text(s: &str) -> (r: Json)
    ensures
        json_view(r) == JsonModel::Str(s@),
{
    Json::Str(s.to_owned())
}

/// A copy of a JSON value.
pub fn copy_json(j: &Json) -> (r: Json)
    ensures
        json_view(r) == json_view(*j),
    decreases j,
{
    match j {
        Json::Null => Json::Null,
        Json::Bool(b) => Json::Bool(*b),
        Json::Int(n) => Json::Int(*n),
        Json::Uint(n) => Json::Uint(*n),
        Json::Real(x) => Json::Real(*x),
        Json::Str(s) => Json::Str(s.clone()),
        Json::Array(v) => Json::Array(copy_jsons(v)),
        Json::Object(f) => Json::Object(copy_entries(f)),
    }
}

pub fn copy_jsons(v: &Vec<Json>) -> (r: Vec<Json>)
    ensures
        json_views(r@) == json_views(v@),
    decreases v,
{
    let mut r: Vec<Json> = Vec::new();
    let mut k: usize = 0;
    while k < v.len()
        invariant
            k <= v.len(),
            json_views(r@) == json_views(v@.subrange(0, k as int)),
        decreases v.len() - k,
    {
        proof {
            assert(decreases_to!(v => v[k as int]));
        }
        let x = copy_json(&v[k]);
        let ghost r0 = r@;
        r.push(x);
        proof {
            assert(r@.subrange(0, r@.len() - 1) =~= r0);
            assert(v@.subrange(0, k + 1).subrange(0, k as int) =~= v@.subrange(0, k as int));
        }
        k = k + 1;
    }
    assert(v@.subrange(0, v@.len() as int) =~= v@);
    r
}

pub fn copy_entries(v: &Vec<(String, Json)>) -> (r: Vec<(String, Json)>)
    ensures
        entry_views(r@) == entry_views(v@),
    decreases v,
{
    let mut r: Vec<(String, Json)> = Vec::new();
    let mut k: usize = 0;
    while k < v.len()
        invariant
            k <= v.len(),
            entry_views(r@) == entry_views(v@.subrange(0, k as int)),
        decreases v.len() - k,
    {
        proof {
            assert(decreases_to!(v => v[k as int]));
            assert(decreases_to!(v[k as int] => v[k as int].1));
        }
        let x = copy_json(&v[k].1);
        let key = v[k].0.clone();
        let ghost r0 = r@;
        r.push((key, x));
        proof {
            assert(r@.subrange(0, r@.len() - 1) =~= r0);
            assert(v@.subrange(0, k + 1).subrange(0, k as int) =~= v@.subrange(0, k as int));
        }
        k = k + 1;
    }
    assert(v@.subrange(0, v@.len() as int) =~= v@);
    r
}

/// Appends an entry to an object's entries.
pub fn put_field(fields: &mut Vec<(String, Json)>, key: &str, v: Json)
    ensures
        entry_views(final(fields)@) == entry_views(old(fields)@).push((key@, json_view(v))),
{
    let ghost f0 = fields@;
    fields.push((key.to_owned(), v));
    assert(fields@.subrange(0, fields@.len() - 1) =~= f0);
}

} // verus!

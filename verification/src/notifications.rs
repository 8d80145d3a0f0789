//! FaceTime join requests in Notification Center records: the IDs needed
//! to admit someone waiting to join a call, found in the property lists a
//! record holds.
use vstd::prelude::*;
use crate::db::FaceTimeJoinNotification;
use crate::plist::{plist_parse_ok, read_plist, PlistValue};
use crate::serialize::dict_entry;
use crate::text::{chars_of, contains_seq, contains_seq_exec, lowercase_of, to_lowercase_text};

verus! {

/// A string of the archive mentions `join` (in any letter case).
pub open spec fn mentions_join(v: PlistValue) -> bool {
    match v {
        PlistValue::String(s) => contains_seq(lowercase_of(s@), "join"@),
        _ => false,
    }
}

/// The join an archive's `$objects` describe: the user ID at index 6 and
/// the conversation ID at index 9, both non-empty strings, when some
/// string mentions `join` and there are at least ten objects.
pub open spec fn joins_in_objects(objs: Seq<PlistValue>) -> Option<(Seq<char>, Seq<char>)> {
    if !(exists|i: int| 0 <= i < objs.len() && #[trigger] mentions_join(objs[i])) || objs.len() < 10 {
        None
    } else {
        match (objs[6], objs[9]) {
            (PlistValue::String(u), PlistValue::String(c)) => if u@.len() > 0 && c@.len() > 0 {
                Some((u@, c@))
            } else {
                None
            },
            _ => None,
        }
    }
}

/// The join a property list describes: an archive's `$objects`, else the
/// first entry (a dictionary, or a data blob read as a property list) that
/// describes one.
pub open spec fn joins_in(v: PlistValue) -> Option<(Seq<char>, Seq<char>)>
    decreases v,
{
    match v {
        PlistValue::Dictionary(d) => match dict_entry(d@, "$objects"@, 0) {
            Some(PlistValue::Array(objs)) => joins_in_objects(objs@),
            _ => joins_in_entries(d@),
        },
        _ => None,
    }
}

/// The join the first entry that describes one holds.
pub open spec fn joins_in_entries(d: Seq<(String, PlistValue)>) -> Option<(Seq<char>, Seq<char>)>
    decreases d,
{
    if d.len() == 0 {
        None
    } else {
        match joins_in_entries(d.subrange(0, d.len() - 1)) {
            Some(j) => Some(j),
            None => match d[d.len() - 1].1 {
                PlistValue::Data(_, nested) => match nested {
                    Some(n) => joins_in(*n),
                    None => None,
                },
                PlistValue::Dictionary(_) => joins_in(d[d.len() - 1].1),
                _ => None,
            },
        }
    }
}

fn mentions_join_exec(v: &PlistValue) -> (r: bool)
    ensures
        r == mentions_join(*v),
{
    match v {
        PlistValue::String(s) => {
            let l = to_lowercase_text(s.as_str());
            contains_seq_exec(&chars_of(l.as_str()), &chars_of("join"))
        },
        _ => false,
    }
}

/// Extract the join from an archive's `$objects`.
pub fn extract_joins_from_objects(objects: &[PlistValue]) -> (r: Option<Vec<FaceTimeJoinNotification>>)
    ensures
        match joins_in_objects(objects@) {
            Some((u, c)) => r matches Some(v) && v@.len() == 1 && v@[0].user_id@ == u
                && v@[0].conversation_id@ == c,
            None => r is None,
        },
{
    let mut has_join = false;
    let mut i: usize = 0;
    while i < objects.len()
        invariant
            i <= objects@.len(),
            has_join == exists|k: int| 0 <= k < i && #[trigger] mentions_join(objects@[k]),
        decreases objects.len() - i,
    {
        if mentions_join_exec(&objects[i]) {
            has_join = true;
        }
        i = i + 1;
    }
    if !has_join || objects.len() < 10 {
        return None;
    }
    let user = match &objects[6] {
        PlistValue::String(s) => s,
        _ => return None,
    };
    let conv = match &objects[9] {
        PlistValue::String(s) => s,
        _ => return None,
    };
    if user.as_str().is_empty() || conv.as_str().is_empty() {
        return None;
    }
    let mut v: Vec<FaceTimeJoinNotification> = Vec::new();
    v.push(FaceTimeJoinNotification { user_id: user.clone(), conversation_id: conv.clone() });
    Some(v)
}

/// Extract the join a property list describes.
pub fn extract_joins_from_plist(value: &PlistValue) -> (r: Option<Vec<FaceTimeJoinNotification>>)
    ensures
        match joins_in(*value) {
            Some((u, c)) => r matches Some(v) && v@.len() == 1 && v@[0].user_id@ == u
                && v@[0].conversation_id@ == c,
            None => r is None,
        },
    decreases value,
{
    let d = match value {
        PlistValue::Dictionary(d) => d,
        _ => return None,
    };
    let key = "$objects".to_owned();
    let mut i: usize = 0;
    while i < d.len()
        invariant
            i <= d@.len(),
            key@ == "$objects"@,
            *value == PlistValue::Dictionary(*d),
            dict_entry(d@, "$objects"@, i as int) == dict_entry(d@, "$objects"@, 0),
        decreases d.len() - i,
    {
        if d[i].0 == key {
            assert(dict_entry(d@, "$objects"@, i as int) == Some(d@[i as int].1));
            match &d[i].1 {
                PlistValue::Array(objs) => {
                    return extract_joins_from_objects(objs.as_slice());
                },
                _ => {
                    return joins_from_entries(d, value);
                },
            }
        }
        i = i + 1;
    }
    joins_from_entries(d, value)
}

fn joins_from_entries(d: &Vec<(String, PlistValue)>, value: &PlistValue) -> (r: Option<Vec<FaceTimeJoinNotification>>)
    requires
        *value == PlistValue::Dictionary(*d),
    ensures
        match joins_in_entries(d@) {
            Some((u, c)) => r matches Some(v) && v@.len() == 1 && v@[0].user_id@ == u
                && v@[0].conversation_id@ == c,
            None => r is None,
        },
    decreases value, 0nat,
{
    let mut i: usize = 0;
    while i < d.len()
        invariant
            i <= d@.len(),
            *value == PlistValue::Dictionary(*d),
            joins_in_entries(d@.subrange(0, i as int)) is None,
        decreases d.len() - i,
    {
        assert(d@.subrange(0, i + 1).subrange(0, i as int) =~= d@.subrange(0, i as int));
        assert(d@.subrange(0, i + 1)[i as int] == d@[i as int]);
        let found = match &d[i].1 {
            PlistValue::Data(_, nested) => match nested {
                Some(n) => {
                    proof {
                        assert(decreases_to!(*value => (*value)->Dictionary_0));
                        assert((*value)->Dictionary_0 == *d);
                        assert(decreases_to!(*d => d@[i as int]));
                        assert(decreases_to!(d@[i as int] => d@[i as int].1));
                        assert(decreases_to!(d@[i as int].1 => *nested));
                        assert(decreases_to!(*nested => **n));
                    }
                    extract_joins_from_plist(n)
                },
                None => None,
            },
            PlistValue::Dictionary(_) => {
                proof {
                    assert(decreases_to!(*value => (*value)->Dictionary_0));
                    assert((*value)->Dictionary_0 == *d);
                    assert(decreases_to!(*d => d@[i as int]));
                    assert(decreases_to!(d@[i as int] => d@[i as int].1));
                }
                extract_joins_from_plist(&d[i].1)
            },
            _ => None,
        };
        if found.is_some() {
            proof {
                assert(joins_in_entries(d@.subrange(0, i + 1)) == match d@[i as int].1 {
                    PlistValue::Data(_, nested) => match nested {
                        Some(n) => joins_in(*n),
                        None => None,
                    },
                    PlistValue::Dictionary(_) => joins_in(d@[i as int].1),
                    _ => None,
                });
                lemma_first_entry_join(d@, i as int);
            }
            return found;
        }
        i = i + 1;
    }
    assert(d@.subrange(0, d@.len() as int) =~= d@);
    None
}

/// The entries after the first one that holds a join do not change which
/// join the dictionary's entries hold.
proof fn lemma_first_entry_join(d: Seq<(String, PlistValue)>, i: int)
    requires
        0 <= i < d.len(),
        joins_in_entries(d.subrange(0, i + 1)) is Some,
    ensures
        joins_in_entries(d) == joins_in_entries(d.subrange(0, i + 1)),
    decreases d.len(),
{
    if d.len() > i + 1 {
        let p = d.subrange(0, d.len() - 1);
        assert(p.subrange(0, i + 1) =~= d.subrange(0, i + 1));
        lemma_first_entry_join(p, i);
    } else {
        assert(d.subrange(0, i + 1) =~= d);
    }
}

// ---------------------------------------------------------------------------
// Notification records
// ---------------------------------------------------------------------------

/// A binary property list starts at `i` (`bplist00`).
pub open spec fn magic_at(b: Seq<u8>, i: int) -> bool {
    0 <= i && i + 8 <= b.len() && b.subrange(i, i + 8) == seq![0x62u8, 0x70u8, 0x6cu8, 0x69u8, 0x73u8, 0x74u8, 0x30u8, 0x30u8]
}

/// The first binary property list starting at or after `i`.
pub open spec fn first_magic(b: Seq<u8>, i: int) -> Option<int>
    decreases b.len() - i,
{
    if i < 0 || i + 8 > b.len() {
        None
    } else if magic_at(b, i) {
        Some(i)
    } else {
        first_magic(b, i + 1)
    }
}

/// The starts of the embedded property lists tried, in order, scanning
/// from `off` while at least nine bytes remain there.
pub open spec fn scan_from(b: Seq<u8>, off: int) -> Seq<int>
    decreases b.len() - off,
{
    if 0 <= off && off + 8 < b.len() {
        match first_magic(b, off) {
            Some(p) => if off <= p < b.len() {
                seq![p] + scan_from(b, p + 1)
            } else {
                Seq::empty()
            },
            None => Seq::empty(),
        }
    } else {
        Seq::empty()
    }
}

/// The join of the first read that describes one.
pub open spec fn first_found(reads: Seq<Option<PlistValue>>) -> Option<(Seq<char>, Seq<char>)>
    decreases reads.len(),
{
    if reads.len() == 0 {
        None
    } else {
        match first_found(reads.drop_last()) {
            Some(j) => Some(j),
            None => match reads.last() {
                Some(v) => joins_in(v),
                None => None,
            },
        }
    }
}

/// What a record's data holds: the join its whole data read as a property
/// list describes, else the first that a property list embedded in it
/// describes.
pub open spec fn record_joins(whole: Option<PlistValue>, embedded: Seq<Option<PlistValue>>) -> Option<(Seq<char>, Seq<char>)> {
    match whole {
        Some(v) => match joins_in(v) {
            Some(j) => Some(j),
            None => first_found(embedded),
        },
        None => first_found(embedded),
    }
}

/// `reads` are what the property-list reader gave for the embedded property lists tried:
/// one per start, in order, the last a join unless all were read.
pub open spec fn reads_of(data: Seq<u8>, reads: Seq<Option<PlistValue>>) -> bool {
    let starts = scan_from(data, 0);
    &&& reads.len() <= starts.len()
    &&& forall|i: int| 0 <= i < reads.len() ==> exists|x: &[u8]|
        x@ == data.subrange(#[trigger] starts[i], data.len() as int) && plist_parse_ok(x@, reads[i])
    &&& (reads.len() < starts.len() ==> first_found(reads) is Some)
}

proof fn lemma_first_magic(b: Seq<u8>, i: int)
    requires
        0 <= i,
    ensures
        match first_magic(b, i) {
            Some(p) => i <= p && magic_at(b, p) && forall|q: int| i <= q < p ==> !magic_at(b, q),
            None => forall|q: int| i <= q ==> !magic_at(b, q),
        },
    decreases b.len() - i,
{
    if i + 8 <= b.len() && !magic_at(b, i) {
        lemma_first_magic(b, i + 1);
    }
}

fn magic_exec(b: &[u8], i: usize) -> (r: bool)
    requires
        i + 8 <= b@.len(),
    ensures
        r == magic_at(b@, i as int),
{
    let r = b[i] == 0x62 && b[i + 1] == 0x70 && b[i + 2] == 0x6c && b[i + 3] == 0x69 && b[i + 4]
        == 0x73 && b[i + 5] == 0x74 && b[i + 6] == 0x30 && b[i + 7] == 0x30;
    proof {
        let w = seq![0x62u8, 0x70u8, 0x6cu8, 0x69u8, 0x73u8, 0x74u8, 0x30u8, 0x30u8];
        if r {
            assert(b@.subrange(i as int, i + 8) =~= w);
        } else {
            if b@.subrange(i as int, i + 8) == w {
                assert(b@.subrange(i as int, i + 8)[0] == w[0]);
                assert(b@.subrange(i as int, i + 8)[1] == w[1]);
                assert(b@.subrange(i as int, i + 8)[2] == w[2]);
                assert(b@.subrange(i as int, i + 8)[3] == w[3]);
                assert(b@.subrange(i as int, i + 8)[4] == w[4]);
                assert(b@.subrange(i as int, i + 8)[5] == w[5]);
                assert(b@.subrange(i as int, i + 8)[6] == w[6]);
                assert(b@.subrange(i as int, i + 8)[7] == w[7]);
            }
        }
    }
    r
}

fn find_magic(b: &[u8], from: usize) -> (r: Option<usize>)
    ensures
        match first_magic(b@, from as int) {
            Some(p) => r == Some(p as usize),
            None => r is None,
        },
{
    let mut i = from;
    while i < b.len() && b.len() - i >= 8
        invariant
            from <= i,
            first_magic(b@, from as int) == first_magic(b@, i as int),
        decreases b.len() - i,
    {
        if magic_exec(b, i) {
            return Some(i);
        }
        i = i + 1;
    }
    None
}

fn copy_from(b: &[u8], start: usize) -> (r: Vec<u8>)
    requires
        start <= b@.len(),
    ensures
        r@ == b@.subrange(start as int, b@.len() as int),
{
    let mut v: Vec<u8> = Vec::new();
    let mut i = start;
    while i < b.len()
        invariant
            start <= i <= b@.len(),
            v@ == b@.subrange(start as int, i as int),
        decreases b.len() - i,
    {
        v.push(b[i]);
        i = i + 1;
        assert(v@ =~= b@.subrange(start as int, i as int));
    }
    v
}

proof fn lemma_first_found_push(reads: Seq<Option<PlistValue>>, x: Option<PlistValue>)
    ensures
        first_found(reads.push(x)) == match first_found(reads) {
            Some(j) => Some(j),
            None => match x {
                Some(v) => joins_in(v),
                None => None,
            },
        },
{
    assert(reads.push(x).drop_last() =~= reads);
}

/// Searches a record's data for property lists embedded in it, reading
/// each with the property-list reader until one describes a join.
pub fn extract_joins_from_embedded_plists(data: &[u8]) -> (r: Option<
    Vec<FaceTimeJoinNotification>,
>)
    ensures
        exists|reads: Seq<Option<PlistValue>>|
            #[trigger] reads_of(data@, reads) && match first_found(reads) {
                Some((u, c)) => r matches Some(v) && v@.len() == 1 && v@[0].user_id@ == u
                    && v@[0].conversation_id@ == c,
                None => r is None,
            },
{
    let ghost starts = scan_from(data@, 0);
    let ghost mut reads: Seq<Option<PlistValue>> = Seq::empty();
    let mut offset: usize = 0;
    let ghost mut k: int = 0;
    while offset < data.len() && data.len() - offset > 8
        invariant
            offset <= data@.len(),
            starts == scan_from(data@, 0),
            reads.len() == k,
            0 <= k <= starts.len(),
            scan_from(data@, offset as int) =~= starts.subrange(k, starts.len() as int),
            forall|i: int| 0 <= i < reads.len() ==> exists|x: &[u8]|
                x@ == data@.subrange(#[trigger] starts[i], data@.len() as int) && plist_parse_ok(x@, reads[i]),
            first_found(reads) is None,
        decreases data.len() - offset,
    {
        proof {
            lemma_first_magic(data@, offset as int);
        }
        let p = match find_magic(data, offset) {
            Some(p) => p,
            None => {
                proof {
                    assert(scan_from(data@, offset as int) =~= Seq::<int>::empty());
                    assert(starts.subrange(k, starts.len() as int).len() == 0);
                    assert(reads_of(data@, reads));
                }
                return None;
            },
        };
        proof {
            assert(scan_from(data@, offset as int) == seq![p as int] + scan_from(data@, p + 1));
            let t = starts.subrange(k, starts.len() as int);
            assert(t[0] == p);
            assert(scan_from(data@, p + 1) =~= t.subrange(1, t.len() as int));
            assert(t.subrange(1, t.len() as int) =~= starts.subrange(k + 1, starts.len() as int));
        }
        assert(starts[k] == p);
        let tail = copy_from(data, p);
        let ts = tail.as_slice();
        let parsed = read_plist(ts);
        assert(plist_parse_ok(ts@, parsed));
        proof {
            lemma_first_found_push(reads, parsed);
            let r0 = reads;
            reads = reads.push(parsed);
            assert(reads[k] == parsed);
            assert(ts@ == data@.subrange(starts[k], data@.len() as int));
            assert(plist_parse_ok(ts@, reads[k]));
            assert forall|i: int| 0 <= i < reads.len() implies exists|x: &[u8]|
                x@ == data@.subrange(#[trigger] starts[i], data@.len() as int) && plist_parse_ok(x@, reads[i]) by {
                if i < k {
                    assert(reads[i] == r0[i]);
                } else {
                    assert(ts@ == data@.subrange(starts[i], data@.len() as int) && plist_parse_ok(ts@, reads[i]));
                }
            }
        }
        match &parsed {
            Some(v) => match extract_joins_from_plist(v) {
                Some(j) => {
                    assert(reads_of(data@, reads));
                    return Some(j);
                },
                None => {},
            },
            None => {},
        }
        offset = p + 1;
        proof {
            k = k + 1;
        }
    }
    proof {
        assert(scan_from(data@, offset as int) =~= Seq::<int>::empty());
        assert(starts.subrange(k, starts.len() as int).len() == 0);
    }
    assert(reads_of(data@, reads));
    None
}

/// What reading a record comes to: the join its whole data describes;
/// else, `reads` being the embedded property lists read, the first of
/// them that describes one.
pub open spec fn record_outcome(
    data: Seq<u8>,
    whole: Option<PlistValue>,
    reads: Seq<Option<PlistValue>>,
    r: Option<Vec<FaceTimeJoinNotification>>,
) -> bool {
    let found = match whole {
        Some(v) => joins_in(v),
        None => None,
    };
    let j = match found {
        Some(j) => Some(j),
        None => first_found(reads),
    };
    &&& (found is None ==> reads_of(data, reads))
    &&& match j {
        Some((u, c)) => r matches Some(v) && v@.len() == 1 && v@[0].user_id@ == u && v@[0].conversation_id@
            == c,
        None => r is None,
    }
}

/// Reads a Notification Center record's data for a FaceTime join: as a
/// property list first, then through the property lists embedded in it,
/// each read with the property-list reader.
pub fn parse_notification_data(data: &[u8]) -> (r: Option<
    Vec<FaceTimeJoinNotification>,
>)
    ensures
        exists|whole: Option<PlistValue>, reads: Seq<Option<PlistValue>>|
            #[trigger] plist_parse_ok(data@, whole) && #[trigger] record_outcome(data@, whole, reads, r),
{
    let whole = read_plist(data);
    assert(plist_parse_ok(data@, whole));
    match &whole {
        Some(v) => match extract_joins_from_plist(v) {
            Some(j) => {
                assert(record_outcome(data@, whole, Seq::<Option<PlistValue>>::empty(), Some(j)));
                return Some(j);
            },
            None => {},
        },
        None => {},
    }
    let r = extract_joins_from_embedded_plists(data);
    proof {
        let reads = choose|reads: Seq<Option<PlistValue>>|
            #[trigger] reads_of(data@, reads) && match first_found(reads) {
                Some((u, c)) => r matches Some(v) && v@.len() == 1 && v@[0].user_id@ == u
                    && v@[0].conversation_id@ == c,
                None => r is None,
            };
        assert(plist_parse_ok(data@, whole));
        assert(record_outcome(data@, whole, reads, r));
    }
    r
}

} // verus!

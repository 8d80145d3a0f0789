//! Find My data as the API serves it: the decryption key the helper hands
//! over, items (AirTags and other trackers) reshaped as devices, and the
//! merged device list.
use vstd::prelude::*;
use crate::json::{
    copy_json, entry_views, field_of, json_view, json_views, put_field, Json, JsonModel,
};
use crate::private_api::{as_text, field};
use crate::reactions::{base64_decoded, decode_base64};
use crate::text::{chars_equal, chars_of, push_all, push_str, string_of};
use crate::decimal::{dec_digits, u64_digits};

verus! {

/// What the helper's base64 key comes to: the 32 key bytes, or the message
/// of the server error.
pub open spec fn findmy_key_of(b64: Seq<char>) -> Result<Seq<u8>, Seq<char>> {
    match base64_decoded(b64) {
        Err(e) => Err("Invalid base64 key: "@ + e),
        Ok(bytes) => if bytes.len() != 32 {
            Err("FindMy key is "@ + dec_digits(bytes.len()) + " bytes, expected 32"@)
        } else {
            Ok(bytes)
        },
    }
}

/// Decodes the Find My key the helper returns, which must be 32 bytes.
pub fn findmy_key_from(b64: &str) -> (r: Result<Vec<u8>, String>)
    ensures
        match findmy_key_of(b64@) {
            Ok(k) => r matches Ok(v) && v@ == k,
            Err(m) => r matches Err(e) && e@ == m,
        },
{
    match decode_base64(b64) {
        Err(e) => {
            let mut m = chars_of("Invalid base64 key: ");
            push_str(&mut m, e.as_str());
            Err(string_of(&m))
        },
        Ok(bytes) => {
            if bytes.len() != 32 {
                let mut m = chars_of("FindMy key is ");
                push_all(&mut m, &u64_digits(bytes.len() as u64));
                push_str(&mut m, " bytes, expected 32");
                Err(string_of(&m))
            } else {
                Ok(bytes)
            }
        },
    }
}

/// Field `k` of a JSON value, when it is an object.
pub fn get_field<'a>(j: &'a Json, k: &str) -> (r: Option<&'a Json>)
    ensures
        match field(json_view(*j), k@) {
            Some(m) => r matches Some(v) && json_view(*v) == m,
            None => r is None,
        },
{
    match j {
        Json::Object(f) => field_of(f, k),
        _ => None,
    }
}

fn get_text<'a>(j: &'a Json, k: &str) -> (r: Option<&'a String>)
    ensures
        match as_text(field(json_view(*j), k@)) {
            Some(t) => r matches Some(s) && s@ == t,
            None => r is None,
        },
{
    match get_field(j, k) {
        Some(Json::Str(s)) => Some(s),
        _ => None,
    }
}

/// An optional value as JSON: the value, or `null`.
pub open spec fn or_null(o: Option<JsonModel>) -> JsonModel {
    match o {
        Some(v) => v,
        None => JsonModel::Null,
    }
}

pub open spec fn and_field(o: Option<JsonModel>, k: Seq<char>) -> Option<JsonModel> {
    match o {
        Some(v) => field(v, k),
        None => None,
    }
}

/// The (identifier, name) pairs of the item groups that have both as text.
pub open spec fn group_pairs(groups: Seq<JsonModel>) -> Seq<(Seq<char>, Seq<char>)>
    decreases groups.len(),
{
    if groups.len() == 0 {
        Seq::empty()
    } else {
        let rest = group_pairs(groups.drop_last());
        let g = groups.last();
        match (as_text(field(g, "identifier"@)), as_text(field(g, "name"@))) {
            (Some(id), Some(name)) => rest.push((id, name)),
            _ => rest,
        }
    }
}

/// The name of a group: that of the last pair with its identifier.
pub open spec fn group_name_in(pairs: Seq<(Seq<char>, Seq<char>)>, id: Seq<char>) -> Option<Seq<char>>
    decreases pairs.len(),
{
    if pairs.len() == 0 {
        None
    } else if pairs.last().0 == id {
        Some(pairs.last().1)
    } else {
        group_name_in(pairs.drop_last(), id)
    }
}

pub open spec fn text_json(o: Option<Seq<char>>) -> JsonModel {
    match o {
        Some(s) => JsonModel::Str(s),
        None => JsonModel::Null,
    }
}

/// The product type of an item (`productType.type`), `Unknown` when absent.
pub open spec fn item_type_of(item: JsonModel) -> Seq<char> {
    match as_text(and_field(field(item, "productType"@), "type"@)) {
        Some(t) => t,
        None => "Unknown"@,
    }
}

/// The model name shown for an item: `AirTag` for type `b389`, else the
/// product information's model name, else the type.
pub open spec fn item_model_name(item: JsonModel) -> Seq<char> {
    let t = item_type_of(item);
    if t == "b389"@ {
        "AirTag"@
    } else {
        match as_text(
            and_field(and_field(field(item, "productType"@), "productInformation"@), "modelName"@),
        ) {
            Some(n) => n,
            None => t,
        }
    }
}

/// A Find My item in the shape of a device.
pub open spec fn item_as_device(item: JsonModel, pairs: Seq<(Seq<char>, Seq<char>)>) -> JsonModel {
    JsonModel::Object(device_fields(item, pairs))
}

/// An item's value at key `k`, or `null`.
pub open spec fn item_field(item: JsonModel, k: Seq<char>) -> JsonModel {
    or_null(field(item, k))
}

/// The fields of an item reshaped as a device, in order.
pub open spec fn device_fields(item: JsonModel, pairs: Seq<(Seq<char>, Seq<char>)>) -> Seq<(Seq<char>, JsonModel)> {
    device_head(item) + device_tail(item, pairs)
}

pub open spec fn device_head(item: JsonModel) -> Seq<(Seq<char>, JsonModel)> {
    let t = item_type_of(item);
    let lost = or_null(field(item, "lostModeMetadata"@));
    seq![
        ("deviceModel"@, JsonModel::Str(t)),
        ("id"@, item_field(item, "identifier"@)),
        ("batteryStatus"@, JsonModel::Str("Unknown"@)),
        ("audioChannels"@, JsonModel::Array(Seq::empty())),
        ("lostModeCapable"@, JsonModel::Bool(true)),
        ("batteryLevel"@, item_field(item, "batteryStatus"@)),
        ("locationEnabled"@, JsonModel::Bool(true)),
        ("isConsideredAccessory"@, JsonModel::Bool(true)),
        ("address"@, item_field(item, "address"@)),
        ("location"@, item_field(item, "location"@)),
        ("modelDisplayName"@, JsonModel::Str(item_model_name(item))),
        ("fmlyShare"@, JsonModel::Bool(false)),
        ("thisDevice"@, JsonModel::Bool(false)),
        ("lostModeEnabled"@, JsonModel::Bool(!(lost is Null))),
        ("deviceDisplayName"@, or_null(and_field(field(item, "role"@), "emoji"@))),
        ("safeLocations"@, item_field(item, "safeLocations"@)),
    ]
}

pub open spec fn device_tail(item: JsonModel, pairs: Seq<(Seq<char>, Seq<char>)>) -> Seq<(Seq<char>, JsonModel)> {
    let gid = as_text(field(item, "groupIdentifier"@));
    let gname = match gid {
        Some(g) => group_name_in(pairs, g),
        None => None,
    };
    device_middle(item) + device_end(item, gid, gname)
}

pub open spec fn device_middle(item: JsonModel) -> Seq<(Seq<char>, JsonModel)> {
    let t = item_type_of(item);
    seq![
        ("name"@, item_field(item, "name"@)),
        ("isMac"@, JsonModel::Bool(false)),
        ("rawDeviceModel"@, JsonModel::Str(t)),
        ("prsId"@, JsonModel::Str("owner"@)),
        ("locationCapable"@, JsonModel::Bool(true)),
        ("deviceClass"@, JsonModel::Str(t)),
        ("crowdSourcedLocation"@, item_field(item, "crowdSourcedLocation"@)),
        ("identifier"@, item_field(item, "identifier"@)),
    ]
}

pub open spec fn device_end(item: JsonModel, gid: Option<Seq<char>>, gname: Option<Seq<char>>) -> Seq<(Seq<char>, JsonModel)> {
    seq![
        ("productIdentifier"@, item_field(item, "productIdentifier"@)),
        ("role"@, item_field(item, "role"@)),
        ("serialNumber"@, item_field(item, "serialNumber"@)),
        ("lostModeMetadata"@, or_null(field(item, "lostModeMetadata"@))),
        ("groupIdentifier"@, text_json(gid)),
        ("groupName"@, text_json(gname)),
        ("isAppleAudioAccessory"@, item_field(item, "isAppleAudioAccessory"@)),
        ("capabilities"@, item_field(item, "capabilities"@)),
    ]
}

fn put_opt(fields: &mut Vec<(String, Json)>, key: &str, v: Option<&Json>)
    ensures
        entry_views(final(fields)@) == entry_views(old(fields)@).push(
            (
                key@,
                match v {
                    Some(j) => json_view(*j),
                    None => JsonModel::Null,
                },
            ),
        ),
{
    match v {
        Some(j) => put_field(fields, key, copy_json(j)),
        None => put_field(fields, key, Json::Null),
    }
}

fn opt_text_value(o: Option<&String>) -> (r: Json)
    ensures
        json_view(r) == text_json(
            match o {
                Some(s) => Some(s@),
                None => None,
            },
        ),
{
    match o {
        Some(s) => Json::Str(s.clone()),
        None => Json::Null,
    }
}

fn item_type(item: &Json) -> (r: String)
    ensures
        r@ == item_type_of(json_view(*item)),
{
    match get_field(item, "productType") {
        Some(pt) => match get_text(pt, "type") {
            Some(t) => t.clone(),
            None => "Unknown".to_owned(),
        },
        None => "Unknown".to_owned(),
    }
}

fn item_model(item: &Json, t: &String) -> (r: String)
    requires
        t@ == item_type_of(json_view(*item)),
    ensures
        r@ == item_model_name(json_view(*item)),
{
    if chars_equal(&chars_of(t.as_str()), &chars_of("b389")) {
        return "AirTag".to_owned();
    }
    match get_field(item, "productType") {
        Some(pt) => match get_field(pt, "productInformation") {
            Some(pi) => match get_text(pi, "modelName") {
                Some(n) => n.clone(),
                None => t.clone(),
            },
            None => t.clone(),
        },
        None => t.clone(),
    }
}

fn group_name_lookup<'a>(pairs: &'a Vec<(String, String)>, id: &str) -> (r: Option<&'a String>)
    ensures
        match group_name_in(pairs@.map_values(|p: (String, String)| (p.0@, p.1@)), id@) {
            Some(n) => r matches Some(s) && s@ == n,
            None => r is None,
        },
{
    let ghost pv = pairs@.map_values(|p: (String, String)| (p.0@, p.1@));
    let key = chars_of(id);
    let mut i = pairs.len();
    assert(pv.take(pv.len() as int) =~= pv);
    while i > 0
        invariant
            i <= pairs.len(),
            pv == pairs@.map_values(|p: (String, String)| (p.0@, p.1@)),
            group_name_in(pv, id@) == group_name_in(pv.take(i as int), id@),
            key@ == id@,
        decreases i,
    {
        assert(pv.take(i as int).drop_last() =~= pv.take(i - 1));
        assert(pv.take(i as int).last() == (pairs@[i - 1].0@, pairs@[i - 1].1@));
        assert(pv.take(i as int).len() > 0);
        let ghost tk = pv.take(i as int);
        assert(group_name_in(tk, id@) == if tk.last().0 == id@ {
            Some(tk.last().1)
        } else {
            group_name_in(tk.drop_last(), id@)
        });
        if chars_equal(&chars_of(pairs[i - 1].0.as_str()), &key) {
            assert(tk.last().0 == id@);
            assert(group_name_in(pv.take(i as int), id@) == Some(pairs@[i - 1].1@));
            return Some(&pairs[i - 1].1);
        }
        assert(group_name_in(pv.take(i as int), id@) == group_name_in(pv.take(i - 1), id@));
        i = i - 1;
    }
    assert(pv.take(0) =~= Seq::<(Seq<char>, Seq<char>)>::empty());
    None
}

#[verifier::spinoff_prover]
#[verifier::rlimit(80)]
fn put_device_head(f: &mut Vec<(String, Json)>, item: &Json)
    ensures
        entry_views(final(f)@) == entry_views(old(f)@) + device_head(json_view(*item)),
{
    let ghost f0 = entry_views(f@);
    let t = item_type(item);
    let model = item_model(item, &t);
    let lost_src = get_field(item, "lostModeMetadata");
    let lost_enabled = match lost_src {
        Some(Json::Null) => false,
        Some(_) => true,
        None => false,
    };
    let display = match get_field(item, "role") {
        Some(r) => get_field(r, "emoji"),
        None => None,
    };
    put_field(f, "deviceModel", Json::Str(t));
    put_opt(f, "id", get_field(item, "identifier"));
    put_field(f, "batteryStatus", Json::Str("Unknown".to_owned()));
    put_field(f, "audioChannels", Json::Array(Vec::new()));
    put_field(f, "lostModeCapable", Json::Bool(true));
    put_opt(f, "batteryLevel", get_field(item, "batteryStatus"));
    put_field(f, "locationEnabled", Json::Bool(true));
    put_field(f, "isConsideredAccessory", Json::Bool(true));
    put_opt(f, "address", get_field(item, "address"));
    put_opt(f, "location", get_field(item, "location"));
    put_field(f, "modelDisplayName", Json::Str(model));
    put_field(f, "fmlyShare", Json::Bool(false));
    put_field(f, "thisDevice", Json::Bool(false));
    put_field(f, "lostModeEnabled", Json::Bool(lost_enabled));
    put_opt(f, "deviceDisplayName", display);
    put_opt(f, "safeLocations", get_field(item, "safeLocations"));
    assert(json_views(Seq::<Json>::empty()) =~= Seq::<JsonModel>::empty());
    assert(entry_views(f@) =~= f0 + device_head(json_view(*item)));
}

fn put_device_middle(f: &mut Vec<(String, Json)>, item: &Json)
    ensures
        entry_views(final(f)@) == entry_views(old(f)@) + device_middle(json_view(*item)),
{
    let ghost f0 = entry_views(f@);
    let t = item_type(item);
    put_opt(f, "name", get_field(item, "name"));
    put_field(f, "isMac", Json::Bool(false));
    put_field(f, "rawDeviceModel", Json::Str(t.clone()));
    put_field(f, "prsId", Json::Str("owner".to_owned()));
    put_field(f, "locationCapable", Json::Bool(true));
    put_field(f, "deviceClass", Json::Str(t));
    put_opt(f, "crowdSourcedLocation", get_field(item, "crowdSourcedLocation"));
    put_opt(f, "identifier", get_field(item, "identifier"));
    assert(entry_views(f@) =~= f0 + device_middle(json_view(*item)));
}

fn put_device_end(f: &mut Vec<(String, Json)>, item: &Json, gid: Option<&String>, gname: Option<&String>)
    ensures
        entry_views(final(f)@) == entry_views(old(f)@) + device_end(
            json_view(*item),
            match gid {
                Some(s) => Some(s@),
                None => None,
            },
            match gname {
                Some(s) => Some(s@),
                None => None,
            },
        ),
{
    let ghost f0 = entry_views(f@);
    put_opt(f, "productIdentifier", get_field(item, "productIdentifier"));
    put_opt(f, "role", get_field(item, "role"));
    put_opt(f, "serialNumber", get_field(item, "serialNumber"));
    put_opt(f, "lostModeMetadata", get_field(item, "lostModeMetadata"));
    put_field(f, "groupIdentifier", opt_text_value(gid));
    put_field(f, "groupName", opt_text_value(gname));
    put_opt(f, "isAppleAudioAccessory", get_field(item, "isAppleAudioAccessory"));
    put_opt(f, "capabilities", get_field(item, "capabilities"));
    assert(entry_views(f@) =~= f0 + device_end(
        json_view(*item),
        match gid {
            Some(s) => Some(s@),
            None => None,
        },
        match gname {
            Some(s) => Some(s@),
            None => None,
        },
    ));
}

/// Reshapes a Find My item (an AirTag or other tracker) as a device; the
/// group name is looked up among the (identifier, name) pairs.
pub fn transform_findmy_item_to_device(item: &Json, groups: &Vec<(String, String)>) -> (r: Json)
    ensures
        json_view(r) == item_as_device(
            json_view(*item),
            groups@.map_values(|p: (String, String)| (p.0@, p.1@)),
        ),
{
    let mut f: Vec<(String, Json)> = Vec::new();
    assert(entry_views(f@) =~= Seq::<(Seq<char>, JsonModel)>::empty());
    put_device_head(&mut f, item);
    put_device_middle(&mut f, item);
    let gid = get_text(item, "groupIdentifier");
    let gname = match gid {
        Some(g) => group_name_lookup(groups, g.as_str()),
        None => None,
    };
    put_device_end(&mut f, item, gid, gname);
    assert(entry_views(f@) =~= device_fields(
        json_view(*item),
        groups@.map_values(|p: (String, String)| (p.0@, p.1@)),
    ));
    Json::Object(f)
}

fn push_json(v: &mut Vec<Json>, x: Json)
    ensures
        json_views(final(v)@) == json_views(old(v)@).push(json_view(x)),
{
    let ghost v0 = v@;
    v.push(x);
    assert(v@.subrange(0, v@.len() - 1) =~= v0);
}

/// The item groups' (identifier, name) pairs, when the groups are an array.
pub open spec fn group_list(groups: Option<JsonModel>) -> Seq<(Seq<char>, Seq<char>)> {
    match groups {
        Some(JsonModel::Array(a)) => group_pairs(a),
        _ => Seq::empty(),
    }
}

fn group_pairs_of(groups: Option<&Json>) -> (r: Vec<(String, String)>)
    ensures
        r@.map_values(|p: (String, String)| (p.0@, p.1@)) == group_list(
            match groups {
                Some(g) => Some(json_view(*g)),
                None => None,
            },
        ),
{
    let mut out: Vec<(String, String)> = Vec::new();
    match groups {
        Some(Json::Array(a)) => {
            let ghost av = json_views(a@);
            proof {
                crate::json::lemma_json_views(a@);
            }
            let mut k: usize = 0;
            while k < a.len()
                invariant
                    k <= a.len(),
                    av == json_views(a@),
                    av.len() == a@.len(),
                    forall|j: int| 0 <= j < a@.len() ==> #[trigger] av[j] == json_view(a@[j]),
                    out@.map_values(|p: (String, String)| (p.0@, p.1@)) == group_pairs(av.take(k as int)),
                decreases a.len() - k,
            {
                assert(av.take(k + 1).drop_last() =~= av.take(k as int));
                assert(av.take(k + 1).last() == json_view(a@[k as int]));
                let g = &a[k];
                match (get_text(g, "identifier"), get_text(g, "name")) {
                    (Some(id), Some(name)) => {
                        let ghost o0 = out@.map_values(|p: (String, String)| (p.0@, p.1@));
                        out.push((id.clone(), name.clone()));
                        assert(out@.map_values(|p: (String, String)| (p.0@, p.1@)) =~= o0.push((id@, name@)));
                    },
                    _ => {},
                }
                k = k + 1;
            }
            assert(av.take(av.len() as int) =~= av);
        },
        _ => {
            assert(out@.map_values(|p: (String, String)| (p.0@, p.1@)) =~= Seq::<(Seq<char>, Seq<char>)>::empty());
        },
    }
    out
}

/// The devices served: the device list (a single value counts as a list of
/// one), followed by the items reshaped as devices when the items are an
/// array.
pub open spec fn merged_devices(devices: JsonModel, items: Option<JsonModel>, groups: Option<JsonModel>) -> JsonModel {
    let base = match devices {
        JsonModel::Array(a) => a,
        other => seq![other],
    };
    match items {
        Some(JsonModel::Array(it)) => JsonModel::Array(
            base + it.map_values(|x: JsonModel| item_as_device(x, group_list(groups))),
        ),
        _ => JsonModel::Array(base),
    }
}

pub open spec fn opt_view(o: Option<&Json>) -> Option<JsonModel> {
    match o {
        Some(j) => Some(json_view(*j)),
        None => None,
    }
}

/// Merges the decrypted devices with the decrypted items (when they could
/// be read) into one device list.
pub fn merge_findmy_devices(devices: &Json, items: Option<&Json>, groups: Option<&Json>) -> (r: Json)
    ensures
        json_view(r) == merged_devices(json_view(*devices), opt_view(items), opt_view(groups)),
{
    let mut out: Vec<Json> = match devices {
        Json::Array(a) => crate::json::copy_jsons(a),
        other => {
            let mut v: Vec<Json> = Vec::new();
            assert(json_views(v@) =~= Seq::<JsonModel>::empty());
            push_json(&mut v, copy_json(other));
            v
        },
    };
    let ghost base = json_views(out@);
    match items {
        Some(Json::Array(it)) => {
            let pairs = group_pairs_of(groups);
            let ghost pv = pairs@.map_values(|p: (String, String)| (p.0@, p.1@));
            let ghost iv = json_views(it@);
            proof {
                crate::json::lemma_json_views(it@);
            }
            let mut k: usize = 0;
            while k < it.len()
                invariant
                    k <= it.len(),
                    pv == pairs@.map_values(|p: (String, String)| (p.0@, p.1@)),
                    pv == group_list(opt_view(groups)),
                    iv == json_views(it@),
                    iv.len() == it@.len(),
                    forall|j: int| 0 <= j < it@.len() ==> #[trigger] iv[j] == json_view(it@[j]),
                    json_views(out@) == base + iv.take(k as int).map_values(
                        |x: JsonModel| item_as_device(x, pv),
                    ),
                decreases it.len() - k,
            {
                let d = transform_findmy_item_to_device(&it[k], &pairs);
                let ghost o0 = json_views(out@);
                push_json(&mut out, d);
                assert(iv.take(k + 1).map_values(|x: JsonModel| item_as_device(x, pv)) =~= iv.take(
                    k as int,
                ).map_values(|x: JsonModel| item_as_device(x, pv)).push(item_as_device(iv[k as int], pv)));
                k = k + 1;
            }
            assert(iv.take(iv.len() as int) =~= iv);
        },
        _ => {},
    }
    Json::Array(out)
}

/// The friends cache is refreshed when it is empty, was never filled, or
/// was filled more than five minutes ago.
pub open spec fn friends_stale(len: nat, age_ns: Option<u128>) -> bool {
    len == 0 || match age_ns {
        None => true,
        Some(a) => a > 300_000_000_000,
    }
}

/// Whether the friends cache (of `len` entries, filled `age_ns`
/// nanoseconds ago if ever) is refreshed before it is served.
pub fn friends_need_refresh(len: usize, age_ns: Option<u128>) -> (r: bool)
    ensures
        r == friends_stale(len as nat, age_ns),
{
    len == 0 || match age_ns {
        None => true,
        Some(a) => a > 300_000_000_000,
    }
}

/// The friend locations of a refresh reply, keyed by handle: a location
/// without a text handle is left out, and a later one for a handle replaces
/// the earlier in its place.
pub open spec fn friend_entries(locs: Seq<JsonModel>) -> Seq<(Seq<char>, JsonModel)>
    decreases locs.len(),
{
    if locs.len() == 0 {
        Seq::empty()
    } else {
        let rest = friend_entries(locs.drop_last());
        match as_text(field(locs.last(), "handle"@)) {
            Some(h) => crate::json::object_insert(rest, h, locs.last()),
            None => rest,
        }
    }
}

/// The new friends cache a refresh reply gives, when its data has a
/// `locations` array; otherwise the cache is left as it is.
pub open spec fn friends_from(data: Option<JsonModel>) -> Option<Seq<(Seq<char>, JsonModel)>> {
    match and_field(data, "locations"@) {
        Some(JsonModel::Array(locs)) => Some(friend_entries(locs)),
        _ => None,
    }
}

/// Reads the friend locations out of a refresh reply's data.
pub fn friends_from_reply(data: Option<&Json>) -> (r: Option<Vec<(String, Json)>>)
    ensures
        match friends_from(opt_view(data)) {
            Some(e) => r matches Some(v) && entry_views(v@) == e,
            None => r is None,
        },
{
    let locs = match data {
        Some(d) => match get_field(d, "locations") {
            Some(Json::Array(a)) => a,
            _ => {
                return None;
            },
        },
        None => {
            return None;
        },
    };
    let ghost lv = json_views(locs@);
    proof {
        crate::json::lemma_json_views(locs@);
    }
    let mut out: Vec<(String, Json)> = Vec::new();
    assert(entry_views(out@) =~= Seq::<(Seq<char>, JsonModel)>::empty());
    let mut k: usize = 0;
    while k < locs.len()
        invariant
            k <= locs.len(),
            lv == json_views(locs@),
            lv.len() == locs@.len(),
            forall|j: int| 0 <= j < locs@.len() ==> #[trigger] lv[j] == json_view(locs@[j]),
            entry_views(out@) == friend_entries(lv.take(k as int)),
        decreases locs.len() - k,
    {
        assert(lv.take(k + 1).drop_last() =~= lv.take(k as int));
        assert(lv.take(k + 1).last() == json_view(locs@[k as int]));
        let loc = &locs[k];
        match get_text(loc, "handle") {
            Some(h) => {
                crate::json::object_set(&mut out, h.clone(), copy_json(loc));
            },
            None => {},
        }
        k = k + 1;
    }
    assert(lv.take(lv.len() as int) =~= lv);
    Some(out)
}

} // verus!

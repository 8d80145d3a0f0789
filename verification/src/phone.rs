//! Normalizing addresses: emails lowercased, phone numbers put in E.164
//! form by the phone-number library, anything else kept as given.
use std::str::FromStr;
use vstd::prelude::*;
use crate::text::{chars_of, contains_char, lowercase_of, string_of, to_lowercase_text, trim, trim_chars};

verus! {

/// Whether `phonenumber::parse`, given the country of the region code
/// `region`, reads `text` as a number that `phonenumber::is_valid` accepts.
pub uninterp spec fn phone_valid(region: Seq<char>, text: Seq<char>) -> bool;

/// The text `phonenumber::format` gives, in `phonenumber::Mode::E164`, for
/// the number `phonenumber::parse` reads in `text` for the region code
/// `region`.
pub uninterp spec fn phone_e164(region: Seq<char>, text: Seq<char>) -> Seq<char>;

/// What the phone-number library makes of `text` read in the region code
/// `region`: the E.164 form of the number, when it reads a valid one.
pub open spec fn library_e164(region: Seq<char>, text: Seq<char>) -> Option<Seq<char>> {
    if phone_valid(region, text) {
        Some(phone_e164(region, text))
    } else {
        None
    }
}

/// Trusted: reads the region code with `phonenumber::country::Id::from_str`
/// (an unknown code gives no country), calls `phonenumber::parse` on the
/// text, and for a number read gives `phonenumber::is_valid` of it and its
/// `phonenumber::format` text in `phonenumber::Mode::E164`.  The contract
/// claims that these are the named validity and E.164 text of the region
/// code and text, and that no number read means the text is not a valid
/// number; it says nothing of what the library reads.
#[verifier::external_body]
fn read_phone_number(region: &str, text: &str) -> (r: Option<(bool, String)>)
    ensures
        match r {
            Some((valid, e164)) => valid == phone_valid(region@, text@) && e164@ == phone_e164(
                region@,
                text@,
            ),
            None => !phone_valid(region@, text@),
        },
{
    match phonenumber::parse(phonenumber::country::Id::from_str(region).ok(), text) {
        Ok(n) => Some(
            (
                phonenumber::is_valid(&n),
                phonenumber::format(&n).mode(phonenumber::Mode::E164).to_string(),
            ),
        ),
        Err(_) => None,
    }
}

/// An address normalized, given the E.164 form the phone-number library
/// gives its trimmed text (`None` when it reads no valid number): empty
/// stays empty, an email is lowercased, a phone number takes its E.164
/// form, anything else is kept trimmed.
pub open spec fn normalized(address: Seq<char>, e164: Option<Seq<char>>) -> Seq<char> {
    let t = trim(address);
    if t.len() == 0 {
        t
    } else if t.contains('@') {
        lowercase_of(t)
    } else {
        match e164 {
            Some(p) => p,
            None => t,
        }
    }
}

/// The region to read a number in: the one given, `US` when none is.
pub open spec fn region_or_default(region: Seq<char>) -> Seq<char> {
    if region.len() == 0 {
        seq!['U', 'S']
    } else {
        region
    }
}

/// What the phone-number library gives an address: the E.164 form of the
/// number it reads in the region code (`US` when none is given), when that
/// number is valid.
fn e164_of(trimmed: &str, region: &str) -> (r: Option<String>)
    ensures
        match library_e164(region_or_default(region@), trimmed@) {
            Some(p) => r matches Some(s) && s@ == p,
            None => r is None,
        },
{
    let code = if region.is_empty() {
        proof {
            reveal_strlit("US");
            assert("US"@ =~= seq!['U', 'S']);
        }
        "US"
    } else {
        region
    };
    assert(code@ == region_or_default(region@));
    match read_phone_number(code, trimmed) {
        Some((valid, e164)) => if valid {
            Some(e164)
        } else {
            None
        },
        None => None,
    }
}

/// Normalize an address (phone number or email) to a canonical form:
/// emails lowercased, phone numbers in E.164 form (read in `region`, `US`
/// by default), anything else trimmed.
pub fn normalize_address(address: &str, region: &str) -> (r: String)
    ensures
        r@ == normalized(address@, library_e164(region_or_default(region@), trim(address@))),
{
    let t = trim_chars(&chars_of(address));
    if t.len() == 0 {
        let r = string_of(&t);
        return r;
    }
    if contains_char(&t, '@') {
        let r = to_lowercase_text(string_of(&t).as_str());
        assert(r@ == normalized(address@, None));
        return r;
    }
    let trimmed = string_of(&t);
    match e164_of(trimmed.as_str(), region) {
        Some(p) => {
            assert(p@ == normalized(address@, Some(p@)));
            p
        },
        None => {
            assert(trimmed@ == normalized(address@, None));
            trimmed
        },
    }
}

} // verus!

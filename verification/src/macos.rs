//! macOS version values and the version checks the server makes.
use vstd::prelude::*;
use crate::decimal::{dec_digits, parse_u32, u32_text_value, u64_digits};
use crate::text::{
    chars_of, lemma_split_on_nonempty, push_all, split_chars, split_on, string_of, trim, trim_chars,
};
use crate::typedstream::{lossy_text, utf8_lossy};

verus! {

/// Parsed macOS version.
#[derive(Debug, Clone, Copy, PartialEq, Eq, Structural)]
pub struct MacOsVersion {
    pub major: u32,
    pub minor: u32,
    pub patch: u32,
}

/// `(major, minor, _)` is at least `major.minor`.
pub open spec fn at_least(v: MacOsVersion, major: u32, minor: u32) -> bool {
    if v.major != major {
        v.major > major
    } else {
        v.minor >= minor
    }
}

/// The `major.minor.patch` text of a version.
pub open spec fn version_text(v: MacOsVersion) -> Seq<char> {
    dec_digits(v.major as nat) + seq!['.'] + dec_digits(v.minor as nat) + seq!['.'] + dec_digits(
        v.patch as nat,
    )
}

impl MacOsVersion {
    pub fn new(major: u32, minor: u32, patch: u32) -> (r: Self)
        ensures
            r == (MacOsVersion { major, minor, patch }),
    {
        Self { major, minor, patch }
    }

    /// Check if this version is >= the given version.
    pub fn is_at_least(&self, major: u32, minor: u32) -> (r: bool)
        ensures
            r == at_least(*self, major, minor),
    {
        if self.major != major {
            return self.major > major;
        }
        self.minor >= minor
    }

    /// macOS 26 (Tahoe) or newer.
    pub fn is_min_tahoe(&self) -> (r: bool)
        ensures
            r == at_least(*self, 26, 0),
    {
        self.is_at_least(26, 0)
    }

    /// The version as `major.minor.patch`.
    pub fn to_version_string(&self) -> (r: String)
        ensures
            r@ == version_text(*self),
    {
        let mut v = u64_digits(self.major as u64);
        v.push('.');
        let mi = u64_digits(self.minor as u64);
        push_all(&mut v, &mi);
        v.push('.');
        let pa = u64_digits(self.patch as u64);
        push_all(&mut v, &pa);
        string_of(&v)
    }
}

/// The message given when the running macOS is older than Sequoia.
pub open spec fn too_old_message(v: MacOsVersion) -> Seq<char> {
    "imessage-rs requires macOS Sequoia (15.0) or newer, but detected macOS "@ + version_text(v)
}

/// Check that the given (detected) macOS version is at least Sequoia (15.0).
pub fn require_min_sequoia(v: MacOsVersion) -> (r: Result<(), String>)
    ensures
        r is Ok <==> at_least(v, 15, 0),
        r matches Err(m) ==> m@ == too_old_message(v),
{
    if v.is_at_least(15, 0) {
        Ok(())
    } else {
        let mut m = chars_of("imessage-rs requires macOS Sequoia (15.0) or newer, but detected macOS ");
        let t = v.to_version_string();
        let tc = chars_of(t.as_str());
        push_all(&mut m, &tc);
        Err(string_of(&m))
    }
}

/// The version a `sw_vers -productVersion` string denotes: its first
/// dot-separated part must be a `u32`; a missing or unreadable minor or patch
/// part counts as 0.
pub open spec fn version_of_text(s: Seq<char>) -> Option<MacOsVersion> {
    let parts = split_on(s, '.');
    match u32_text_value(parts[0]) {
        None => None,
        Some(major) => Some(
            MacOsVersion {
                major: major as u32,
                minor: part_or_zero(parts, 1),
                patch: part_or_zero(parts, 2),
            },
        ),
    }
}

pub open spec fn part_or_zero(parts: Seq<Seq<char>>, i: int) -> u32 {
    if i < parts.len() {
        match u32_text_value(parts[i]) {
            Some(n) => n as u32,
            None => 0,
        }
    } else {
        0
    }
}

fn part_value(parts: &Vec<Vec<char>>, i: usize) -> (r: u32)
    ensures
        r == part_or_zero(parts@.map_values(|p: Vec<char>| p@), i as int),
{
    if i < parts.len() {
        match parse_u32(&parts[i]) {
            Some(n) => n,
            None => 0,
        }
    } else {
        0
    }
}

/// Parse a version string like "26.3.0" or "15.0".
pub fn parse_version(s: &str) -> (r: Option<MacOsVersion>)
    ensures
        r == version_of_text(s@),
{
    let cs = chars_of(s);
    let parts = split_chars(&cs, '.');
    proof {
        lemma_split_on_nonempty(cs@, '.');
        assert(parts@.map_values(|p: Vec<char>| p@) =~= split_on(s@, '.'));
    }
    match parse_u32(&parts[0]) {
        None => None,
        Some(major) => {
            let minor = part_value(&parts, 1);
            let patch = part_value(&parts, 2);
            Some(MacOsVersion::new(major, minor, patch))
        },
    }
}

/// The version `sw_vers -productVersion` reports: its output, read as
/// text and trimmed, parsed; 0.0.0 when it failed or printed no version.
pub open spec fn reported_version(succeeded: bool, stdout: Seq<u8>) -> MacOsVersion {
    if succeeded {
        match version_of_text(trim(utf8_lossy(stdout))) {
            Some(v) => v,
            None => MacOsVersion { major: 0, minor: 0, patch: 0 },
        }
    } else {
        MacOsVersion { major: 0, minor: 0, patch: 0 }
    }
}

/// Reads the macOS version from what `sw_vers -productVersion` gave.
pub fn version_from_sw_vers(succeeded: bool, stdout: &[u8]) -> (r: MacOsVersion)
    ensures
        r == reported_version(succeeded, stdout@),
{
    if !succeeded {
        return MacOsVersion::new(0, 0, 0);
    }
    let text = lossy_text(stdout);
    let t = string_of(&trim_chars(&chars_of(text.as_str())));
    match parse_version(t.as_str()) {
        Some(v) => v,
        None => MacOsVersion::new(0, 0, 0),
    }
}

} // verus!

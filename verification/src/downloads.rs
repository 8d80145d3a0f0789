//! What the attachment routes decide before they touch the disk: the MIME
//! type a file is served as, whether it is first converted (HEIC/TIFF to
//! JPEG, CAF to M4A) or resized, and the names of the cached results.
use vstd::prelude::*;
use crate::db::Attachment;
use crate::decimal::{dec_digits, parse_u32, u32_text_value, u64_digits};
use crate::text::{
    chars_equal, chars_of, has_prefix, lowercase_of, push_all, push_str, starts_with_chars,
    string_of, to_lowercase_text,
};

verus! {

/// The MIME type that `mime_guess` gives first for a file name, by its
/// extension (`mime_guess::from_path(name).first()`).
pub uninterp spec fn mime_guessed(name: Seq<char>) -> Option<Seq<char>>;

/// Trusted: calls `mime_guess::from_path(name).first()` and renders the
/// guess as text; the result is named `mime_guessed`.
#[verifier::external_body]
fn guess_mime(name: &str) -> (r: Option<String>)
    ensures
        match r {
            Some(m) => mime_guessed(name@) == Some(m@),
            None => mime_guessed(name@) is None,
        },
{
    mime_guess::from_path(name).first().map(|m| m.to_string())
}

/// Text of an optional string, or the empty text.
pub open spec fn text_or_empty(o: Option<String>) -> Seq<char> {
    match o {
        Some(s) => s@,
        None => Seq::empty(),
    }
}

/// The MIME type a file is served as: the attachment's own when it is not
/// empty, else the one guessed from its transfer name, else
/// `application/octet-stream`.
pub open spec fn served_mime_of(a: Attachment) -> Seq<char> {
    if a.mime_type matches Some(m) && m@.len() > 0 {
        a.mime_type->0@
    } else if a.transfer_name matches Some(n) && mime_guessed(n@) is Some {
        mime_guessed(a.transfer_name->0@)->0
    } else {
        "application/octet-stream"@
    }
}

/// The MIME type an attachment is served as, before any conversion.
pub fn served_mime(a: &Attachment) -> (r: String)
    ensures
        r@ == served_mime_of(*a),
{
    match &a.mime_type {
        Some(m) => {
            if !m.as_str().is_empty() {
                return m.clone();
            }
        },
        None => {},
    }
    match &a.transfer_name {
        Some(n) => match guess_mime(n.as_str()) {
            Some(g) => g,
            None => "application/octet-stream".to_owned(),
        },
        None => "application/octet-stream".to_owned(),
    }
}

/// The `original` query parameter asks for the file as stored: `true` or
/// `1`, in any letter case.
pub open spec fn original_asked(o: Option<String>) -> bool {
    match o {
        Some(s) => lowercase_of(s@) == "true"@ || lowercase_of(s@) == "1"@,
        None => false,
    }
}

/// Whether the download is asked for as stored, with no conversion.
pub fn wants_original(original: &Option<String>) -> (r: bool)
    ensures
        r == original_asked(*original),
{
    match original {
        Some(s) => {
            let l = chars_of(to_lowercase_text(s.as_str()).as_str());
            chars_equal(&l, &chars_of("true")) || chars_equal(&l, &chars_of("1"))
        },
        None => false,
    }
}

/// A conversion done before a file is served.
#[derive(Debug, Clone, Copy, PartialEq, Eq, Structural)]
pub enum Conversion {
    /// HEIC, HEIF or TIFF image to JPEG.
    Jpeg,
    /// Core Audio (CAF) to M4A.
    M4a,
}

/// HEIC, HEIF and TIFF images, by UTI or MIME type, are served as JPEG.
pub open spec fn needs_jpeg(uti: Seq<char>, mime: Seq<char>) -> bool {
    ||| uti == "public.heic"@
    ||| uti == "public.heif"@
    ||| uti == "public.tiff"@
    ||| has_prefix(mime, "image/heic"@)
    ||| has_prefix(mime, "image/heif"@)
    ||| has_prefix(mime, "image/tiff"@)
}

/// The conversion a download gets, by the attachment's UTI and the MIME
/// type it would be served as.
pub open spec fn conversion_of(uti: Seq<char>, mime: Seq<char>) -> Option<Conversion> {
    if needs_jpeg(uti, mime) {
        Some(Conversion::Jpeg)
    } else if uti == "com.apple.coreaudio-format"@ || mime == "audio/x-caf"@ {
        Some(Conversion::M4a)
    } else {
        None
    }
}

/// Whether a file of this UTI and MIME type is converted to JPEG first.
pub fn is_jpeg_source(uti: &str, mime: &str) -> (r: bool)
    ensures
        r == needs_jpeg(uti@, mime@),
{
    let u = chars_of(uti);
    let m = chars_of(mime);
    chars_equal(&u, &chars_of("public.heic")) || chars_equal(&u, &chars_of("public.heif"))
        || chars_equal(&u, &chars_of("public.tiff")) || starts_with_chars(
        &m,
        &chars_of("image/heic"),
    ) || starts_with_chars(&m, &chars_of("image/heif")) || starts_with_chars(
        &m,
        &chars_of("image/tiff"),
    )
}

/// The conversion a download of this UTI and MIME type gets.
pub fn conversion_for(uti: &Option<String>, mime: &str) -> (r: Option<Conversion>)
    ensures
        r == conversion_of(text_or_empty(*uti), mime@),
{
    let u: &str = match uti {
        Some(s) => s.as_str(),
        None => "",
    };
    proof {
        reveal_strlit("");
    }
    assert(u@ == text_or_empty(*uti));
    if is_jpeg_source(u, mime) {
        Some(Conversion::Jpeg)
    } else if chars_equal(&chars_of(u), &chars_of("com.apple.coreaudio-format")) || chars_equal(
        &chars_of(mime),
        &chars_of("audio/x-caf"),
    ) {
        Some(Conversion::M4a)
    } else {
        None
    }
}

/// The file name a conversion is cached under, and the MIME type the
/// result is served as.
pub open spec fn converted_as(transfer_name: Option<String>, c: Conversion) -> (Seq<char>, Seq<char>) {
    match c {
        Conversion::Jpeg => (
            match transfer_name {
                Some(n) => n@,
                None => "converted"@,
            } + ".jpeg"@,
            "image/jpeg"@,
        ),
        Conversion::M4a => (
            match transfer_name {
                Some(n) => n@,
                None => "audio"@,
            } + ".m4a"@,
            "audio/mp4"@,
        ),
    }
}

/// File name of the converted copy, and the MIME type it is served as.
pub fn converted_file(transfer_name: &Option<String>, c: Conversion) -> (r: (String, String))
    ensures
        (r.0@, r.1@) == converted_as(*transfer_name, c),
{
    let (base, ext, mime) = match c {
        Conversion::Jpeg => ("converted", ".jpeg", "image/jpeg"),
        Conversion::M4a => ("audio", ".m4a", "audio/mp4"),
    };
    let mut name = match transfer_name {
        Some(n) => chars_of(n.as_str()),
        None => chars_of(base),
    };
    push_str(&mut name, ext);
    (string_of(&name), mime.to_owned())
}

/// The directory name conversions and resized copies of an attachment are
/// cached under: its original GUID, else its GUID.
pub open spec fn cache_guid_of(a: Attachment) -> Seq<char> {
    match a.original_guid {
        Some(g) => g@,
        None => a.guid@,
    }
}

pub fn cache_guid(a: &Attachment) -> (r: String)
    ensures
        r@ == cache_guid_of(*a),
{
    match &a.original_guid {
        Some(g) => g.clone(),
        None => a.guid.clone(),
    }
}

/// A dimension query parameter, as `u32::from_str` reads it.
pub open spec fn dimension_of(p: Option<String>) -> Option<nat> {
    match p {
        Some(s) => u32_text_value(s@),
        None => None,
    }
}

fn parse_dimension(p: &Option<String>) -> (r: Option<u32>)
    ensures
        match r {
            Some(v) => dimension_of(*p) == Some(v as nat),
            None => dimension_of(*p) is None,
        },
{
    match p {
        Some(s) => parse_u32(&chars_of(s.as_str())),
        None => None,
    }
}

/// A resize of a served image.
#[derive(Debug)]
pub struct ResizePlan {
    /// File name of the resized copy in the attachment's cache directory.
    pub cache_name: String,
    pub width: Option<u32>,
    pub height: Option<u32>,
}

/// Images other than GIFs are resized when a width or height is asked for;
/// the copy is named by the transfer name, then `.height`, then `.width`.
pub open spec fn resize_of(
    mime: Seq<char>,
    transfer_name: Option<String>,
    width: Option<String>,
    height: Option<String>,
) -> Option<(Seq<char>, Option<nat>, Option<nat>)> {
    let w = dimension_of(width);
    let h = dimension_of(height);
    if has_prefix(mime, "image/"@) && mime != "image/gif"@ && (w is Some || h is Some) {
        let base = match transfer_name {
            Some(n) => n@,
            None => "attachment"@,
        };
        let with_h = match h {
            Some(v) => base + "."@ + dec_digits(v),
            None => base,
        };
        let name = match w {
            Some(v) => with_h + "."@ + dec_digits(v),
            None => with_h,
        };
        Some((name, w, h))
    } else {
        None
    }
}

pub open spec fn opt_u32(o: Option<u32>) -> Option<nat> {
    match o {
        Some(v) => Some(v as nat),
        None => None,
    }
}

/// The resize a download of an image of type `mime` gets, if any.
pub fn resize_plan(
    mime: &str,
    transfer_name: &Option<String>,
    width: &Option<String>,
    height: &Option<String>,
) -> (r: Option<ResizePlan>)
    ensures
        match resize_of(mime@, *transfer_name, *width, *height) {
            Some(p) => r matches Some(q) && q.cache_name@ == p.0 && opt_u32(q.width) == p.1 && opt_u32(
                q.height,
            ) == p.2,
            None => r is None,
        },
{
    let w = parse_dimension(width);
    let h = parse_dimension(height);
    let m = chars_of(mime);
    if !(starts_with_chars(&m, &chars_of("image/")) && !chars_equal(&m, &chars_of("image/gif"))
        && (w.is_some() || h.is_some())) {
        return None;
    }
    let mut name = match transfer_name {
        Some(n) => chars_of(n.as_str()),
        None => chars_of("attachment"),
    };
    match h {
        Some(v) => {
            push_str(&mut name, ".");
            push_all(&mut name, &u64_digits(v as u64));
        },
        None => {},
    }
    match w {
        Some(v) => {
            push_str(&mut name, ".");
            push_all(&mut name, &u64_digits(v as u64));
        },
        None => {},
    }
    Some(ResizePlan { cache_name: string_of(&name), width: w, height: h })
}

/// The type a blurhash is asked of: the MIME type when not empty, else the
/// UTI, else nothing.
pub open spec fn blurhash_type_of(a: Attachment) -> Seq<char> {
    if a.mime_type matches Some(m) && m@.len() > 0 {
        a.mime_type->0@
    } else {
        text_or_empty(a.uti)
    }
}

/// Only images (by MIME type or UTI) get a blurhash.
pub open spec fn blurhash_allowed(t: Seq<char>) -> bool {
    has_prefix(t, "image"@) || has_prefix(t, "public."@)
}

/// Checks that a blurhash can be made for the attachment; gives the type
/// it goes by.
pub fn check_blurhash_source(a: &Attachment) -> (r: Result<String, String>)
    ensures
        blurhash_allowed(blurhash_type_of(*a)) ==> (r matches Ok(t) && t@ == blurhash_type_of(*a)),
        !blurhash_allowed(blurhash_type_of(*a)) ==> (r matches Err(e) && e@
            == "Blurhash can only be generated for image attachments"@),
{
    let t: String = match &a.mime_type {
        Some(m) => {
            if !m.as_str().is_empty() {
                m.clone()
            } else {
                match &a.uti {
                    Some(u) => u.clone(),
                    None => string_of(&Vec::new()),
                }
            }
        },
        None => match &a.uti {
            Some(u) => u.clone(),
            None => string_of(&Vec::new()),
        },
    };
    let c = chars_of(t.as_str());
    if starts_with_chars(&c, &chars_of("image")) || starts_with_chars(&c, &chars_of("public.")) {
        Ok(t)
    } else {
        Err("Blurhash can only be generated for image attachments".to_owned())
    }
}

} // verus!

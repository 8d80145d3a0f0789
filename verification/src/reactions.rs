//! Checking a reaction request: classic tapbacks, stickers given as data
//! URLs, and emoji reactions.
use vstd::prelude::*;
use base64::Engine;
use crate::text::{
    chars_equal, chars_of, find_from, has_prefix, occurs_at, push_str, slice_of,
    starts_with_chars, string_of,
};

verus! {

/// What `base64`'s standard engine decodes a text to: the bytes, or the
/// text of the decode error.
pub uninterp spec fn base64_decoded(s: Seq<char>) -> Result<Seq<u8>, Seq<char>>;

/// Trusted: calls `base64::engine::general_purpose::STANDARD.decode` and
/// renders a decode error as its display text; the result is named
/// `base64_decoded`.
#[verifier::external_body]
pub(crate) fn decode_base64(s: &str) -> (r: Result<Vec<u8>, String>)
    ensures
        match r {
            Ok(v) => base64_decoded(s@) == Ok::<Seq<u8>, Seq<char>>(v@),
            Err(e) => base64_decoded(s@) == Err::<Seq<u8>, Seq<char>>(e@),
        },
{
    base64::engine::general_purpose::STANDARD.decode(s).map_err(|e| e.to_string())
}

/// Whether `emojis` knows the text as an emoji (`emojis::get(s)` finds it).
pub uninterp spec fn emoji_known(s: Seq<char>) -> bool;

/// Trusted: calls `emojis::get`; whether it found the text is named
/// `emoji_known`.
#[verifier::external_body]
fn is_emoji(s: &str) -> (r: bool)
    ensures
        r == emoji_known(s@),
{
    emojis::get(s).is_some()
}

/// The text of `s` before and after the first occurrence of `p`.
pub open spec fn split_once(s: Seq<char>, p: Seq<char>) -> Option<(Seq<char>, Seq<char>)> {
    if exists|i: int| occurs_at(s, p, i) {
        let i = choose|i: int| occurs_at(s, p, i) && forall|j: int| 0 <= j < i ==> !occurs_at(s, p, j);
        Some((s.subrange(0, i), s.subrange(i + p.len(), s.len() as int)))
    } else {
        None
    }
}

/// The file extension a sticker of an image MIME type is saved with.
pub open spec fn sticker_ext(mime: Seq<char>) -> Seq<char> {
    if mime == "image/png"@ {
        "png"@
    } else if mime == "image/jpeg"@ || mime == "image/jpg"@ {
        "jpg"@
    } else if mime == "image/heic"@ {
        "heic"@
    } else if mime == "image/gif"@ {
        "gif"@
    } else if mime == "image/webp"@ {
        "webp"@
    } else if mime == "image/tiff"@ {
        "tiff"@
    } else {
        "png"@
    }
}

/// A sticker decoded from its data URL: the image bytes and the extension
/// of the file they are saved to.
#[derive(Debug)]
pub struct StickerData {
    pub ext: String,
    pub bytes: Vec<u8>,
}

/// What a sticker data URL (`data:<mime>;base64,<data>`) comes to: the
/// extension and bytes, or the message of the bad request.
pub open spec fn sticker_of(url: Seq<char>) -> Result<(Seq<char>, Seq<u8>), Seq<char>> {
    if !has_prefix(url, "data:"@) {
        Err("Invalid sticker data URL: must start with 'data:'"@)
    } else {
        match split_once(url.subrange(5, url.len() as int), ";base64,"@) {
            None => Err("Invalid sticker data URL: expected ';base64,' separator"@),
            Some((mime, data)) => sticker_from(mime, base64_decoded(data)),
        }
    }
}

/// What the MIME type and the decoded data of a sticker data URL come to.
pub open spec fn sticker_from(mime: Seq<char>, decoded: Result<Seq<u8>, Seq<char>>) -> Result<
    (Seq<char>, Seq<u8>),
    Seq<char>,
> {
    match decoded {
        Err(e) => Err("Invalid sticker base64 data: "@ + e),
        Ok(bytes) => if bytes.len() == 0 {
            Err("Sticker data is empty"@)
        } else if !has_prefix(mime, "image/"@) {
            Err(
                "Invalid sticker MIME type: \""@ + mime
                    + "\". Must be an image type (e.g. image/png, image/jpeg)."@,
            )
        } else {
            Ok((sticker_ext(mime), bytes))
        },
    }
}

fn finish_sticker(mime: &Vec<char>, decoded: Result<Vec<u8>, String>) -> (r: Result<StickerData, String>)
    ensures
        match sticker_from(
            mime@,
            match decoded {
                Ok(v) => Ok(v@),
                Err(e) => Err(e@),
            },
        ) {
            Ok((ext, bytes)) => r matches Ok(d) && d.ext@ == ext && d.bytes@ == bytes,
            Err(m) => r matches Err(e) && e@ == m,
        },
{
    let bytes = match decoded {
        Ok(b) => b,
        Err(e) => {
            let mut m = chars_of("Invalid sticker base64 data: ");
            push_str(&mut m, e.as_str());
            return Err(string_of(&m));
        },
    };
    if bytes.len() == 0 {
        return Err("Sticker data is empty".to_owned());
    }
    if !starts_with_chars(mime, &chars_of("image/")) {
        let mut m = chars_of("Invalid sticker MIME type: \"");
        crate::text::push_all(&mut m, mime);
        push_str(&mut m, "\". Must be an image type (e.g. image/png, image/jpeg).");
        return Err(string_of(&m));
    }
    Ok(StickerData { ext: ext_for(mime).to_owned(), bytes })
}

fn find_first(s: &Vec<char>, p: &Vec<char>) -> (r: Option<usize>)
    ensures
        match r {
            Some(i) => split_once(s@, p@) == Some(
                (s@.subrange(0, i as int), s@.subrange(i + p@.len(), s@.len() as int)),
            ) && i + p@.len() <= s@.len(),
            None => split_once(s@, p@) is None,
        },
{
    match find_from(s, p, 0) {
        Some(i) => {
            proof {
                let w = choose|k: int| occurs_at(s@, p@, k) && forall|j: int| 0 <= j < k ==> !occurs_at(s@, p@, j);
                assert(occurs_at(s@, p@, i as int));
                if w < i {
                    assert(!occurs_at(s@, p@, w));
                } else if w > i {
                    assert(!occurs_at(s@, p@, i as int));
                }
            }
            Some(i)
        },
        None => {
            assert(forall|j: int| !occurs_at(s@, p@, j));
            None
        },
    }
}

fn ext_for(mime: &Vec<char>) -> (r: &'static str)
    ensures
        r@ == sticker_ext(mime@),
{
    if chars_equal(mime, &chars_of("image/png")) {
        "png"
    } else if chars_equal(mime, &chars_of("image/jpeg")) || chars_equal(mime, &chars_of("image/jpg")) {
        "jpg"
    } else if chars_equal(mime, &chars_of("image/heic")) {
        "heic"
    } else if chars_equal(mime, &chars_of("image/gif")) {
        "gif"
    } else if chars_equal(mime, &chars_of("image/webp")) {
        "webp"
    } else if chars_equal(mime, &chars_of("image/tiff")) {
        "tiff"
    } else {
        "png"
    }
}

/// Decodes a sticker data URL into the image bytes and the extension they
/// are saved with.
#[verifier::rlimit(30)]
pub fn decode_sticker_data_url(data_url: &str) -> (r: Result<StickerData, String>)
    ensures
        match sticker_of(data_url@) {
            Ok((ext, bytes)) => r matches Ok(d) && d.ext@ == ext && d.bytes@ == bytes,
            Err(m) => r matches Err(e) && e@ == m,
        },
{
    let url = chars_of(data_url);
    if !starts_with_chars(&url, &chars_of("data:")) {
        return Err("Invalid sticker data URL: must start with 'data:'".to_owned());
    }
    proof {
        reveal_strlit("data:");
    }
    assert(url@.len() >= 5);
    let rest = slice_of(&url, 5, url.len());
    let sep = chars_of(";base64,");
    let i = match find_first(&rest, &sep) {
        Some(i) => i,
        None => {
            return Err("Invalid sticker data URL: expected ';base64,' separator".to_owned());
        },
    };
    let mime = slice_of(&rest, 0, i);
    let data = slice_of(&rest, i + sep.len(), rest.len());
    let data_s = string_of(&data);
    let decoded = decode_base64(data_s.as_str());
    assert(split_once(url@.subrange(5, url@.len() as int), ";base64,"@) == Some((mime@, data@)));
    finish_sticker(&mime, decoded)
}

/// The classic tapbacks, and their removals.
pub open spec fn classic_reactions() -> Seq<Seq<char>> {
    seq![
        "love"@, "like"@, "dislike"@, "laugh"@, "emphasize"@, "question"@,
        "-love"@, "-like"@, "-dislike"@, "-laugh"@, "-emphasize"@, "-question"@,
    ]
}

fn same_text(c: &Vec<char>, s: &str) -> (r: bool)
    ensures
        r == (c@ == s@),
{
    chars_equal(c, &chars_of(s))
}

fn is_classic_reaction(r: &str) -> (b: bool)
    ensures
        b == classic_reactions().contains(r@),
{
    let c = chars_of(r);
    let ghost l = classic_reactions();
    assert(l[0] == "love"@ && l[1] == "like"@ && l[2] == "dislike"@ && l[3] == "laugh"@);
    assert(l[4] == "emphasize"@ && l[5] == "question"@ && l[6] == "-love"@ && l[7] == "-like"@);
    assert(l[8] == "-dislike"@ && l[9] == "-laugh"@ && l[10] == "-emphasize"@ && l[11] == "-question"@);
    let b = same_text(&c, "love") || same_text(&c, "like") || same_text(&c, "dislike") || same_text(
        &c,
        "laugh",
    ) || same_text(&c, "emphasize") || same_text(&c, "question") || same_text(&c, "-love")
        || same_text(&c, "-like") || same_text(&c, "-dislike") || same_text(&c, "-laugh")
        || same_text(&c, "-emphasize") || same_text(&c, "-question");
    proof {
        if !b {
            assert forall|k: int| 0 <= k < l.len() implies l[k] != r@ by {
                assert(l.len() == 12);
            }
        }
    }
    b
}

/// The body of a reaction request.
#[derive(Debug)]
pub struct ReactionBody {
    pub chat_guid: String,
    pub selected_message_guid: String,
    pub reaction: String,
    pub part_index: Option<u32>,
    /// Data URL of the sticker, for sticker reactions.
    pub sticker: Option<String>,
}

/// The sticker a reaction carries.
#[derive(Debug)]
pub enum StickerPart {
    /// No sticker.
    NoSticker,
    /// A sticker removal (sent with an empty path).
    Remove,
    /// A sticker to save and send.
    Add(StickerData),
}

/// What a valid reaction request sends besides its body's fields.
#[derive(Debug)]
pub struct ReactionPlan {
    pub emoji: Option<String>,
    pub sticker: StickerPart,
}

/// The reaction without a leading `-`.
pub open spec fn without_dash(s: Seq<char>) -> Seq<char> {
    if s.len() > 0 && s[0] == '-' {
        s.drop_first()
    } else {
        s
    }
}

pub open spec fn is_sticker_reaction(s: Seq<char>) -> bool {
    s == "sticker"@ || s == "-sticker"@
}

/// The message of a reaction that is neither classic, a sticker nor a
/// known emoji.
pub open spec fn invalid_reaction_message(r: Seq<char>) -> Seq<char> {
    "Invalid reaction: \""@ + r
        + "\". Must be a classic reaction (love, like, dislike, laugh, emphasize, question), \"sticker\", or a single emoji."@
}

/// What a reaction request comes to: the emoji and sticker it sends, or the
/// message of the bad request. The checks go in order: chat, message,
/// reaction present; a sticker's data URL; an emoji's validity.
pub open spec fn reaction_check(b: ReactionBody) -> Result<(Option<Seq<char>>, Option<Option<(Seq<char>, Seq<u8>)>>), Seq<char>> {
    let r = b.reaction@;
    if b.chat_guid@.len() == 0 {
        Err("chatGuid is required"@)
    } else if b.selected_message_guid@.len() == 0 {
        Err("selectedMessageGuid is required"@)
    } else if r.len() == 0 {
        Err("reaction is required"@)
    } else if r == "sticker"@ {
        match b.sticker {
            None => Err("sticker data URL is required for sticker reactions"@),
            Some(url) => match sticker_of(url@) {
                Err(m) => Err(m),
                Ok(d) => Ok((None, Some(Some(d)))),
            },
        }
    } else if r == "-sticker"@ {
        Ok((None, Some(None)))
    } else if classic_reactions().contains(r) {
        Ok((None, None))
    } else if !emoji_known(without_dash(r)) {
        Err(invalid_reaction_message(r))
    } else {
        Ok((Some(without_dash(r)), None))
    }
}

/// The model of a sticker part: none, a removal, or the decoded sticker.
pub open spec fn sticker_part_view(p: StickerPart) -> Option<Option<(Seq<char>, Seq<u8>)>> {
    match p {
        StickerPart::NoSticker => None,
        StickerPart::Remove => Some(None),
        StickerPart::Add(d) => Some(Some((d.ext@, d.bytes@))),
    }
}

/// Checks a reaction request; gives the emoji and sticker it sends.
pub fn check_reaction(body: &ReactionBody) -> (r: Result<ReactionPlan, String>)
    ensures
        match reaction_check(*body) {
            Ok((emoji, sticker)) => r matches Ok(p) && (match p.emoji {
                Some(e) => emoji == Some(e@),
                None => emoji is None,
            }) && sticker_part_view(p.sticker) == sticker,
            Err(m) => r matches Err(e) && e@ == m,
        },
{
    if body.chat_guid.as_str().is_empty() {
        return Err("chatGuid is required".to_owned());
    }
    if body.selected_message_guid.as_str().is_empty() {
        return Err("selectedMessageGuid is required".to_owned());
    }
    if body.reaction.as_str().is_empty() {
        return Err("reaction is required".to_owned());
    }
    let r = chars_of(body.reaction.as_str());
    if chars_equal(&r, &chars_of("sticker")) {
        return match &body.sticker {
            None => Err("sticker data URL is required for sticker reactions".to_owned()),
            Some(url) => match decode_sticker_data_url(url.as_str()) {
                Err(m) => Err(m),
                Ok(d) => Ok(ReactionPlan { emoji: None, sticker: StickerPart::Add(d) }),
            },
        };
    }
    if chars_equal(&r, &chars_of("-sticker")) {
        return Ok(ReactionPlan { emoji: None, sticker: StickerPart::Remove });
    }
    if is_classic_reaction(body.reaction.as_str()) {
        return Ok(ReactionPlan { emoji: None, sticker: StickerPart::NoSticker });
    }
    let raw = if r.len() > 0 && r[0] == '-' {
        slice_of(&r, 1, r.len())
    } else {
        slice_of(&r, 0, r.len())
    };
    assert(raw@ == without_dash(r@)) by {
        if r@.len() > 0 && r@[0] == '-' {
            assert(r@.subrange(1, r@.len() as int) =~= r@.drop_first());
        } else {
            assert(r@.subrange(0, r@.len() as int) =~= r@);
        }
    }
    let raw_s = string_of(&raw);
    if !is_emoji(raw_s.as_str()) {
        let mut m = chars_of("Invalid reaction: \"");
        push_str(&mut m, body.reaction.as_str());
        push_str(
            &mut m,
            "\". Must be a classic reaction (love, like, dislike, laugh, emphasize, question), \"sticker\", or a single emoji.",
        );
        return Err(string_of(&m));
    }
    Ok(ReactionPlan { emoji: Some(raw_s), sticker: StickerPart::NoSticker })
}

} // verus!

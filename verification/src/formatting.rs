//! iMessage text-formatting styles and ranges.
use vstd::prelude::*;
use crate::decimal::{dec_digits, u64_digits};
use crate::json::{
    entry_views, field_of, json_view, json_views, lemma_entry_views, lemma_json_views,
    model_get, Json, JsonModel,
};
use crate::text::{chars_equal, chars_of, push_all, push_str, string_of};
pub use crate::markdown::parse_markdown_formatting;

verus! {

/// A text formatting style supported by iMessage.
#[derive(Debug, Clone, Copy, PartialEq, Eq, Structural)]
pub enum TextFormattingStyle {
    Bold,
    Italic,
    Underline,
    Strikethrough,
}

pub open spec fn style_name(s: TextFormattingStyle) -> Seq<char> {
    match s {
        TextFormattingStyle::Bold => "bold"@,
        TextFormattingStyle::Italic => "italic"@,
        TextFormattingStyle::Underline => "underline"@,
        TextFormattingStyle::Strikethrough => "strikethrough"@,
    }
}

fn is_name(s: &Vec<char>, name: &str) -> (r: bool)
    ensures
        r == (s@ == name@),
{
    let n = chars_of(name);
    chars_equal(s, &n)
}

impl TextFormattingStyle {
    pub fn as_str(&self) -> (r: &'static str)
        ensures
            r@ == style_name(*self),
    {
        match self {
            Self::Bold => "bold",
            Self::Italic => "italic",
            Self::Underline => "underline",
            Self::Strikethrough => "strikethrough",
        }
    }

    /// The style with the given name.
    pub fn from_str(s: &str) -> (r: Option<Self>)
        ensures
            r matches Some(st) ==> style_name(st) == s@,
            r is None ==> forall|st: TextFormattingStyle| style_name(st) != s@,
    {
        let c = chars_of(s);
        if is_name(&c, "bold") {
            Some(Self::Bold)
        } else if is_name(&c, "italic") {
            Some(Self::Italic)
        } else if is_name(&c, "underline") {
            Some(Self::Underline)
        } else if is_name(&c, "strikethrough") {
            Some(Self::Strikethrough)
        } else {
            proof {
                assert forall|st: TextFormattingStyle| style_name(st) != s@ by {
                    match st {
                        TextFormattingStyle::Bold => {},
                        TextFormattingStyle::Italic => {},
                        TextFormattingStyle::Underline => {},
                        TextFormattingStyle::Strikethrough => {},
                    }
                }
            }
            None
        }
    }
}

/// Each style is read back from its name.
pub proof fn law_style_name_roundtrip(a: TextFormattingStyle, b: TextFormattingStyle)
    ensures
        style_name(a) == style_name(b) ==> a == b,
{
    reveal_strlit("bold");
    reveal_strlit("italic");
    reveal_strlit("underline");
    reveal_strlit("strikethrough");
    if style_name(a) == style_name(b) {
        match a {
            TextFormattingStyle::Bold => {
                assert(style_name(a)[1] == 'o');
            },
            TextFormattingStyle::Italic => {
                assert(style_name(a)[0] == 'i');
            },
            TextFormattingStyle::Underline => {
                assert(style_name(a)[0] == 'u');
            },
            TextFormattingStyle::Strikethrough => {
                assert(style_name(a)[0] == 's');
            },
        }
    }
}

/// A formatting range: start offset, length, and styles.
#[derive(Debug, Clone, PartialEq, Eq)]
pub struct TextFormattingRange {
    pub start: usize,
    pub length: usize,
    pub styles: Vec<TextFormattingStyle>,
}

/// Result of parsing markdown formatting.
pub struct ParsedFormatting {
    pub clean_text: String,
    pub formatting: Vec<TextFormattingRange>,
}

// ---------------------------------------------------------------------------
// JSON forms
// ---------------------------------------------------------------------------

pub open spec fn styles_json(s: Seq<TextFormattingStyle>) -> Seq<JsonModel> {
    s.map_values(|st: TextFormattingStyle| JsonModel::Str(style_name(st)))
}

/// `{"start": .., "length": .., "styles": [names]}`.
pub open spec fn range_json(r: TextFormattingRange) -> JsonModel {
    JsonModel::Object(
        seq![
            ("start"@, JsonModel::Int(r.start as int)),
            ("length"@, JsonModel::Int(r.length as int)),
            ("styles"@, JsonModel::Array(styles_json(r.styles@))),
        ],
    )
}

impl TextFormattingRange {
    pub fn to_json(&self) -> (r: Json)
        ensures
            json_view(r) == range_json(*self),
    {
        let mut styles: Vec<Json> = Vec::new();
        let mut k: usize = 0;
        while k < self.styles.len()
            invariant
                k <= self.styles.len(),
                styles@.len() == k,
                json_views(styles@) == styles_json(self.styles@.subrange(0, k as int)),
            decreases self.styles.len() - k,
        {
            let ghost s0 = styles@;
            styles.push(Json::Str(self.styles[k].as_str().to_owned()));
            proof {
                assert(styles@.subrange(0, styles@.len() - 1) =~= s0);
                assert(json_views(styles@) == json_views(s0).push(json_view(styles@[k as int])));
                assert(styles_json(self.styles@.subrange(0, k + 1)) =~= styles_json(
                    self.styles@.subrange(0, k as int),
                ).push(JsonModel::Str(style_name(self.styles@[k as int]))));
            }
            k = k + 1;
        }
        assert(self.styles@.subrange(0, self.styles@.len() as int) =~= self.styles@);
        let mut fields: Vec<(String, Json)> = Vec::new();
        fields.push(("start".to_owned(), Json::Uint(self.start as u64)));
        fields.push(("length".to_owned(), Json::Uint(self.length as u64)));
        fields.push(("styles".to_owned(), Json::Array(styles)));
        proof {
            lemma_entry_views(fields@);
            assert(entry_views(fields@) =~= seq![
                ("start"@, JsonModel::Int(self.start as int)),
                ("length"@, JsonModel::Int(self.length as int)),
                ("styles"@, JsonModel::Array(styles_json(self.styles@))),
            ]);
        }
        Json::Object(fields)
    }
}

impl ParsedFormatting {
    /// The formatting ranges as a JSON array.
    pub fn formatting_json(&self) -> (r: Json)
        ensures
            json_view(r) == JsonModel::Array(
                self.formatting@.map_values(|x: TextFormattingRange| range_json(x)),
            ),
    {
        let mut out: Vec<Json> = Vec::new();
        let mut k: usize = 0;
        while k < self.formatting.len()
            invariant
                k <= self.formatting.len(),
                out@.len() == k,
                json_views(out@) == self.formatting@.subrange(0, k as int).map_values(
                    |x: TextFormattingRange| range_json(x),
                ),
            decreases self.formatting.len() - k,
        {
            let ghost o0 = out@;
            out.push(self.formatting[k].to_json());
            proof {
                assert(out@.subrange(0, out@.len() - 1) =~= o0);
                assert(json_views(out@) == json_views(o0).push(json_view(out@[k as int])));
                assert(self.formatting@.subrange(0, k + 1).map_values(
                    |x: TextFormattingRange| range_json(x),
                ) =~= self.formatting@.subrange(0, k as int).map_values(
                    |x: TextFormattingRange| range_json(x),
                ).push(range_json(self.formatting@[k as int])));
            }
            k = k + 1;
        }
        assert(self.formatting@.subrange(0, self.formatting@.len() as int) =~= self.formatting@);
        Json::Array(out)
    }
}

/// Whether a JSON value is a non-empty array of text formatting.
pub fn has_text_formatting(formatting: Option<&Json>) -> (r: bool)
    ensures
        r == (formatting matches Some(j) && json_view(*j) matches JsonModel::Array(a) && a.len()
            > 0),
{
    match formatting {
        Some(Json::Array(a)) => {
            proof {
                lemma_json_views(a@);
            }
            a.len() > 0
        },
        _ => false,
    }
}

// ---------------------------------------------------------------------------
// Validating client-provided formatting
// ---------------------------------------------------------------------------

/// A JSON number that is a non-negative integer fitting in `u64`.
pub open spec fn as_count(j: Option<JsonModel>) -> Option<int> {
    match j {
        Some(JsonModel::Int(n)) => if 0 <= n <= u64::MAX {
            Some(n)
        } else {
            None
        },
        _ => None,
    }
}

/// `textFormatting[i]`.
pub open spec fn item_name(i: int) -> Seq<char> {
    "textFormatting["@ + dec_digits(i as nat) + "]"@
}

pub open spec fn is_style_name(s: Seq<char>) -> bool {
    s == "bold"@ || s == "italic"@ || s == "underline"@ || s == "strikethrough"@
}

/// The error of the first entry of a style list that is not the name of a
/// style.
pub open spec fn styles_error(i: int, styles: Seq<JsonModel>) -> Option<Seq<char>>
    decreases styles.len(),
{
    if styles.len() == 0 {
        None
    } else {
        match styles[0] {
            JsonModel::Str(s) => if is_style_name(s) {
                styles_error(i, styles.drop_first())
            } else {
                Some(item_name(i) + ".styles contains unsupported value: "@ + s)
            },
            _ => Some(item_name(i) + ".styles contains non-string value"@),
        }
    }
}

/// The error of range `i`, if it breaks a rule: it must be an object whose
/// `start` is an integer >= 0 and `length` an integer > 0, ending within the
/// message (of `msg_len` bytes), with a non-empty list of style names.
pub open spec fn range_error(i: int, range: JsonModel, msg_len: int) -> Option<Seq<char>> {
    match range {
        JsonModel::Object(f) => match as_count(model_get(f, "start"@)) {
            None => Some(item_name(i) + ".start must be an integer >= 0"@),
            Some(start) => match as_count(model_get(f, "length"@)) {
                Some(length) if length > 0 => if start + length > msg_len {
                    Some(item_name(i) + " range exceeds message length"@)
                } else {
                    match model_get(f, "styles"@) {
                        Some(JsonModel::Array(st)) if st.len() > 0 => styles_error(i, st),
                        _ => Some(item_name(i) + ".styles must be a non-empty array"@),
                    }
                },
                _ => Some(item_name(i) + ".length must be an integer > 0"@),
            },
        },
        _ => Some(item_name(i) + " must be an object"@),
    }
}

/// The error of the first range, from index `from` on, that breaks a rule.
pub open spec fn ranges_error(items: Seq<JsonModel>, from: int, msg_len: int) -> Option<Seq<char>>
    decreases items.len() - from,
{
    if from < 0 || from >= items.len() {
        None
    } else {
        match range_error(from, items[from], msg_len) {
            Some(e) => Some(e),
            None => ranges_error(items, from + 1, msg_len),
        }
    }
}

/// What validating formatting for a message gives: the formatting must be
/// an array, the message non-empty, and every range valid.
pub open spec fn formatting_error(f: JsonModel, message_empty: bool, msg_len: int) -> Option<Seq<char>> {
    match f {
        JsonModel::Array(items) => if message_empty {
            Some("A non-empty 'message' is required when using textFormatting"@)
        } else {
            ranges_error(items, 0, msg_len)
        },
        _ => Some("textFormatting must be an array"@),
    }
}

fn item_message(i: usize, rest: &str) -> (r: String)
    ensures
        r@ == item_name(i as int) + rest@,
{
    let mut e = chars_of("textFormatting[");
    let d = u64_digits(i as u64);
    push_all(&mut e, &d);
    push_str(&mut e, "]");
    push_str(&mut e, rest);
    proof {
        assert(e@ =~= item_name(i as int) + rest@);
    }
    string_of(&e)
}

/// The count a JSON value holds, if it is a non-negative integer.
fn count_of(j: Option<&Json>) -> (r: Option<u64>)
    ensures
        match as_count(
            match j {
                Some(x) => Some(json_view(*x)),
                None => None,
            },
        ) {
            Some(n) => r == Some(n as u64),
            None => r is None,
        },
{
    match j {
        Some(Json::Int(n)) => if *n >= 0 {
            Some(*n as u64)
        } else {
            None
        },
        Some(Json::Uint(n)) => Some(*n),
        _ => None,
    }
}

fn styles_check(i: usize, styles: &Vec<Json>) -> (r: Result<(), String>)
    ensures
        match styles_error(i as int, json_views(styles@)) {
            None => r is Ok,
            Some(m) => r matches Err(e) && e@ == m,
        },
{
    proof {
        lemma_json_views(styles@);
        assert(json_views(styles@).skip(0) =~= json_views(styles@));
    }
    let mut k: usize = 0;
    while k < styles.len()
        invariant
            k <= styles.len(),
            json_views(styles@).len() == styles@.len(),
            forall|j: int|
                0 <= j < styles@.len() ==> #[trigger] json_views(styles@)[j] == json_view(
                    styles@[j],
                ),
            styles_error(i as int, json_views(styles@).skip(k as int)) == styles_error(
                i as int,
                json_views(styles@),
            ),
        decreases styles.len() - k,
    {
        let ghost rest = json_views(styles@).skip(k as int);
        assert(rest.drop_first() =~= json_views(styles@).skip(k + 1));
        match &styles[k] {
            Json::Str(s) => {
                let style = TextFormattingStyle::from_str(s.as_str());
                match style {
                    None => {
                        proof {
                            reveal_strlit("bold");
                            reveal_strlit("italic");
                            reveal_strlit("underline");
                            reveal_strlit("strikethrough");
                            assert(style_name(TextFormattingStyle::Bold) == "bold"@);
                            assert(style_name(TextFormattingStyle::Italic) == "italic"@);
                            assert(style_name(TextFormattingStyle::Underline) == "underline"@);
                            assert(style_name(TextFormattingStyle::Strikethrough)
                                == "strikethrough"@);
                        }
                        let mut m = chars_of(".styles contains unsupported value: ");
                        let sc = chars_of(s.as_str());
                        push_all(&mut m, &sc);
                        return Err(item_message(i, string_of(&m).as_str()));
                    },
                    Some(st) => {
                        proof {
                            match st {
                                TextFormattingStyle::Bold => {},
                                TextFormattingStyle::Italic => {},
                                TextFormattingStyle::Underline => {},
                                TextFormattingStyle::Strikethrough => {},
                            }
                        }
                    },
                }
            },
            _ => {
                return Err(item_message(i, ".styles contains non-string value"));
            },
        }
        k = k + 1;
    }
    assert(json_views(styles@).skip(k as int).len() == 0);
    Ok(())
}

fn range_check(i: usize, range: &Json, msg_len: usize) -> (r: Result<(), String>)
    ensures
        match range_error(i as int, json_view(*range), msg_len as int) {
            None => r is Ok,
            Some(m) => r matches Err(e) && e@ == m,
        },
{
    let obj = match range {
        Json::Object(f) => f,
        _ => return Err(item_message(i, " must be an object")),
    };
    let start = match count_of(field_of(obj, "start")) {
        Some(n) => n,
        None => return Err(item_message(i, ".start must be an integer >= 0")),
    };
    let length = match count_of(field_of(obj, "length")) {
        Some(n) => if n > 0 {
            n
        } else {
            return Err(item_message(i, ".length must be an integer > 0"));
        },
        None => return Err(item_message(i, ".length must be an integer > 0")),
    };
    if (start as u128) + (length as u128) > msg_len as u128 {
        return Err(item_message(i, " range exceeds message length"));
    }
    match field_of(obj, "styles") {
        Some(Json::Array(st)) => {
            proof {
                lemma_json_views(st@);
            }
            if st.len() == 0 {
                return Err(item_message(i, ".styles must be a non-empty array"));
            }
            styles_check(i, st)
        },
        _ => Err(item_message(i, ".styles must be a non-empty array")),
    }
}

/// Validate client-provided text formatting ranges for a message (whose
/// length counts UTF-8 bytes).
pub fn validate_text_formatting(formatting: &Json, message: &str) -> (r: Result<(), String>)
    ensures
        match formatting_error(json_view(*formatting), message@.len() == 0, message.len() as int) {
            None => r is Ok,
            Some(m) => r matches Err(e) && e@ == m,
        },
{
    let arr = match formatting {
        Json::Array(a) => a,
        _ => return Err("textFormatting must be an array".to_owned()),
    };
    if message.is_empty() {
        return Err("A non-empty 'message' is required when using textFormatting".to_owned());
    }
    let msg_len = message.len();
    proof {
        lemma_json_views(arr@);
        assert(json_view(*formatting) == JsonModel::Array(json_views(arr@)));
    }
    let mut i: usize = 0;
    while i < arr.len()
        invariant
            i <= arr.len(),
            json_view(*formatting) == JsonModel::Array(json_views(arr@)),
            message@.len() != 0,
            msg_len == message.len(),
            json_views(arr@).len() == arr@.len(),
            forall|j: int|
                0 <= j < arr@.len() ==> #[trigger] json_views(arr@)[j] == json_view(arr@[j]),
            ranges_error(json_views(arr@), i as int, msg_len as int) == ranges_error(
                json_views(arr@),
                0,
                msg_len as int,
            ),
        decreases arr.len() - i,
    {
        assert(json_views(arr@)[i as int] == json_view(arr@[i as int]));
        match range_check(i, &arr[i], msg_len) {
            Ok(()) => {},
            Err(e) => {
                proof {
                    assert(ranges_error(json_views(arr@), i as int, msg_len as int) == Some(e@));
                    assert(json_view(*formatting) == JsonModel::Array(json_views(arr@)));
                }
                return Err(e);
            },
        }
        i = i + 1;
    }
    Ok(())
}

} // verus!

//! Recovers a JSON object from the free text of a completion.
//!
//! The text may wrap the object in a fenced block, break it across lines, or
//! surround it with prose. The layers below are tried in order and the first
//! object found wins; nothing that the parser rejects is ever accepted.

use crate::json::{json_prefix, read_json_prefix, Json};
use crate::text::{
    chars_of, collapse_whitespace, collapsed, find_from, first_occurrence, matches_at,
    prefix_chars, starts_with, string_of, string_of_range, take_chars, trim, trim_bounds,
};
use vstd::prelude::*;
use vstd::string::StringExecFns;

verus! {

/// The marker that opens and closes a fenced block.
pub const FENCE: &'static str = "```";

/// The marker that opens a fenced block tagged as JSON.
pub const JSON_FENCE: &'static str = "```json";

/// How many characters of the text a failure carries.
pub const EXCERPT_CHARS: usize = 200;

/// Why no object could be recovered from a text.
#[derive(Debug, PartialEq, Eq)]
pub enum InvalidStructuredResponse {
    /// The text was empty or whitespace only.
    Empty,
    /// No layer found an object; `excerpt` is the start of the text.
    NoObject { excerpt: String },
}

/// The object that the parser reads at the start of `text`, if it reads one
/// and it is an object.
pub open spec fn object_at(text: Seq<char>) -> Option<Json> {
    match json_prefix(text) {
        Some(doc) => if doc is Object {
            Some(doc)
        } else {
            None
        },
        None => None,
    }
}

/// The inside of a block that starts with `open`: what stands between `open`
/// and the next fence, trimmed. Without a closing fence the text stays as it
/// is.
pub open spec fn fenced_body(raw: Seq<char>, open: Seq<char>) -> Seq<char> {
    match first_occurrence(raw, FENCE@, open.len() as int) {
        Some(close) => trim(raw.subrange(open.len() as int, close)),
        None => raw,
    }
}

/// `raw` without the fence that it may be wrapped in.
pub open spec fn unfenced(raw: Seq<char>) -> Seq<char> {
    if starts_with(raw, JSON_FENCE@) {
        fenced_body(raw, JSON_FENCE@)
    } else if starts_with(raw, FENCE@) {
        fenced_body(raw, FENCE@)
    } else {
        raw
    }
}

/// The first object that parses from a suffix of `body` which starts with
/// `{` at position `from` or later.
pub open spec fn first_embedded(body: Seq<char>, from: int) -> Option<Json>
    decreases body.len() - from,
{
    if from < 0 || from >= body.len() {
        None
    } else if body[from] == '{' && object_at(body.subrange(from, body.len() as int)) is Some {
        object_at(body.subrange(from, body.len() as int))
    } else {
        first_embedded(body, from + 1)
    }
}

/// The object that a text yields, layer by layer: the trimmed text itself,
/// the inside of its fence, that inside with its whitespace collapsed, and at
/// last the first suffix that starts with `{` and parses.
pub open spec fn extracted(text: Seq<char>) -> Option<Json> {
    let raw = trim(text);
    if raw.len() == 0 {
        None
    } else if object_at(raw) is Some {
        object_at(raw)
    } else {
        let body = unfenced(raw);
        if object_at(body) is Some {
            object_at(body)
        } else if object_at(collapsed(body)) is Some {
            object_at(collapsed(body))
        } else {
            first_embedded(body, 0)
        }
    }
}

/// What the scan for `{` finds is an object.
proof fn lemma_first_embedded_is_object(body: Seq<char>, from: int)
    ensures
        first_embedded(body, from) matches Some(doc) ==> doc is Object,
    decreases body.len() - from,
{
    if 0 <= from < body.len() && !(body[from] == '{' && object_at(
        body.subrange(from, body.len() as int),
    ) is Some) {
        lemma_first_embedded_is_object(body, from + 1);
    }
}

/// Whatever the text, what is recovered from it is an object: arrays and
/// scalars are never handed out, and a blank text yields nothing.
pub proof fn lemma_extracted_is_object(text: Seq<char>)
    ensures
        extracted(text) matches Some(doc) ==> doc is Object,
        trim(text).len() == 0 ==> extracted(text) is None,
{
    lemma_first_embedded_is_object(unfenced(trim(text)), 0);
}

impl InvalidStructuredResponse {
    /// This is the failure that `text` leads to when it yields no object.
    pub open spec fn describes(self, text: Seq<char>) -> bool {
        match self {
            InvalidStructuredResponse::Empty => trim(text).len() == 0,
            InvalidStructuredResponse::NoObject { excerpt } => trim(text).len() > 0 && excerpt@
                == prefix_chars(text, EXCERPT_CHARS as nat),
        }
    }

    /// The failure described in words.
    pub open spec fn message_text(self) -> Seq<char> {
        match self {
            InvalidStructuredResponse::Empty => "Empty Gemini response"@,
            InvalidStructuredResponse::NoObject { excerpt } => "Invalid JSON from Gemini: "@
                + excerpt@,
        }
    }

    /// The failure described in words.
    pub fn message(&self) -> (r: String)
        ensures
            r@ == self.message_text(),
    {
        match self {
            InvalidStructuredResponse::Empty => String::from_str("Empty Gemini response"),
            InvalidStructuredResponse::NoObject { excerpt } => {
                let mut r = String::from_str("Invalid JSON from Gemini: ");
                r.append(excerpt.as_str());
                r
            },
        }
    }
}

/// Reads the start of `text` as a JSON object. Text behind the object is
/// ignored; anything but an object is refused.
pub fn parse_json_object_segment(text: &str) -> (r: Option<Json>)
    ensures
        r == object_at(text@),
{
    match read_json_prefix(text) {
        Some(doc) => if doc.is_object() {
            Some(doc)
        } else {
            None
        },
        None => None,
    }
}

/// The inside of a block that `raw` opens with `open`.
fn fence_interior(raw: &Vec<char>, open: &Vec<char>) -> (r: Vec<char>)
    requires
        starts_with(raw@, open@),
    ensures
        r@ == fenced_body(raw@, open@),
{
    let fence = chars_of(FENCE);
    match find_from(raw, &fence, open.len()) {
        Some(close) => {
            let mut inside: Vec<char> = Vec::new();
            let mut i: usize = open.len();
            while i < close
                invariant
                    open.len() <= i <= close <= raw.len(),
                    inside@ == raw@.subrange(open.len() as int, i as int),
                decreases close - i,
            {
                inside.push(raw[i]);
                i += 1;
            }
            let (a, b) = trim_bounds(&inside);
            let mut r: Vec<char> = Vec::new();
            let mut k: usize = a;
            while k < b
                invariant
                    a <= k <= b <= inside.len(),
                    r@ == inside@.subrange(a as int, k as int),
                decreases b - k,
            {
                r.push(inside[k]);
                k += 1;
            }
            r
        },
        None => {
            let mut r: Vec<char> = Vec::new();
            let mut k: usize = 0;
            while k < raw.len()
                invariant
                    k <= raw.len(),
                    r@ == raw@.take(k as int),
                decreases raw.len() - k,
            {
                r.push(raw[k]);
                k += 1;
            }
            assert(raw@.take(raw.len() as int) =~= raw@);
            r
        },
    }
}

/// `raw` without the fence that it may be wrapped in.
fn strip_fence(raw: Vec<char>) -> (r: Vec<char>)
    ensures
        r@ == unfenced(raw@),
{
    let tagged = chars_of(JSON_FENCE);
    let plain = chars_of(FENCE);
    if matches_at(&raw, &tagged, 0) {
        fence_interior(&raw, &tagged)
    } else if matches_at(&raw, &plain, 0) {
        fence_interior(&raw, &plain)
    } else {
        raw
    }
}

/// Recovers the first JSON object that a completion text contains.
///
/// Succeeds exactly when one of the layers of [`extracted`] finds an object,
/// and returns that object. Otherwise the failure says whether the text was
/// blank, and if not, carries its first characters.
pub fn parse_json_object_from_text(text: &str) -> (r: Result<Json, InvalidStructuredResponse>)
    ensures
        match r {
            Ok(doc) => extracted(text@) == Some(doc),
            Err(e) => extracted(text@) is None && e.describes(text@),
        },
{
    let chars = chars_of(text);
    let (a, b) = trim_bounds(&chars);
    if a == b {
        return Err(InvalidStructuredResponse::Empty);
    }
    let raw_text = string_of_range(&chars, a, b);
    match parse_json_object_segment(raw_text.as_str()) {
        Some(doc) => {
            return Ok(doc);
        },
        None => {},
    }
    let body = strip_fence(chars_of(raw_text.as_str()));
    let body_text = string_of(&body);
    match parse_json_object_segment(body_text.as_str()) {
        Some(doc) => {
            return Ok(doc);
        },
        None => {},
    }
    let flat = collapse_whitespace(body_text.as_str());
    match parse_json_object_segment(flat.as_str()) {
        Some(doc) => {
            return Ok(doc);
        },
        None => {},
    }
    let mut i: usize = 0;
    while i < body.len()
        invariant
            i <= body.len(),
            trim(text@).len() > 0,
            extracted(text@) == first_embedded(body@, i as int),
        decreases body.len() - i,
    {
        if body[i] == '{' {
            let tail = string_of_range(&body, i, body.len());
            match parse_json_object_segment(tail.as_str()) {
                Some(doc) => {
                    return Ok(doc);
                },
                None => {},
            }
        }
        i += 1;
    }
    Err(InvalidStructuredResponse::NoObject { excerpt: take_chars(text, EXCERPT_CHARS) })
}

} // verus!

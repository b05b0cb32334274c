//! What a run is asked to do, brought into its allowed ranges.

use crate::text::{chars_of, string_of_range, trim, trim_bounds};
use vstd::prelude::*;
use vstd::string::StringExecFns;

verus! {

/// The completion model used when none is asked for, or none that can be
/// named in a request.
pub const DEFAULT_GEMINI_MODEL: &'static str = "gemini-2.5-pro";

/// How many presets a run assembles when the caller does not say.
pub const DEFAULT_MAX_TONES: u8 = 3;

/// How many search results per query a run looks at when the caller does not
/// say.
pub const DEFAULT_MAX_RESULTS: u8 = 15;

/// A character that a model name may hold.
pub open spec fn is_model_char(c: char) -> bool {
    ('a' <= c && c <= 'z') || ('A' <= c && c <= 'Z') || ('0' <= c && c <= '9') || c == '.' || c
        == '-' || c == '_'
}

/// A model name that can be used as it is: not empty, and made of letters,
/// digits, dots, hyphens and underscores only.
pub open spec fn is_model_name(s: Seq<char>) -> bool {
    s.len() > 0 && forall|i: int| 0 <= i < s.len() ==> is_model_char(#[trigger] s[i])
}

/// The model that a request names, or the default.
pub open spec fn normalized_model(requested: Option<Seq<char>>) -> Seq<char> {
    match requested {
        Some(s) => if is_model_name(trim(s)) {
            trim(s)
        } else {
            DEFAULT_GEMINI_MODEL@
        },
        None => DEFAULT_GEMINI_MODEL@,
    }
}

/// `v` brought into `lo..=hi`.
pub open spec fn clamped(v: int, lo: int, hi: int) -> int {
    if v < lo {
        lo
    } else if v > hi {
        hi
    } else {
        v
    }
}

/// The view of an optional text.
pub open spec fn text_of(s: Option<&str>) -> Option<Seq<char>> {
    match s {
        Some(t) => Some(t@),
        None => None,
    }
}

/// Picks the completion model: the requested one, trimmed, when it is a
/// usable model name, and the default otherwise.
pub fn normalize_gemini_model(requested_model: Option<&str>) -> (r: String)
    ensures
        r@ == normalized_model(text_of(requested_model)),
{
    let raw = match requested_model {
        Some(s) => s,
        None => {
            return String::from_str(DEFAULT_GEMINI_MODEL);
        },
    };
    let v = chars_of(raw);
    let (a, b) = trim_bounds(&v);
    if a == b {
        return String::from_str(DEFAULT_GEMINI_MODEL);
    }
    let ghost t = trim(raw@);
    let mut i: usize = a;
    while i < b
        invariant
            a <= i <= b <= v.len(),
            t == v@.subrange(a as int, b as int),
            t == trim(raw@),
            text_of(requested_model) == Some(raw@),
            forall|k: int| 0 <= k < i - a ==> is_model_char(#[trigger] t[k]),
        decreases b - i,
    {
        let c = v[i];
        let allowed = ('a' <= c && c <= 'z') || ('A' <= c && c <= 'Z') || ('0' <= c && c <= '9')
            || c == '.' || c == '-' || c == '_';
        if !allowed {
            assert(t[i - a] == c);
            return String::from_str(DEFAULT_GEMINI_MODEL);
        }
        i += 1;
    }
    string_of_range(&v, a, b)
}

/// The number of presets to assemble.
pub fn clamp_max_tones(asked: Option<u8>) -> (r: usize)
    ensures
        r == clamped(
            match asked {
                Some(v) => v as int,
                None => DEFAULT_MAX_TONES as int,
            },
            1,
            5,
        ),
{
    let v: u8 = match asked {
        Some(v) => v,
        None => DEFAULT_MAX_TONES,
    };
    if v < 1 {
        1
    } else if v > 5 {
        5
    } else {
        v as usize
    }
}

/// The number of results of each search to look at.
pub fn clamp_max_results(asked: Option<u8>) -> (r: usize)
    ensures
        r == clamped(
            match asked {
                Some(v) => v as int,
                None => DEFAULT_MAX_RESULTS as int,
            },
            5,
            25,
        ),
{
    let v: u8 = match asked {
        Some(v) => v,
        None => DEFAULT_MAX_RESULTS,
    };
    if v < 5 {
        5
    } else if v > 25 {
        25
    } else {
        v as usize
    }
}

} // verus!

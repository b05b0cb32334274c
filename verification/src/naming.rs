//! Names that are safe to use for files and directories.

use crate::decimal::{decimal, decimal_of};
use crate::text::{
    ascii_case_equal, chars_of, eq_ignore_ascii_case, string_of, string_of_range, trim,
    trim_bounds,
};
use vstd::prelude::*;
use vstd::string::StringExecFns;
use vstd::utf8::encode_utf8;

verus! {

/// The name used when nothing is left of a file name.
pub const PLACEHOLDER_FILE_NAME: &'static str = "model";

/// The name used when nothing is left of a title.
pub const PLACEHOLDER_DIR_NAME: &'static str = "tone";

/// The platform tag whose model files carry [`MODEL_EXTENSION`].
pub const MODEL_PLATFORM: &'static str = "nam";

/// The extension of that platform's model files, with its dot.
pub const MODEL_EXTENSION: &'static str = ".nam";

/// How long the title part of a directory name may get, in bytes and then in
/// characters.
pub const DIR_NAME_LIMIT: usize = 50;

/// Whether `c` is a control character for `char::is_control`.
pub uninterp spec fn char_is_control(c: char) -> bool;

/// `char::is_control` of the standard library. The answer depends on the
/// character alone and is given the name [`char_is_control`].
pub assume_specification[ char::is_control ](c: char) -> (b: bool)
    ensures
        b == char_is_control(c),
;

/// Whether `c` is a letter or a number for `char::is_alphanumeric`.
pub uninterp spec fn char_is_alphanumeric(c: char) -> bool;

/// `char::is_alphanumeric` of the standard library. The answer follows the
/// Unicode tables, depends on the character alone and is given the name
/// [`char_is_alphanumeric`].
pub assume_specification[ char::is_alphanumeric ](c: char) -> (b: bool)
    ensures
        b == char_is_alphanumeric(c),
;

/// The final component of a path, in the spelling of paths of the platform
/// that the library is built for; `None` for a path without one.
pub uninterp spec fn path_file_name(name: Seq<char>) -> Option<Seq<char>>;

/// `Path::new(name).file_name()` of the standard library, as text: the final
/// component of a path, if it has one. Which characters separate components
/// is fixed by the platform that the library is built for; on that platform
/// the component depends on the name alone, so it is given the name
/// [`path_file_name`].
#[verifier::external_body]
fn final_component(name: &str) -> (r: Option<String>)
    ensures
        (match r {
            Some(base) => Some(base@),
            None => None,
        }) == path_file_name(name@),
{
    std::path::Path::new(name).file_name().and_then(|v| v.to_str()).map(|s| s.to_string())
}

/// What a file name is derived from: the final component of the name, or
/// the whole name when it has none.
pub open spec fn base_name(name: Seq<char>) -> Seq<char> {
    match path_file_name(name) {
        Some(base) => base,
        None => name,
    }
}

/// A character that no file name may hold.
pub open spec fn is_reserved(c: char) -> bool {
    c == '<' || c == '>' || c == ':' || c == '"' || c == '/' || c == '\\' || c == '|' || c == '?'
        || c == '*'
}

/// Control and reserved characters become `_`.
pub open spec fn scrub(c: char) -> char {
    if char_is_control(c) || is_reserved(c) {
        '_'
    } else {
        c
    }
}

/// A space or a dot: what a file name may neither start nor end with.
pub open spec fn is_edge_filler(c: char) -> bool {
    c == ' ' || c == '.'
}

/// `s` without the spaces and dots at its start.
pub open spec fn strip_start(s: Seq<char>) -> Seq<char>
    decreases s.len(),
{
    if s.len() > 0 && is_edge_filler(s[0]) {
        strip_start(s.drop_first())
    } else {
        s
    }
}

/// `s` without the spaces and dots at its end.
pub open spec fn strip_end(s: Seq<char>) -> Seq<char>
    decreases s.len(),
{
    if s.len() > 0 && is_edge_filler(s.last()) {
        strip_end(s.drop_last())
    } else {
        s
    }
}

/// The safe form of one path component: characters scrubbed, spaces and dots
/// stripped from both ends, and the placeholder when nothing is left.
pub open spec fn safe_name(base: Seq<char>) -> Seq<char> {
    let stripped = strip_end(strip_start(Seq::new(base.len(), |i: int| scrub(base[i]))));
    if stripped.len() == 0 {
        PLACEHOLDER_FILE_NAME@
    } else {
        stripped
    }
}

/// The name has an extension: a dot somewhere in it.
pub open spec fn has_extension(name: Seq<char>) -> bool {
    name.contains('.')
}

/// The file name of a model: a safe name that gets the model extension when
/// it has none and the platform is the one that uses it.
pub open spec fn model_filename(safe: Seq<char>, platform: Seq<char>) -> Seq<char> {
    if !has_extension(safe) && ascii_case_equal(platform, MODEL_PLATFORM@) {
        safe + MODEL_EXTENSION@
    } else {
        safe
    }
}

/// What a directory name keeps of a title character.
pub open spec fn dir_char(c: char) -> char {
    if char_is_alphanumeric(c) || c == ' ' || c == '-' || c == '_' {
        c
    } else {
        '_'
    }
}

/// The title part of a directory name.
pub open spec fn dir_stem(title: Seq<char>) -> Seq<char> {
    let kept = trim(Seq::new(title.len(), |i: int| dir_char(title[i])));
    let named = if kept.len() == 0 {
        PLACEHOLDER_DIR_NAME@
    } else {
        kept
    };
    if encode_utf8(named).len() > DIR_NAME_LIMIT {
        if named.len() > DIR_NAME_LIMIT {
            named.take(DIR_NAME_LIMIT as int)
        } else {
            named
        }
    } else {
        named
    }
}

/// The directory name of a catalog entry: the title part, `_`, and the
/// identifier in decimal.
pub open spec fn tone_dir_name(title: Seq<char>, id: i64) -> Seq<char> {
    dir_stem(title) + seq!['_'] + decimal(id as int)
}

/// Leading spaces and dots can be dropped before the start is stripped.
proof fn lemma_strip_start_skips(s: Seq<char>, i: int)
    requires
        0 <= i <= s.len(),
        forall|k: int| 0 <= k < i ==> is_edge_filler(#[trigger] s[k]),
    ensures
        strip_start(s) == strip_start(s.subrange(i, s.len() as int)),
    decreases i,
{
    if i == 0 {
        assert(s.subrange(0, s.len() as int) =~= s);
    } else {
        let rest = s.drop_first();
        assert(is_edge_filler(s[0]));
        assert forall|k: int| 0 <= k < i - 1 implies is_edge_filler(#[trigger] rest[k]) by {
            assert(rest[k] == s[k + 1]);
        }
        lemma_strip_start_skips(rest, i - 1);
        assert(rest.subrange(i - 1, rest.len() as int) =~= s.subrange(i, s.len() as int));
    }
}

/// Trailing spaces and dots can be dropped before the end is stripped.
proof fn lemma_strip_end_skips(s: Seq<char>, j: int)
    requires
        0 <= j <= s.len(),
        forall|k: int| j <= k < s.len() ==> is_edge_filler(#[trigger] s[k]),
    ensures
        strip_end(s) == strip_end(s.subrange(0, j)),
    decreases s.len() - j,
{
    if j == s.len() {
        assert(s.subrange(0, j) =~= s);
    } else {
        let rest = s.drop_last();
        assert(is_edge_filler(s.last()));
        assert forall|k: int| j <= k < rest.len() implies is_edge_filler(#[trigger] rest[k]) by {
            assert(rest[k] == s[k]);
        }
        lemma_strip_end_skips(rest, j);
        assert(rest.subrange(0, j) =~= s.subrange(0, j));
    }
}

/// A safe name is never empty and holds no reserved character.
pub proof fn lemma_safe_name_is_clean(base: Seq<char>)
    ensures
        safe_name(base).len() > 0,
        forall|i: int| 0 <= i < safe_name(base).len() ==> !is_reserved(#[trigger] safe_name(base)[i]),
{
    let scrubbed = Seq::new(base.len(), |i: int| scrub(base[i]));
    let front = strip_start(scrubbed);
    let stripped = strip_end(front);
    lemma_strip_start_is_tail(scrubbed);
    lemma_strip_end_is_head(front);
    reveal_strlit("model");
    if stripped.len() > 0 {
        assert forall|i: int| 0 <= i < stripped.len() implies !is_reserved(#[trigger] stripped[i]) by {
            let k = i + (scrubbed.len() - front.len());
            assert(stripped[i] == front[i]);
            assert(front[i] == scrubbed[k]);
            assert(scrubbed[k] == scrub(base[k]));
        }
    }
}

/// Stripping the start leaves a tail of the text.
proof fn lemma_strip_start_is_tail(s: Seq<char>)
    ensures
        strip_start(s).len() <= s.len(),
        strip_start(s) == s.subrange(s.len() - strip_start(s).len(), s.len() as int),
    decreases s.len(),
{
    if s.len() > 0 && is_edge_filler(s[0]) {
        lemma_strip_start_is_tail(s.drop_first());
        let t = strip_start(s.drop_first());
        assert(s.drop_first().subrange(s.len() - 1 - t.len(), s.len() - 1) =~= s.subrange(
            s.len() - t.len(),
            s.len() as int,
        ));
    } else {
        assert(s.subrange(0, s.len() as int) =~= s);
    }
}

/// Stripping the end leaves a head of the text.
proof fn lemma_strip_end_is_head(s: Seq<char>)
    ensures
        strip_end(s).len() <= s.len(),
        strip_end(s) == s.subrange(0, strip_end(s).len() as int),
    decreases s.len(),
{
    if s.len() > 0 && is_edge_filler(s.last()) {
        lemma_strip_end_is_head(s.drop_last());
        let t = strip_end(s.drop_last());
        assert(s.drop_last().subrange(0, t.len() as int) =~= s.subrange(0, t.len() as int));
    } else {
        assert(s.subrange(0, s.len() as int) =~= s);
    }
}

/// Whether `c` is a character that no file name may hold.
fn reserved(c: char) -> (r: bool)
    ensures
        r == is_reserved(c),
{
    c == '<' || c == '>' || c == ':' || c == '"' || c == '/' || c == '\\' || c == '|' || c == '?'
        || c == '*'
}

/// Makes one path component safe to use as a file name.
pub fn safe_component(base: &str) -> (r: String)
    ensures
        r@ == safe_name(base@),
{
    let v = chars_of(base);
    let mut u: Vec<char> = Vec::new();
    let mut i: usize = 0;
    while i < v.len()
        invariant
            i <= v.len(),
            u.len() == i,
            forall|k: int| 0 <= k < i ==> u@[k] == scrub(v@[k]),
        decreases v.len() - i,
    {
        let c = v[i];
        if c.is_control() || reserved(c) {
            u.push('_');
        } else {
            u.push(c);
        }
        i += 1;
    }
    assert(u@ =~= Seq::new(base@.len(), |i: int| scrub(base@[i])));
    let n = u.len();
    let mut start: usize = 0;
    while start < n && (u[start] == ' ' || u[start] == '.')
        invariant
            start <= n,
            n == u.len(),
            forall|k: int| 0 <= k < start ==> is_edge_filler(#[trigger] u@[k]),
        decreases n - start,
    {
        start += 1;
    }
    let ghost tail = u@.subrange(start as int, n as int);
    proof {
        lemma_strip_start_skips(u@, start as int);
        assert(strip_start(tail) == tail);
    }
    let mut end: usize = n;
    while end > start && (u[end - 1] == ' ' || u[end - 1] == '.')
        invariant
            start <= end <= n,
            n == u.len(),
            tail == u@.subrange(start as int, n as int),
            forall|k: int| end <= k < n ==> is_edge_filler(#[trigger] u@[k]),
        decreases end,
    {
        end -= 1;
    }
    proof {
        let j = (end - start) as int;
        assert forall|k: int| j <= k < tail.len() implies is_edge_filler(#[trigger] tail[k]) by {
            assert(tail[k] == u@[start + k]);
        }
        lemma_strip_end_skips(tail, j);
        let core = tail.subrange(0, j);
        assert(core =~= u@.subrange(start as int, end as int));
        if core.len() > 0 {
            assert(core.last() == u@[end - 1]);
        }
        assert(strip_end(core) == core);
    }
    if start == end {
        String::from_str(PLACEHOLDER_FILE_NAME)
    } else {
        string_of_range(&u, start, end)
    }
}

/// Derives a safe file name from a name that may hold a path: the name is cut
/// down to its final component, and that component is made safe. A name
/// without a final component is made safe as a whole. The result is never
/// empty and holds no reserved character.
pub fn safe_filename(name: &str) -> (r: String)
    ensures
        r@ == safe_name(base_name(name@)),
        r@.len() > 0,
        forall|i: int| 0 <= i < r@.len() ==> !is_reserved(#[trigger] r@[i]),
{
    proof {
        lemma_safe_name_is_clean(base_name(name@));
    }
    match final_component(name) {
        Some(base) => safe_component(base.as_str()),
        None => safe_component(name),
    }
}

/// Whether a safe name has an extension.
pub fn name_has_extension(name: &str) -> (r: bool)
    ensures
        r == has_extension(name@),
{
    let v = chars_of(name);
    let mut i: usize = 0;
    while i < v.len()
        invariant
            i <= v.len(),
            v@ == name@,
            forall|k: int| 0 <= k < i ==> v@[k] != '.',
        decreases v.len() - i,
    {
        if v[i] == '.' {
            return true;
        }
        i += 1;
    }
    false
}

/// Gives a safe name the model extension when it has none and the platform
/// calls for it.
pub fn with_model_extension(safe: String, platform: &str) -> (r: String)
    ensures
        r@ == model_filename(safe@, platform@),
{
    if name_has_extension(safe.as_str()) {
        return safe;
    }
    if eq_ignore_ascii_case(platform, MODEL_PLATFORM) {
        let mut r = safe;
        r.append(MODEL_EXTENSION);
        return r;
    }
    safe
}

/// The platform tag that a model file name is made for; no tag is the empty
/// tag.
pub open spec fn platform_tag(platform: Option<&str>) -> Seq<char> {
    match platform {
        Some(p) => p@,
        None => Seq::empty(),
    }
}

/// The file name under which a model is stored: [`safe_filename`] of its
/// name, with the model extension added when it has no extension and
/// `platform` is the platform that uses it.
pub fn normalize_model_filename(name: &str, platform: Option<&str>) -> (r: String)
    ensures
        r@ == model_filename(safe_name(base_name(name@)), platform_tag(platform)),
        r@.len() > 0,
        forall|i: int| 0 <= i < r@.len() ==> !is_reserved(#[trigger] r@[i]),
{
    let basename = safe_filename(name);
    proof {
        reveal_strlit(".nam");
        reveal_strlit("");
        assert(""@ =~= Seq::<char>::empty());
    }
    match platform {
        Some(p) => with_model_extension(basename, p),
        None => with_model_extension(basename, ""),
    }
}

/// The directory name of a catalog entry.
pub fn safe_tone_dir_name(title: &str, tone_id: i64) -> (r: String)
    ensures
        r@ == tone_dir_name(title@, tone_id),
{
    let v = chars_of(title);
    let mut u: Vec<char> = Vec::new();
    let mut i: usize = 0;
    while i < v.len()
        invariant
            i <= v.len(),
            u.len() == i,
            forall|k: int| 0 <= k < i ==> u@[k] == dir_char(v@[k]),
        decreases v.len() - i,
    {
        let c = v[i];
        if c.is_alphanumeric() || c == ' ' || c == '-' || c == '_' {
            u.push(c);
        } else {
            u.push('_');
        }
        i += 1;
    }
    assert(u@ =~= Seq::new(title@.len(), |i: int| dir_char(title@[i])));
    let (a, b) = trim_bounds(&u);
    let named = if a == b {
        String::from_str(PLACEHOLDER_DIR_NAME)
    } else {
        string_of_range(&u, a, b)
    };
    let stem = if named.as_str().as_bytes().len() > DIR_NAME_LIMIT {
        let w = chars_of(named.as_str());
        if w.len() > DIR_NAME_LIMIT {
            string_of_range(&w, 0, DIR_NAME_LIMIT)
        } else {
            named
        }
    } else {
        named
    };
    let mut r = stem;
    r.push('_');
    let id_text = string_of(&decimal_of(tone_id));
    r.append(id_text.as_str());
    r
}

} // verus!

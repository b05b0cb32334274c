//! Where the two keys of a run come from.
//!
//! A key named in the request wins over one from the environment, which wins
//! over one from the key file. Reading the environment and the file is left
//! to the caller; what the file says is worked out here.

use crate::run::{ErrorKind, RunFailure, MISSING_KEYS_MESSAGE};
use crate::text::{chars_of, same_text, string_of, trim, trim_bounds};
use vstd::prelude::*;
use vstd::string::StringExecFns;

verus! {

/// The name of the catalog key, in the environment and in the key file.
pub const TONE_KEY_NAME: &'static str = "TONE3000_API_KEY";

/// The name of the completion key, in the environment and in the key file.
pub const GEMINI_KEY_NAME: &'static str = "GEMINI_API_KEY";

/// The name of the key file.
pub const KEYS_FILE_NAME: &'static str = "keys.txt";

/// The places that one key may come from.
pub struct KeySources<'a> {
    /// The key as the request gives it.
    pub explicit: Option<&'a str>,
    /// The key as the environment gives it.
    pub env: Option<&'a str>,
    /// The key as the key file gives it.
    pub file: Option<&'a str>,
}

/// The two keys that a key file gives.
#[derive(Debug, PartialEq, Eq)]
pub struct KeyFile {
    pub tone3000: Option<String>,
    pub gemini: Option<String>,
}

/// What has been gathered from the lines of a key file: the two keys that
/// were given by name, and the lines that give no name.
pub ghost struct KeyNotes {
    pub tone: Option<Seq<char>>,
    pub gemini: Option<Seq<char>>,
    pub bare: Seq<Seq<char>>,
}

/// The view of an optional text.
pub open spec fn seen(s: Option<&str>) -> Option<Seq<char>> {
    match s {
        Some(t) => Some(t@),
        None => None,
    }
}

/// The view of an optional string.
pub open spec fn kept(s: Option<String>) -> Option<Seq<char>> {
    match s {
        Some(t) => Some(t@),
        None => None,
    }
}

/// The key that the sources come down to: the explicit one, trimmed, unless
/// it is blank; else the one from the environment, as it is; else the one
/// from the file.
pub open spec fn resolved(
    explicit: Option<Seq<char>>,
    env: Option<Seq<char>>,
    file: Option<Seq<char>>,
) -> Option<Seq<char>> {
    let named = match explicit {
        Some(e) => if trim(e).len() > 0 {
            Some(trim(e))
        } else {
            None
        },
        None => None,
    };
    match named {
        Some(k) => Some(k),
        None => match env {
            Some(k) => Some(k),
            None => file,
        },
    }
}

/// Where the first line of a text ends: at its first line feed, or at its
/// end.
pub open spec fn line_end(s: Seq<char>) -> int
    decreases s.len(),
{
    if s.len() == 0 || s[0] == '\n' {
        0
    } else {
        1 + line_end(s.drop_first())
    }
}

/// A line without the carriage return that may end it.
pub open spec fn without_cr(s: Seq<char>) -> Seq<char> {
    if s.len() > 0 && s.last() == '\r' {
        s.drop_last()
    } else {
        s
    }
}

/// The lines of a text. A line ends with a line feed, which may follow a
/// carriage return; neither belongs to the line. The last line needs no
/// line feed.
pub open spec fn lines_of(s: Seq<char>) -> Seq<Seq<char>>
    decreases s.len(),
{
    if s.len() == 0 {
        Seq::empty()
    } else {
        let p = line_end(s);
        if p < 0 || p >= s.len() {
            seq![s]
        } else {
            seq![without_cr(s.take(p))] + lines_of(s.skip(p + 1))
        }
    }
}

/// Where the name of an entry ends: at the first `=`, or at the end.
pub open spec fn name_end(s: Seq<char>) -> int
    decreases s.len(),
{
    if s.len() == 0 || s[0] == '=' {
        0
    } else {
        1 + name_end(s.drop_first())
    }
}

/// `s` without the characters `c` at its start.
pub open spec fn strip_front(s: Seq<char>, c: char) -> Seq<char>
    decreases s.len(),
{
    if s.len() > 0 && s[0] == c {
        strip_front(s.drop_first(), c)
    } else {
        s
    }
}

/// `s` without the characters `c` at its end.
pub open spec fn strip_back(s: Seq<char>, c: char) -> Seq<char>
    decreases s.len(),
{
    if s.len() > 0 && s.last() == c {
        strip_back(s.drop_last(), c)
    } else {
        s
    }
}

/// A value without the quotes around it: double quotes are stripped from
/// both ends, then single quotes.
pub open spec fn unquoted(v: Seq<char>) -> Seq<char> {
    strip_back(strip_front(strip_back(strip_front(v, '"'), '"'), '\''), '\'')
}

/// The notes after one more line. Blank lines and lines that start with `#`
/// say nothing. A line with `=` names a key and gives its value; only the
/// two known names are noted, and a later value replaces an earlier one. Any
/// other line is a bare line.
pub open spec fn noted(notes: KeyNotes, line: Seq<char>) -> KeyNotes {
    let t = trim(line);
    if t.len() == 0 || t[0] == '#' {
        notes
    } else {
        let p = name_end(t);
        if p < 0 || p >= t.len() {
            KeyNotes { bare: notes.bare.push(t), ..notes }
        } else {
            let name = trim(t.take(p));
            let value = unquoted(trim(t.skip(p + 1)));
            if name == TONE_KEY_NAME@ {
                KeyNotes { tone: Some(value), ..notes }
            } else if name == GEMINI_KEY_NAME@ {
                KeyNotes { gemini: Some(value), ..notes }
            } else {
                notes
            }
        }
    }
}

/// The notes after a list of lines.
pub open spec fn noted_all(lines: Seq<Seq<char>>) -> KeyNotes
    decreases lines.len(),
{
    if lines.len() == 0 {
        KeyNotes { tone: None, gemini: None, bare: Seq::empty() }
    } else {
        noted(noted_all(lines.drop_last()), lines.last())
    }
}

/// The catalog key that the notes give: the named one, or the first bare
/// line.
pub open spec fn tone_key_of(notes: KeyNotes) -> Option<Seq<char>> {
    match notes.tone {
        Some(k) => Some(k),
        None => if notes.bare.len() > 0 {
            Some(notes.bare[0])
        } else {
            None
        },
    }
}

/// The completion key that the notes give: the named one, or the second
/// bare line.
pub open spec fn gemini_key_of(notes: KeyNotes) -> Option<Seq<char>> {
    match notes.gemini {
        Some(k) => Some(k),
        None => if notes.bare.len() > 1 {
            Some(notes.bare[1])
        } else {
            None
        },
    }
}

/// Picks one key from its sources.
pub fn resolve_key(sources: &KeySources) -> (r: Option<String>)
    ensures
        kept(r) == resolved(seen(sources.explicit), seen(sources.env), seen(sources.file)),
{
    match sources.explicit {
        Some(e) => {
            let v = chars_of(e);
            let (a, b) = trim_bounds(&v);
            if a < b {
                return Some(crate::text::string_of_range(&v, a, b));
            }
        },
        None => {},
    }
    match sources.env {
        Some(k) => Some(String::from_str(k)),
        None => match sources.file {
            Some(k) => Some(String::from_str(k)),
            None => None,
        },
    }
}

/// Picks both keys. The run cannot start unless both are found.
pub fn resolve_keys(tone: &KeySources, gemini: &KeySources) -> (r: Result<
    (String, String),
    RunFailure,
>)
    ensures
        match r {
            Ok(keys) => resolved(seen(tone.explicit), seen(tone.env), seen(tone.file)) == Some(
                keys.0@,
            ) && resolved(seen(gemini.explicit), seen(gemini.env), seen(gemini.file)) == Some(
                keys.1@,
            ),
            Err(e) => e.kind == ErrorKind::MissingCredentials && e.message@
                == MISSING_KEYS_MESSAGE@ && (resolved(
                seen(tone.explicit),
                seen(tone.env),
                seen(tone.file),
            ) is None || resolved(seen(gemini.explicit), seen(gemini.env), seen(gemini.file))
                is None),
        },
{
    match resolve_key(tone) {
        Some(t) => match resolve_key(gemini) {
            Some(g) => Ok((t, g)),
            None => Err(RunFailure::new(ErrorKind::MissingCredentials, MISSING_KEYS_MESSAGE)),
        },
        None => Err(RunFailure::new(ErrorKind::MissingCredentials, MISSING_KEYS_MESSAGE)),
    }
}

/// The characters `v[from..to]`.
fn piece(v: &Vec<char>, from: usize, to: usize) -> (r: Vec<char>)
    requires
        from <= to <= v.len(),
    ensures
        r@ == v@.subrange(from as int, to as int),
{
    let mut r: Vec<char> = Vec::new();
    let mut i: usize = from;
    while i < to
        invariant
            from <= i <= to <= v.len(),
            r@ == v@.subrange(from as int, i as int),
        decreases to - i,
    {
        r.push(v[i]);
        i += 1;
    }
    r
}

/// `v` without whitespace at its ends.
fn trimmed_piece(v: &Vec<char>) -> (r: Vec<char>)
    ensures
        r@ == trim(v@),
{
    let (a, b) = trim_bounds(v);
    piece(v, a, b)
}

/// Stripping the front removes exactly the leading run of `c`.
proof fn lemma_strip_front_skips(s: Seq<char>, c: char, i: int)
    requires
        0 <= i <= s.len(),
        forall|k: int| 0 <= k < i ==> s[k] == c,
        i == s.len() || s[i] != c,
    ensures
        strip_front(s, c) == s.subrange(i, s.len() as int),
    decreases i,
{
    if i == 0 {
        assert(s.subrange(0, s.len() as int) =~= s);
    } else {
        let rest = s.drop_first();
        assert(s[0] == c);
        assert forall|k: int| 0 <= k < i - 1 implies rest[k] == c by {
            assert(rest[k] == s[k + 1]);
        }
        lemma_strip_front_skips(rest, c, i - 1);
        assert(rest.subrange(i - 1, rest.len() as int) =~= s.subrange(i, s.len() as int));
    }
}

/// Stripping the back removes exactly the trailing run of `c`.
proof fn lemma_strip_back_skips(s: Seq<char>, c: char, j: int)
    requires
        0 <= j <= s.len(),
        forall|k: int| j <= k < s.len() ==> s[k] == c,
        j == 0 || s[j - 1] != c,
    ensures
        strip_back(s, c) == s.subrange(0, j),
    decreases s.len() - j,
{
    if j == s.len() {
        assert(s.subrange(0, j) =~= s);
    } else {
        let rest = s.drop_last();
        assert(s.last() == c);
        lemma_strip_back_skips(rest, c, j);
        assert(rest.subrange(0, j) =~= s.subrange(0, j));
    }
}

/// `v` without the characters `c` at both ends.
fn stripped(v: &Vec<char>, c: char) -> (r: Vec<char>)
    ensures
        r@ == strip_back(strip_front(v@, c), c),
{
    let n = v.len();
    let mut a: usize = 0;
    while a < n && v[a] == c
        invariant
            a <= n,
            n == v.len(),
            forall|k: int| 0 <= k < a ==> v@[k] == c,
        decreases n - a,
    {
        a += 1;
    }
    let ghost tail = v@.subrange(a as int, n as int);
    proof {
        lemma_strip_front_skips(v@, c, a as int);
    }
    let mut b: usize = n;
    while b > a && v[b - 1] == c
        invariant
            a <= b <= n,
            n == v.len(),
            forall|k: int| b <= k < n ==> v@[k] == c,
        decreases b,
    {
        b -= 1;
    }
    proof {
        let j = (b - a) as int;
        assert forall|k: int| j <= k < tail.len() implies tail[k] == c by {
            assert(tail[k] == v@[a + k]);
        }
        if j > 0 {
            assert(tail[j - 1] == v@[b - 1]);
        }
        lemma_strip_back_skips(tail, c, j);
        assert(tail.subrange(0, j) =~= v@.subrange(a as int, b as int));
    }
    piece(v, a, b)
}

/// What one line adds to what is known of the keys.
fn note_line(
    line: &Vec<char>,
    tone: &mut Option<String>,
    gemini: &mut Option<String>,
    first_bare: &mut Option<String>,
    second_bare: &mut Option<String>,
    Ghost(notes): Ghost<KeyNotes>,
) -> (after: Ghost<KeyNotes>)
    requires
        kept(*old(tone)) == notes.tone,
        kept(*old(gemini)) == notes.gemini,
        kept(*old(first_bare)) == (if notes.bare.len() > 0 {
            Some(notes.bare[0])
        } else {
            None
        }),
        kept(*old(second_bare)) == (if notes.bare.len() > 1 {
            Some(notes.bare[1])
        } else {
            None
        }),
    ensures
        after@ == noted(notes, line@),
        kept(*final(tone)) == after@.tone,
        kept(*final(gemini)) == after@.gemini,
        kept(*final(first_bare)) == (if after@.bare.len() > 0 {
            Some(after@.bare[0])
        } else {
            None
        }),
        kept(*final(second_bare)) == (if after@.bare.len() > 1 {
            Some(after@.bare[1])
        } else {
            None
        }),
{
    let t = trimmed_piece(line);
    if t.len() == 0 || t[0] == '#' {
        return Ghost(notes);
    }
    let mut p: usize = 0;
    assert(t@.subrange(0, t.len() as int) =~= t@);
    while p < t.len() && t[p] != '='
        invariant
            p <= t.len(),
            name_end(t@) == p + name_end(t@.subrange(p as int, t.len() as int)),
        decreases t.len() - p,
    {
        let ghost rest = t@.subrange(p as int, t.len() as int);
        assert(rest[0] == t@[p as int]);
        assert(rest.drop_first() =~= t@.subrange(p + 1, t.len() as int));
        p += 1;
    }
    proof {
        let rest = t@.subrange(p as int, t.len() as int);
        if p < t.len() {
            assert(rest[0] == t@[p as int]);
        }
        assert(name_end(rest) == 0);
    }
    if p == t.len() {
        let text = string_of(&t);
        if first_bare.is_none() {
            *first_bare = Some(text);
        } else if second_bare.is_none() {
            *second_bare = Some(text);
        }
        return Ghost(KeyNotes { bare: notes.bare.push(t@), ..notes });
    }
    let name = string_of(&trimmed_piece(&piece(&t, 0, p)));
    let inner = trimmed_piece(&piece(&t, p + 1, t.len()));
    let value = string_of(&stripped(&stripped(&inner, '"'), '\''));
    proof {
        assert(t@.subrange(0, p as int) =~= t@.take(p as int));
        assert(t@.subrange(p + 1, t.len() as int) =~= t@.skip(p + 1));
    }
    if same_text(name.as_str(), TONE_KEY_NAME) {
        *tone = Some(value);
        Ghost(KeyNotes { tone: Some(value@), ..notes })
    } else if same_text(name.as_str(), GEMINI_KEY_NAME) {
        *gemini = Some(value);
        Ghost(KeyNotes { gemini: Some(value@), ..notes })
    } else {
        Ghost(notes)
    }
}

/// Reads the two keys from the text of a key file.
///
/// A key is given by name, as `NAME=value` with optional quotes around the
/// value, or by position: the first line without a name is the catalog key
/// and the second the completion key. A named key wins over a bare line.
/// Blank lines and lines that start with `#` are skipped.
pub fn read_keys_file(content: &str) -> (r: KeyFile)
    ensures
        kept(r.tone3000) == tone_key_of(noted_all(lines_of(content@))),
        kept(r.gemini) == gemini_key_of(noted_all(lines_of(content@))),
{
    let chars = chars_of(content);
    let n = chars.len();
    let mut tone: Option<String> = None;
    let mut gemini: Option<String> = None;
    let mut first_bare: Option<String> = None;
    let mut second_bare: Option<String> = None;
    let ghost mut notes = KeyNotes { tone: None, gemini: None, bare: Seq::empty() };
    let ghost mut done: Seq<Seq<char>> = Seq::empty();
    let mut start: usize = 0;
    proof {
        assert(chars@.skip(0) =~= chars@);
        assert(done + lines_of(chars@) =~= lines_of(chars@));
    }
    while start < n
        invariant
            start <= n,
            n == chars.len(),
            chars@ == content@,
            lines_of(content@) == done + lines_of(chars@.skip(start as int)),
            notes == noted_all(done),
            kept(tone) == notes.tone,
            kept(gemini) == notes.gemini,
            kept(first_bare) == (if notes.bare.len() > 0 {
                Some(notes.bare[0])
            } else {
                None
            }),
            kept(second_bare) == (if notes.bare.len() > 1 {
                Some(notes.bare[1])
            } else {
                None
            }),
        decreases n - start,
    {
        let ghost rest = chars@.skip(start as int);
        let mut p: usize = start;
        assert(rest.subrange(0, rest.len() as int) =~= rest);
        while p < n && chars[p] != '\n'
            invariant
                start <= p <= n,
                n == chars.len(),
                rest == chars@.skip(start as int),
                line_end(rest) == (p - start) + line_end(
                    rest.subrange(p - start, rest.len() as int),
                ),
            decreases n - p,
        {
            let ghost tail = rest.subrange(p - start, rest.len() as int);
            assert(tail[0] == chars@[p as int]);
            assert(tail.drop_first() =~= rest.subrange(p - start + 1, rest.len() as int));
            p += 1;
        }
        proof {
            let tail = rest.subrange(p - start, rest.len() as int);
            if p < n {
                assert(tail[0] == chars@[p as int]);
            }
            assert(line_end(tail) == 0);
            assert(line_end(rest) == p - start);
        }
        let mut line = piece(&chars, start, p);
        let ghost whole = line@;
        if p < n {
            if line.len() > 0 && line[line.len() - 1] == '\r' {
                line.pop();
                assert(line@ =~= whole.drop_last());
            }
        }
        proof {
            assert(whole =~= rest.take(p - start));
            if p < n {
                assert(line@ == without_cr(rest.take(p - start)));
                assert(rest.skip(p - start + 1) =~= chars@.skip(p + 1));
                assert(lines_of(rest) == seq![line@] + lines_of(chars@.skip(p + 1)));
            } else {
                assert(whole =~= rest);
                assert(lines_of(rest) == seq![line@]);
                assert(chars@.skip(n as int) =~= Seq::<char>::empty());
                assert(seq![line@] + lines_of(chars@.skip(n as int)) =~= seq![line@]);
            }
        }
        let next: usize = if p < n {
            p + 1
        } else {
            n
        };
        proof {
            let before = done;
            done = done.push(line@);
            assert(done.drop_last() =~= before);
            assert(before + (seq![line@] + lines_of(chars@.skip(next as int))) =~= done
                + lines_of(chars@.skip(next as int)));
        }
        let after = note_line(
            &line,
            &mut tone,
            &mut gemini,
            &mut first_bare,
            &mut second_bare,
            Ghost(notes),
        );
        proof {
            notes = after@;
        }
        start = next;
    }
    proof {
        assert(chars@.skip(n as int) =~= Seq::<char>::empty());
        assert(done + Seq::<Seq<char>>::empty() =~= done);
    }
    let tone3000 = match tone {
        Some(k) => Some(k),
        None => first_bare,
    };
    let gemini = match gemini {
        Some(k) => Some(k),
        None => second_bare,
    };
    KeyFile { tone3000, gemini }
}

} // verus!

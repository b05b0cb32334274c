//! The records that the tone catalog hands out, and how they are read from
//! its replies.

use crate::decimal::{parse_i64, parsed_i64};
use crate::json::{json_document, read_json_document, Json};
use crate::text::chars_of;
use vstd::prelude::*;
use vstd::string::StringExecFns;

verus! {

/// One searchable entry of the catalog: an amplifier, a cabinet or IR, or a
/// pedal profile. Its identity is the catalog identifier.
#[derive(Debug, PartialEq, Eq)]
pub struct ToneCandidate {
    pub id: i64,
    pub title: String,
    pub description: String,
    pub gear: String,
    pub platform: String,
    pub downloads: i64,
    pub author: String,
    pub url: String,
}

/// One model file offered for a catalog entry.
#[derive(Debug, PartialEq, Eq)]
pub struct ModelFile {
    pub name: String,
    pub size: String,
    pub url: String,
}

impl ToneCandidate {
    /// Title and description, one per line: the text that the keyword
    /// heuristics read.
    pub open spec fn blurb(self) -> Seq<char> {
        self.title@ + seq!['\n'] + self.description@
    }

    /// An equal record of its own.
    pub fn duplicate(&self) -> (r: ToneCandidate)
        ensures
            r == *self,
    {
        ToneCandidate {
            id: self.id,
            title: self.title.clone(),
            description: self.description.clone(),
            gear: self.gear.clone(),
            platform: self.platform.clone(),
            downloads: self.downloads,
            author: self.author.clone(),
            url: self.url.clone(),
        }
    }
}

impl ModelFile {
    /// An equal record of its own.
    pub fn duplicate(&self) -> (r: ModelFile)
        ensures
            r == *self,
    {
        ModelFile { name: self.name.clone(), size: self.size.clone(), url: self.url.clone() }
    }
}

/// The download counts of a list of candidates, position by position.
pub open spec fn downloads_of(tones: Seq<ToneCandidate>) -> Seq<i64> {
    Seq::new(tones.len(), |i: int| tones[i].downloads)
}

/// The catalog identifiers of a list of candidates, position by position.
pub open spec fn ids_of(tones: Seq<ToneCandidate>) -> Seq<i64> {
    Seq::new(tones.len(), |i: int| tones[i].id)
}

/// The text of a member that is a string; the empty text for a missing
/// member and for any other value.
pub open spec fn text_or_empty(v: Option<Json>) -> Seq<char> {
    match v {
        Some(j) => match j.text() {
            Some(s) => s,
            None => Seq::empty(),
        },
        None => Seq::empty(),
    }
}

/// A `u64` read as the `i64` with the same 64 bits.
pub open spec fn reinterpreted(u: u64) -> i64 {
    if u <= 0x7fff_ffff_ffff_ffff {
        u as i64
    } else {
        (u - 0x1_0000_0000_0000_0000) as i64
    }
}

/// The integer that a member holds, as a number or as decimal text.
pub open spec fn integer_in(j: Json) -> Option<i64> {
    match j.integer() {
        Some(n) => Some(n),
        None => match j.unsigned() {
            Some(u) => Some(reinterpreted(u)),
            None => match j.text() {
                Some(s) => parsed_i64(s),
                None => None,
            },
        },
    }
}

/// The count that a member holds; zero for a missing member and for a value
/// that holds no integer.
pub open spec fn count_or_zero(v: Option<Json>) -> i64 {
    match v {
        Some(j) => match integer_in(j) {
            Some(n) => n,
            None => 0,
        },
        None => 0,
    }
}

/// The catalog identifier of an entry.
pub open spec fn id_in(entry: Json) -> Option<i64> {
    match entry.field("id"@) {
        Some(j) => integer_in(j),
        None => None,
    }
}

/// The name of the author of an entry: the `username` of its `user`.
pub open spec fn author_in(entry: Json) -> Seq<char> {
    match entry.field("user"@) {
        Some(u) => text_or_empty(u.field("username"@)),
        None => Seq::empty(),
    }
}

/// `tone` is what `entry` says about a candidate.
pub open spec fn reads_as(entry: Json, tone: ToneCandidate) -> bool {
    &&& id_in(entry) == Some(tone.id)
    &&& tone.title@ == text_or_empty(entry.field("title"@))
    &&& tone.description@ == text_or_empty(entry.field("description"@))
    &&& tone.gear@ == text_or_empty(entry.field("gear"@))
    &&& tone.platform@ == text_or_empty(entry.field("platform"@))
    &&& tone.downloads == count_or_zero(entry.field("downloads_count"@))
    &&& tone.author@ == author_in(entry)
    &&& tone.url@ == text_or_empty(entry.field("url"@))
}

/// `model` is what `entry` says about a model file.
pub open spec fn reads_as_model(entry: Json, model: ModelFile) -> bool {
    &&& model.name@ == text_or_empty(entry.field("name"@))
    &&& model.size@ == text_or_empty(entry.field("size"@))
    &&& model.url@ == text_or_empty(entry.field("model_url"@))
}

/// The entries of a reply: the items of its `data` member, or none when it
/// has no such list.
pub open spec fn entries_of(reply: Json) -> Seq<Json> {
    match reply.field("data"@) {
        Some(d) => match d.items() {
            Some(list) => list,
            None => Seq::empty(),
        },
        None => Seq::empty(),
    }
}

/// The text of a member that is a string, and the empty text otherwise.
pub fn value_as_string(value: Option<&Json>) -> (r: String)
    ensures
        r@ == text_or_empty(
            match value {
                Some(j) => Some(*j),
                None => None,
            },
        ),
{
    match value {
        Some(j) => match j.as_str() {
            Some(s) => String::from_str(s),
            None => String::new(),
        },
        None => String::new(),
    }
}

/// The `i64` that has the bits of `u`.
fn reinterpret(u: u64) -> (r: i64)
    ensures
        r == reinterpreted(u),
{
    if u <= 0x7fff_ffff_ffff_ffff {
        u as i64
    } else {
        let low: u64 = u - 0x8000_0000_0000_0000;
        let r: i64 = (low as i64) + i64::MIN;
        r
    }
}

/// The integer that a value holds, as a number or as decimal text.
fn integer_of(j: &Json) -> (r: Option<i64>)
    ensures
        r == integer_in(*j),
{
    match j.as_i64() {
        Some(n) => Some(n),
        None => match j.as_u64() {
            Some(u) => Some(reinterpret(u)),
            None => match j.as_str() {
                Some(s) => parse_i64(&chars_of(s)),
                None => None,
            },
        },
    }
}

/// The count that a member holds, and zero when it holds none.
pub fn value_as_i64(value: Option<&Json>) -> (r: i64)
    ensures
        r == count_or_zero(
            match value {
                Some(j) => Some(*j),
                None => None,
            },
        ),
{
    match value {
        Some(j) => match integer_of(j) {
            Some(n) => n,
            None => 0,
        },
        None => 0,
    }
}

/// The catalog identifier of an entry, if it has one.
pub fn tone_id(entry: &Json) -> (r: Option<i64>)
    ensures
        r == id_in(*entry),
{
    match entry.get("id") {
        Some(j) => integer_of(j),
        None => None,
    }
}

/// The download count of an entry.
pub fn tone_downloads(entry: &Json) -> (r: i64)
    ensures
        r == count_or_zero(entry.field("downloads_count"@)),
{
    value_as_i64(entry.get("downloads_count"))
}

impl ToneCandidate {
    /// Reads a candidate from an entry of the catalog. An entry without an
    /// identifier is no candidate.
    pub fn from_json(entry: &Json) -> (r: Option<ToneCandidate>)
        ensures
            match r {
                Some(tone) => reads_as(*entry, tone),
                None => id_in(*entry) is None,
            },
    {
        let id = match tone_id(entry) {
            Some(id) => id,
            None => {
                return None;
            },
        };
        let author = match entry.get("user") {
            Some(u) => value_as_string(u.get("username")),
            None => String::new(),
        };
        Some(
            ToneCandidate {
                id,
                title: value_as_string(entry.get("title")),
                description: value_as_string(entry.get("description")),
                gear: value_as_string(entry.get("gear")),
                platform: value_as_string(entry.get("platform")),
                downloads: tone_downloads(entry),
                author,
                url: value_as_string(entry.get("url")),
            },
        )
    }
}

impl ModelFile {
    /// Reads a model file from an entry of the catalog.
    pub fn from_json(entry: &Json) -> (r: ModelFile)
        ensures
            reads_as_model(*entry, r),
    {
        ModelFile {
            name: value_as_string(entry.get("name")),
            size: value_as_string(entry.get("size")),
            url: value_as_string(entry.get("model_url")),
        }
    }
}

/// The entries of a reply of the catalog.
fn data_of(reply: &Json) -> (r: Option<&Vec<Json>>)
    ensures
        match r {
            Some(list) => entries_of(*reply) == list@,
            None => entries_of(*reply) == Seq::<Json>::empty(),
        },
{
    match reply.get("data") {
        Some(d) => d.as_array(),
        None => None,
    }
}

/// `page` is what the reply `body` of a search says: one place for each
/// entry, in order, holding the candidate that the entry describes, or
/// nothing when the entry has no identifier.
pub open spec fn is_search_page(page: Seq<Option<ToneCandidate>>, reply: Json) -> bool {
    &&& page.len() == entries_of(reply).len()
    &&& forall|i: int|
        0 <= i < page.len() ==> match #[trigger] page[i] {
            Some(tone) => reads_as(entries_of(reply)[i], tone),
            None => id_in(entries_of(reply)[i]) is None,
        }
}

/// `models` is what the reply of a model listing says, entry by entry.
pub open spec fn is_model_list(models: Seq<ModelFile>, reply: Json) -> bool {
    &&& models.len() == entries_of(reply).len()
    &&& forall|i: int|
        0 <= i < models.len() ==> reads_as_model(entries_of(reply)[i], #[trigger] models[i])
}

/// Reads the reply of a catalog search. `None` means that the body is no
/// JSON document.
pub fn decode_search_page(body: &str) -> (r: Option<Vec<Option<ToneCandidate>>>)
    ensures
        match r {
            Some(page) => json_document(body@) matches Some(reply) && is_search_page(
                page@,
                reply,
            ),
            None => json_document(body@) is None,
        },
{
    let reply = match read_json_document(body) {
        Some(reply) => reply,
        None => {
            return None;
        },
    };
    let mut page: Vec<Option<ToneCandidate>> = Vec::new();
    match data_of(&reply) {
        Some(list) => {
            let mut i: usize = 0;
            while i < list.len()
                invariant
                    i <= list.len(),
                    page.len() == i,
                    entries_of(reply) == list@,
                    forall|k: int|
                        0 <= k < i ==> match #[trigger] page@[k] {
                            Some(tone) => reads_as(list@[k], tone),
                            None => id_in(list@[k]) is None,
                        },
                decreases list.len() - i,
            {
                page.push(ToneCandidate::from_json(&list[i]));
                i += 1;
            }
        },
        None => {},
    }
    Some(page)
}

/// Reads the reply of a model listing. `None` means that the body is no JSON
/// document.
pub fn decode_model_list(body: &str) -> (r: Option<Vec<ModelFile>>)
    ensures
        match r {
            Some(models) => json_document(body@) matches Some(reply) && is_model_list(
                models@,
                reply,
            ),
            None => json_document(body@) is None,
        },
{
    let reply = match read_json_document(body) {
        Some(reply) => reply,
        None => {
            return None;
        },
    };
    let mut models: Vec<ModelFile> = Vec::new();
    match data_of(&reply) {
        Some(list) => {
            let mut i: usize = 0;
            while i < list.len()
                invariant
                    i <= list.len(),
                    models.len() == i,
                    entries_of(reply) == list@,
                    forall|k: int| 0 <= k < i ==> reads_as_model(list@[k], #[trigger] models@[k]),
                decreases list.len() - i,
            {
                models.push(ModelFile::from_json(&list[i]));
                i += 1;
            }
        },
        None => {},
    }
    Some(models)
}

} // verus!

//! Keyword heuristics over candidate texts.

use crate::catalog::ToneCandidate;
use crate::text::{chars_of, contains_chars, contains_text, lowercase, same_text};
use vstd::prelude::*;
use vstd::string::StringExecFns;

verus! {

/// Words that mark a boost, overdrive or tube-screamer stage in an amplifier
/// profile.
pub const BOOST_KEYWORDS: [&'static str; 16] = [
    "boost",
    "boosted",
    "overdrive",
    "od ",
    " od",
    "tubescreamer",
    "tube screamer",
    "ts808",
    "ts-808",
    "ts9",
    "ts-9",
    "sd1",
    "sd-1",
    "klon",
    "treble booster",
    "rangemaster",
];

/// Words that mark a pedal as a preamp, boost or overdrive.
pub const PEDAL_KEYWORDS: [&'static str; 12] = [
    "preamp",
    "boost",
    "overdrive",
    "tubescreamer",
    "tube screamer",
    "ts808",
    "ts-808",
    "ts9",
    "ts-9",
    "sd-1",
    "sd1",
    "klon",
];

/// Phrases that say that an amplifier profile comes with its cabinet.
pub const CAB_INCLUDED_KEYWORDS: [&'static str; 8] = [
    "cab included",
    "with cab",
    "miked cab",
    "mic'd cab",
    "cab sim",
    "cabinet sim",
    "merged profile",
    "full rig",
];

/// Phrases that say that an amplifier profile is a head or preamp alone.
pub const HEAD_ONLY_KEYWORDS: [&'static str; 5] = [
    "head only",
    "no cab",
    "without cab",
    "preamp only",
    "amp head",
];

/// `text` contains at least one of `keys`.
pub open spec fn mentions_any(text: Seq<char>, keys: Seq<&'static str>) -> bool {
    exists|k: int| 0 <= k < keys.len() && contains_text(text, #[trigger] keys[k]@)
}

/// Whether `text` contains at least one of `keys`, compared as written.
pub fn mentions_any_of(text: &str, keys: &[&'static str]) -> (r: bool)
    ensures
        r == mentions_any(text@, keys@),
{
    let hay = chars_of(text);
    let mut k: usize = 0;
    while k < keys.len()
        invariant
            k <= keys.len(),
            hay@ == text@,
            forall|j: int| 0 <= j < k ==> !contains_text(text@, #[trigger] keys@[j]@),
        decreases keys.len() - k,
    {
        let needle = chars_of(keys[k]);
        if contains_chars(&hay, &needle) {
            return true;
        }
        k += 1;
    }
    false
}

/// Whether a text, lowercased, mentions a boost stage.
pub fn text_contains_boost(text: &str) -> (r: bool)
    ensures
        r == mentions_any(lowercase(text@), BOOST_KEYWORDS@),
{
    let t = text.to_lowercase();
    mentions_any_of(t.as_str(), &BOOST_KEYWORDS)
}

/// The gear category and the blurb of a candidate say that it is an
/// amplifier with a boost stage in its chain. Both are given in lowercase.
pub open spec fn reads_as_boosted_amp(gear: Seq<char>, blurb: Seq<char>) -> bool {
    gear == "amp"@ && mentions_any(blurb, BOOST_KEYWORDS@)
}

/// The gear category and the blurb of a candidate say that it is a preamp,
/// boost or overdrive pedal. Both are given in lowercase.
pub open spec fn reads_as_boost_pedal(gear: Seq<char>, blurb: Seq<char>) -> bool {
    gear == "pedal"@ && mentions_any(blurb, PEDAL_KEYWORDS@)
}

impl ToneCandidate {
    /// An amplifier whose title or description mentions a boost stage.
    pub open spec fn is_boosted_amp(self) -> bool {
        reads_as_boosted_amp(lowercase(self.gear@), lowercase(self.blurb()))
    }

    /// A pedal whose title or description marks it as a preamp, boost or
    /// overdrive.
    pub open spec fn is_boost_pedal(self) -> bool {
        reads_as_boost_pedal(lowercase(self.gear@), lowercase(self.blurb()))
    }

    /// Title and description, one per line.
    pub fn blurb_text(&self) -> (r: String)
        ensures
            r@ == self.blurb(),
    {
        let mut r = self.title.clone();
        r.push('\n');
        r.append(self.description.as_str());
        r
    }
}

/// Decides from the lowercase gear category and the lowercase blurb whether
/// a candidate is an amplifier with a boost stage.
pub fn lowered_is_boosted_amp(gear: &str, blurb: &str) -> (r: bool)
    ensures
        r == reads_as_boosted_amp(gear@, blurb@),
{
    same_text(gear, "amp") && mentions_any_of(blurb, &BOOST_KEYWORDS)
}

/// Decides from the lowercase gear category and the lowercase blurb whether
/// a candidate is a preamp, boost or overdrive pedal.
pub fn lowered_is_boost_pedal(gear: &str, blurb: &str) -> (r: bool)
    ensures
        r == reads_as_boost_pedal(gear@, blurb@),
{
    same_text(gear, "pedal") && mentions_any_of(blurb, &PEDAL_KEYWORDS)
}

/// Whether the candidate is an amplifier that already models a boost stage.
pub fn tone_contains_boost(tone: &ToneCandidate) -> (r: bool)
    ensures
        r == tone.is_boosted_amp(),
{
    let gear = tone.gear.as_str().to_lowercase();
    if !same_text(gear.as_str(), "amp") {
        return false;
    }
    let blurb = tone.blurb_text().as_str().to_lowercase();
    lowered_is_boosted_amp(gear.as_str(), blurb.as_str())
}

/// Whether the candidate is a pedal that would double such a stage.
pub fn tone_is_preamp_or_boost_pedal(tone: &ToneCandidate) -> (r: bool)
    ensures
        r == tone.is_boost_pedal(),
{
    let gear = tone.gear.as_str().to_lowercase();
    if !same_text(gear.as_str(), "pedal") {
        return false;
    }
    let blurb = tone.blurb_text().as_str().to_lowercase();
    lowered_is_boost_pedal(gear.as_str(), blurb.as_str())
}

/// No candidate is both an amplifier with a boost stage and a boost pedal.
pub proof fn lemma_boosted_amp_is_no_pedal(tone: ToneCandidate)
    ensures
        !(tone.is_boosted_amp() && tone.is_boost_pedal()),
{
    reveal_strlit("amp");
    reveal_strlit("pedal");
    if tone.is_boosted_amp() && tone.is_boost_pedal() {
        assert("amp"@.len() == 3);
        assert("pedal"@.len() == 5);
    }
}

} // verus!

//! The cabinet decisions of the rig assembler: whether an amplifier needs a
//! companion cabinet, and which one it gets.

use crate::advice::{position_in, position_of, stated_in, stated_line, Answer};
use crate::catalog::ToneCandidate;
use crate::json::Json;
use crate::heuristics::{
    mentions_any, mentions_any_of, CAB_INCLUDED_KEYWORDS, HEAD_ONLY_KEYWORDS,
};
use crate::text::lowercase;
use vstd::prelude::*;
use vstd::string::StringExecFns;

verus! {

/// The reason given when the description says that a cabinet is included.
pub const REASON_CAB_INCLUDED: &'static str =
    "Fallback: amp description suggests a cab section is already included.";

/// The reason given when the description says that the profile is a head or
/// preamp alone.
pub const REASON_HEAD_ONLY: &'static str =
    "Fallback: amp description looks head/preamp only, so cab is required.";

/// The reason given when the description says neither.
pub const REASON_UNCLEAR: &'static str =
    "Fallback: cab requirement is unclear, selecting a cab for safer rig completion.";

/// The reason given for an answer that asks for a cabinet without saying
/// why.
pub const REASON_CAB_NEEDED: &'static str = "Cab selected to complete the rig.";

/// The reason given for an answer that asks for none without saying why.
pub const REASON_CAB_NOT_NEEDED: &'static str = "Amp profile appears complete without extra cab.";

/// The reason given for a cabinet that an answer picks without saying why.
pub const REASON_BEST_MATCH: &'static str = "Selected as best cab/IR match for the amp.";

/// The start of the reason given for a cabinet picked without an answer;
/// the failure of the completion service and `)` follow it.
pub const REASON_BY_POPULARITY: &'static str =
    "Fallback cab selection by popularity (Gemini issue: ";

/// What the keyword heuristic says about a lowercase blurb: whether a
/// cabinet is needed, and why. A cabinet that is included is not needed; a
/// head alone needs one; and so does every amplifier that says neither.
pub open spec fn heuristic_verdict(blurb: Seq<char>) -> (bool, Seq<char>) {
    if mentions_any(blurb, CAB_INCLUDED_KEYWORDS@) {
        (false, REASON_CAB_INCLUDED@)
    } else if mentions_any(blurb, HEAD_ONLY_KEYWORDS@) {
        (true, REASON_HEAD_ONLY@)
    } else {
        (true, REASON_UNCLEAR@)
    }
}

/// Whether an answer asks for a cabinet: it does unless it says `false`.
pub open spec fn answer_needs_cab(doc: Json) -> bool {
    match doc.field("needs_cab"@) {
        Some(v) => match v.truth() {
            Some(b) => b,
            None => true,
        },
        None => true,
    }
}

/// The reason that goes with the verdict of an answer.
pub open spec fn answer_cab_reason(doc: Json) -> Seq<char> {
    match stated_in(doc.field("reason"@)) {
        Some(r) => r,
        None => if answer_needs_cab(doc) {
            REASON_CAB_NEEDED@
        } else {
            REASON_CAB_NOT_NEEDED@
        },
    }
}

/// Whether an amplifier needs a cabinet, and why.
pub open spec fn cab_verdict(amp: ToneCandidate, answer: Answer) -> (bool, Seq<char>) {
    match answer {
        Answer::Given(doc) => (answer_needs_cab(*doc), answer_cab_reason(*doc)),
        Answer::Failed(_) => heuristic_verdict(lowercase(amp.blurb())),
    }
}

/// The position of the cabinet that is picked from `n` candidates: the one
/// that the answer names if it is one of them, and the first otherwise.
pub open spec fn cab_position(answer: Answer, n: nat) -> usize {
    match answer {
        Answer::Given(doc) => match doc.field("selected_index"@) {
            Some(v) => match position_in(v) {
                Some(p) => if p < n {
                    p
                } else {
                    0
                },
                None => 0,
            },
            None => 0,
        },
        Answer::Failed(_) => 0,
    }
}

/// The reason recorded for the picked cabinet.
pub open spec fn cab_reason(answer: Answer) -> Seq<char> {
    match answer {
        Answer::Given(doc) => match stated_in(doc.field("reason"@)) {
            Some(r) => r,
            None => REASON_BEST_MATCH@,
        },
        Answer::Failed(err) => REASON_BY_POPULARITY@ + err@ + seq![')'],
    }
}

/// Applies the keyword heuristic to a lowercase blurb.
pub fn lowered_needs_cab(blurb: &str) -> (r: (bool, String))
    ensures
        (r.0, r.1@) == heuristic_verdict(blurb@),
{
    if mentions_any_of(blurb, &CAB_INCLUDED_KEYWORDS) {
        (false, String::from_str(REASON_CAB_INCLUDED))
    } else if mentions_any_of(blurb, &HEAD_ONLY_KEYWORDS) {
        (true, String::from_str(REASON_HEAD_ONLY))
    } else {
        (true, String::from_str(REASON_UNCLEAR))
    }
}

/// Title and description of an amplifier in lowercase, one per line: the
/// text that the keyword heuristic reads.
pub fn amp_description_text(amp_tone: &ToneCandidate) -> (r: String)
    ensures
        r@ == lowercase(amp_tone.blurb()),
{
    amp_tone.blurb_text().as_str().to_lowercase()
}

/// Decides from title and description alone whether an amplifier needs a
/// cabinet.
pub fn fallback_amp_needs_cab(amp_tone: &ToneCandidate) -> (r: (bool, String))
    ensures
        (r.0, r.1@) == heuristic_verdict(lowercase(amp_tone.blurb())),
{
    let text = amp_description_text(amp_tone);
    lowered_needs_cab(text.as_str())
}

/// Decides whether an amplifier needs a cabinet: as the answer says, or by
/// the keyword heuristic when there is no answer.
pub fn assess_amp_needs_cab(amp_tone: &ToneCandidate, answer: Answer) -> (r: (bool, String))
    ensures
        (r.0, r.1@) == cab_verdict(*amp_tone, answer),
{
    match answer {
        Answer::Given(doc) => {
            let needs_cab = match doc.get("needs_cab") {
                Some(v) => match v.as_bool() {
                    Some(b) => b,
                    None => true,
                },
                None => true,
            };
            let reason = match stated_line(doc.get("reason")) {
                Some(r) => r,
                None => if needs_cab {
                    String::from_str(REASON_CAB_NEEDED)
                } else {
                    String::from_str(REASON_CAB_NOT_NEEDED)
                },
            };
            (needs_cab, reason)
        },
        Answer::Failed(_) => fallback_amp_needs_cab(amp_tone),
    }
}

/// Picks the cabinet for an amplifier: the candidate that the answer names,
/// or the first one when the answer names none of them or there is no
/// answer. No candidates, no cabinet.
pub fn select_best_cab_for_amp(cab_candidates: &[ToneCandidate], answer: Answer) -> (r: Option<
    (ToneCandidate, String),
>)
    ensures
        r is None <==> cab_candidates@.len() == 0,
        r matches Some(pick) ==> pick.0 == cab_candidates@[cab_position(
            answer,
            cab_candidates@.len(),
        ) as int] && pick.1@ == cab_reason(answer),
{
    if cab_candidates.len() == 0 {
        return None;
    }
    let (at, reason) = match answer {
        Answer::Given(doc) => {
            let at: usize = match doc.get("selected_index") {
                Some(v) => match position_of(v) {
                    Some(p) => if p < cab_candidates.len() {
                        p
                    } else {
                        0
                    },
                    None => 0,
                },
                None => 0,
            };
            let reason = match stated_line(doc.get("reason")) {
                Some(r) => r,
                None => String::from_str(REASON_BEST_MATCH),
            };
            (at, reason)
        },
        Answer::Failed(err) => {
            let mut reason = String::from_str(REASON_BY_POPULARITY);
            reason.append(err);
            reason.push(')');
            (0, reason)
        },
    };
    Some((cab_candidates[at].duplicate(), reason))
}

} // verus!

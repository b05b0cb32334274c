//! The questions put to the completion service.
//!
//! Each prompt is a fixed text with the request, the candidates and the
//! limits filled in. Free text is put on a single line before it is filled
//! in, and lists are given as compact JSON.

use crate::catalog::{ModelFile, ToneCandidate};
use crate::decimal::{decimal, digits_of};
use crate::heuristics::{tone_contains_boost, tone_is_preamp_or_boost_pedal};
use crate::json::{json_text, write_json_text, Json};
use crate::text::{prefix_chars, sanitize_line, single_line, string_of, take_chars};
use vstd::prelude::*;
use vstd::string::StringExecFns;

verus! {

/// How many characters of a description a candidate summary shows.
pub const SUMMARY_CHARS: usize = 160;

/// How every prompt begins; the request follows.
pub const PROMPT_HEAD: &'static str =
    "\nUser request: \"";

/// The analysis prompt after the request.
pub const ANALYSIS_TAIL: &'static str =
    "\"\n\nExtract practical tone search terms and explain your reasoning for a beginner guitarist.\nRules:\n- Choose realistic, searchable tone terms.\n- `search_queries`: max 3 short queries.\n- `fallback_queries`: max 3 alternate queries.\n- `gear_type`: \"amp\", \"ir\", \"pedal\", or null.\n- `description`: one-line summary of the intended tone.\n- `explanation_steps`: 3-5 concise one-line steps.\n- Every string must be single-line (no newline in values).\n\nReturn only JSON:\n{\n  \"search_queries\": [\"query1\", \"query2\"],\n  \"gear_type\": \"amp\",\n  \"description\": \"Short summary\",\n  \"fallback_queries\": [\"alt1\", \"alt2\"],\n  \"explanation_steps\": [\"step 1\", \"step 2\", \"step 3\"]\n}\n";

/// The selection prompt between the request and the candidates.
pub const SELECTION_LIST_INTRO: &'static str =
    "\"\n\nCandidate tones:\n";

/// The selection prompt between the candidates and the count.
pub const SELECTION_COUNT_INTRO: &'static str =
    "\n\nChoose the best ";

/// The selection prompt after the count.
pub const SELECTION_TAIL: &'static str =
    " tones.\nSelection criteria:\n- Relevance to requested artist/song/tone character.\n- Popularity and reliability (downloads).\n- Avoid redundant boost/pedal picks when amp profile already includes boost/OD.\n- Use only listed indexes.\n\nReturn only JSON:\n{\n  \"selected_indices\": [0, 2],\n  \"selection_reasons\": [\n    { \"index\": 0, \"reason\": \"Closest match for requested mid-gain tone.\" },\n    { \"index\": 2, \"reason\": \"Popular profile and similar voicing.\" }\n  ]\n}\n";

/// The model prompt between the request and the title.
pub const MODELS_TITLE_INTRO: &'static str =
    "\"\nTone title: \"";

/// The model prompt between the title and the description.
pub const MODELS_DESCRIPTION_INTRO: &'static str =
    "\"\nTone description: \"";

/// The model prompt between the description and the gear category.
pub const MODELS_GEAR_INTRO: &'static str =
    "\"\nTone gear: \"";

/// The model prompt between the gear category and the models.
pub const MODELS_LIST_INTRO: &'static str =
    "\"\n\nAvailable models:\n";

/// The model prompt after the models.
pub const MODELS_TAIL: &'static str =
    "\n\nSelect only useful models for this request.\nConstraints:\n- If tone gear is `amp`: avoid irrelevant gain channels.\n- If tone gear is `ir`: prioritize practical cabinet choices for this amp context.\n- Prefer practical model variants.\n- Select max 5 models (for `ir`, prefer 1-2 unless multiple are clearly needed).\n\nReturn only JSON:\n{\n  \"selected_indices\": [0, 2],\n  \"model_reasons\": [\n    { \"index\": 0, \"reason\": \"Main channel matches requested tone.\" },\n    { \"index\": 2, \"reason\": \"Alternative gain level for flexibility.\" }\n  ]\n}\n";

/// The cabinet-need prompt between the request and the title.
pub const CAB_NEED_TITLE_INTRO: &'static str =
    "\"\nAmp candidate title: \"";

/// The cabinet-need prompt between the title and the description.
pub const CAB_NEED_DESCRIPTION_INTRO: &'static str =
    "\"\nAmp candidate description: \"";

/// The cabinet-need prompt after the description.
pub const CAB_NEED_TAIL: &'static str =
    "\"\n\nDecide if this amp profile needs an external cab/IR to complete the rig.\nUse natural judgement from the text (do not apply strict keyword-only logic).\n\nReturn only JSON:\n{\n  \"needs_cab\": true,\n  \"reason\": \"Short explanation\"\n}\n";

/// The cabinet-choice prompt between the request and the amplifier title.
pub const CAB_CHOICE_AMP_INTRO: &'static str =
    "\"\nSelected amp: \"";

/// The cabinet-choice prompt between title and description of the amplifier.
pub const CAB_CHOICE_AMP_SEPARATOR: &'static str =
    "\" / \"";

/// The cabinet-choice prompt between the amplifier and the candidates.
pub const CAB_CHOICE_LIST_INTRO: &'static str =
    "\"\n\nChoose the best matching cab/IR from these candidates:\n";

/// The cabinet-choice prompt after the candidates.
pub const CAB_CHOICE_TAIL: &'static str =
    "\n\nReturn only JSON:\n{\n  \"selected_index\": 0,\n  \"reason\": \"Short explanation\"\n}\n";

/// `doc` is the summary of `tone` at position `at` of the shortlist.
pub open spec fn is_tone_summary(doc: Json, at: int, tone: ToneCandidate) -> bool {
    &&& doc matches Json::Object(m)
    &&& m@.len() == 8
    &&& m@[0].0@ == "index"@ && m@[0].1 == Json::Uint(at as u64)
    &&& m@[1].0@ == "title"@ && m@[1].1.text() == Some(tone.title@)
    &&& m@[2].0@ == "description"@ && m@[2].1.text() == Some(
        prefix_chars(single_line(tone.description@), SUMMARY_CHARS as nat),
    )
    &&& m@[3].0@ == "gear"@ && m@[3].1.text() == Some(tone.gear@)
    &&& m@[4].0@ == "platform"@ && m@[4].1.text() == Some(tone.platform@)
    &&& m@[5].0@ == "downloads"@ && m@[5].1 == Json::Int(tone.downloads)
    &&& m@[6].0@ == "contains_boost_in_chain"@ && m@[6].1 == Json::Bool(tone.is_boosted_amp())
    &&& m@[7].0@ == "is_preamp_or_boost_pedal"@ && m@[7].1 == Json::Bool(tone.is_boost_pedal())
}

/// `doc` is the summary of `model` at position `at` of the listing.
pub open spec fn is_model_summary(doc: Json, at: int, model: ModelFile) -> bool {
    &&& doc matches Json::Object(m)
    &&& m@.len() == 3
    &&& m@[0].0@ == "index"@ && m@[0].1 == Json::Uint(at as u64)
    &&& m@[1].0@ == "name"@ && m@[1].1.text() == Some(model.name@)
    &&& m@[2].0@ == "size"@ && m@[2].1.text() == Some(model.size@)
}

/// `doc` is the summary of the cabinet `tone` at position `at` of the pool.
pub open spec fn is_cab_summary(doc: Json, at: int, tone: ToneCandidate) -> bool {
    &&& doc matches Json::Object(m)
    &&& m@.len() == 5
    &&& m@[0].0@ == "index"@ && m@[0].1 == Json::Uint(at as u64)
    &&& m@[1].0@ == "title"@ && m@[1].1.text() == Some(tone.title@)
    &&& m@[2].0@ == "description"@ && m@[2].1.text() == Some(single_line(tone.description@))
    &&& m@[3].0@ == "downloads"@ && m@[3].1 == Json::Int(tone.downloads)
    &&& m@[4].0@ == "platform"@ && m@[4].1.text() == Some(tone.platform@)
}

/// `doc` lists the candidates `tones`, one summary each, in order.
pub open spec fn lists_tones(doc: Json, tones: Seq<ToneCandidate>) -> bool {
    &&& doc matches Json::Array(a)
    &&& a@.len() == tones.len()
    &&& forall|i: int| 0 <= i < tones.len() ==> is_tone_summary(#[trigger] a@[i], i, tones[i])
}

/// `doc` lists the models `models`, one summary each, in order.
pub open spec fn lists_models(doc: Json, models: Seq<ModelFile>) -> bool {
    &&& doc matches Json::Array(a)
    &&& a@.len() == models.len()
    &&& forall|i: int| 0 <= i < models.len() ==> is_model_summary(#[trigger] a@[i], i, models[i])
}

/// `doc` lists the cabinets `tones`, one summary each, in order.
pub open spec fn lists_cabs(doc: Json, tones: Seq<ToneCandidate>) -> bool {
    &&& doc matches Json::Array(a)
    &&& a@.len() == tones.len()
    &&& forall|i: int| 0 <= i < tones.len() ==> is_cab_summary(#[trigger] a@[i], i, tones[i])
}

/// A string member of a summary.
fn member(key: &str, value: &str) -> (r: (String, Json))
    ensures
        r.0@ == key@,
        r.1.text() == Some(value@),
{
    (String::from_str(key), Json::Str(String::from_str(value)))
}

/// The summaries of the shortlist that the selection prompt shows.
pub fn tone_summaries(tones: &[ToneCandidate]) -> (r: Json)
    ensures
        lists_tones(r, tones@),
{
    let mut list: Vec<Json> = Vec::new();
    let mut i: usize = 0;
    while i < tones.len()
        invariant
            i <= tones.len(),
            list@.len() == i,
            forall|k: int| 0 <= k < i ==> is_tone_summary(#[trigger] list@[k], k, tones@[k]),
        decreases tones.len() - i,
    {
        let tone = &tones[i];
        let shown = take_chars(sanitize_line(tone.description.as_str()).as_str(), SUMMARY_CHARS);
        let mut m: Vec<(String, Json)> = Vec::new();
        m.push((String::from_str("index"), Json::Uint(i as u64)));
        m.push(member("title", tone.title.as_str()));
        m.push(member("description", shown.as_str()));
        m.push(member("gear", tone.gear.as_str()));
        m.push(member("platform", tone.platform.as_str()));
        m.push((String::from_str("downloads"), Json::Int(tone.downloads)));
        m.push((String::from_str("contains_boost_in_chain"), Json::Bool(tone_contains_boost(tone))));
        m.push(
            (
                String::from_str("is_preamp_or_boost_pedal"),
                Json::Bool(tone_is_preamp_or_boost_pedal(tone)),
            ),
        );
        list.push(Json::Object(m));
        i += 1;
    }
    Json::Array(list)
}

/// The summaries of the models that the model prompt shows.
pub fn model_summaries(models: &[ModelFile]) -> (r: Json)
    ensures
        lists_models(r, models@),
{
    let mut list: Vec<Json> = Vec::new();
    let mut i: usize = 0;
    while i < models.len()
        invariant
            i <= models.len(),
            list@.len() == i,
            forall|k: int| 0 <= k < i ==> is_model_summary(#[trigger] list@[k], k, models@[k]),
        decreases models.len() - i,
    {
        let model = &models[i];
        let mut m: Vec<(String, Json)> = Vec::new();
        m.push((String::from_str("index"), Json::Uint(i as u64)));
        m.push(member("name", model.name.as_str()));
        m.push(member("size", model.size.as_str()));
        list.push(Json::Object(m));
        i += 1;
    }
    Json::Array(list)
}

/// The summaries of the cabinets that the cabinet-choice prompt shows.
pub fn cab_summaries(tones: &[ToneCandidate]) -> (r: Json)
    ensures
        lists_cabs(r, tones@),
{
    let mut list: Vec<Json> = Vec::new();
    let mut i: usize = 0;
    while i < tones.len()
        invariant
            i <= tones.len(),
            list@.len() == i,
            forall|k: int| 0 <= k < i ==> is_cab_summary(#[trigger] list@[k], k, tones@[k]),
        decreases tones.len() - i,
    {
        let tone = &tones[i];
        let mut m: Vec<(String, Json)> = Vec::new();
        m.push((String::from_str("index"), Json::Uint(i as u64)));
        m.push(member("title", tone.title.as_str()));
        m.push(member("description", sanitize_line(tone.description.as_str()).as_str()));
        m.push((String::from_str("downloads"), Json::Int(tone.downloads)));
        m.push(member("platform", tone.platform.as_str()));
        list.push(Json::Object(m));
        i += 1;
    }
    Json::Array(list)
}

/// Asks for the analysis of a request.
pub fn analysis_prompt(request: &str) -> (r: String)
    ensures
        r@ == PROMPT_HEAD@ + single_line(request@) + ANALYSIS_TAIL@,
{
    let mut r = String::from_str(PROMPT_HEAD);
    r.append(sanitize_line(request).as_str());
    r.append(ANALYSIS_TAIL);
    r
}

/// Asks which of the listed candidates fit a request best.
pub fn selection_prompt(request: &str, summaries: &Json, max_selections: usize) -> (r: String)
    ensures
        r@ == PROMPT_HEAD@ + single_line(request@) + SELECTION_LIST_INTRO@ + json_text(*summaries)
            + SELECTION_COUNT_INTRO@ + decimal(max_selections as int) + SELECTION_TAIL@,
{
    let mut r = String::from_str(PROMPT_HEAD);
    r.append(sanitize_line(request).as_str());
    r.append(SELECTION_LIST_INTRO);
    r.append(write_json_text(summaries).as_str());
    r.append(SELECTION_COUNT_INTRO);
    r.append(string_of(&digits_of(max_selections as u128)).as_str());
    r.append(SELECTION_TAIL);
    r
}

/// Asks which of the listed models of a catalog entry are worth fetching.
pub fn models_prompt(request: &str, tone: &ToneCandidate, summaries: &Json) -> (r: String)
    ensures
        r@ == PROMPT_HEAD@ + single_line(request@) + MODELS_TITLE_INTRO@ + single_line(tone.title@)
            + MODELS_DESCRIPTION_INTRO@ + single_line(tone.description@) + MODELS_GEAR_INTRO@
            + single_line(tone.gear@) + MODELS_LIST_INTRO@ + json_text(*summaries) + MODELS_TAIL@,
{
    let mut r = String::from_str(PROMPT_HEAD);
    r.append(sanitize_line(request).as_str());
    r.append(MODELS_TITLE_INTRO);
    r.append(sanitize_line(tone.title.as_str()).as_str());
    r.append(MODELS_DESCRIPTION_INTRO);
    r.append(sanitize_line(tone.description.as_str()).as_str());
    r.append(MODELS_GEAR_INTRO);
    r.append(sanitize_line(tone.gear.as_str()).as_str());
    r.append(MODELS_LIST_INTRO);
    r.append(write_json_text(summaries).as_str());
    r.append(MODELS_TAIL);
    r
}

/// Asks whether an amplifier needs a companion cabinet.
pub fn cab_need_prompt(request: &str, amp: &ToneCandidate) -> (r: String)
    ensures
        r@ == PROMPT_HEAD@ + single_line(request@) + CAB_NEED_TITLE_INTRO@ + single_line(
            amp.title@,
        ) + CAB_NEED_DESCRIPTION_INTRO@ + single_line(amp.description@) + CAB_NEED_TAIL@,
{
    let mut r = String::from_str(PROMPT_HEAD);
    r.append(sanitize_line(request).as_str());
    r.append(CAB_NEED_TITLE_INTRO);
    r.append(sanitize_line(amp.title.as_str()).as_str());
    r.append(CAB_NEED_DESCRIPTION_INTRO);
    r.append(sanitize_line(amp.description.as_str()).as_str());
    r.append(CAB_NEED_TAIL);
    r
}

/// Asks which of the listed cabinets goes best with an amplifier.
pub fn cab_choice_prompt(request: &str, amp: &ToneCandidate, summaries: &Json) -> (r: String)
    ensures
        r@ == PROMPT_HEAD@ + single_line(request@) + CAB_CHOICE_AMP_INTRO@ + single_line(
            amp.title@,
        ) + CAB_CHOICE_AMP_SEPARATOR@ + single_line(amp.description@) + CAB_CHOICE_LIST_INTRO@
            + json_text(*summaries) + CAB_CHOICE_TAIL@,
{
    let mut r = String::from_str(PROMPT_HEAD);
    r.append(sanitize_line(request).as_str());
    r.append(CAB_CHOICE_AMP_INTRO);
    r.append(sanitize_line(amp.title.as_str()).as_str());
    r.append(CAB_CHOICE_AMP_SEPARATOR);
    r.append(sanitize_line(amp.description.as_str()).as_str());
    r.append(CAB_CHOICE_LIST_INTRO);
    r.append(write_json_text(summaries).as_str());
    r.append(CAB_CHOICE_TAIL);
    r
}

} // verus!

//! The request analyzer: what is searched for, read from the answer of the
//! completion service or, without an answer, taken from the request itself.

use crate::advice::Answer;
use crate::json::Json;
use crate::queries::{first_lines, texts_of};
use crate::text::{same_text, sanitize_line, single_line};
use vstd::prelude::*;
use vstd::string::StringExecFns;

verus! {

/// How many search terms of each kind an analysis keeps.
pub const MAX_QUERIES: usize = 3;

/// How many reasoning steps an analysis keeps.
pub const MAX_STEPS: usize = 5;

/// The description of an analysis whose answer gave none.
pub const DEFAULT_DESCRIPTION: &'static str = "Request analysis completed";

/// The description of an analysis made without an answer.
pub const DEGRADED_DESCRIPTION: &'static str =
    "Fallback analysis used because Gemini response was invalid.";

/// The reasoning steps of an analysis made without an answer.
pub const DEGRADED_STEPS: [&'static str; 3] = [
    "Gemini did not return valid JSON for analysis.",
    "Used the original user request directly as the main search query.",
    "Continued with neutral gear filter.",
];

/// What stands between the search terms when they are listed in one line.
pub const LIST_SEPARATOR: &'static str = ", ";

/// What a request comes down to: search terms, an optional gear filter, a
/// one-line description and the reasoning behind them.
#[derive(Debug, PartialEq, Eq)]
pub struct Analysis {
    pub search_queries: Vec<String>,
    pub gear_type: Option<String>,
    pub description: String,
    pub fallback_queries: Vec<String>,
    pub explanation_steps: Vec<String>,
}

/// The non-empty single-line forms of the strings among `items`, in order.
pub open spec fn lines_in(items: Seq<Json>) -> Seq<Seq<char>>
    decreases items.len(),
{
    if items.len() == 0 {
        Seq::empty()
    } else {
        let head = lines_in(items.drop_last());
        match items.last().text() {
            Some(s) => if single_line(s).len() > 0 {
                head.push(single_line(s))
            } else {
                head
            },
            None => head,
        }
    }
}

/// The first `max` lines of a member that is a list; no lines for a missing
/// member and for any other value.
pub open spec fn listed_lines(value: Option<Json>, max: nat) -> Seq<Seq<char>> {
    match value {
        Some(j) => match j.items() {
            Some(items) => first_lines(lines_in(items), max),
            None => Seq::empty(),
        },
        None => Seq::empty(),
    }
}

/// The single-line form of a member that is a string.
pub open spec fn line_in(value: Option<Json>) -> Option<Seq<char>> {
    match value {
        Some(j) => match j.text() {
            Some(s) => Some(single_line(s)),
            None => None,
        },
        None => None,
    }
}

/// A gear category that a search can be restricted to.
pub open spec fn is_gear_filter(s: Seq<char>) -> bool {
    s == "amp"@ || s == "ir"@ || s == "pedal"@
}

/// `lines` in one line, with `sep` between them.
pub open spec fn joined(lines: Seq<Seq<char>>, sep: Seq<char>) -> Seq<char>
    decreases lines.len(),
{
    if lines.len() == 0 {
        Seq::empty()
    } else if lines.len() == 1 {
        lines[0]
    } else {
        joined(lines.drop_last(), sep) + sep + lines.last()
    }
}

/// The search terms of an answer: its first three, or the request itself
/// when it names none.
pub open spec fn search_terms(answer: Json, request: Seq<char>) -> Seq<Seq<char>> {
    let named = listed_lines(answer.field("search_queries"@), MAX_QUERIES as nat);
    if named.len() == 0 {
        seq![single_line(request)]
    } else {
        named
    }
}

/// The gear filter of an answer, if it names one that exists.
pub open spec fn gear_filter(answer: Json) -> Option<Seq<char>> {
    match line_in(answer.field("gear_type"@)) {
        Some(g) => if is_gear_filter(g) {
            Some(g)
        } else {
            None
        },
        None => None,
    }
}

/// The description of an answer, or the default when it gives none.
pub open spec fn description_of(answer: Json) -> Seq<char> {
    match line_in(answer.field("description"@)) {
        Some(d) => if d.len() > 0 {
            d
        } else {
            DEFAULT_DESCRIPTION@
        },
        None => DEFAULT_DESCRIPTION@,
    }
}

/// The reasoning steps that are written when an answer gives none: the
/// request, the search terms, and the gear filter if there is one.
pub open spec fn generated_steps(
    request: Seq<char>,
    terms: Seq<Seq<char>>,
    gear: Option<Seq<char>>,
) -> Seq<Seq<char>> {
    let base = seq![
        "Target tone request: "@ + single_line(request),
        "Primary search queries: "@ + joined(terms, LIST_SEPARATOR@),
    ];
    match gear {
        Some(g) => base.push("Focus on gear type: "@ + g),
        None => base,
    }
}

/// The reasoning steps of an answer: its first five, or generated ones.
pub open spec fn steps_of(answer: Json, request: Seq<char>) -> Seq<Seq<char>> {
    let given = listed_lines(answer.field("explanation_steps"@), MAX_STEPS as nat);
    if given.len() == 0 {
        generated_steps(request, search_terms(answer, request), gear_filter(answer))
    } else {
        given
    }
}

/// The view of an optional string.
pub open spec fn view_of(s: Option<String>) -> Option<Seq<char>> {
    match s {
        Some(t) => Some(t@),
        None => None,
    }
}

/// The texts of a list of literals.
pub open spec fn literals(v: Seq<&'static str>) -> Seq<Seq<char>> {
    Seq::new(v.len(), |i: int| v[i]@)
}

impl Analysis {
    /// This is the analysis that `answer` gives for `request`.
    pub open spec fn reads(self, answer: Json, request: Seq<char>) -> bool {
        &&& texts_of(self.search_queries@) == search_terms(answer, request)
        &&& view_of(self.gear_type) == gear_filter(answer)
        &&& self.description@ == description_of(answer)
        &&& texts_of(self.fallback_queries@) == listed_lines(
            answer.field("fallback_queries"@),
            MAX_QUERIES as nat,
        )
        &&& texts_of(self.explanation_steps@) == steps_of(answer, request)
    }

    /// This is the analysis that stands in when there is no answer: the
    /// request is the only search term, and nothing is filtered.
    pub open spec fn is_degraded(self, request: Seq<char>) -> bool {
        &&& texts_of(self.search_queries@) == seq![single_line(request)]
        &&& self.gear_type is None
        &&& self.description@ == DEGRADED_DESCRIPTION@
        &&& self.fallback_queries@.len() == 0
        &&& texts_of(self.explanation_steps@) == literals(DEGRADED_STEPS@)
    }

    /// The analysis respects its limits: one to three search terms, at most
    /// three fallback terms, and a gear filter that exists.
    pub open spec fn wf(self) -> bool {
        &&& 1 <= self.search_queries@.len() <= MAX_QUERIES
        &&& self.fallback_queries@.len() <= MAX_QUERIES
        &&& self.gear_type matches Some(g) ==> is_gear_filter(g@)
    }
}

/// The lines of a prefix of a list are a prefix of the lines of the list.
proof fn lemma_lines_in_grow(items: Seq<Json>, k: int)
    requires
        0 <= k <= items.len(),
    ensures
        lines_in(items.take(k)).len() <= lines_in(items).len(),
        lines_in(items.take(k)) == lines_in(items).take(lines_in(items.take(k)).len() as int),
    decreases items.len() - k,
{
    let whole = lines_in(items);
    let part = lines_in(items.take(k));
    if k == items.len() {
        assert(items.take(k) =~= items);
        assert(whole.take(whole.len() as int) =~= whole);
    } else {
        let shorter = items.drop_last();
        assert(shorter.take(k) =~= items.take(k));
        lemma_lines_in_grow(shorter, k);
        let mid = lines_in(shorter);
        assert(mid.take(part.len() as int) =~= whole.take(part.len() as int));
    }
}

/// Reads up to `max_items` lines from a member that should be a list of
/// strings: each string is put on a single line, and what is no string or
/// comes out empty is skipped.
pub fn parse_explanation_lines(value: Option<&Json>, max_items: usize) -> (r: Vec<String>)
    ensures
        texts_of(r@) == listed_lines(
            match value {
                Some(j) => Some(*j),
                None => None,
            },
            max_items as nat,
        ),
        r@.len() <= max_items,
{
    let mut out: Vec<String> = Vec::new();
    assert(texts_of(out@) =~= Seq::<Seq<char>>::empty());
    let items = match value {
        Some(j) => match j.as_array() {
            Some(items) => items,
            None => {
                return out;
            },
        },
        None => {
            return out;
        },
    };
    let mut i: usize = 0;
    assert(items@.take(0) =~= Seq::<Json>::empty());
    while i < items.len() && out.len() < max_items
        invariant
            i <= items.len(),
            texts_of(out@) == lines_in(items@.take(i as int)),
            out@.len() <= max_items,
        decreases items.len() - i,
    {
        proof {
            let next = items@.take(i + 1);
            assert(next.drop_last() =~= items@.take(i as int));
            assert(next.last() == items@[i as int]);
        }
        match items[i].as_str() {
            Some(s) => {
                let line = sanitize_line(s);
                if !line.as_str().is_empty() {
                    let ghost before = texts_of(out@);
                    out.push(line);
                    assert(texts_of(out@) =~= before.push(line@));
                }
            },
            None => {},
        }
        i += 1;
    }
    proof {
        lemma_lines_in_grow(items@, i as int);
        let whole = lines_in(items@);
        if i == items.len() {
            assert(items@.take(i as int) =~= items@);
        }
        assert(first_lines(whole, max_items as nat) =~= texts_of(out@));
    }
    out
}

/// Reads a member that should be a string, on a single line.
fn line_of(value: Option<&Json>) -> (r: Option<String>)
    ensures
        view_of(r) == line_in(
            match value {
                Some(j) => Some(*j),
                None => None,
            },
        ),
{
    match value {
        Some(j) => match j.as_str() {
            Some(s) => Some(sanitize_line(s)),
            None => None,
        },
        None => None,
    }
}

/// Lists `lines` in one line, with `sep` between them.
pub fn join_lines(lines: &Vec<String>, sep: &str) -> (r: String)
    ensures
        r@ == joined(texts_of(lines@), sep@),
{
    let mut r = String::new();
    let mut i: usize = 0;
    let ghost all = texts_of(lines@);
    assert(all.take(0) =~= Seq::<Seq<char>>::empty());
    while i < lines.len()
        invariant
            i <= lines.len(),
            all == texts_of(lines@),
            r@ == joined(all.take(i as int), sep@),
        decreases lines.len() - i,
    {
        proof {
            let next = all.take(i + 1);
            assert(next.drop_last() =~= all.take(i as int));
            assert(next.last() == lines@[i as int]@);
        }
        if i > 0 {
            r.append(sep);
        } else {
            assert(Seq::<char>::empty() + lines@[0]@ =~= lines@[0]@);
        }
        r.append(lines[i].as_str());
        i += 1;
    }
    assert(all.take(lines.len() as int) =~= all);
    r
}

/// `head` followed by `tail`.
fn labelled(head: &str, tail: &str) -> (r: String)
    ensures
        r@ == head@ + tail@,
{
    let mut r = String::from_str(head);
    r.append(tail);
    r
}

/// Turns the answer of the completion service into an analysis.
///
/// With an answer, every part is read from it and brought into its limits;
/// a part that the answer lacks gets its default, and the request itself is
/// searched when no term is named. Without an answer the degraded analysis
/// is returned, so that the run can go on.
pub fn analyze_tone_request(answer: Answer, user_request: &str) -> (r: Analysis)
    ensures
        r.wf(),
        match answer {
            Answer::Given(doc) => r.reads(*doc, user_request@),
            Answer::Failed(_) => r.is_degraded(user_request@),
        },
{
    let request = sanitize_line(user_request);
    let doc = match answer {
        Answer::Given(doc) => doc,
        Answer::Failed(_) => {
            let mut search: Vec<String> = Vec::new();
            search.push(request);
            let mut steps: Vec<String> = Vec::new();
            steps.push(String::from_str(DEGRADED_STEPS[0]));
            steps.push(String::from_str(DEGRADED_STEPS[1]));
            steps.push(String::from_str(DEGRADED_STEPS[2]));
            let r = Analysis {
                search_queries: search,
                gear_type: None,
                description: String::from_str(DEGRADED_DESCRIPTION),
                fallback_queries: Vec::new(),
                explanation_steps: steps,
            };
            assert(texts_of(r.search_queries@) =~= seq![single_line(user_request@)]);
            assert(texts_of(r.explanation_steps@) =~= literals(DEGRADED_STEPS@));
            return r;
        },
    };
    let mut search = parse_explanation_lines(doc.get("search_queries"), MAX_QUERIES);
    let fallback = parse_explanation_lines(doc.get("fallback_queries"), MAX_QUERIES);
    if search.len() == 0 {
        search.push(request.clone());
        assert(texts_of(search@) =~= seq![single_line(user_request@)]);
    }
    let gear = match line_of(doc.get("gear_type")) {
        Some(g) => if same_text(g.as_str(), "amp") || same_text(g.as_str(), "ir") || same_text(
            g.as_str(),
            "pedal",
        ) {
            Some(g)
        } else {
            None
        },
        None => None,
    };
    let description = match line_of(doc.get("description")) {
        Some(d) => if d.as_str().is_empty() {
            String::from_str(DEFAULT_DESCRIPTION)
        } else {
            d
        },
        None => String::from_str(DEFAULT_DESCRIPTION),
    };
    let mut steps = parse_explanation_lines(doc.get("explanation_steps"), MAX_STEPS);
    if steps.len() == 0 {
        steps.push(labelled("Target tone request: ", request.as_str()));
        let listed = join_lines(&search, LIST_SEPARATOR);
        steps.push(labelled("Primary search queries: ", listed.as_str()));
        match &gear {
            Some(g) => {
                steps.push(labelled("Focus on gear type: ", g.as_str()));
            },
            None => {},
        }
        assert(texts_of(steps@) =~= generated_steps(
            user_request@,
            texts_of(search@),
            view_of(gear),
        ));
    }
    Analysis {
        search_queries: search,
        gear_type: gear,
        description,
        fallback_queries: fallback,
        explanation_steps: steps,
    }
}

} // verus!

//! From a pool and the answer of the completion service to the selected
//! candidates with their reasons.

use crate::advice::{parse_picks, parse_reason, picks_in, reason_in, Answer};
use crate::catalog::ToneCandidate;
use crate::json::Json;
use crate::selection::{postprocess_selected_indices, rank_candidates, ranked, selection};
use vstd::prelude::*;
use vstd::string::StringExecFns;

verus! {

/// How many of the most downloaded candidates the completion service gets
/// to see.
pub const SHORTLIST_SIZE: usize = 15;

/// The end of the reason written for a selected candidate that the answer
/// gives no reason for.
pub const RELEVANCE_SUFFIX: &'static str = " selected for relevance and popularity.";

/// The end of the reason written when there was no answer at all.
pub const POPULARITY_SUFFIX: &'static str = " selected by fallback ranking (top downloads).";

/// A selected candidate and why it was selected.
#[derive(Debug, PartialEq, Eq)]
pub struct SelectionDecision {
    pub candidate: ToneCandidate,
    pub reason: String,
}

/// How many candidates of a pool of `n` are shown to the completion
/// service.
pub open spec fn shortlist_len(n: nat) -> nat {
    if n <= SHORTLIST_SIZE {
        n
    } else {
        SHORTLIST_SIZE as nat
    }
}

/// The picks that lie below `window`, in order.
pub open spec fn within(picks: Seq<usize>, window: nat) -> Seq<usize>
    decreases picks.len(),
{
    if picks.len() == 0 {
        Seq::empty()
    } else {
        let head = within(picks.drop_last(), window);
        if picks.last() < window {
            head.push(picks.last())
        } else {
            head
        }
    }
}

/// The picks that an answer makes among the shortlist of a pool of `n`.
/// No answer makes no picks.
pub open spec fn answered_picks(answer: Option<Json>, n: nat) -> Seq<usize> {
    match answer {
        Some(doc) => within(picks_in(doc.field("selected_indices"@)), shortlist_len(n)),
        None => Seq::empty(),
    }
}

/// The positions, in the ranked pool, of the candidates that are selected.
pub open spec fn chosen(pool: Seq<ToneCandidate>, answer: Option<Json>, max: nat) -> Seq<usize> {
    selection(ranked(pool), answered_picks(answer, pool.len()), max)
}

/// The reason recorded for the candidate at position `at` of the ranked
/// pool: the one that the answer gives, or a generated one.
pub open spec fn reason_for(tone: ToneCandidate, at: usize, answer: Option<Json>) -> Seq<char> {
    match answer {
        Some(doc) => match reason_in(doc.field("selection_reasons"@), at) {
            Some(r) => r,
            None => tone.title@ + RELEVANCE_SUFFIX@,
        },
        None => tone.title@ + POPULARITY_SUFFIX@,
    }
}

/// The candidates that the completion service gets to see: the head of the
/// ranked pool.
pub fn shortlist(tones: &[ToneCandidate]) -> (r: Vec<ToneCandidate>)
    ensures
        r@ == ranked(tones@).take(shortlist_len(tones@.len()) as int),
{
    let mut r = rank_candidates(tones);
    if r.len() > SHORTLIST_SIZE {
        r.truncate(SHORTLIST_SIZE);
    } else {
        assert(r@.take(r.len() as int) =~= r@);
    }
    r
}

/// The picks that lie below `window`.
fn picks_within(picks: &Vec<usize>, window: usize) -> (r: Vec<usize>)
    ensures
        r@ == within(picks@, window as nat),
{
    let mut r: Vec<usize> = Vec::new();
    let mut i: usize = 0;
    assert(picks@.take(0) =~= Seq::<usize>::empty());
    while i < picks.len()
        invariant
            i <= picks.len(),
            r@ == within(picks@.take(i as int), window as nat),
        decreases picks.len() - i,
    {
        proof {
            let next = picks@.take(i + 1);
            assert(next.drop_last() =~= picks@.take(i as int));
            assert(next.last() == picks@[i as int]);
        }
        if picks[i] < window {
            r.push(picks[i]);
        }
        i += 1;
    }
    assert(picks@.take(picks.len() as int) =~= picks@);
    r
}

/// Selects up to `max_selections` candidates from a pool.
///
/// The pool is ranked by downloads, and the picks that the answer makes
/// among its first fifteen are run through the selection rules; with no
/// answer the rules start from an empty selection. Each selected candidate
/// comes with a reason that is never empty: the one from the answer, or a
/// generated one.
pub fn select_best_tones(
    tones: &[ToneCandidate],
    answer: Answer,
    max_selections: usize,
) -> (r: Vec<SelectionDecision>)
    ensures
        r@.len() == chosen(tones@, answer.given(), max_selections as nat).len(),
        forall|k: int|
            0 <= k < r@.len() ==> {
                let at = chosen(tones@, answer.given(), max_selections as nat)[k];
                &&& at < tones@.len()
                &&& (#[trigger] r@[k]).candidate == ranked(tones@)[at as int]
                &&& r@[k].reason@ == reason_for(r@[k].candidate, at, answer.given())
                &&& r@[k].reason@.len() > 0
            },
{
    let pool = rank_candidates(tones);
    let window: usize = if pool.len() <= SHORTLIST_SIZE {
        pool.len()
    } else {
        SHORTLIST_SIZE
    };
    let picks = match answer {
        Answer::Given(doc) => picks_within(&parse_picks(doc.get("selected_indices")), window),
        Answer::Failed(_) => Vec::new(),
    };
    let indices = postprocess_selected_indices(pool.as_slice(), picks.as_slice(), max_selections);
    proof {
        crate::selection_proofs::lemma_selection_is_well_formed(
            pool@,
            picks@,
            max_selections as nat,
        );
    }
    let mut out: Vec<SelectionDecision> = Vec::new();
    let mut k: usize = 0;
    while k < indices.len()
        invariant
            k <= indices.len(),
            out@.len() == k,
            pool@ == ranked(tones@),
            pool@.len() == tones@.len(),
            indices@ == chosen(tones@, answer.given(), max_selections as nat),
            forall|j: int| 0 <= j < indices@.len() ==> (#[trigger] indices@[j]) < pool@.len(),
            forall|j: int|
                0 <= j < k ==> {
                    let at = indices@[j];
                    &&& (#[trigger] out@[j]).candidate == pool@[at as int]
                    &&& out@[j].reason@ == reason_for(out@[j].candidate, at, answer.given())
                    &&& out@[j].reason@.len() > 0
                },
        decreases indices.len() - k,
    {
        let at = indices[k];
        let candidate = pool[at].duplicate();
        let given = match answer {
            Answer::Given(doc) => parse_reason(doc.get("selection_reasons"), at),
            Answer::Failed(_) => None,
        };
        let reason = match given {
            Some(r) => r,
            None => {
                let mut r = candidate.title.clone();
                proof {
                    reveal_strlit(" selected for relevance and popularity.");
                    reveal_strlit(" selected by fallback ranking (top downloads).");
                }
                match answer {
                    Answer::Given(_) => {
                        r.append(RELEVANCE_SUFFIX);
                    },
                    Answer::Failed(_) => {
                        r.append(POPULARITY_SUFFIX);
                    },
                }
                r
            },
        };
        out.push(SelectionDecision { candidate, reason });
        k += 1;
    }
    out
}

} // verus!

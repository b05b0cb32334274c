//! The model filter: which model files of a catalog entry are fetched.

use crate::advice::{parse_picks, parse_reason, picks_in, reason_in, Answer};
use crate::catalog::ModelFile;
use crate::choice::within;
use crate::json::Json;
use crate::selection::prefix_upto;
use vstd::prelude::*;
use vstd::string::StringExecFns;

verus! {

/// How many models of one entry are fetched at most.
pub const MAX_MODELS: usize = 5;

/// How many models are fetched when the completion service gave no answer.
pub const FALLBACK_MODELS: usize = 2;

/// The end of the reason written for a model that the answer picks without
/// a reason.
pub const KEPT_SUFFIX: &'static str = " kept as a useful match for this tone.";

/// The middle of the reason written when there was no answer; the failure
/// of the completion service follows it.
pub const FALLBACK_INFIX: &'static str =
    " selected by fallback because Gemini response was invalid: ";

/// A model that is to be fetched, and why.
#[derive(Debug, PartialEq, Eq)]
pub struct ModelChoice {
    pub model: ModelFile,
    pub reason: String,
}

/// The first `count` positions of a list of `n`.
pub open spec fn leading(n: nat, count: nat) -> Seq<usize> {
    Seq::new(
        if n <= count {
            n
        } else {
            count
        },
        |i: int| i as usize,
    )
}

/// The positions of the models that an answer selects from a list of `n`:
/// the valid picks in the order given, five at most, and the first model
/// when nothing valid is picked.
pub open spec fn answered_models(answer: Json, n: nat) -> Seq<usize> {
    let named = prefix_upto(
        within(picks_in(answer.field("selected_indices"@)), n),
        MAX_MODELS as nat,
    );
    if named.len() == 0 && n > 0 {
        seq![0usize]
    } else {
        named
    }
}

/// The positions of the models that are fetched.
pub open spec fn selected_models(answer: Answer, n: nat) -> Seq<usize> {
    match answer {
        Answer::Given(doc) => answered_models(*doc, n),
        Answer::Failed(_) => leading(n, FALLBACK_MODELS as nat),
    }
}

/// The reason recorded for the model at position `at`.
pub open spec fn model_reason(model: ModelFile, at: usize, answer: Answer) -> Seq<char> {
    match answer {
        Answer::Given(doc) => match reason_in(doc.field("model_reasons"@), at) {
            Some(r) => r,
            None => model.name@ + KEPT_SUFFIX@,
        },
        Answer::Failed(err) => model.name@ + FALLBACK_INFIX@ + err@,
    }
}

/// Chooses the models of a catalog entry that are worth fetching.
///
/// An answer selects up to five of the listed models; picks outside the
/// list are ignored, and the first model stands in when none is left.
/// Without an answer the first two models are taken. Whenever the list is
/// not empty, at least one model is chosen, and each comes with a reason.
pub fn filter_models(models: &[ModelFile], answer: Answer) -> (r: Vec<ModelChoice>)
    ensures
        r@.len() == selected_models(answer, models@.len()).len(),
        forall|k: int|
            0 <= k < r@.len() ==> {
                let at = selected_models(answer, models@.len())[k];
                &&& at < models@.len()
                &&& (#[trigger] r@[k]).model == models@[at as int]
                &&& r@[k].reason@ == model_reason(r@[k].model, at, answer)
            },
        r@.len() <= MAX_MODELS,
        models@.len() > 0 ==> r@.len() >= 1,
{
    let n = models.len();
    let mut indices: Vec<usize> = Vec::new();
    match answer {
        Answer::Given(doc) => {
            let picks = parse_picks(doc.get("selected_indices"));
            let mut i: usize = 0;
            assert(picks@.take(0) =~= Seq::<usize>::empty());
            while i < picks.len() && indices.len() < MAX_MODELS
                invariant
                    i <= picks.len(),
                    indices@ == within(picks@.take(i as int), n as nat),
                    indices@.len() <= MAX_MODELS,
                    forall|k: int| 0 <= k < indices@.len() ==> (#[trigger] indices@[k]) < n,
                decreases picks.len() - i,
            {
                proof {
                    let next = picks@.take(i + 1);
                    assert(next.drop_last() =~= picks@.take(i as int));
                    assert(next.last() == picks@[i as int]);
                }
                if picks[i] < n {
                    indices.push(picks[i]);
                }
                i += 1;
            }
            proof {
                lemma_within_grows(picks@, n as nat, i as int);
                let whole = within(picks@, n as nat);
                if i == picks.len() {
                    assert(picks@.take(i as int) =~= picks@);
                }
                assert(prefix_upto(whole, MAX_MODELS as nat) =~= indices@);
            }
            if indices.len() == 0 && n > 0 {
                indices.push(0);
                assert(indices@ =~= seq![0usize]);
            }
        },
        Answer::Failed(_) => {
            let mut i: usize = 0;
            while i < n && i < FALLBACK_MODELS
                invariant
                    i <= n,
                    i <= FALLBACK_MODELS,
                    indices@.len() == i,
                    forall|k: int| 0 <= k < i ==> indices@[k] == k as usize,
                decreases n - i,
            {
                indices.push(i);
                i += 1;
            }
            assert(indices@ =~= leading(n as nat, FALLBACK_MODELS as nat));
        },
    }
    let mut out: Vec<ModelChoice> = Vec::new();
    let mut k: usize = 0;
    while k < indices.len()
        invariant
            k <= indices.len(),
            out@.len() == k,
            n == models@.len(),
            indices@ == selected_models(answer, n as nat),
            forall|j: int| 0 <= j < indices@.len() ==> (#[trigger] indices@[j]) < n,
            forall|j: int|
                0 <= j < k ==> {
                    let at = indices@[j];
                    &&& (#[trigger] out@[j]).model == models@[at as int]
                    &&& out@[j].reason@ == model_reason(out@[j].model, at, answer)
                },
        decreases indices.len() - k,
    {
        let at = indices[k];
        let model = models[at].duplicate();
        let reason = match answer {
            Answer::Given(doc) => match parse_reason(doc.get("model_reasons"), at) {
                Some(r) => r,
                None => {
                    let mut r = model.name.clone();
                    r.append(KEPT_SUFFIX);
                    r
                },
            },
            Answer::Failed(err) => {
                let mut r = model.name.clone();
                r.append(FALLBACK_INFIX);
                r.append(err);
                r
            },
        };
        out.push(ModelChoice { model, reason });
        k += 1;
    }
    out
}

/// The valid picks of a prefix are a prefix of the valid picks.
proof fn lemma_within_grows(picks: Seq<usize>, window: nat, k: int)
    requires
        0 <= k <= picks.len(),
    ensures
        within(picks.take(k), window).len() <= within(picks, window).len(),
        within(picks.take(k), window) == within(picks, window).take(
            within(picks.take(k), window).len() as int,
        ),
    decreases picks.len() - k,
{
    let whole = within(picks, window);
    let part = within(picks.take(k), window);
    if k == picks.len() {
        assert(picks.take(k) =~= picks);
        assert(whole.take(whole.len() as int) =~= whole);
    } else {
        let shorter = picks.drop_last();
        assert(shorter.take(k) =~= picks.take(k));
        lemma_within_grows(shorter, window, k);
        let mid = within(shorter, window);
        assert(mid.take(part.len() as int) =~= whole.take(part.len() as int));
    }
}

} // verus!

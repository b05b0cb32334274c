//! What holds of every selection that the engine returns.

use crate::catalog::{downloads_of, ToneCandidate};
use crate::heuristics::lemma_boosted_amp_is_no_pedal;
use crate::selection::{
    admitted, any_boosted_amp, barred, eligible, first_seen, lemma_ranking_is_ranking,
    prefix_upto, ranked, ranking, ranks_before, selection,
};
use vstd::prelude::*;

verus! {

/// The valid picks are positions of the list, each once, and none that was
/// named is missing.
proof fn lemma_first_seen_members(picks: Seq<usize>, n: nat)
    ensures
        first_seen(picks, n).no_duplicates(),
        forall|k: int|
            0 <= k < first_seen(picks, n).len() ==> (#[trigger] first_seen(picks, n)[k]) < n,
        forall|x: usize| picks.contains(x) && x < n ==> first_seen(picks, n).contains(x),
    decreases picks.len(),
{
    let out = first_seen(picks, n);
    if picks.len() > 0 {
        let head = first_seen(picks.drop_last(), n);
        let last = picks.last();
        lemma_first_seen_members(picks.drop_last(), n);
        assert forall|x: usize| picks.contains(x) && x < n implies out.contains(x) by {
            let w = choose|w: int| 0 <= w < picks.len() && picks[w] == x;
            if w < picks.len() - 1 {
                assert(picks.drop_last()[w] == x);
                assert(picks.drop_last().contains(x));
                assert(head.contains(x));
                let v = choose|v: int| 0 <= v < head.len() && head[v] == x;
                assert(out[v] == x);
            } else if head.contains(x) {
                let v = choose|v: int| 0 <= v < head.len() && head[v] == x;
                assert(out[v] == x);
            } else {
                assert(out[head.len() as int] == x);
            }
        }
    }
}

/// What the boost rule lets through are picks that it does not bar, in
/// order and without repetition.
proof fn lemma_admitted_members(tones: Seq<ToneCandidate>, guard: bool, picked: Seq<usize>)
    ensures
        admitted(tones, guard, picked).len() <= picked.len(),
        forall|k: int|
            0 <= k < admitted(tones, guard, picked).len() ==> !barred(
                tones,
                guard,
                #[trigger] admitted(tones, guard, picked)[k],
            ) && picked.contains(admitted(tones, guard, picked)[k]),
        forall|x: usize|
            picked.contains(x) && !barred(tones, guard, x) ==> admitted(
                tones,
                guard,
                picked,
            ).contains(x),
        picked.no_duplicates() ==> admitted(tones, guard, picked).no_duplicates(),
        !guard ==> admitted(tones, guard, picked) == picked,
    decreases picked.len(),
{
    let out = admitted(tones, guard, picked);
    if picked.len() > 0 {
        let shorter = picked.drop_last();
        let head = admitted(tones, guard, shorter);
        let last = picked.last();
        lemma_admitted_members(tones, guard, shorter);
        assert forall|k: int| 0 <= k < out.len() implies !barred(tones, guard, #[trigger] out[k])
            && picked.contains(out[k]) by {
            if k < head.len() {
                assert(out[k] == head[k]);
                let w = choose|w: int| 0 <= w < shorter.len() && shorter[w] == head[k];
                assert(picked[w] == out[k]);
            } else {
                assert(picked[picked.len() - 1] == out[k]);
            }
        }
        assert forall|x: usize| picked.contains(x) && !barred(tones, guard, x) implies out.contains(
            x,
        ) by {
            let w = choose|w: int| 0 <= w < picked.len() && picked[w] == x;
            if w < picked.len() - 1 {
                assert(shorter[w] == x);
                assert(shorter.contains(x));
                assert(head.contains(x));
                let v = choose|v: int| 0 <= v < head.len() && head[v] == x;
                assert(out[v] == x);
            } else {
                assert(out[head.len() as int] == x);
            }
        }
        if picked.no_duplicates() {
            assert(shorter.no_duplicates());
            if !barred(tones, guard, last) {
                assert forall|k: int| 0 <= k < head.len() implies head[k] != last by {
                    let w = choose|w: int| 0 <= w < shorter.len() && shorter[w] == head[k];
                    assert(picked[w] == head[k]);
                }
            }
        }
        if !guard {
            assert(out =~= picked);
        }
    } else {
        assert(out =~= picked);
    }
}

/// Eligible entries are neither kept already nor barred, and come from the
/// ranking.
proof fn lemma_eligible_members(
    tones: Seq<ToneCandidate>,
    guard: bool,
    kept: Seq<usize>,
    order: Seq<usize>,
)
    ensures
        eligible(tones, guard, kept, order).len() <= order.len(),
        forall|k: int|
            0 <= k < eligible(tones, guard, kept, order).len() ==> {
                let x = #[trigger] eligible(tones, guard, kept, order)[k];
                !barred(tones, guard, x) && !kept.contains(x) && order.contains(x)
            },
        order.no_duplicates() ==> eligible(tones, guard, kept, order).no_duplicates(),
        !guard && kept.len() == 0 ==> eligible(tones, guard, kept, order) == order,
    decreases order.len(),
{
    let out = eligible(tones, guard, kept, order);
    if order.len() > 0 {
        let shorter = order.drop_last();
        let head = eligible(tones, guard, kept, shorter);
        let last = order.last();
        lemma_eligible_members(tones, guard, kept, shorter);
        assert forall|k: int| 0 <= k < out.len() implies {
            let x = #[trigger] out[k];
            !barred(tones, guard, x) && !kept.contains(x) && order.contains(x)
        } by {
            if k < head.len() {
                assert(out[k] == head[k]);
                let w = choose|w: int| 0 <= w < shorter.len() && shorter[w] == head[k];
                assert(order[w] == out[k]);
            } else {
                assert(order[order.len() - 1] == out[k]);
            }
        }
        if order.no_duplicates() {
            assert(shorter.no_duplicates());
            if !(kept.contains(last) || barred(tones, guard, last)) {
                assert forall|k: int| 0 <= k < head.len() implies head[k] != last by {
                    let w = choose|w: int| 0 <= w < shorter.len() && shorter[w] == head[k];
                    assert(order[w] == head[k]);
                }
            }
        }
        if !guard && kept.len() == 0 {
            assert(out =~= order);
        }
    } else {
        assert(out =~= order);
    }
}

/// While a picked amplifier has a boost stage of its own, no boost pedal is
/// part of the selection, whether the completion service named it or the
/// popularity ranking would have brought it in.
pub proof fn lemma_selection_spares_boost_pedals(
    tones: Seq<ToneCandidate>,
    picks: Seq<usize>,
    max: nat,
)
    requires
        any_boosted_amp(tones, first_seen(picks, tones.len())),
    ensures
        forall|k: int|
            0 <= k < selection(tones, picks, max).len() ==> !tones[#[trigger] selection(
                tones,
                picks,
                max,
            )[k] as int].is_boost_pedal(),
{
    let picked = first_seen(picks, tones.len());
    let kept = admitted(tones, true, picked);
    let order = ranking(downloads_of(tones));
    let extra = eligible(tones, true, kept, order);
    let out = selection(tones, picks, max);
    lemma_admitted_members(tones, true, picked);
    lemma_eligible_members(tones, true, kept, order);
    assert forall|k: int| 0 <= k < out.len() implies !tones[#[trigger] out[k] as int].is_boost_pedal() by {
        if kept.len() >= max {
            assert(out[k] == kept[k]);
            assert(!barred(tones, true, kept[k]));
        } else if k < kept.len() {
            assert(out[k] == kept[k]);
            assert(!barred(tones, true, kept[k]));
        } else {
            let e = k - kept.len();
            assert(out[k] == extra[e]);
            assert(!barred(tones, true, extra[e]));
        }
    }
}

/// A selection never exceeds the maximum, names positions of the list only,
/// and names none of them twice.
pub proof fn lemma_selection_is_well_formed(
    tones: Seq<ToneCandidate>,
    picks: Seq<usize>,
    max: nat,
)
    requires
        tones.len() <= usize::MAX,
    ensures
        selection(tones, picks, max).len() <= max,
        selection(tones, picks, max).len() <= tones.len(),
        selection(tones, picks, max).no_duplicates(),
        forall|k: int|
            0 <= k < selection(tones, picks, max).len() ==> (#[trigger] selection(
                tones,
                picks,
                max,
            )[k]) < tones.len(),
{
    let n = tones.len();
    let d = downloads_of(tones);
    let picked = first_seen(picks, n);
    let guard = any_boosted_amp(tones, picked);
    let kept = admitted(tones, guard, picked);
    let order = ranking(d);
    let extra = eligible(tones, guard, kept, order);
    let out = selection(tones, picks, max);
    lemma_first_seen_members(picks, n);
    lemma_admitted_members(tones, guard, picked);
    lemma_ranking_is_ranking(d);
    assert(order.no_duplicates()) by {
        assert forall|i: int, j: int| 0 <= i < order.len() && 0 <= j < order.len() && i != j implies order[i]
            != order[j] by {
            if i < j {
                assert(ranks_before(d, order[i] as int, order[j] as int));
            } else {
                assert(ranks_before(d, order[j] as int, order[i] as int));
            }
        }
    }
    lemma_eligible_members(tones, guard, kept, order);
    assert forall|k: int| 0 <= k < kept.len() implies (#[trigger] kept[k]) < n by {
        assert(picked.contains(kept[k]));
    }
    assert forall|k: int| 0 <= k < extra.len() implies (#[trigger] extra[k]) < n by {
        assert(order.contains(extra[k]));
    }
    if kept.len() < max {
        let fill = prefix_upto(extra, (max - kept.len()) as nat);
        assert forall|k: int| 0 <= k < fill.len() implies fill[k] == extra[k] by {}
        assert forall|i: int, j: int| 0 <= i < out.len() && 0 <= j < out.len() && i != j implies out[i]
            != out[j] by {
            if i < kept.len() && j < kept.len() {
            } else if i >= kept.len() && j >= kept.len() {
                assert(out[i] == extra[i - kept.len()]);
                assert(out[j] == extra[j - kept.len()]);
            } else if i < kept.len() {
                assert(out[j] == extra[j - kept.len()]);
                assert(kept.contains(out[i]));
            } else {
                assert(out[i] == extra[i - kept.len()]);
                assert(kept.contains(out[j]));
            }
        }
        assert forall|k: int| 0 <= k < out.len() implies (#[trigger] out[k]) < n by {
            if k >= kept.len() {
                assert(out[k] == extra[k - kept.len()]);
            }
        }
    }
    lemma_distinct_positions_fit(out, n);
}

/// A list of distinct positions below `n` has at most `n` entries.
proof fn lemma_distinct_positions_fit(s: Seq<usize>, n: nat)
    requires
        s.no_duplicates(),
        forall|k: int| 0 <= k < s.len() ==> (#[trigger] s[k]) < n,
    ensures
        s.len() <= n,
    decreases n,
{
    if s.len() > 0 {
        if n == 0 {
            assert(s[0] < n);
        } else {
            let top = (n - 1) as usize;
            if s.contains(top) {
                let w = choose|w: int| 0 <= w < s.len() && s[w] == top;
                let t = s.remove(w);
                assert forall|k: int| 0 <= k < t.len() implies (#[trigger] t[k]) < n - 1 by {
                    if k < w {
                        assert(t[k] == s[k]);
                    } else {
                        assert(t[k] == s[k + 1]);
                    }
                }
                assert(t.no_duplicates()) by {
                    assert forall|i: int, j: int| 0 <= i < t.len() && 0 <= j < t.len() && i != j implies t[i]
                        != t[j] by {
                        let a = if i < w { i } else { i + 1 };
                        let b = if j < w { j } else { j + 1 };
                        assert(t[i] == s[a] && t[j] == s[b]);
                    }
                }
                lemma_distinct_positions_fit(t, (n - 1) as nat);
            } else {
                assert forall|k: int| 0 <= k < s.len() implies (#[trigger] s[k]) < n - 1 by {
                    assert(s.contains(s[k]));
                }
                lemma_distinct_positions_fit(s, (n - 1) as nat);
            }
        }
    }
}

/// With candidates to choose from and room for at least one, the selection
/// is never empty.
pub proof fn lemma_selection_is_never_empty(
    tones: Seq<ToneCandidate>,
    picks: Seq<usize>,
    max: nat,
)
    requires
        0 < tones.len() <= usize::MAX,
        max >= 1,
    ensures
        selection(tones, picks, max).len() >= 1,
{
    let n = tones.len();
    let d = downloads_of(tones);
    let picked = first_seen(picks, n);
    let guard = any_boosted_amp(tones, picked);
    let kept = admitted(tones, guard, picked);
    let order = ranking(d);
    lemma_admitted_members(tones, guard, picked);
    lemma_ranking_is_ranking(d);
    if kept.len() == 0 {
        if guard {
            let k = choose|k: int|
                0 <= k < picked.len() && tones[#[trigger] picked[k] as int].is_boosted_amp();
            lemma_boosted_amp_is_no_pedal(tones[picked[k] as int]);
            assert(picked.contains(picked[k]));
            assert(kept.contains(picked[k]));
        }
        lemma_eligible_members(tones, guard, kept, order);
    }
}

/// Without any pick the selection is the head of the popularity ranking: as
/// many of the most downloaded candidates as the maximum allows, or all of
/// them.
pub proof fn lemma_selection_without_picks(tones: Seq<ToneCandidate>, max: nat)
    ensures
        selection(tones, Seq::empty(), max) == prefix_upto(ranking(downloads_of(tones)), max),
{
    let order = ranking(downloads_of(tones));
    let none = Seq::<usize>::empty();
    assert(first_seen(none, tones.len()) == none);
    assert(!any_boosted_amp(tones, none));
    assert(admitted(tones, false, none) == none);
    lemma_eligible_members(tones, false, none, order);
    if max == 0 {
        assert(none.take(0) =~= none);
        assert(prefix_upto(order, 0) =~= none);
    } else {
        assert(none + prefix_upto(order, max) =~= prefix_upto(order, max));
    }
}

/// Without any pick the selection holds the most downloaded candidates, in
/// order of their download counts, and as many of them as the maximum
/// allows: the maximum itself, or all candidates when there are fewer.
pub proof fn lemma_selection_without_picks_is_by_popularity(tones: Seq<ToneCandidate>, max: nat)
    requires
        tones.len() <= usize::MAX,
    ensures
        selection(tones, Seq::empty(), max).len() == (if max <= tones.len() {
            max
        } else {
            tones.len()
        }),
        forall|i: int, j: int|
            0 <= i < j < selection(tones, Seq::empty(), max).len() ==> tones[selection(
                tones,
                Seq::empty(),
                max,
            )[i] as int].downloads >= tones[selection(tones, Seq::empty(), max)[j] as int].downloads,
{
    let d = downloads_of(tones);
    let order = ranking(d);
    let out = selection(tones, Seq::empty(), max);
    lemma_selection_without_picks(tones, max);
    lemma_ranking_is_ranking(d);
    assert forall|i: int, j: int| 0 <= i < j < out.len() implies tones[out[i] as int].downloads
        >= tones[out[j] as int].downloads by {
        assert(out[i] == order[i] && out[j] == order[j]);
        assert(ranks_before(d, order[i] as int, order[j] as int));
    }
}

/// The ranked pool holds the candidates of the pool with the most
/// downloaded first, so its head is what the completion service gets to
/// see.
pub proof fn lemma_ranked_is_by_popularity(pool: Seq<ToneCandidate>)
    requires
        pool.len() <= usize::MAX,
    ensures
        ranked(pool).len() == pool.len(),
        forall|i: int, j: int|
            0 <= i < j < pool.len() ==> ranked(pool)[i].downloads >= ranked(pool)[j].downloads,
        forall|k: int| 0 <= k < pool.len() ==> ranked(pool).contains(#[trigger] pool[k]),
{
    let d = downloads_of(pool);
    let order = ranking(d);
    lemma_ranking_is_ranking(d);
    assert forall|i: int, j: int| 0 <= i < j < pool.len() implies ranked(pool)[i].downloads
        >= ranked(pool)[j].downloads by {
        assert(ranks_before(d, order[i] as int, order[j] as int));
    }
    assert forall|k: int| 0 <= k < pool.len() implies ranked(pool).contains(#[trigger] pool[k]) by {
        assert(order.contains(k as usize));
        let w = choose|w: int| 0 <= w < order.len() && order[w] == k as usize;
        assert(ranked(pool)[w] == pool[k]);
    }
}

} // verus!

//! The selection engine: popularity ranking, the boost-redundancy rule and
//! backfill, applied to whatever indices the completion service picked.

use crate::catalog::{downloads_of, ToneCandidate};
use crate::heuristics::{tone_contains_boost, tone_is_preamp_or_boost_pedal};
use vstd::prelude::*;

verus! {

/// Candidate `a` comes before candidate `b` in the popularity ranking: more
/// downloads first, and among equals the one that came first in the list.
pub open spec fn ranks_before(d: Seq<i64>, a: int, b: int) -> bool {
    d[a] > d[b] || (d[a] == d[b] && a < b)
}

/// Where `x` goes in the partial ranking `r`: behind every entry that has at
/// least as many downloads.
pub open spec fn slot(r: Seq<usize>, d: Seq<i64>, x: usize) -> int
    decreases r.len(),
{
    if r.len() == 0 || d[r[0] as int] < d[x as int] {
        0
    } else {
        1 + slot(r.drop_first(), d, x)
    }
}

/// The popularity ranking of the first `n` positions.
pub open spec fn ranking_upto(d: Seq<i64>, n: nat) -> Seq<usize>
    decreases n,
{
    if n == 0 {
        Seq::empty()
    } else {
        let r = ranking_upto(d, (n - 1) as nat);
        r.insert(slot(r, d, (n - 1) as usize), (n - 1) as usize)
    }
}

/// The positions of a list of download counts, most downloaded first; equal
/// counts keep their order.
pub open spec fn ranking(d: Seq<i64>) -> Seq<usize> {
    ranking_upto(d, d.len())
}

/// `r` lists every position of `d` once, in popularity order.
pub open spec fn is_ranking(r: Seq<usize>, d: Seq<i64>) -> bool {
    &&& r.len() == d.len()
    &&& forall|i: int| 0 <= i < r.len() ==> (#[trigger] r[i]) < d.len()
    &&& forall|i: int, j: int|
        0 <= i < j < r.len() ==> ranks_before(d, #[trigger] r[i] as int, #[trigger] r[j] as int)
    &&& forall|x: usize| x < d.len() ==> r.contains(x)
}

/// The first `n` entries of `s`, or all of `s` when it is shorter.
pub open spec fn prefix_upto(s: Seq<usize>, n: nat) -> Seq<usize> {
    if s.len() <= n {
        s
    } else {
        s.take(n as int)
    }
}

/// The picks that are positions of a list of `n` candidates, each once, in
/// the order in which they were first named.
pub open spec fn first_seen(picks: Seq<usize>, n: nat) -> Seq<usize>
    decreases picks.len(),
{
    if picks.len() == 0 {
        Seq::empty()
    } else {
        let head = first_seen(picks.drop_last(), n);
        let x = picks.last();
        if x < n && !head.contains(x) {
            head.push(x)
        } else {
            head
        }
    }
}

/// One of the picked candidates is an amplifier with a boost stage.
pub open spec fn any_boosted_amp(tones: Seq<ToneCandidate>, picked: Seq<usize>) -> bool {
    exists|k: int| 0 <= k < picked.len() && tones[#[trigger] picked[k] as int].is_boosted_amp()
}

/// Candidate `i` is a boost pedal while the boost rule is in force.
pub open spec fn barred(tones: Seq<ToneCandidate>, guard: bool, i: usize) -> bool {
    guard && tones[i as int].is_boost_pedal()
}

/// The picks that the boost rule lets through, in order.
pub open spec fn admitted(tones: Seq<ToneCandidate>, guard: bool, picked: Seq<usize>) -> Seq<
    usize,
>
    decreases picked.len(),
{
    if picked.len() == 0 {
        Seq::empty()
    } else {
        let head = admitted(tones, guard, picked.drop_last());
        if barred(tones, guard, picked.last()) {
            head
        } else {
            head.push(picked.last())
        }
    }
}

/// The entries of `order` that may be used to fill up a selection: not kept
/// already and not barred by the boost rule.
pub open spec fn eligible(
    tones: Seq<ToneCandidate>,
    guard: bool,
    kept: Seq<usize>,
    order: Seq<usize>,
) -> Seq<usize>
    decreases order.len(),
{
    if order.len() == 0 {
        Seq::empty()
    } else {
        let head = eligible(tones, guard, kept, order.drop_last());
        let x = order.last();
        if kept.contains(x) || barred(tones, guard, x) {
            head
        } else {
            head.push(x)
        }
    }
}

/// The final selection for a list of candidates, the picks of the
/// completion service and a maximum count.
///
/// The valid picks are taken once each in first-seen order. If one of them
/// is an amplifier with a boost stage, boost pedals are dropped, now and
/// during backfill. A selection that is still short is filled up with the
/// most downloaded candidates that are not in it yet.
pub open spec fn selection(tones: Seq<ToneCandidate>, picks: Seq<usize>, max: nat) -> Seq<usize> {
    let picked = first_seen(picks, tones.len());
    let guard = any_boosted_amp(tones, picked);
    let kept = admitted(tones, guard, picked);
    if kept.len() >= max {
        kept.take(max as int)
    } else {
        kept + prefix_upto(
            eligible(tones, guard, kept, ranking(downloads_of(tones))),
            (max - kept.len()) as nat,
        )
    }
}

/// The slot lies behind all entries with at least as many downloads and
/// before the first one with fewer.
proof fn lemma_slot_bounds(r: Seq<usize>, d: Seq<i64>, x: usize)
    ensures
        0 <= slot(r, d, x) <= r.len(),
        forall|k: int| 0 <= k < slot(r, d, x) ==> d[(#[trigger] r[k]) as int] >= d[x as int],
        slot(r, d, x) < r.len() ==> d[r[slot(r, d, x)] as int] < d[x as int],
    decreases r.len(),
{
    if r.len() == 0 || d[r[0] as int] < d[x as int] {
    } else {
        let rest = r.drop_first();
        lemma_slot_bounds(rest, d, x);
        assert forall|k: int| 0 <= k < slot(r, d, x) implies d[(#[trigger] r[k]) as int] >= d[x as int] by {
            if k > 0 {
                assert(r[k] == rest[k - 1]);
            }
        }
        if slot(r, d, x) < r.len() {
            assert(r[slot(r, d, x)] == rest[slot(rest, d, x)]);
        }
    }
}

/// The ranking of the first `n` positions lists each of them once, in
/// popularity order.
proof fn lemma_ranking_upto(d: Seq<i64>, n: nat)
    requires
        n <= d.len(),
        d.len() <= usize::MAX,
    ensures
        ranking_upto(d, n).len() == n,
        forall|i: int| 0 <= i < n ==> (#[trigger] ranking_upto(d, n)[i]) < n,
        forall|i: int, j: int|
            0 <= i < j < n ==> ranks_before(
                d,
                #[trigger] ranking_upto(d, n)[i] as int,
                #[trigger] ranking_upto(d, n)[j] as int,
            ),
        forall|x: usize| x < n ==> ranking_upto(d, n).contains(x),
    decreases n,
{
    if n > 0 {
        let r = ranking_upto(d, (n - 1) as nat);
        let x = (n - 1) as usize;
        let p = slot(r, d, x);
        let s = ranking_upto(d, n);
        lemma_ranking_upto(d, (n - 1) as nat);
        lemma_slot_bounds(r, d, x);
        assert(s == r.insert(p, x));
        assert forall|i: int, j: int| 0 <= i < j < n implies ranks_before(
            d,
            #[trigger] s[i] as int,
            #[trigger] s[j] as int,
        ) by {
            if j < p {
                assert(s[i] == r[i] && s[j] == r[j]);
            } else if j == p {
                assert(s[i] == r[i]);
                assert(d[r[i] as int] >= d[x as int]);
            } else if i < p {
                assert(s[i] == r[i] && s[j] == r[j - 1]);
                if i < j - 1 {
                    assert(ranks_before(d, r[i] as int, r[j - 1] as int));
                }
            } else if i == p {
                assert(s[j] == r[j - 1]);
                if p < j - 1 {
                    assert(ranks_before(d, r[p] as int, r[j - 1] as int));
                }
            } else {
                assert(s[i] == r[i - 1] && s[j] == r[j - 1]);
            }
        }
        assert forall|y: usize| y < n implies s.contains(y) by {
            if y == x {
                assert(s[p] == x);
            } else {
                assert(r.contains(y));
                let k = choose|k: int| 0 <= k < r.len() && r[k] == y;
                if k < p {
                    assert(s[k] == y);
                } else {
                    assert(s[k + 1] == y);
                }
            }
        }
        assert forall|i: int| 0 <= i < n implies (#[trigger] s[i]) < n by {
            if i < p {
                assert(s[i] == r[i]);
            } else if i > p {
                assert(s[i] == r[i - 1]);
            }
        }
    }
}

/// The ranking lists every candidate once, most downloaded first, and
/// candidates with equal counts in the order of the list.
pub proof fn lemma_ranking_is_ranking(d: Seq<i64>)
    requires
        d.len() <= usize::MAX,
    ensures
        is_ranking(ranking(d), d),
{
    lemma_ranking_upto(d, d.len());
}

/// The eligible entries of a prefix are a prefix of the eligible entries.
proof fn lemma_eligible_grows(
    tones: Seq<ToneCandidate>,
    guard: bool,
    kept: Seq<usize>,
    order: Seq<usize>,
    k: int,
)
    requires
        0 <= k <= order.len(),
    ensures
        eligible(tones, guard, kept, order.take(k)).len() <= eligible(
            tones,
            guard,
            kept,
            order,
        ).len(),
        eligible(tones, guard, kept, order.take(k)) == eligible(tones, guard, kept, order).take(
            eligible(tones, guard, kept, order.take(k)).len() as int,
        ),
    decreases order.len() - k,
{
    let whole = eligible(tones, guard, kept, order);
    let part = eligible(tones, guard, kept, order.take(k));
    if k == order.len() {
        assert(order.take(k) =~= order);
        assert(whole.take(whole.len() as int) =~= whole);
    } else {
        let shorter = order.drop_last();
        assert(shorter.take(k) =~= order.take(k));
        lemma_eligible_grows(tones, guard, kept, shorter, k);
        let mid = eligible(tones, guard, kept, shorter);
        assert(part == mid.take(part.len() as int));
        assert(mid.take(part.len() as int) =~= whole.take(part.len() as int));
    }
}

/// The positions of `tones`, most downloaded first; equal counts keep their
/// order.
pub fn rank_by_downloads(tones: &[ToneCandidate]) -> (order: Vec<usize>)
    ensures
        order@ == ranking(downloads_of(tones@)),
        is_ranking(order@, downloads_of(tones@)),
{
    let n = tones.len();
    let ghost d = downloads_of(tones@);
    let mut order: Vec<usize> = Vec::new();
    let mut x: usize = 0;
    while x < n
        invariant
            x <= n,
            n == tones.len(),
            d == downloads_of(tones@),
            order@ == ranking_upto(d, x as nat),
            order.len() == x,
            forall|k: int| 0 <= k < order.len() ==> (#[trigger] order@[k]) < x,
        decreases n - x,
    {
        let mut p: usize = 0;
        assert(order@.subrange(0, order.len() as int) =~= order@);
        while p < order.len() && tones[order[p]].downloads >= tones[x].downloads
            invariant
                p <= order.len(),
                x < n,
                n == tones.len(),
                d == downloads_of(tones@),
                forall|k: int| 0 <= k < order.len() ==> (#[trigger] order@[k]) < x,
                slot(order@, d, x) == p + slot(
                    order@.subrange(p as int, order.len() as int),
                    d,
                    x,
                ),
            decreases order.len() - p,
        {
            let ghost rest = order@.subrange(p as int, order.len() as int);
            assert(rest[0] == order@[p as int]);
            assert(rest.drop_first() =~= order@.subrange(p + 1, order.len() as int));
            p += 1;
        }
        proof {
            let rest = order@.subrange(p as int, order.len() as int);
            if p < order.len() {
                assert(rest[0] == order@[p as int]);
            }
            assert(slot(rest, d, x) == 0);
            lemma_ranking_upto(d, (x + 1) as nat);
        }
        order.insert(p, x);
        x += 1;
    }
    proof {
        lemma_ranking_is_ranking(d);
    }
    order
}

/// The candidates of a pool, most downloaded first.
pub open spec fn ranked(pool: Seq<ToneCandidate>) -> Seq<ToneCandidate> {
    Seq::new(pool.len(), |k: int| pool[ranking(downloads_of(pool))[k] as int])
}

/// The pool in popularity order.
pub fn rank_candidates(pool: &[ToneCandidate]) -> (r: Vec<ToneCandidate>)
    ensures
        r@ == ranked(pool@),
{
    let order = rank_by_downloads(pool);
    let mut r: Vec<ToneCandidate> = Vec::new();
    let mut k: usize = 0;
    while k < order.len()
        invariant
            k <= order.len(),
            order.len() == pool.len(),
            order@ == ranking(downloads_of(pool@)),
            is_ranking(order@, downloads_of(pool@)),
            r.len() == k,
            forall|j: int| 0 <= j < k ==> r@[j] == pool@[order@[j] as int],
        decreases order.len() - k,
    {
        r.push(pool[order[k]].duplicate());
        k += 1;
    }
    assert(r@ =~= ranked(pool@));
    r
}

/// Turns the picks of the completion service into the final selection.
///
/// Picks that are no position of `tones` and repeated picks are dropped. If a
/// picked amplifier already has a boost stage, boost pedals are removed and
/// stay out. A selection shorter than `max_selections` is filled up from the
/// popularity ranking.
pub fn postprocess_selected_indices(
    tones: &[ToneCandidate],
    selected_indices: &[usize],
    max_selections: usize,
) -> (r: Vec<usize>)
    ensures
        r@ == selection(tones@, selected_indices@, max_selections as nat),
{
    let n = tones.len();
    let mut amp: Vec<bool> = Vec::new();
    let mut pedal: Vec<bool> = Vec::new();
    let mut seen: Vec<bool> = Vec::new();
    let mut i: usize = 0;
    while i < n
        invariant
            i <= n,
            n == tones.len(),
            amp.len() == i,
            pedal.len() == i,
            seen.len() == i,
            forall|k: int| 0 <= k < i ==> amp@[k] == tones@[k].is_boosted_amp(),
            forall|k: int| 0 <= k < i ==> pedal@[k] == tones@[k].is_boost_pedal(),
            forall|k: int| 0 <= k < i ==> !seen@[k],
        decreases n - i,
    {
        amp.push(tone_contains_boost(&tones[i]));
        pedal.push(tone_is_preamp_or_boost_pedal(&tones[i]));
        seen.push(false);
        i += 1;
    }

    let mut unique: Vec<usize> = Vec::new();
    let mut j: usize = 0;
    assert(selected_indices@.take(0) =~= Seq::<usize>::empty());
    while j < selected_indices.len()
        invariant
            j <= selected_indices.len(),
            n == tones.len(),
            seen.len() == n,
            unique@ == first_seen(selected_indices@.take(j as int), n as nat),
            forall|k: int| 0 <= k < n ==> seen@[k] == unique@.contains(k as usize),
            forall|k: int| 0 <= k < unique.len() ==> (#[trigger] unique@[k]) < n,
        decreases selected_indices.len() - j,
    {
        let x = selected_indices[j];
        proof {
            let next = selected_indices@.take(j + 1);
            assert(next.drop_last() =~= selected_indices@.take(j as int));
            assert(next.last() == x);
        }
        if x < n && !seen[x] {
            let ghost before = unique@;
            unique.push(x);
            seen.set(x, true);
            proof {
                assert forall|k: int| 0 <= k < n implies seen@[k] == unique@.contains(
                    k as usize,
                ) by {
                    if k == x {
                        assert(unique@[before.len() as int] == x);
                    } else if before.contains(k as usize) {
                        let w = choose|w: int| 0 <= w < before.len() && before[w] == k as usize;
                        assert(unique@[w] == k as usize);
                    } else if unique@.contains(k as usize) {
                        let w = choose|w: int| 0 <= w < unique@.len() && unique@[w] == k as usize;
                        assert(before[w] == k as usize);
                    }
                }
            }
        }
        j += 1;
    }
    assert(selected_indices@.take(selected_indices.len() as int) =~= selected_indices@);
    let ghost picked = unique@;

    let mut guard = false;
    let mut g: usize = 0;
    while g < unique.len()
        invariant
            g <= unique.len(),
            n == tones.len(),
            amp.len() == n,
            unique@ == picked,
            forall|k: int| 0 <= k < n ==> amp@[k] == tones@[k].is_boosted_amp(),
            forall|k: int| 0 <= k < unique.len() ==> (#[trigger] unique@[k]) < n,
            guard == exists|k: int|
                0 <= k < g && tones@[#[trigger] picked[k] as int].is_boosted_amp(),
        decreases unique.len() - g,
    {
        if amp[unique[g]] {
            guard = true;
        }
        g += 1;
    }
    assert(guard == any_boosted_amp(tones@, picked));

    let mut kept: Vec<usize> = Vec::new();
    let mut chosen: Vec<bool> = Vec::new();
    let mut c: usize = 0;
    while c < n
        invariant
            c <= n,
            chosen.len() == c,
            forall|k: int| 0 <= k < c ==> !chosen@[k],
        decreases n - c,
    {
        chosen.push(false);
        c += 1;
    }
    let mut a: usize = 0;
    assert(picked.take(0) =~= Seq::<usize>::empty());
    while a < unique.len()
        invariant
            a <= unique.len(),
            n == tones.len(),
            pedal.len() == n,
            chosen.len() == n,
            unique@ == picked,
            forall|k: int| 0 <= k < n ==> pedal@[k] == tones@[k].is_boost_pedal(),
            forall|k: int| 0 <= k < unique.len() ==> (#[trigger] unique@[k]) < n,
            kept@ == admitted(tones@, guard, picked.take(a as int)),
            forall|k: int| 0 <= k < n ==> chosen@[k] == kept@.contains(k as usize),
            forall|k: int| 0 <= k < kept.len() ==> (#[trigger] kept@[k]) < n,
        decreases unique.len() - a,
    {
        let x = unique[a];
        proof {
            let next = picked.take(a + 1);
            assert(next.drop_last() =~= picked.take(a as int));
            assert(next.last() == x);
        }
        if !(guard && pedal[x]) {
            let ghost before = kept@;
            kept.push(x);
            chosen.set(x, true);
            proof {
                assert forall|k: int| 0 <= k < n implies chosen@[k] == kept@.contains(
                    k as usize,
                ) by {
                    if k == x {
                        assert(kept@[before.len() as int] == x);
                    } else if before.contains(k as usize) {
                        let w = choose|w: int| 0 <= w < before.len() && before[w] == k as usize;
                        assert(kept@[w] == k as usize);
                    } else if kept@.contains(k as usize) {
                        let w = choose|w: int| 0 <= w < kept@.len() && kept@[w] == k as usize;
                        assert(before[w] == k as usize);
                    }
                }
            }
        }
        a += 1;
    }
    assert(picked.take(picked.len() as int) =~= picked);
    let ghost base = kept@;

    if kept.len() >= max_selections {
        kept.truncate(max_selections);
        return kept;
    }
    let order = rank_by_downloads(tones);
    let ghost room = (max_selections - base.len()) as nat;
    let mut b: usize = 0;
    assert(order@.take(0) =~= Seq::<usize>::empty());
    assert(base + Seq::<usize>::empty() =~= base);
    while b < order.len()
        invariant
            b <= order.len(),
            n == tones.len(),
            pedal.len() == n,
            chosen.len() == n,
            order.len() == n,
            base.len() < max_selections,
            room == max_selections - base.len(),
            order@ == ranking(downloads_of(tones@)),
            guard == any_boosted_amp(tones@, first_seen(selected_indices@, n as nat)),
            base == admitted(tones@, guard, first_seen(selected_indices@, n as nat)),
            forall|k: int| 0 <= k < n ==> pedal@[k] == tones@[k].is_boost_pedal(),
            forall|k: int| 0 <= k < n ==> chosen@[k] == base.contains(k as usize),
            forall|k: int| 0 <= k < order.len() ==> (#[trigger] order@[k]) < n,
            kept@ == base + eligible(tones@, guard, base, order@.take(b as int)),
            eligible(tones@, guard, base, order@.take(b as int)).len() < room,
        decreases order.len() - b,
    {
        let x = order[b];
        proof {
            let next = order@.take(b + 1);
            assert(next.drop_last() =~= order@.take(b as int));
            assert(next.last() == x);
        }
        if !chosen[x] && !(guard && pedal[x]) {
            let ghost part = eligible(tones@, guard, base, order@.take(b as int));
            kept.push(x);
            assert(kept@ =~= base + part.push(x));
            if kept.len() >= max_selections {
                proof {
                    let whole = eligible(tones@, guard, base, order@);
                    lemma_eligible_grows(tones@, guard, base, order@, b + 1);
                    assert(eligible(tones@, guard, base, order@.take(b + 1)) == part.push(x));
                    assert(part.push(x).len() == room);
                    assert(prefix_upto(whole, room) =~= part.push(x));
                }
                return kept;
            }
        }
        b += 1;
    }
    proof {
        assert(order@.take(order.len() as int) =~= order@);
    }
    kept
}

} // verus!

//! Search terms: cleaned, deduplicated and capped.

use crate::text::{lowercase, same_text, sanitize_line, single_line};
use vstd::prelude::*;
use vstd::string::StringExecFns;

verus! {

/// The texts of a list of strings.
pub open spec fn texts_of(v: Seq<String>) -> Seq<Seq<char>> {
    Seq::new(v.len(), |i: int| v[i]@)
}

/// The lowercase forms of a list of texts.
pub open spec fn lowered(lines: Seq<Seq<char>>) -> Seq<Seq<char>> {
    Seq::new(lines.len(), |i: int| lowercase(lines[i]))
}

/// The distinct non-empty search terms of a list, each on a single line, in
/// the order of their first appearance. Two terms that differ only in case
/// are the same term.
pub open spec fn distinct_lines(queries: Seq<Seq<char>>) -> Seq<Seq<char>>
    decreases queries.len(),
{
    if queries.len() == 0 {
        Seq::empty()
    } else {
        let head = distinct_lines(queries.drop_last());
        let line = single_line(queries.last());
        if line.len() > 0 && !lowered(head).contains(lowercase(line)) {
            head.push(line)
        } else {
            head
        }
    }
}

/// How many terms a cap lets through. The cap is looked at after a term has
/// been taken, so even a cap of zero lets the first term through.
pub open spec fn effective_cap(max_items: nat) -> nat {
    if max_items == 0 {
        1
    } else {
        max_items
    }
}

/// The first `n` entries of `s`, or all of `s` when it is shorter.
pub open spec fn first_lines(s: Seq<Seq<char>>, n: nat) -> Seq<Seq<char>> {
    if s.len() <= n {
        s
    } else {
        s.take(n as int)
    }
}

/// The search terms that a list of queries comes down to.
pub open spec fn deduped(queries: Seq<Seq<char>>, max_items: nat) -> Seq<Seq<char>> {
    first_lines(distinct_lines(queries), effective_cap(max_items))
}

/// The terms that a list of queries comes down to are never empty, never
/// more than the cap lets through, and no two of them are the same up to
/// case.
pub proof fn lemma_deduped_is_clean(queries: Seq<Seq<char>>, max_items: nat)
    ensures
        deduped(queries, max_items).len() <= effective_cap(max_items),
        deduped(queries, max_items).len() <= queries.len(),
        forall|i: int|
            0 <= i < deduped(queries, max_items).len() ==> (#[trigger] deduped(
                queries,
                max_items,
            )[i]).len() > 0,
        lowered(deduped(queries, max_items)).no_duplicates(),
{
    lemma_distinct_lines_are_distinct(queries);
    let all = distinct_lines(queries);
    let out = deduped(queries, max_items);
    assert forall|i: int, j: int|
        0 <= i < lowered(out).len() && 0 <= j < lowered(out).len() && i != j implies lowered(
        out,
    )[i] != lowered(out)[j] by {
        assert(out[i] == all[i] && out[j] == all[j]);
        assert(lowered(all)[i] != lowered(all)[j]);
    }
    assert forall|i: int| 0 <= i < out.len() implies (#[trigger] out[i]).len() > 0 by {
        assert(out[i] == all[i]);
    }
}

/// Distinct lines are non-empty and differ from each other up to case.
proof fn lemma_distinct_lines_are_distinct(queries: Seq<Seq<char>>)
    ensures
        distinct_lines(queries).len() <= queries.len(),
        forall|i: int|
            0 <= i < distinct_lines(queries).len() ==> (#[trigger] distinct_lines(queries)[i]).len()
                > 0,
        lowered(distinct_lines(queries)).no_duplicates(),
    decreases queries.len(),
{
    if queries.len() > 0 {
        let head = distinct_lines(queries.drop_last());
        let line = single_line(queries.last());
        let out = distinct_lines(queries);
        lemma_distinct_lines_are_distinct(queries.drop_last());
        if line.len() > 0 && !lowered(head).contains(lowercase(line)) {
            assert forall|i: int, j: int|
                0 <= i < lowered(out).len() && 0 <= j < lowered(out).len() && i != j implies lowered(
                out,
            )[i] != lowered(out)[j] by {
                if i < head.len() && j < head.len() {
                    assert(lowered(head)[i] != lowered(head)[j]);
                } else if i < head.len() {
                    assert(lowered(head)[i] == lowered(out)[i]);
                    assert(lowered(head).contains(lowered(head)[i]));
                } else {
                    assert(lowered(head)[j] == lowered(out)[j]);
                    assert(lowered(head).contains(lowered(head)[j]));
                }
            }
            assert forall|i: int| 0 <= i < out.len() implies (#[trigger] out[i]).len() > 0 by {
                if i < head.len() {
                    assert(out[i] == head[i]);
                }
            }
        }
    }
}

/// The distinct lines of a prefix are a prefix of the distinct lines.
proof fn lemma_distinct_lines_grow(queries: Seq<Seq<char>>, k: int)
    requires
        0 <= k <= queries.len(),
    ensures
        distinct_lines(queries.take(k)).len() <= distinct_lines(queries).len(),
        distinct_lines(queries.take(k)) == distinct_lines(queries).take(
            distinct_lines(queries.take(k)).len() as int,
        ),
    decreases queries.len() - k,
{
    let whole = distinct_lines(queries);
    let part = distinct_lines(queries.take(k));
    if k == queries.len() {
        assert(queries.take(k) =~= queries);
        assert(whole.take(whole.len() as int) =~= whole);
    } else {
        let shorter = queries.drop_last();
        assert(shorter.take(k) =~= queries.take(k));
        lemma_distinct_lines_grow(shorter, k);
        let mid = distinct_lines(shorter);
        assert(mid.take(part.len() as int) =~= whole.take(part.len() as int));
    }
}

/// Cleans a list of search terms: each term is put on a single line, empty
/// terms and repetitions (up to case) are dropped, and the list stops once
/// it holds `max_items` terms.
pub fn dedupe_non_empty_queries(queries: Vec<String>, max_items: usize) -> (r: Vec<String>)
    ensures
        texts_of(r@) == deduped(texts_of(queries@), max_items as nat),
{
    let ghost all = texts_of(queries@);
    let mut out: Vec<String> = Vec::new();
    let mut keys: Vec<String> = Vec::new();
    let mut i: usize = 0;
    assert(all.take(0) =~= Seq::<Seq<char>>::empty());
    assert(texts_of(out@) =~= Seq::<Seq<char>>::empty());
    while i < queries.len()
        invariant
            i <= queries.len(),
            all == texts_of(queries@),
            texts_of(out@) == distinct_lines(all.take(i as int)),
            texts_of(keys@) == lowered(texts_of(out@)),
            out.len() == keys.len(),
            out.len() < effective_cap(max_items as nat),
        decreases queries.len() - i,
    {
        let normalized = sanitize_line(queries[i].as_str());
        proof {
            let next = all.take(i + 1);
            assert(next.drop_last() =~= all.take(i as int));
            assert(next.last() == queries@[i as int]@);
        }
        if !normalized.as_str().is_empty() {
            let key = normalized.as_str().to_lowercase();
            let mut known = false;
            let mut k: usize = 0;
            while k < keys.len()
                invariant
                    k <= keys.len(),
                    known == exists|j: int| 0 <= j < k && (#[trigger] keys@[j])@ == key@,
                decreases keys.len() - k,
            {
                if same_text(keys[k].as_str(), key.as_str()) {
                    known = true;
                }
                k += 1;
            }
            proof {
                let ks = texts_of(keys@);
                if known {
                    let j = choose|j: int| 0 <= j < keys.len() && (#[trigger] keys@[j])@ == key@;
                    assert(ks[j] == key@);
                    assert(ks.contains(key@));
                } else if ks.contains(key@) {
                    let j = choose|j: int| 0 <= j < ks.len() && ks[j] == key@;
                    assert(keys@[j]@ == key@);
                }
                assert(known == lowered(texts_of(out@)).contains(lowercase(normalized@)));
            }
            if !known {
                let ghost before = texts_of(out@);
                let ghost keys_before = texts_of(keys@);
                out.push(normalized);
                keys.push(key);
                proof {
                    assert(texts_of(out@) =~= before.push(normalized@));
                    assert(texts_of(keys@) =~= keys_before.push(key@));
                    assert(texts_of(keys@) =~= lowered(texts_of(out@)));
                }
            }
            if out.len() >= max_items {
                proof {
                    lemma_distinct_lines_grow(all, i + 1);
                    let part = distinct_lines(all.take(i + 1));
                    let whole = distinct_lines(all);
                    assert(part.len() >= 1) by {
                        if known {
                            let ks = lowered(texts_of(out@));
                            assert(ks.len() > 0);
                        }
                    }
                    assert(part.len() == effective_cap(max_items as nat));
                    assert(first_lines(whole, effective_cap(max_items as nat)) =~= part);
                }
                return out;
            }
        }
        i += 1;
    }
    proof {
        assert(all.take(queries.len() as int) =~= all);
    }
    out
}

/// How many search terms an amplifier search keeps.
pub const AMP_QUERY_LIMIT: usize = 6;

/// How many search terms a cabinet search keeps.
pub const CAB_QUERY_LIMIT: usize = 8;

/// What is added to the request to search for amplifiers.
pub const AMP_HINT: &'static str = " amp";

/// What is added to the request to search for cabinets.
pub const CAB_IR_HINT: &'static str = " cab ir";

/// What is added to an amplifier title to search for impulse responses.
pub const IR_HINT: &'static str = " ir";

/// What is added to an amplifier title to search for cabinets.
pub const CAB_HINT: &'static str = " cab";

/// What is added to the request to search for cabinets more widely.
pub const CABINET_HINT: &'static str = " guitar cabinet";

/// The last resort of a cabinet search.
pub const GENERIC_CAB_QUERY: &'static str = "guitar cab ir";

/// `a` followed by `b`.
fn glued(a: &str, b: &str) -> (r: String)
    ensures
        r@ == a@ + b@,
{
    let mut r = String::from_str(a);
    r.append(b);
    r
}

/// Appends copies of `lines` to `out`.
fn extend_with(out: &mut Vec<String>, lines: &Vec<String>)
    ensures
        texts_of(final(out)@) == texts_of(old(out)@) + texts_of(lines@),
{
    let ghost start = texts_of(out@);
    let mut i: usize = 0;
    assert(start + texts_of(lines@).take(0) =~= start);
    while i < lines.len()
        invariant
            i <= lines.len(),
            texts_of(out@) == start + texts_of(lines@).take(i as int),
        decreases lines.len() - i,
    {
        let ghost before = texts_of(out@);
        out.push(lines[i].clone());
        assert(texts_of(out@) =~= before.push(lines@[i as int]@));
        assert(start + texts_of(lines@).take(i + 1) =~= (start + texts_of(lines@).take(
            i as int,
        )).push(lines@[i as int]@));
        i += 1;
    }
    assert(texts_of(lines@).take(lines.len() as int) =~= texts_of(lines@));
}

/// The primary terms of the amplifier search: the terms of the analysis,
/// then the request itself.
pub fn amp_primary_queries(search_queries: &Vec<String>, request: &str) -> (r: Vec<String>)
    ensures
        texts_of(r@) == deduped(
            texts_of(search_queries@).push(request@),
            AMP_QUERY_LIMIT as nat,
        ),
{
    let mut all: Vec<String> = Vec::new();
    assert(texts_of(all@) =~= Seq::<Seq<char>>::empty());
    extend_with(&mut all, search_queries);
    let ghost before = texts_of(all@);
    all.push(String::from_str(request));
    assert(texts_of(all@) =~= before.push(request@));
    assert(Seq::<Seq<char>>::empty() + texts_of(search_queries@) =~= texts_of(search_queries@));
    dedupe_non_empty_queries(all, AMP_QUERY_LIMIT)
}

/// The fallback terms of the amplifier search: the fallback terms of the
/// analysis, then the request with a hint at amplifiers.
pub fn amp_fallback_queries(fallback_queries: &Vec<String>, request: &str) -> (r: Vec<String>)
    ensures
        texts_of(r@) == deduped(
            texts_of(fallback_queries@).push(request@ + AMP_HINT@),
            AMP_QUERY_LIMIT as nat,
        ),
{
    let mut all: Vec<String> = Vec::new();
    assert(texts_of(all@) =~= Seq::<Seq<char>>::empty());
    extend_with(&mut all, fallback_queries);
    let ghost before = texts_of(all@);
    let hinted = glued(request, AMP_HINT);
    all.push(hinted);
    assert(texts_of(all@) =~= before.push(request@ + AMP_HINT@));
    assert(Seq::<Seq<char>>::empty() + texts_of(fallback_queries@) =~= texts_of(
        fallback_queries@,
    ));
    dedupe_non_empty_queries(all, AMP_QUERY_LIMIT)
}

/// The primary terms of the cabinet search for one amplifier: the request
/// and the amplifier title with hints at cabinets, then the terms of the
/// analysis.
pub fn cab_primary_queries(search_queries: &Vec<String>, request: &str, amp_title: &str) -> (r:
    Vec<String>)
    ensures
        texts_of(r@) == deduped(
            seq![request@ + CAB_IR_HINT@, amp_title@ + IR_HINT@, amp_title@ + CAB_HINT@]
                + texts_of(search_queries@),
            CAB_QUERY_LIMIT as nat,
        ),
{
    let mut all: Vec<String> = Vec::new();
    all.push(glued(request, CAB_IR_HINT));
    all.push(glued(amp_title, IR_HINT));
    all.push(glued(amp_title, CAB_HINT));
    assert(texts_of(all@) =~= seq![
        request@ + CAB_IR_HINT@,
        amp_title@ + IR_HINT@,
        amp_title@ + CAB_HINT@,
    ]);
    extend_with(&mut all, search_queries);
    dedupe_non_empty_queries(all, CAB_QUERY_LIMIT)
}

/// The fallback terms of the cabinet search: the fallback terms of the
/// analysis, the request with a hint at cabinets, and a generic term.
pub fn cab_fallback_queries(fallback_queries: &Vec<String>, request: &str) -> (r: Vec<String>)
    ensures
        texts_of(r@) == deduped(
            texts_of(fallback_queries@).push(request@ + CABINET_HINT@).push(GENERIC_CAB_QUERY@),
            CAB_QUERY_LIMIT as nat,
        ),
{
    let mut all: Vec<String> = Vec::new();
    assert(texts_of(all@) =~= Seq::<Seq<char>>::empty());
    extend_with(&mut all, fallback_queries);
    assert(Seq::<Seq<char>>::empty() + texts_of(fallback_queries@) =~= texts_of(
        fallback_queries@,
    ));
    let ghost before = texts_of(all@);
    all.push(glued(request, CABINET_HINT));
    all.push(String::from_str(GENERIC_CAB_QUERY));
    assert(texts_of(all@) =~= before.push(request@ + CABINET_HINT@).push(GENERIC_CAB_QUERY@));
    dedupe_non_empty_queries(all, CAB_QUERY_LIMIT)
}

} // verus!

//! The candidate pool builder: which searches to run, and what becomes of
//! their results.
//!
//! Searching is left to the caller. A [`PoolBuilder`] names the next query
//! with [`PoolBuilder::next_query`]; the caller runs it and hands the page to
//! [`PoolBuilder::absorb`]. Primary terms are always searched. Fallback
//! terms are searched only while the pool is short.

use crate::catalog::{ids_of, ToneCandidate};
use crate::text::{ascii_case_equal, eq_ignore_ascii_case};
use std::collections::HashSet;
use vstd::prelude::*;
use vstd::string::StringExecFns;

verus! {

/// A pool with fewer candidates than this after the primary terms is widened
/// with the fallback terms.
pub const MIN_POOL: usize = 10;

/// The largest page that a search may ask for.
pub const MAX_PAGE_SIZE: usize = 25;

/// The order in which the catalog is asked to sort its results.
pub const SORT_ORDER: &'static str = "downloads-all-time";

/// `pool` after the entries of a page have been offered to it one by one: an
/// entry joins the pool unless it has no identifier or its identifier is in
/// the pool already.
pub open spec fn absorbed(pool: Seq<ToneCandidate>, entries: Seq<Option<ToneCandidate>>) -> Seq<
    ToneCandidate,
>
    decreases entries.len(),
{
    if entries.len() == 0 {
        pool
    } else {
        let head = absorbed(pool, entries.drop_last());
        match entries.last() {
            Some(tone) => if ids_of(head).contains(tone.id) {
                head
            } else {
                head.push(tone)
            },
            None => head,
        }
    }
}

/// The first `cap` entries of a page, or the whole page when it is shorter.
pub open spec fn capped(page: Seq<Option<ToneCandidate>>, cap: nat) -> Seq<Option<ToneCandidate>> {
    if page.len() <= cap {
        page
    } else {
        page.take(cap as int)
    }
}

/// `pool` after a page of search results: its first `cap` entries are
/// offered to the pool.
pub open spec fn merged(
    pool: Seq<ToneCandidate>,
    page: Seq<Option<ToneCandidate>>,
    cap: nat,
) -> Seq<ToneCandidate> {
    absorbed(pool, capped(page, cap))
}

/// The candidates of `pool` whose gear category is `gear`, up to the case of
/// ASCII letters, in order.
pub open spec fn of_gear(pool: Seq<ToneCandidate>, gear: Seq<char>) -> Seq<ToneCandidate>
    decreases pool.len(),
{
    if pool.len() == 0 {
        Seq::empty()
    } else {
        let head = of_gear(pool.drop_last(), gear);
        if ascii_case_equal(pool.last().gear@, gear) {
            head.push(pool.last())
        } else {
            head
        }
    }
}

/// The entry is a candidate with the identifier `id`.
pub open spec fn offers(entry: Option<ToneCandidate>, id: i64) -> bool {
    match entry {
        Some(tone) => tone.id == id,
        None => false,
    }
}

/// Offering entries to a pool keeps what is in it, adds no identifier twice,
/// and leaves out no identifier that was offered.
pub proof fn lemma_absorbed_is_deduplicated(
    pool: Seq<ToneCandidate>,
    entries: Seq<Option<ToneCandidate>>,
)
    requires
        ids_of(pool).no_duplicates(),
    ensures
        ids_of(absorbed(pool, entries)).no_duplicates(),
        pool.len() <= absorbed(pool, entries).len() <= pool.len() + entries.len(),
        absorbed(pool, entries).take(pool.len() as int) == pool,
        forall|id: i64|
            ids_of(absorbed(pool, entries)).contains(id) <==> (ids_of(pool).contains(id) || exists|
                k: int,
            |
                0 <= k < entries.len() && offers(#[trigger] entries[k], id)),
    decreases entries.len(),
{
    let out = absorbed(pool, entries);
    if entries.len() == 0 {
        assert(pool.take(pool.len() as int) =~= pool);
    } else {
        let shorter = entries.drop_last();
        let head = absorbed(pool, shorter);
        lemma_absorbed_is_deduplicated(pool, shorter);
        assert(out.take(pool.len() as int) =~= head.take(pool.len() as int));
        let joins = entries.last() matches Some(tone) && !ids_of(head).contains(tone.id);
        if joins {
            let tone = entries.last()->0;
            assert(ids_of(out) =~= ids_of(head).push(tone.id));
            assert forall|i: int, j: int|
                0 <= i < ids_of(out).len() && 0 <= j < ids_of(out).len() && i != j implies ids_of(
                out,
            )[i] != ids_of(out)[j] by {
                if i < head.len() && j < head.len() {
                    assert(ids_of(head)[i] != ids_of(head)[j]);
                } else if i < head.len() {
                    assert(ids_of(head).contains(ids_of(head)[i]));
                } else {
                    assert(ids_of(head).contains(ids_of(head)[j]));
                }
            }
        }
        assert forall|id: i64|
            ids_of(out).contains(id) <==> (ids_of(pool).contains(id) || exists|k: int|
                0 <= k < entries.len() && offers(#[trigger] entries[k], id)) by {
            let offered = exists|k: int|
                0 <= k < entries.len() && offers(#[trigger] entries[k], id);
            let offered_before = exists|k: int|
                0 <= k < shorter.len() && offers(#[trigger] shorter[k], id);
            if ids_of(out).contains(id) {
                let w = choose|w: int| 0 <= w < ids_of(out).len() && ids_of(out)[w] == id;
                if w < head.len() {
                    assert(ids_of(head)[w] == id);
                    assert(ids_of(head).contains(id));
                    if !ids_of(pool).contains(id) {
                        assert(offered_before);
                        let k = choose|k: int|
                            0 <= k < shorter.len() && offers(#[trigger] shorter[k], id);
                        assert(entries[k] == shorter[k]);
                    }
                } else {
                    assert(offers(entries[entries.len() - 1], id));
                }
            }
            if ids_of(pool).contains(id) || offered {
                if ids_of(pool).contains(id) {
                    assert(ids_of(head).contains(id));
                } else {
                    let k = choose|k: int|
                        0 <= k < entries.len() && offers(#[trigger] entries[k], id);
                    if k < shorter.len() {
                        assert(shorter[k] == entries[k]);
                        assert(offered_before);
                        assert(ids_of(head).contains(id));
                    }
                }
                if ids_of(head).contains(id) {
                    let w = choose|w: int| 0 <= w < ids_of(head).len() && ids_of(head)[w] == id;
                    assert(ids_of(out)[w] == id);
                } else {
                    assert(joins);
                    assert(ids_of(out)[head.len() as int] == id);
                }
            }
        }
    }
}

/// A pool under construction. No identifier is in its pool twice.
pub struct PoolBuilder {
    primary: Vec<String>,
    fallback: Vec<String>,
    cap: usize,
    primary_done: usize,
    fallback_done: usize,
    short: bool,
    pool: Vec<ToneCandidate>,
    seen: HashSet<i64>,
}

impl PoolBuilder {
    /// No identifier is in the pool twice, `seen` holds the identifiers of
    /// the pool, and fallback terms are not counted before the primary terms
    /// are done.
    #[verifier::type_invariant]
    spec fn consistent(self) -> bool {
        &&& ids_of(self.pool@).no_duplicates()
        &&& forall|id: i64| self.seen@.contains(id) <==> ids_of(self.pool@).contains(id)
        &&& self.primary_done <= self.primary@.len()
        &&& self.fallback_done <= self.fallback@.len()
        &&& self.fallback_done > 0 ==> self.primary_done == self.primary@.len()
    }

    /// The candidates found so far, in the order in which they were found.
    pub closed spec fn pool(self) -> Seq<ToneCandidate> {
        self.pool@
    }

    /// The terms that are always searched, in order.
    pub closed spec fn primary(self) -> Seq<String> {
        self.primary@
    }

    /// The terms that are searched only while the pool is short.
    pub closed spec fn fallback(self) -> Seq<String> {
        self.fallback@
    }

    /// How many results of each search are looked at, and from which size on
    /// the pool needs no more fallback searches.
    pub closed spec fn cap(self) -> nat {
        self.cap as nat
    }

    /// How many searches have been answered.
    pub closed spec fn asked(self) -> nat {
        (self.primary_done + self.fallback_done) as nat
    }

    /// Whether the pool was short when the last primary term was answered.
    pub closed spec fn short(self) -> bool {
        self.short
    }

    /// The term to search next, if any.
    ///
    /// Primary terms come first, each once. After them the fallback terms
    /// follow, as long as the pool was short after the primary terms and has
    /// not reached the cap.
    pub open spec fn pending(self) -> Option<Seq<char>> {
        if self.asked() < self.primary().len() {
            Some(self.primary()[self.asked() as int]@)
        } else if self.short() && self.pool().len() < self.cap() && self.asked()
            - self.primary().len() < self.fallback().len() {
            Some(self.fallback()[self.asked() - self.primary().len()]@)
        } else {
            None
        }
    }

    /// Starts a pool for the given terms. A pool without primary terms
    /// counts as short from the start.
    pub fn new(primary: Vec<String>, fallback: Vec<String>, cap: usize) -> (r: PoolBuilder)
        ensures
            r.primary() == primary@,
            r.fallback() == fallback@,
            r.cap() == cap,
            r.asked() == 0,
            r.pool().len() == 0,
            r.short() == (primary@.len() == 0),
    {
        broadcast use vstd::std_specs::hash::group_hash_axioms;

        let short = primary.len() == 0;
        let pool: Vec<ToneCandidate> = Vec::new();
        assert(ids_of(pool@) =~= Seq::<i64>::empty());
        PoolBuilder {
            primary,
            fallback,
            cap,
            primary_done: 0,
            fallback_done: 0,
            short,
            pool,
            seen: HashSet::new(),
        }
    }

    /// The term to search next, or `None` when the pool is complete.
    pub fn next_query(&self) -> (r: Option<&str>)
        ensures
            match r {
                Some(q) => self.pending() == Some(q@),
                None => self.pending() is None,
            },
    {
        proof {
            use_type_invariant(self);
        }
        if self.primary_done < self.primary.len() {
            Some(self.primary[self.primary_done].as_str())
        } else if self.short && self.pool.len() < self.cap && self.fallback_done
            < self.fallback.len() {
            Some(self.fallback[self.fallback_done].as_str())
        } else {
            None
        }
    }

    /// The candidates found so far.
    pub fn candidates(&self) -> (r: &Vec<ToneCandidate>)
        ensures
            r@ == self.pool(),
            ids_of(r@).no_duplicates(),
    {
        proof {
            use_type_invariant(self);
        }
        &self.pool
    }

    /// Takes the page that the pending search returned and offers its first
    /// `cap` entries to the pool. Returns the builder with the search
    /// counted, and how many entries joined. When no search is pending,
    /// nothing changes.
    pub fn absorb(self, page: &Vec<Option<ToneCandidate>>) -> (r: (PoolBuilder, usize))
        ensures
            r.0.primary() == self.primary(),
            r.0.fallback() == self.fallback(),
            r.0.cap() == self.cap(),
            self.pending() is None ==> r.0.pool() == self.pool() && r.0.asked() == self.asked()
                && r.0.short() == self.short() && r.1 == 0,
            self.pending() is Some ==> {
                &&& r.0.pool() == merged(self.pool(), page@, self.cap())
                &&& r.0.asked() == self.asked() + 1
                &&& r.0.short() == (if r.0.asked() == self.primary().len() {
                    r.0.pool().len() < MIN_POOL
                } else {
                    self.short()
                })
            },
            r.1 == r.0.pool().len() - self.pool().len(),
            ids_of(r.0.pool()).no_duplicates(),
    {
        broadcast use vstd::std_specs::hash::group_hash_axioms;

        proof {
            use_type_invariant(&self);
        }
        if self.next_query().is_none() {
            return (self, 0);
        }
        let PoolBuilder {
            primary,
            fallback,
            cap,
            primary_done: mut primary_done,
            fallback_done: mut fallback_done,
            short: mut short,
            pool: mut pool,
            seen: mut seen,
        } = self;
        let limit: usize = if page.len() <= cap {
            page.len()
        } else {
            cap
        };
        let ghost offered = capped(page@, cap as nat);
        let ghost start = pool@;
        let mut added: usize = 0;
        let mut i: usize = 0;
        assert(offered.take(0) =~= Seq::<Option<ToneCandidate>>::empty());
        while i < limit
            invariant
                i <= limit,
                limit == offered.len(),
                limit <= page.len(),
                forall|k: int| 0 <= k < limit ==> offered[k] == page@[k],
                pool@ == absorbed(start, offered.take(i as int)),
                pool@.len() == start.len() + added,
                added <= i,
                ids_of(pool@).no_duplicates(),
                forall|id: i64| seen@.contains(id) <==> ids_of(pool@).contains(id),
                ids_of(start).no_duplicates(),
                primary_done <= primary@.len(),
                fallback_done <= fallback@.len(),
                fallback_done > 0 ==> primary_done == primary@.len(),
                primary_done < primary@.len() || fallback_done < fallback@.len(),
            decreases limit - i,
        {
            proof {
                let next = offered.take(i + 1);
                assert(next.drop_last() =~= offered.take(i as int));
                assert(next.last() == page@[i as int]);
                lemma_absorbed_is_deduplicated(start, next);
            }
            match &page[i] {
                Some(tone) => {
                    let ghost before = pool@;
                    if seen.insert(tone.id) {
                        pool.push(tone.duplicate());
                        added += 1;
                        proof {
                            assert(ids_of(pool@) =~= ids_of(before).push(tone.id));
                            assert forall|id: i64| seen@.contains(id) <==> ids_of(pool@).contains(
                                id,
                            ) by {
                                if ids_of(before).contains(id) {
                                    let w = choose|w: int|
                                        0 <= w < ids_of(before).len() && ids_of(before)[w] == id;
                                    assert(ids_of(pool@)[w] == id);
                                }
                                if id == tone.id {
                                    assert(ids_of(pool@)[before.len() as int] == id);
                                }
                                if ids_of(pool@).contains(id) && id != tone.id {
                                    let w = choose|w: int|
                                        0 <= w < ids_of(pool@).len() && ids_of(pool@)[w] == id;
                                    assert(ids_of(before)[w] == id);
                                }
                            }
                        }
                    }
                },
                None => {},
            }
            i += 1;
        }
        proof {
            assert(offered.take(limit as int) =~= offered);
        }
        if primary_done < primary.len() {
            primary_done = primary_done + 1;
            if primary_done == primary.len() {
                short = pool.len() < MIN_POOL;
            }
        } else if fallback_done < fallback.len() {
            fallback_done = fallback_done + 1;
        }
        (
            PoolBuilder { primary, fallback, cap, primary_done, fallback_done, short, pool, seen },
            added,
        )
    }

    /// Hands out the pool.
    pub fn into_pool(self) -> (r: Vec<ToneCandidate>)
        ensures
            r@ == self.pool(),
            ids_of(r@).no_duplicates(),
    {
        proof {
            use_type_invariant(&self);
        }
        self.pool
    }
}

/// One query to the catalog.
#[derive(Debug, PartialEq, Eq)]
pub struct SearchRequest {
    /// The search term.
    pub query: String,
    /// The gear category to restrict the search to, if any.
    pub gear: Option<String>,
    /// How many results to ask for: at most [`MAX_PAGE_SIZE`].
    pub page_size: usize,
}

/// The gear filter that a query carries: none for no filter and for an
/// empty one.
pub open spec fn gear_param(gear: Option<&str>) -> Option<Seq<char>> {
    match gear {
        Some(g) => if g@.len() > 0 {
            Some(g@)
        } else {
            None
        },
        None => None,
    }
}

/// The page size that a query carries.
pub open spec fn page_param(page_size: usize) -> usize {
    if page_size <= MAX_PAGE_SIZE {
        page_size
    } else {
        MAX_PAGE_SIZE
    }
}

/// Puts a query together: the page size is capped, and an empty gear filter
/// is no filter.
pub fn search_request(query: &str, gear: Option<&str>, page_size: usize) -> (r: SearchRequest)
    ensures
        r.query@ == query@,
        r.page_size == page_param(page_size),
        (match r.gear {
            Some(g) => Some(g@),
            None => None,
        }) == gear_param(gear),
{
    let gear = match gear {
        Some(g) => if g.is_empty() {
            None
        } else {
            Some(String::from_str(g))
        },
        None => None,
    };
    SearchRequest {
        query: String::from_str(query),
        gear,
        page_size: if page_size <= MAX_PAGE_SIZE {
            page_size
        } else {
            MAX_PAGE_SIZE
        },
    }
}

/// The candidates of a pool that belong to one gear category.
pub fn only_gear(pool: Vec<ToneCandidate>, gear: &str) -> (r: Vec<ToneCandidate>)
    ensures
        r@ == of_gear(pool@, gear@),
{
    let mut r: Vec<ToneCandidate> = Vec::new();
    let mut i: usize = 0;
    assert(pool@.take(0) =~= Seq::<ToneCandidate>::empty());
    while i < pool.len()
        invariant
            i <= pool.len(),
            r@ == of_gear(pool@.take(i as int), gear@),
        decreases pool.len() - i,
    {
        proof {
            let next = pool@.take(i + 1);
            assert(next.drop_last() =~= pool@.take(i as int));
            assert(next.last() == pool@[i as int]);
        }
        if eq_ignore_ascii_case(pool[i].gear.as_str(), gear) {
            r.push(pool[i].duplicate());
        }
        i += 1;
    }
    assert(pool@.take(pool.len() as int) =~= pool@);
    r
}

} // verus!

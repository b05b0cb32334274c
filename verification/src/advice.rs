//! What an answer of the completion service says about a numbered list: the
//! positions that it picks, and the reasons that it gives for them.

use crate::json::Json;
use crate::text::{sanitize_line, single_line};
use vstd::prelude::*;

verus! {

/// What came back for a question: the answer of the completion service, or
/// the description of its failure. Every decision that asks the service has
/// a rule for both.
pub enum Answer<'a> {
    Given(&'a Json),
    Failed(&'a str),
}

impl<'a> Answer<'a> {
    /// The object of the answer, if there is an answer.
    pub open spec fn given(self) -> Option<Json> {
        match self {
            Answer::Given(doc) => Some(*doc),
            Answer::Failed(_) => None,
        }
    }
}

/// The position that a value names: a non-negative integer that fits
/// `usize`.
pub open spec fn position_in(j: Json) -> Option<usize> {
    match j.unsigned() {
        Some(n) => if n <= usize::MAX {
            Some(n as usize)
        } else {
            None
        },
        None => None,
    }
}

/// The positions named by the items of a list, in order. An item that names
/// no position is skipped.
pub open spec fn positions_in(items: Seq<Json>) -> Seq<usize>
    decreases items.len(),
{
    if items.len() == 0 {
        Seq::empty()
    } else {
        let head = positions_in(items.drop_last());
        match position_in(items.last()) {
            Some(p) => head.push(p),
            None => head,
        }
    }
}

/// The positions that a member names; none for a missing member and for a
/// value that is no list.
pub open spec fn picks_in(value: Option<Json>) -> Seq<usize> {
    match value {
        Some(j) => match j.items() {
            Some(items) => positions_in(items),
            None => Seq::empty(),
        },
        None => Seq::empty(),
    }
}

/// The reason that one item gives for position `at`: the item must name that
/// position under `index` and hold a non-blank string under `reason`.
pub open spec fn reason_by(item: Json, at: usize) -> Option<Seq<char>> {
    match item.field("index"@) {
        Some(i) => if i.unsigned() == Some(at as u64) {
            match item.field("reason"@) {
                Some(r) => match r.text() {
                    Some(s) => if single_line(s).len() > 0 {
                        Some(single_line(s))
                    } else {
                        None
                    },
                    None => None,
                },
                None => None,
            }
        } else {
            None
        },
        None => None,
    }
}

/// The reason that a list of items gives for position `at`: that of the
/// last item that gives one.
pub open spec fn reason_among(items: Seq<Json>, at: usize) -> Option<Seq<char>>
    decreases items.len(),
{
    if items.len() == 0 {
        None
    } else {
        match reason_by(items.last(), at) {
            Some(r) => Some(r),
            None => reason_among(items.drop_last(), at),
        }
    }
}

/// The reason that a member gives for position `at`.
pub open spec fn reason_in(value: Option<Json>, at: usize) -> Option<Seq<char>> {
    match value {
        Some(j) => match j.items() {
            Some(items) => reason_among(items, at),
            None => None,
        },
        None => None,
    }
}

/// The single-line form of a member that is a non-blank string.
pub open spec fn stated_in(value: Option<Json>) -> Option<Seq<char>> {
    match value {
        Some(j) => match j.text() {
            Some(s) => if single_line(s).len() > 0 {
                Some(single_line(s))
            } else {
                None
            },
            None => None,
        },
        None => None,
    }
}

/// The view of an optional string.
pub open spec fn shown(s: Option<String>) -> Option<Seq<char>> {
    match s {
        Some(t) => Some(t@),
        None => None,
    }
}

/// The value behind an optional reference.
pub open spec fn held(value: Option<&Json>) -> Option<Json> {
    match value {
        Some(j) => Some(*j),
        None => None,
    }
}

/// The position that a value names.
pub fn position_of(j: &Json) -> (r: Option<usize>)
    ensures
        r == position_in(*j),
{
    match j.as_u64() {
        Some(n) => if n <= usize::MAX as u64 {
            Some(n as usize)
        } else {
            None
        },
        None => None,
    }
}

/// The positions that a member names.
pub fn parse_picks(value: Option<&Json>) -> (r: Vec<usize>)
    ensures
        r@ == picks_in(held(value)),
{
    let mut out: Vec<usize> = Vec::new();
    let items = match value {
        Some(j) => match j.as_array() {
            Some(items) => items,
            None => {
                return out;
            },
        },
        None => {
            return out;
        },
    };
    let mut i: usize = 0;
    assert(items@.take(0) =~= Seq::<Json>::empty());
    while i < items.len()
        invariant
            i <= items.len(),
            out@ == positions_in(items@.take(i as int)),
        decreases items.len() - i,
    {
        proof {
            let next = items@.take(i + 1);
            assert(next.drop_last() =~= items@.take(i as int));
            assert(next.last() == items@[i as int]);
        }
        match position_of(&items[i]) {
            Some(p) => {
                out.push(p);
            },
            None => {},
        }
        i += 1;
    }
    assert(items@.take(items.len() as int) =~= items@);
    out
}

/// The single-line form of a member that is a non-blank string.
pub fn stated_line(value: Option<&Json>) -> (r: Option<String>)
    ensures
        shown(r) == stated_in(held(value)),
{
    match value {
        Some(j) => match j.as_str() {
            Some(s) => {
                let line = sanitize_line(s);
                if line.as_str().is_empty() {
                    None
                } else {
                    Some(line)
                }
            },
            None => None,
        },
        None => None,
    }
}

/// The reason that one item gives for position `at`.
fn reason_of(item: &Json, at: usize) -> (r: Option<String>)
    ensures
        shown(r) == reason_by(*item, at),
{
    match item.get("index") {
        Some(i) => match i.as_u64() {
            Some(n) => if n == at as u64 {
                stated_line(item.get("reason"))
            } else {
                None
            },
            None => None,
        },
        None => None,
    }
}

/// The reason that a member gives for position `at`: when several items
/// speak of that position, the last one counts.
pub fn parse_reason(value: Option<&Json>, at: usize) -> (r: Option<String>)
    ensures
        shown(r) == reason_in(held(value), at),
        r matches Some(s) ==> s@.len() > 0,
{
    let items = match value {
        Some(j) => match j.as_array() {
            Some(items) => items,
            None => {
                return None;
            },
        },
        None => {
            return None;
        },
    };
    let mut i: usize = items.len();
    assert(items@.take(items.len() as int) =~= items@);
    while i > 0
        invariant
            i <= items.len(),
            reason_in(held(value), at) == reason_among(items@.take(i as int), at),
        decreases i,
    {
        proof {
            let cur = items@.take(i as int);
            assert(cur.drop_last() =~= items@.take(i - 1));
            assert(cur.last() == items@[i - 1]);
        }
        match reason_of(&items[i - 1], at) {
            Some(r) => {
                return Some(r);
            },
            None => {},
        }
        i -= 1;
    }
    None
}

} // verus!

//! The rig assembler: one preset per selected amplifier, and no cabinet in
//! two presets of the same run.

use crate::catalog::ToneCandidate;
use std::collections::HashSet;
use vstd::prelude::*;
use vstd::string::StringExecFns;

verus! {

/// The cabinet reason of a preset whose amplifier needs no cabinet.
pub const REASON_NOT_NEEDED: &'static str = "Amp profile judged complete without extra cab.";

/// The cabinet reason of a preset for which no cabinet could be had.
pub const REASON_NO_CANDIDATE: &'static str = "No cab candidate found for this amp.";

/// One assembled rig: an amplifier, the cabinet that goes with it if it
/// needs and got one, and the reasons for each decision.
#[derive(Debug, PartialEq, Eq)]
pub struct RigPreset {
    pub amp: ToneCandidate,
    pub cab: Option<ToneCandidate>,
    pub needs_cab: bool,
    pub amp_selection_reason: String,
    pub cab_decision_reason: String,
    pub cab_selection_reason: String,
}

/// The preset has the cabinet with identifier `id`.
pub open spec fn takes_cab(preset: RigPreset, id: i64) -> bool {
    match preset.cab {
        Some(cab) => cab.id == id,
        None => false,
    }
}

/// One of the presets has the cabinet with identifier `id`.
pub open spec fn uses_cab(presets: Seq<RigPreset>, id: i64) -> bool {
    exists|k: int| 0 <= k < presets.len() && takes_cab(#[trigger] presets[k], id)
}

/// No two presets have the same cabinet.
pub open spec fn cabs_are_distinct(presets: Seq<RigPreset>) -> bool {
    forall|i: int, j: int, id: i64|
        0 <= i < j < presets.len() && #[trigger] takes_cab(presets[i], id) ==> !#[trigger] takes_cab(
            presets[j],
            id,
        )
}

/// The candidates of `pool` that no preset has as its cabinet, in order.
pub open spec fn unused_among(pool: Seq<ToneCandidate>, presets: Seq<RigPreset>) -> Seq<
    ToneCandidate,
>
    decreases pool.len(),
{
    if pool.len() == 0 {
        Seq::empty()
    } else {
        let head = unused_among(pool.drop_last(), presets);
        if uses_cab(presets, pool.last().id) {
            head
        } else {
            head.push(pool.last())
        }
    }
}

/// The cabinet that a new preset gets: the picked one, if the amplifier
/// needs a cabinet and no earlier preset has that one.
pub open spec fn granted_cab(
    presets: Seq<RigPreset>,
    needs_cab: bool,
    pick: Option<(ToneCandidate, String)>,
) -> Option<ToneCandidate> {
    match pick {
        Some(p) => if needs_cab && !uses_cab(presets, p.0.id) {
            Some(p.0)
        } else {
            None
        },
        None => None,
    }
}

/// The reason recorded for the cabinet slot of a new preset.
pub open spec fn granted_reason(
    presets: Seq<RigPreset>,
    needs_cab: bool,
    pick: Option<(ToneCandidate, String)>,
) -> Seq<char> {
    if !needs_cab {
        REASON_NOT_NEEDED@
    } else {
        match pick {
            Some(p) => if uses_cab(presets, p.0.id) {
                REASON_NO_CANDIDATE@
            } else {
                p.1@
            },
            None => REASON_NO_CANDIDATE@,
        }
    }
}

/// The presets of one run, together with the cabinets that they have used
/// up.
pub struct RigRun {
    presets: Vec<RigPreset>,
    used_cab_ids: HashSet<i64>,
}

impl RigRun {
    /// No cabinet is in two presets, and `used_cab_ids` holds the
    /// identifiers of the cabinets that the presets have.
    #[verifier::type_invariant]
    spec fn consistent(self) -> bool {
        &&& cabs_are_distinct(self.presets@)
        &&& forall|id: i64| self.used_cab_ids@.contains(id) <==> uses_cab(self.presets@, id)
    }

    /// The presets assembled so far, in order.
    pub closed spec fn view(self) -> Seq<RigPreset> {
        self.presets@
    }

    /// A run without presets.
    pub fn new() -> (r: RigRun)
        ensures
            r@.len() == 0,
    {
        broadcast use vstd::std_specs::hash::group_hash_axioms;

        RigRun { presets: Vec::new(), used_cab_ids: HashSet::new() }
    }

    /// The presets assembled so far. No cabinet is in two of them.
    pub fn presets(&self) -> (r: &Vec<RigPreset>)
        ensures
            r@ == self@,
            cabs_are_distinct(r@),
    {
        proof {
            use_type_invariant(self);
        }
        &self.presets
    }

    /// Whether a preset of this run has the cabinet `id`.
    pub fn cab_is_used(&self, id: i64) -> (r: bool)
        ensures
            r == uses_cab(self@, id),
    {
        broadcast use vstd::std_specs::hash::group_hash_axioms;

        proof {
            use_type_invariant(self);
        }
        self.used_cab_ids.contains(&id)
    }

    /// The candidates of a cabinet pool that are still free in this run.
    pub fn unused_cabs(&self, pool: &[ToneCandidate]) -> (r: Vec<ToneCandidate>)
        ensures
            r@ == unused_among(pool@, self@),
            forall|k: int| 0 <= k < r@.len() ==> !uses_cab(self@, (#[trigger] r@[k]).id),
    {
        let mut r: Vec<ToneCandidate> = Vec::new();
        let mut i: usize = 0;
        assert(pool@.take(0) =~= Seq::<ToneCandidate>::empty());
        while i < pool.len()
            invariant
                i <= pool.len(),
                r@ == unused_among(pool@.take(i as int), self@),
                forall|k: int| 0 <= k < r@.len() ==> !uses_cab(self@, (#[trigger] r@[k]).id),
            decreases pool.len() - i,
        {
            proof {
                let next = pool@.take(i + 1);
                assert(next.drop_last() =~= pool@.take(i as int));
                assert(next.last() == pool@[i as int]);
            }
            if !self.cab_is_used(pool[i].id) {
                r.push(pool[i].duplicate());
            }
            i += 1;
        }
        assert(pool@.take(pool.len() as int) =~= pool@);
        r
    }

    /// Adds the preset of one amplifier.
    ///
    /// `verdict` says whether the amplifier needs a cabinet and why; `pick`
    /// is the cabinet chosen for it, with the reason. The preset gets the
    /// cabinet only if one is needed and no earlier preset has it; the
    /// cabinet is then used up for the rest of the run.
    pub fn add_preset(
        self,
        amp: ToneCandidate,
        amp_selection_reason: String,
        verdict: (bool, String),
        pick: Option<(ToneCandidate, String)>,
    ) -> (r: RigRun)
        ensures
            r@.len() == self@.len() + 1,
            r@.take(self@.len() as int) == self@,
            r@.last().amp == amp,
            r@.last().amp_selection_reason == amp_selection_reason,
            r@.last().needs_cab == verdict.0,
            r@.last().cab_decision_reason == verdict.1,
            r@.last().cab == granted_cab(self@, verdict.0, pick),
            r@.last().cab_selection_reason@ == granted_reason(self@, verdict.0, pick),
    {
        broadcast use vstd::std_specs::hash::group_hash_axioms;

        proof {
            use_type_invariant(&self);
        }
        let ghost before = self@;
        let RigRun { presets: mut presets, used_cab_ids: mut used_cab_ids } = self;
        let (needs_cab, cab_decision_reason) = verdict;
        let (cab, cab_selection_reason) = if !needs_cab {
            (None, String::from_str(REASON_NOT_NEEDED))
        } else {
            match pick {
                Some((cab, reason)) => if used_cab_ids.contains(&cab.id) {
                    (None, String::from_str(REASON_NO_CANDIDATE))
                } else {
                    (Some(cab), reason)
                },
                None => (None, String::from_str(REASON_NO_CANDIDATE)),
            }
        };
        match &cab {
            Some(c) => {
                used_cab_ids.insert(c.id);
            },
            None => {},
        }
        let preset = RigPreset {
            amp,
            cab,
            needs_cab,
            amp_selection_reason,
            cab_decision_reason,
            cab_selection_reason,
        };
        presets.push(preset);
        proof {
            let after = presets@;
            assert(after.take(before.len() as int) =~= before);
            assert forall|id: i64| used_cab_ids@.contains(id) <==> uses_cab(after, id) by {
                if uses_cab(before, id) {
                    let k = choose|k: int| 0 <= k < before.len() && takes_cab(#[trigger] before[k], id);
                    assert(takes_cab(after[k], id));
                }
                if takes_cab(preset, id) {
                    assert(takes_cab(after[before.len() as int], id));
                }
                if uses_cab(after, id) {
                    let k = choose|k: int| 0 <= k < after.len() && takes_cab(#[trigger] after[k], id);
                    if k < before.len() {
                        assert(takes_cab(before[k], id));
                    }
                }
            }
            assert forall|i: int, j: int, id: i64|
                0 <= i < j < after.len() && #[trigger] takes_cab(after[i], id) implies !#[trigger] takes_cab(
                after[j],
                id,
            ) by {
                assert(after[i] == before[i]);
                if j < before.len() {
                    assert(after[j] == before[j]);
                } else {
                    assert(uses_cab(before, id));
                }
            }
        }
        RigRun { presets, used_cab_ids }
    }

    /// Ends the run and hands out its presets.
    pub fn into_presets(self) -> (r: Vec<RigPreset>)
        ensures
            r@ == self@,
            cabs_are_distinct(r@),
    {
        proof {
            use_type_invariant(&self);
        }
        self.presets
    }
}

} // verus!

//! Idempotent acquisition: what to do with each chosen model, and what is
//! recorded about it.
//!
//! Looking at the disk and fetching are left to the caller. For each model
//! the caller asks [`plan_download`] with what it found at the destination,
//! does what the plan says, and files the outcome with [`record_download`].

use crate::catalog::{ModelFile, ToneCandidate};
use crate::decimal::{decimal, digits_of};
use crate::naming::{safe_tone_dir_name, tone_dir_name};
use crate::text::string_of;
use vstd::prelude::*;
use vstd::string::StringExecFns;

verus! {

/// The terminal state of one model of one component.
#[derive(Debug, Clone, Copy, PartialEq, Eq, Structural)]
pub enum DownloadStatus {
    /// The file was fetched in this run.
    Downloaded,
    /// The file was there already and was left alone.
    SkippedExists,
    /// The file is absent or incomplete.
    Error,
}

/// What is to be done about one model.
#[derive(Debug, Clone, Copy, PartialEq, Eq, Structural)]
pub enum DownloadPlan {
    /// A file stands at the destination: touch nothing.
    Skip,
    /// The model has no address to fetch it from: give up on it.
    Fail,
    /// Fetch the model to the destination.
    Fetch,
}

/// What the caller found out while carrying out a plan.
#[derive(Debug, Clone, Copy, PartialEq, Eq, Structural)]
pub struct Outcome {
    /// Whether a transfer was made and went through.
    pub fetched: bool,
    /// The size in bytes of the file at the destination, if it could be
    /// measured.
    pub measured: Option<u64>,
}

/// What happened to one model of one component of one preset.
#[derive(Debug, PartialEq, Eq)]
pub struct DownloadRecord {
    pub preset: String,
    pub component_role: String,
    pub tone_id: i64,
    pub tone_title: String,
    pub model_name: String,
    pub status: DownloadStatus,
    pub path: String,
    pub size_bytes: u64,
}

/// The plan for a model: an existing file is never fetched again, and a
/// model without an address cannot be fetched.
pub open spec fn planned(exists: bool, url: Seq<char>) -> DownloadPlan {
    if exists {
        DownloadPlan::Skip
    } else if url.len() == 0 {
        DownloadPlan::Fail
    } else {
        DownloadPlan::Fetch
    }
}

/// The state that a plan ends in.
pub open spec fn status_after(plan: DownloadPlan, outcome: Outcome) -> DownloadStatus {
    match plan {
        DownloadPlan::Skip => DownloadStatus::SkippedExists,
        DownloadPlan::Fail => DownloadStatus::Error,
        DownloadPlan::Fetch => if outcome.fetched {
            DownloadStatus::Downloaded
        } else {
            DownloadStatus::Error
        },
    }
}

/// The size that is recorded: the measured one for a file that is there,
/// zero for one that is not or could not be measured.
pub open spec fn size_after(plan: DownloadPlan, outcome: Outcome) -> u64 {
    if status_after(plan, outcome) == DownloadStatus::Error {
        0
    } else {
        match outcome.measured {
            Some(n) => n,
            None => 0,
        }
    }
}

/// How many of the records say that a file was fetched.
pub open spec fn downloaded_in(records: Seq<DownloadRecord>) -> nat
    decreases records.len(),
{
    if records.len() == 0 {
        0
    } else {
        downloaded_in(records.drop_last()) + (if records.last().status
            == DownloadStatus::Downloaded {
            1nat
        } else {
            0nat
        })
    }
}

/// The label of the preset at position `index`, counted from one.
pub open spec fn preset_label_text(index: usize) -> Seq<char> {
    "Preset "@ + decimal(index + 1)
}

/// The directory of the preset at position `index`, counted from one.
pub open spec fn preset_dir_text(index: usize) -> Seq<char> {
    "preset_"@ + decimal(index + 1)
}

/// The directory of one component of a preset: its role, `_`, and the
/// directory name of its catalog entry.
pub open spec fn component_dir_text(role: Seq<char>, tone: ToneCandidate) -> Seq<char> {
    role + seq!['_'] + tone_dir_name(tone.title@, tone.id)
}

impl DownloadStatus {
    /// The word under which the state is reported.
    pub open spec fn label_text(self) -> Seq<char> {
        match self {
            DownloadStatus::Downloaded => "downloaded"@,
            DownloadStatus::SkippedExists => "skipped_exists"@,
            DownloadStatus::Error => "error"@,
        }
    }

    /// The word under which the state is reported.
    pub fn label(&self) -> (r: &'static str)
        ensures
            r@ == self.label_text(),
    {
        match self {
            DownloadStatus::Downloaded => "downloaded",
            DownloadStatus::SkippedExists => "skipped_exists",
            DownloadStatus::Error => "error",
        }
    }
}

/// The decimal text of a position counted from one.
fn ordinal(index: usize) -> (r: String)
    ensures
        r@ == decimal(index + 1),
{
    string_of(&digits_of(index as u128 + 1))
}

/// The label of the preset at position `index`: `Preset 1` for the first.
pub fn preset_label(index: usize) -> (r: String)
    ensures
        r@ == preset_label_text(index),
{
    let mut r = String::from_str("Preset ");
    r.append(ordinal(index).as_str());
    r
}

/// The directory of the preset at position `index`: `preset_1` for the
/// first.
pub fn preset_dir_name(index: usize) -> (r: String)
    ensures
        r@ == preset_dir_text(index),
{
    let mut r = String::from_str("preset_");
    r.append(ordinal(index).as_str());
    r
}

/// The directory of one component of a preset.
pub fn component_dir_name(role: &str, tone: &ToneCandidate) -> (r: String)
    ensures
        r@ == component_dir_text(role@, *tone),
{
    let mut r = String::from_str(role);
    r.push('_');
    r.append(safe_tone_dir_name(tone.title.as_str(), tone.id).as_str());
    r
}

/// Decides what to do about a model, given whether a file stands at its
/// destination already. An existing file is skipped, whatever else holds.
pub fn plan_download(model: &ModelFile, exists: bool) -> (r: DownloadPlan)
    ensures
        r == planned(exists, model.url@),
{
    if exists {
        DownloadPlan::Skip
    } else if model.url.as_str().is_empty() {
        DownloadPlan::Fail
    } else {
        DownloadPlan::Fetch
    }
}

/// Writes the record of one model after its plan was carried out.
pub fn record_download(
    preset: &str,
    component_role: &str,
    tone: &ToneCandidate,
    model_name: &str,
    path: &str,
    plan: DownloadPlan,
    outcome: Outcome,
) -> (r: DownloadRecord)
    ensures
        r.preset@ == preset@,
        r.component_role@ == component_role@,
        r.tone_id == tone.id,
        r.tone_title@ == tone.title@,
        r.model_name@ == model_name@,
        r.path@ == path@,
        r.status == status_after(plan, outcome),
        r.size_bytes == size_after(plan, outcome),
{
    let status = match plan {
        DownloadPlan::Skip => DownloadStatus::SkippedExists,
        DownloadPlan::Fail => DownloadStatus::Error,
        DownloadPlan::Fetch => if outcome.fetched {
            DownloadStatus::Downloaded
        } else {
            DownloadStatus::Error
        },
    };
    let size_bytes: u64 = match status {
        DownloadStatus::Error => 0,
        _ => match outcome.measured {
            Some(n) => n,
            None => 0,
        },
    };
    DownloadRecord {
        preset: String::from_str(preset),
        component_role: String::from_str(component_role),
        tone_id: tone.id,
        tone_title: tone.title.clone(),
        model_name: String::from_str(model_name),
        status,
        path: String::from_str(path),
        size_bytes,
    }
}

/// The download records of a run. Records are only ever added; a record that
/// is in the ledger stays as it is.
pub struct DownloadLedger {
    records: Vec<DownloadRecord>,
}

impl DownloadLedger {
    /// The records filed so far, in order.
    pub closed spec fn view(self) -> Seq<DownloadRecord> {
        self.records@
    }

    /// A ledger without records.
    pub fn new() -> (r: DownloadLedger)
        ensures
            r@.len() == 0,
    {
        DownloadLedger { records: Vec::new() }
    }

    /// Files one more record behind the others.
    pub fn append(&mut self, record: DownloadRecord)
        ensures
            final(self)@ == old(self)@.push(record),
    {
        self.records.push(record);
    }

    /// The records filed so far.
    pub fn records(&self) -> (r: &Vec<DownloadRecord>)
        ensures
            r@ == self@,
    {
        &self.records
    }

    /// How many files were fetched in this run.
    pub fn downloaded_count(&self) -> (r: usize)
        ensures
            r == downloaded_in(self@),
    {
        count_downloaded(self.records.as_slice())
    }
}

/// How many files were fetched, going by the records.
pub fn count_downloaded(records: &[DownloadRecord]) -> (r: usize)
    ensures
        r == downloaded_in(records@),
{
    let mut r: usize = 0;
    let mut i: usize = 0;
    assert(records@.take(0) =~= Seq::<DownloadRecord>::empty());
    while i < records.len()
        invariant
            i <= records.len(),
            r <= i,
            r == downloaded_in(records@.take(i as int)),
        decreases records.len() - i,
    {
        proof {
            let next = records@.take(i + 1);
            assert(next.drop_last() =~= records@.take(i as int));
            assert(next.last() == records@[i as int]);
        }
        match records[i].status {
            DownloadStatus::Downloaded => {
                r += 1;
            },
            _ => {},
        }
        i += 1;
    }
    assert(records@.take(records.len() as int) =~= records@);
    r
}

} // verus!

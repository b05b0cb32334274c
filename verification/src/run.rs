//! The frame of a run: its settings, its failures and the journal of its
//! decisions.

use crate::options::{
    clamp_max_results, clamp_max_tones, clamped, normalize_gemini_model, normalized_model,
    text_of, DEFAULT_MAX_RESULTS, DEFAULT_MAX_TONES,
};
use crate::text::{chars_of, sanitize_line, single_line, trim, trim_bounds};
use vstd::prelude::*;
use vstd::string::StringExecFns;

verus! {

/// Where the files of a run go when the caller names no directory.
pub const DEFAULT_OUTPUT_DIR: &'static str = "./smart_downloaded_tones";

/// What is reported for a request without text.
pub const EMPTY_REQUEST_MESSAGE: &'static str = "Request text is required.";

/// What is reported when a key is missing.
pub const MISSING_KEYS_MESSAGE: &'static str =
    "Missing API keys. Provide both TONE3000 and Gemini keys from UI, env vars, or keys.txt.";

/// The kinds of failure that a run knows.
#[derive(Debug, Clone, Copy, PartialEq, Eq, Structural)]
pub enum ErrorKind {
    /// The request holds no text.
    InvalidRequest,
    /// A required key could not be found.
    MissingCredentials,
    /// The catalog refused the session.
    Auth,
    /// A catalog query failed.
    Search,
    /// The completion service failed or gave no usable answer.
    Completion,
    /// The transfer of one model failed.
    Download,
    /// A directory or file could not be created.
    Filesystem,
}

/// What a failure does to the run.
#[derive(Debug, Clone, Copy, PartialEq, Eq, Structural)]
pub enum Severity {
    /// The run ends at once and reports the failure.
    Fatal,
    /// A deterministic fallback takes the place of the answer.
    Recoverable,
    /// The item is recorded as failed and the run goes on.
    PerItem,
}

impl ErrorKind {
    /// What a failure of this kind does to the run.
    pub open spec fn severity_spec(self) -> Severity {
        match self {
            ErrorKind::Completion => Severity::Recoverable,
            ErrorKind::Download => Severity::PerItem,
            _ => Severity::Fatal,
        }
    }

    /// What a failure of this kind does to the run.
    pub fn severity(self) -> (r: Severity)
        ensures
            r == self.severity_spec(),
    {
        match self {
            ErrorKind::Completion => Severity::Recoverable,
            ErrorKind::Download => Severity::PerItem,
            _ => Severity::Fatal,
        }
    }

    /// Whether a failure of this kind ends the run.
    pub fn is_fatal(self) -> (r: bool)
        ensures
            r == (self.severity_spec() == Severity::Fatal),
    {
        match self.severity() {
            Severity::Fatal => true,
            _ => false,
        }
    }
}

/// A failure of a run: its kind, and what is reported about it.
#[derive(Debug, PartialEq, Eq)]
pub struct RunFailure {
    pub kind: ErrorKind,
    pub message: String,
}

impl RunFailure {
    /// A failure of the given kind.
    pub fn new(kind: ErrorKind, message: &str) -> (r: RunFailure)
        ensures
            r.kind == kind,
            r.message@ == message@,
    {
        RunFailure { kind, message: String::from_str(message) }
    }

    /// Whether the failure ends the run.
    pub fn is_fatal(&self) -> (r: bool)
        ensures
            r == (self.kind.severity_spec() == Severity::Fatal),
    {
        self.kind.is_fatal()
    }
}

/// The settings of a run, each within its range.
#[derive(Debug, PartialEq, Eq)]
pub struct RunSettings {
    /// The request on a single line.
    pub request: String,
    /// The completion model.
    pub gemini_model: String,
    /// How many presets to assemble: 1 to 5.
    pub max_tones: usize,
    /// How many results of each search to look at: 5 to 25.
    pub max_results: usize,
}

/// The count that an optional setting stands for.
pub open spec fn asked_or(asked: Option<u8>, default: u8) -> int {
    match asked {
        Some(v) => v as int,
        None => default as int,
    }
}

impl RunSettings {
    /// These are the settings that the given wishes lead to.
    pub open spec fn settles(
        self,
        request: Seq<char>,
        gemini_model: Option<Seq<char>>,
        max_tones: Option<u8>,
        max_results: Option<u8>,
    ) -> bool {
        &&& self.request@ == single_line(request)
        &&& self.gemini_model@ == normalized_model(gemini_model)
        &&& self.max_tones == clamped(asked_or(max_tones, DEFAULT_MAX_TONES), 1, 5)
        &&& self.max_results == clamped(asked_or(max_results, DEFAULT_MAX_RESULTS), 5, 25)
    }

    /// Brings the wishes of a caller into their ranges. A request without
    /// text is refused; everything else has a default.
    pub fn new(
        request: &str,
        gemini_model: Option<&str>,
        max_tones: Option<u8>,
        max_results: Option<u8>,
    ) -> (r: Result<RunSettings, RunFailure>)
        ensures
            match r {
                Ok(s) => trim(request@).len() > 0 && s.settles(
                    request@,
                    text_of(gemini_model),
                    max_tones,
                    max_results,
                ),
                Err(e) => trim(request@).len() == 0 && e.kind == ErrorKind::InvalidRequest
                    && e.message@ == EMPTY_REQUEST_MESSAGE@,
            },
    {
        let (a, b) = trim_bounds(&chars_of(request));
        if a == b {
            return Err(RunFailure::new(ErrorKind::InvalidRequest, EMPTY_REQUEST_MESSAGE));
        }
        Ok(
            RunSettings {
                request: sanitize_line(request),
                gemini_model: normalize_gemini_model(gemini_model),
                max_tones: clamp_max_tones(max_tones),
                max_results: clamp_max_results(max_results),
            },
        )
    }
}

/// One entry of the journal: what was decided at one step, and why.
#[derive(Debug, PartialEq, Eq)]
pub struct AiStep {
    pub step: usize,
    pub title: String,
    pub details: Vec<String>,
}

/// The steps are numbered from one, without gaps.
pub open spec fn numbered(steps: Seq<AiStep>) -> bool {
    forall|i: int| 0 <= i < steps.len() ==> (#[trigger] steps[i]).step == i + 1
}

/// The journal of a run: its steps, numbered from one in the order in which
/// they were taken.
pub struct Journal {
    steps: Vec<AiStep>,
}

impl Journal {
    /// The steps are numbered from one, without gaps.
    #[verifier::type_invariant]
    spec fn consistent(self) -> bool {
        numbered(self.steps@)
    }

    /// The steps taken so far.
    pub closed spec fn view(self) -> Seq<AiStep> {
        self.steps@
    }

    /// A journal without steps.
    pub fn new() -> (r: Journal)
        ensures
            r@.len() == 0,
    {
        Journal { steps: Vec::new() }
    }

    /// Adds a step under the next number. A journal that holds as many steps
    /// as the machine can count stays as it is.
    pub fn push_step(self, title: String, details: Vec<String>) -> (r: Journal)
        ensures
            self@.len() < usize::MAX ==> {
                &&& r@.len() == self@.len() + 1
                &&& r@.take(self@.len() as int) == self@
                &&& r@.last().step == self@.len() + 1
                &&& r@.last().title == title
                &&& r@.last().details == details
            },
            self@.len() >= usize::MAX ==> r@ == self@,
            numbered(r@),
    {
        proof {
            use_type_invariant(&self);
        }
        let Journal { steps: mut steps } = self;
        let ghost before = steps@;
        let n = steps.len();
        if n == usize::MAX {
            return Journal { steps };
        }
        steps.push(AiStep { step: n + 1, title, details });
        assert(steps@.take(before.len() as int) =~= before);
        Journal { steps }
    }

    /// The steps taken so far, numbered from one.
    pub fn steps(&self) -> (r: &Vec<AiStep>)
        ensures
            r@ == self@,
            numbered(r@),
    {
        proof {
            use_type_invariant(self);
        }
        &self.steps
    }
}

} // verus!

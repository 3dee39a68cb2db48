//! Adoption stages, fixture kinds, executable-pack validation rules and the
//! adoption gate.

use vstd::prelude::*;
use vstd::string::StringSliceAdditionalSpecFns;
use crate::fs::containment::{split_on, split_segments, views};
use crate::text::{append_chars, append_str, chars_of, equals_str, has_prefix, string_of, trim, trimmed};
use crate::patterns::baseline::PatternGroup;
use crate::patterns::document::{group_code, group_code_str};
use crate::patterns::predicate::PredicateProgramError;
use crate::profiles::report::{decimal, decimal_chars};

verus! {

#[derive(Debug, Clone, Copy, PartialEq, Eq, Structural)]
pub enum PatternAdoptionStage {
    CommonBaseline,
    Candidate,
}

impl PatternAdoptionStage {
    pub open spec fn label(self) -> Seq<char> {
        match self {
            PatternAdoptionStage::CommonBaseline => "common_baseline"@,
            PatternAdoptionStage::Candidate => "candidate"@,
        }
    }

    pub fn as_str(self) -> (r: &'static str)
        ensures
            r@ == self.label(),
    {
        match self {
            PatternAdoptionStage::CommonBaseline => "common_baseline",
            PatternAdoptionStage::Candidate => "candidate",
        }
    }

    pub fn active_in_common_baseline(self) -> (r: bool)
        ensures
            r == (self == PatternAdoptionStage::CommonBaseline),
    {
        match self {
            PatternAdoptionStage::CommonBaseline => true,
            PatternAdoptionStage::Candidate => false,
        }
    }
}

#[derive(Debug, Clone, Copy, PartialEq, Eq, PartialOrd, Ord, Structural)]
pub enum PatternFixtureKind {
    Positive,
    Negative,
    Ambiguous,
    Partial,
    Malformed,
}

impl PatternFixtureKind {
    /// The kind's name.
    pub open spec fn name(self) -> Seq<char> {
        match self {
            PatternFixtureKind::Positive => "Positive"@,
            PatternFixtureKind::Negative => "Negative"@,
            PatternFixtureKind::Ambiguous => "Ambiguous"@,
            PatternFixtureKind::Partial => "Partial"@,
            PatternFixtureKind::Malformed => "Malformed"@,
        }
    }

    /// `name()`.
    pub fn name_str(self) -> (r: &'static str)
        ensures
            r@ == self.name(),
    {
        match self {
            PatternFixtureKind::Positive => "Positive",
            PatternFixtureKind::Negative => "Negative",
            PatternFixtureKind::Ambiguous => "Ambiguous",
            PatternFixtureKind::Partial => "Partial",
            PatternFixtureKind::Malformed => "Malformed",
        }
    }

    pub open spec fn label(self) -> Seq<char> {
        match self {
            PatternFixtureKind::Positive => "positive"@,
            PatternFixtureKind::Negative => "negative"@,
            PatternFixtureKind::Ambiguous => "ambiguous"@,
            PatternFixtureKind::Partial => "partial"@,
            PatternFixtureKind::Malformed => "malformed"@,
        }
    }

    /// Every kind, in declaration order.
    pub fn all() -> (r: [PatternFixtureKind; 5])
        ensures
            r@ == seq![PatternFixtureKind::Positive, PatternFixtureKind::Negative,
                PatternFixtureKind::Ambiguous, PatternFixtureKind::Partial, PatternFixtureKind::Malformed],
    {
        let r = [
            PatternFixtureKind::Positive,
            PatternFixtureKind::Negative,
            PatternFixtureKind::Ambiguous,
            PatternFixtureKind::Partial,
            PatternFixtureKind::Malformed,
        ];
        assert(r@ =~= seq![PatternFixtureKind::Positive, PatternFixtureKind::Negative,
                PatternFixtureKind::Ambiguous, PatternFixtureKind::Partial, PatternFixtureKind::Malformed]);
        r
    }

    pub fn slug(self) -> (r: &'static str)
        ensures
            r@ == self.label(),
    {
        match self {
            PatternFixtureKind::Positive => "positive",
            PatternFixtureKind::Negative => "negative",
            PatternFixtureKind::Ambiguous => "ambiguous",
            PatternFixtureKind::Partial => "partial",
            PatternFixtureKind::Malformed => "malformed",
        }
    }
}

/// Reasons that loading an executable pattern pack fails. `Io` carries the
/// name of the I/O error's kind.
#[derive(Debug, Clone, PartialEq, Eq)]
pub enum PatternPackLoadError {
    Io(String),
    Json { line: usize, column: usize },
    SourceTooLarge,
    SymlinkSource,
    MissingPackDirectory,
    UnsupportedSchema,
    InvalidIdentifier,
    InvalidDefinitionCount,
    InvalidFixtureCount,
    InvalidExpectationCount,
    InvalidFixturePath,
    InvalidScanBudget,
    DuplicateDefinition,
    DuplicateFixture,
    InvalidPredicate(PredicateProgramError),
    AutomaticAdoption,
    MissingAdoptionBoundary,
    InvalidBoundaries,
    UnknownPattern,
    FixtureGroupMismatch,
    PartialExpectsAbsence,
    InvalidEvidenceExpectation,
    InvalidRange,
    MalformedWithoutDiagnostic,
    MissingGroupDefinition(PatternGroup),
    MissingFixtureClass { group: PatternGroup, kind: PatternFixtureKind },
    FixtureEscape,
    SymlinkEscape,
    FixtureDepthExceeded,
    FixtureEntriesExceeded,
    FixtureFileTooLarge,
    FixtureTotalTooLarge,
    Fingerprint,
}

impl PatternPackLoadError {
    /// The error's message; a group is named by its code.
    pub open spec fn text(self) -> Seq<char> {
        match self {
            PatternPackLoadError::Io(kind) => "failed to read executable pattern pack: "@ + kind@,
            PatternPackLoadError::Json { line, column } => "failed to parse executable pattern pack at line "@
                + decimal(line as nat) + ", column "@ + decimal(column as nat),
            PatternPackLoadError::InvalidPredicate(error) => "executable pattern predicate is invalid: "@ + error.text(),
            PatternPackLoadError::MissingGroupDefinition(group) => "pattern group "@ + group_code(group) + " has no data definition"@,
            PatternPackLoadError::MissingFixtureClass { group, kind } => "pattern group "@ + group_code(group) + " is missing a "@
                + kind.name() + " executable fixture"@,
            PatternPackLoadError::SourceTooLarge => "executable pattern pack is too large"@,
            PatternPackLoadError::SymlinkSource => "executable pattern pack source is a symlink"@,
            PatternPackLoadError::MissingPackDirectory => "executable pattern pack has no parent directory"@,
            PatternPackLoadError::UnsupportedSchema => "executable pattern pack schema is unsupported"@,
            PatternPackLoadError::InvalidIdentifier => "executable pattern pack contains an invalid identifier"@,
            PatternPackLoadError::InvalidDefinitionCount => "executable pattern pack definition count is invalid"@,
            PatternPackLoadError::InvalidFixtureCount => "executable pattern pack fixture count is invalid"@,
            PatternPackLoadError::InvalidExpectationCount => "executable fixture expectation count is invalid"@,
            PatternPackLoadError::InvalidFixturePath => "executable fixture path is not a bounded relative path"@,
            PatternPackLoadError::InvalidScanBudget => "executable fixture scan budget is invalid"@,
            PatternPackLoadError::DuplicateDefinition => "executable pattern pack contains a duplicate definition"@,
            PatternPackLoadError::DuplicateFixture => "executable pattern pack contains a duplicate fixture"@,
            PatternPackLoadError::AutomaticAdoption => "data-only patterns must remain candidates"@,
            PatternPackLoadError::MissingAdoptionBoundary => "data-only pattern is missing adoption boundaries"@,
            PatternPackLoadError::InvalidBoundaries => "data-only pattern boundaries are invalid"@,
            PatternPackLoadError::UnknownPattern => "executable fixture references an unknown pattern"@,
            PatternPackLoadError::FixtureGroupMismatch => "executable fixture and pattern groups differ"@,
            PatternPackLoadError::PartialExpectsAbsence => "partial fixture cannot expect a missing pattern"@,
            PatternPackLoadError::InvalidEvidenceExpectation => "fixture evidence expectation is invalid"@,
            PatternPackLoadError::InvalidRange => "fixture expectation range is invalid"@,
            PatternPackLoadError::MalformedWithoutDiagnostic => "malformed fixture must expect a typed diagnostic"@,
            PatternPackLoadError::FixtureEscape => "fixture root escapes the pattern-pack directory"@,
            PatternPackLoadError::SymlinkEscape => "fixture symlink escapes the pattern-pack directory"@,
            PatternPackLoadError::FixtureDepthExceeded => "fixture tree exceeds its depth budget"@,
            PatternPackLoadError::FixtureEntriesExceeded => "fixture tree exceeds its entry budget"@,
            PatternPackLoadError::FixtureFileTooLarge => "fixture file exceeds its byte budget"@,
            PatternPackLoadError::FixtureTotalTooLarge => "fixture tree exceeds its total byte budget"@,
            PatternPackLoadError::Fingerprint => "failed to fingerprint executable pattern pack"@,
        }
    }

    /// `text()`, as a string.
    pub fn message(&self) -> (r: String)
        ensures
            r@ == self.text(),
    {
        let mut out: Vec<char> = Vec::new();
        match self {
            PatternPackLoadError::Io(kind) => {
                append_str(&mut out, "failed to read executable pattern pack: ");
                append_str(&mut out, kind.as_str());
            },
            PatternPackLoadError::Json { line, column } => {
                append_str(&mut out, "failed to parse executable pattern pack at line ");
                append_chars(&mut out, decimal_chars(*line));
                append_str(&mut out, ", column ");
                append_chars(&mut out, decimal_chars(*column));
            },
            PatternPackLoadError::InvalidPredicate(error) => {
                append_str(&mut out, "executable pattern predicate is invalid: ");
                let text = error.message();
                append_str(&mut out, text.as_str());
            },
            PatternPackLoadError::MissingGroupDefinition(group) => {
                append_str(&mut out, "pattern group ");
                append_str(&mut out, group_code_str(*group));
                append_str(&mut out, " has no data definition");
            },
            PatternPackLoadError::MissingFixtureClass { group, kind } => {
                append_str(&mut out, "pattern group ");
                append_str(&mut out, group_code_str(*group));
                append_str(&mut out, " is missing a ");
                append_str(&mut out, kind.name_str());
                append_str(&mut out, " executable fixture");
            },
            PatternPackLoadError::SourceTooLarge => append_str(&mut out, "executable pattern pack is too large"),
            PatternPackLoadError::SymlinkSource => append_str(&mut out, "executable pattern pack source is a symlink"),
            PatternPackLoadError::MissingPackDirectory => append_str(&mut out, "executable pattern pack has no parent directory"),
            PatternPackLoadError::UnsupportedSchema => append_str(&mut out, "executable pattern pack schema is unsupported"),
            PatternPackLoadError::InvalidIdentifier => append_str(&mut out, "executable pattern pack contains an invalid identifier"),
            PatternPackLoadError::InvalidDefinitionCount => append_str(&mut out, "executable pattern pack definition count is invalid"),
            PatternPackLoadError::InvalidFixtureCount => append_str(&mut out, "executable pattern pack fixture count is invalid"),
            PatternPackLoadError::InvalidExpectationCount => append_str(&mut out, "executable fixture expectation count is invalid"),
            PatternPackLoadError::InvalidFixturePath => append_str(&mut out, "executable fixture path is not a bounded relative path"),
            PatternPackLoadError::InvalidScanBudget => append_str(&mut out, "executable fixture scan budget is invalid"),
            PatternPackLoadError::DuplicateDefinition => append_str(&mut out, "executable pattern pack contains a duplicate definition"),
            PatternPackLoadError::DuplicateFixture => append_str(&mut out, "executable pattern pack contains a duplicate fixture"),
            PatternPackLoadError::AutomaticAdoption => append_str(&mut out, "data-only patterns must remain candidates"),
            PatternPackLoadError::MissingAdoptionBoundary => append_str(&mut out, "data-only pattern is missing adoption boundaries"),
            PatternPackLoadError::InvalidBoundaries => append_str(&mut out, "data-only pattern boundaries are invalid"),
            PatternPackLoadError::UnknownPattern => append_str(&mut out, "executable fixture references an unknown pattern"),
            PatternPackLoadError::FixtureGroupMismatch => append_str(&mut out, "executable fixture and pattern groups differ"),
            PatternPackLoadError::PartialExpectsAbsence => append_str(&mut out, "partial fixture cannot expect a missing pattern"),
            PatternPackLoadError::InvalidEvidenceExpectation => append_str(&mut out, "fixture evidence expectation is invalid"),
            PatternPackLoadError::InvalidRange => append_str(&mut out, "fixture expectation range is invalid"),
            PatternPackLoadError::MalformedWithoutDiagnostic => append_str(&mut out, "malformed fixture must expect a typed diagnostic"),
            PatternPackLoadError::FixtureEscape => append_str(&mut out, "fixture root escapes the pattern-pack directory"),
            PatternPackLoadError::SymlinkEscape => append_str(&mut out, "fixture symlink escapes the pattern-pack directory"),
            PatternPackLoadError::FixtureDepthExceeded => append_str(&mut out, "fixture tree exceeds its depth budget"),
            PatternPackLoadError::FixtureEntriesExceeded => append_str(&mut out, "fixture tree exceeds its entry budget"),
            PatternPackLoadError::FixtureFileTooLarge => append_str(&mut out, "fixture file exceeds its byte budget"),
            PatternPackLoadError::FixtureTotalTooLarge => append_str(&mut out, "fixture tree exceeds its total byte budget"),
            PatternPackLoadError::Fingerprint => append_str(&mut out, "failed to fingerprint executable pattern pack"),
        }
        string_of(out.as_slice())
    }
}

pub const MAX_IDENTIFIER_BYTES: usize = 128;
pub const MAX_FIXTURE_ENTRIES: usize = 100_000;
pub const MAX_FIXTURE_DEPTH: usize = 32;
pub const MAX_FIXTURE_FILE_BYTES: u64 = 2097152;
pub const MAX_FIXTURE_TOTAL_BYTES: u64 = 33554432;

/// A relative path with no root, no `..` segment (on `/`-separated
/// paths): the components that `Path` would call `ParentDir` or `RootDir`.
pub open spec fn is_contained_relative(p: Seq<char>) -> bool {
    !has_prefix(p, seq!['/']) && !split_on(p, '/').contains(seq!['.', '.'])
}

/// `is_contained_relative(p)`.
pub fn contained_relative(p: &[char]) -> (r: bool)
    ensures
        r == is_contained_relative(p@),
{
    if p.len() > 0 && p[0] == '/' {
        assert(has_prefix(p@, seq!['/'])) by {
            assert(p@.subrange(0, 1) =~= seq!['/']);
        }
        return false;
    }
    assert(!has_prefix(p@, seq!['/'])) by {
        if p.len() > 0 {
            assert(p@.subrange(0, 1)[0] == p@[0]);
        }
    }
    let segs = split_segments(p, '/');
    let mut i: usize = 0;
    while i < segs.len()
        invariant
            i <= segs.len(),
            views(segs@) == split_on(p@, '/'),
            forall|k: int| 0 <= k < i ==> views(segs@)[k] != seq!['.', '.'],
        decreases segs.len() - i,
    {
        let dotdot = equals_str(segs[i].as_slice(), "..");
        proof {
            reveal_strlit("..");
            assert(".."@ =~= seq!['.', '.']);
            assert(views(segs@)[i as int] == segs@[i as int]@);
        }
        if dotdot {
            assert(split_on(p@, '/')[i as int] == seq!['.', '.']);
            return false;
        }
        i = i + 1;
    }
    true
}

/// A fixture root: non-empty, at most 512 bytes, relative and contained.
#[derive(Debug, Clone, PartialEq, Eq)]
pub struct RelativeFixturePath(String);

impl RelativeFixturePath {
    pub closed spec fn text(&self) -> Seq<char> {
        self.0@
    }

    pub fn try_new(value: String) -> (r: Result<Self, PatternPackLoadError>)
        ensures
            if value@.len() > 0 && vstd::utf8::encode_utf8(value@).len() <= 512 && is_contained_relative(value@) {
                r matches Ok(p) && p.text() == value@
            } else {
                r == Err::<Self, PatternPackLoadError>(PatternPackLoadError::InvalidFixturePath)
            },
    {
        let vs = value.as_str();
        let c = chars_of(vs);
        let n = vs.as_bytes().len();
        assert(vs@ == value@);
        if c.len() == 0 || n > 512 || !contained_relative(c.as_slice()) {
            return Err(PatternPackLoadError::InvalidFixturePath);
        }
        Ok(RelativeFixturePath(value))
    }

    pub fn as_str(&self) -> (r: &str)
        ensures
            r@ == self.text(),
    {
        self.0.as_str()
    }
}

/// Limits for scanning one fixture tree.
#[derive(Debug, Clone, Copy, PartialEq, Eq, Structural)]
pub struct FixtureScanBudget {
    pub max_depth: usize,
    pub max_entries: usize,
    pub max_file_bytes: u64,
    pub max_total_bytes: u64,
}

impl Default for FixtureScanBudget {
    fn default() -> (r: Self)
        ensures
            r == (FixtureScanBudget { max_depth: 16, max_entries: 10_000, max_file_bytes: 1048576, max_total_bytes: 8388608 }),
    {
        FixtureScanBudget { max_depth: 16, max_entries: 10_000, max_file_bytes: 1048576, max_total_bytes: 8388608 }
    }
}

impl FixtureScanBudget {
    pub open spec fn within_limits(self) -> bool {
        &&& 0 < self.max_depth <= MAX_FIXTURE_DEPTH
        &&& 0 < self.max_entries <= MAX_FIXTURE_ENTRIES
        &&& 0 < self.max_file_bytes <= MAX_FIXTURE_FILE_BYTES
        &&& 0 < self.max_total_bytes <= MAX_FIXTURE_TOTAL_BYTES
    }

    pub fn validate(self) -> (r: Result<(), PatternPackLoadError>)
        ensures
            r == if self.within_limits() {
                Ok::<(), PatternPackLoadError>(())
            } else {
                Err(PatternPackLoadError::InvalidScanBudget)
            },
    {
        if self.max_depth == 0 || self.max_depth > MAX_FIXTURE_DEPTH || self.max_entries == 0
            || self.max_entries > MAX_FIXTURE_ENTRIES || self.max_file_bytes == 0
            || self.max_file_bytes > MAX_FIXTURE_FILE_BYTES || self.max_total_bytes == 0
            || self.max_total_bytes > MAX_FIXTURE_TOTAL_BYTES
        {
            return Err(PatternPackLoadError::InvalidScanBudget);
        }
        Ok(())
    }
}

pub open spec fn is_identifier_byte(b: u8) -> bool {
    (0x30 <= b <= 0x39) || (0x41 <= b <= 0x5A) || (0x61 <= b <= 0x7A) || b == 0x2E || b == 0x2D || b == 0x5F
}

/// Non-empty, at most 128 bytes of ASCII letters, digits, `.`, `-`, `_`.
pub open spec fn is_identifier(bytes: Seq<u8>) -> bool {
    bytes.len() > 0 && bytes.len() <= MAX_IDENTIFIER_BYTES && forall|i: int| 0 <= i < bytes.len() ==> is_identifier_byte(#[trigger] bytes[i])
}

pub fn validate_identifier(value: &str) -> (r: Result<(), PatternPackLoadError>)
    ensures
        r == if is_identifier(value.spec_bytes()) {
            Ok::<(), PatternPackLoadError>(())
        } else {
            Err(PatternPackLoadError::InvalidIdentifier)
        },
{
    let bytes = value.as_bytes();
    if bytes.len() == 0 || bytes.len() > MAX_IDENTIFIER_BYTES {
        return Err(PatternPackLoadError::InvalidIdentifier);
    }
    let mut i: usize = 0;
    while i < bytes.len()
        invariant
            i <= bytes.len(),
            bytes@ == value.spec_bytes(),
            forall|k: int| 0 <= k < i ==> is_identifier_byte(#[trigger] bytes@[k]),
        decreases bytes.len() - i,
    {
        let b = bytes[i];
        if !((0x30 <= b && b <= 0x39) || (0x41 <= b && b <= 0x5A) || (0x61 <= b && b <= 0x7A) || b == 0x2E
            || b == 0x2D || b == 0x5F) {
            return Err(PatternPackLoadError::InvalidIdentifier);
        }
        i = i + 1;
    }
    Ok(())
}

/// Whether a definition is enabled when a pack does not say.
pub fn enabled_by_default() -> (r: bool)
    ensures
        r,
{
    true
}

#[derive(Debug, Clone, Copy, PartialEq, Eq, Structural)]
pub enum FixtureExecutionStatus {
    Passed,
    Failed,
    AuditError,
}

/// The outcome of running one fixture.
#[derive(Debug, Clone, PartialEq, Eq)]
pub struct FixtureExecutionResult {
    pub fixture_id: String,
    pub kind: PatternFixtureKind,
    pub status: FixtureExecutionStatus,
}

/// The outcome of running a pack's fixtures.
#[derive(Debug, Clone, PartialEq, Eq)]
pub struct FixtureSuiteReport {
    pub schema_version: String,
    pub pack_fingerprint: String,
    pub results: Vec<FixtureExecutionResult>,
    pub subprocesses_started: usize,
    pub network_requests_started: usize,
}

impl FixtureSuiteReport {
    pub open spec fn passed(&self) -> bool {
        &&& self.results@.len() > 0
        &&& forall|i: int| 0 <= i < self.results@.len() ==> (#[trigger] self.results@[i]).status == FixtureExecutionStatus::Passed
        &&& self.subprocesses_started == 0
        &&& self.network_requests_started == 0
    }

    /// Some fixture ran, every fixture passed, and nothing was spawned or
    /// requested.
    pub fn all_passed(&self) -> (r: bool)
        ensures
            r == self.passed(),
    {
        if self.results.len() == 0 {
            return false;
        }
        let mut i: usize = 0;
        while i < self.results.len()
            invariant
                i <= self.results.len(),
                forall|k: int| 0 <= k < i ==> (#[trigger] self.results@[k]).status == FixtureExecutionStatus::Passed,
            decreases self.results.len() - i,
        {
            if self.results[i].status != FixtureExecutionStatus::Passed {
                return false;
            }
            i = i + 1;
        }
        self.subprocesses_started == 0 && self.network_requests_started == 0
    }
}

/// A maintainer's review of a pack.
#[derive(Debug, Clone, PartialEq, Eq)]
pub struct PatternAdoptionReview {
    pub review_id: String,
    pub reviewer: String,
    pub reviewed_pack_fingerprint: String,
}

#[derive(Debug, Clone, Copy, PartialEq, Eq, PartialOrd, Ord, Structural)]
pub enum AdoptionBlocker {
    FixtureFailure,
    MissingReview,
    ReviewFingerprintMismatch,
    SchemaMismatch,
    NonCandidateDefinition,
}

#[derive(Debug, Clone, PartialEq, Eq)]
pub enum AdoptionGateDecision {
    EligibleForMaintainerAdoption,
    Blocked(Vec<AdoptionBlocker>),
}

/// The blockers of an adoption, in their order.
pub open spec fn adoption_blockers(
    fingerprint: Seq<char>,
    schema: Seq<char>,
    stages: Seq<PatternAdoptionStage>,
    report: FixtureSuiteReport,
    review: Option<PatternAdoptionReview>,
    expected_schema: Seq<char>,
) -> Seq<AdoptionBlocker> {
    let fixture = !report.passed() || report.pack_fingerprint@ != fingerprint;
    let missing = review is None;
    let mismatch = review matches Some(r) && !(trim(r.review_id@).len() > 0 && trim(r.reviewer@).len() > 0
        && r.reviewed_pack_fingerprint@ == fingerprint);
    let schema_bad = schema != expected_schema;
    let non_candidate = exists|i: int| 0 <= i < stages.len() && stages[i] != PatternAdoptionStage::Candidate;
    (if fixture { seq![AdoptionBlocker::FixtureFailure] } else { Seq::empty() })
        + (if missing { seq![AdoptionBlocker::MissingReview] } else { Seq::empty() })
        + (if mismatch { seq![AdoptionBlocker::ReviewFingerprintMismatch] } else { Seq::empty() })
        + (if schema_bad { seq![AdoptionBlocker::SchemaMismatch] } else { Seq::empty() })
        + (if non_candidate { seq![AdoptionBlocker::NonCandidateDefinition] } else { Seq::empty() })
}

fn same_str(a: &str, b: &str) -> (r: bool)
    ensures
        r == (a@ == b@),
{
    let x = chars_of(a);
    let y = chars_of(b);
    crate::text::same_chars(x.as_slice(), y.as_slice())
}

fn push_if(v: &mut Vec<AdoptionBlocker>, cond: bool, b: AdoptionBlocker)
    ensures
        final(v)@ == old(v)@ + if cond { seq![b] } else { Seq::<AdoptionBlocker>::empty() },
{
    if cond {
        v.push(b);
    }
    assert(final(v)@ =~= old(v)@ + if cond { seq![b] } else { Seq::<AdoptionBlocker>::empty() });
}

/// Whether a pack may be offered for maintainer adoption: eligible with no
/// blockers, else blocked by the failing checks in `AdoptionBlocker` order.
/// The pack is given by its fingerprint, schema version and the adoption
/// stages of its definitions.
pub fn evaluate_adoption_gate(
    pack_fingerprint: &str,
    pack_schema_version: &str,
    definition_stages: &[PatternAdoptionStage],
    report: &FixtureSuiteReport,
    review: Option<&PatternAdoptionReview>,
    expected_schema: &str,
) -> (r: AdoptionGateDecision)
    ensures
        ({
            let blockers = adoption_blockers(pack_fingerprint@, pack_schema_version@, definition_stages@,
                *report, match review { Some(x) => Some(*x), None => None }, expected_schema@);
            if blockers.len() == 0 {
                r == AdoptionGateDecision::EligibleForMaintainerAdoption
            } else {
                r matches AdoptionGateDecision::Blocked(v) && v@ == blockers
            }
        }),
{
    let fixture = !report.all_passed() || !same_str(report.pack_fingerprint.as_str(), pack_fingerprint);
    let schema_bad = !same_str(pack_schema_version, expected_schema);
    let mut non_candidate = false;
    let mut i: usize = 0;
    while i < definition_stages.len()
        invariant
            i <= definition_stages.len(),
            non_candidate == exists|k: int| 0 <= k < i && definition_stages@[k] != PatternAdoptionStage::Candidate,
        decreases definition_stages.len() - i,
    {
        if definition_stages[i] != PatternAdoptionStage::Candidate {
            non_candidate = true;
        }
        i = i + 1;
    }
    let (missing, mismatch) = match review {
        None => (true, false),
        Some(r) => {
            let id = chars_of(r.review_id.as_str());
            let who = chars_of(r.reviewer.as_str());
            let ok = trimmed(id.as_slice()).len() > 0 && trimmed(who.as_slice()).len() > 0
                && same_str(r.reviewed_pack_fingerprint.as_str(), pack_fingerprint);
            (false, !ok)
        },
    };
    let mut blockers: Vec<AdoptionBlocker> = Vec::new();
    push_if(&mut blockers, fixture, AdoptionBlocker::FixtureFailure);
    push_if(&mut blockers, missing, AdoptionBlocker::MissingReview);
    push_if(&mut blockers, mismatch, AdoptionBlocker::ReviewFingerprintMismatch);
    push_if(&mut blockers, schema_bad, AdoptionBlocker::SchemaMismatch);
    push_if(&mut blockers, non_candidate, AdoptionBlocker::NonCandidateDefinition);
    assert(blockers@ =~= adoption_blockers(pack_fingerprint@, pack_schema_version@, definition_stages@,
        *report, match review { Some(x) => Some(*x), None => None }, expected_schema@));
    if blockers.len() == 0 {
        AdoptionGateDecision::EligibleForMaintainerAdoption
    } else {
        AdoptionGateDecision::Blocked(blockers)
    }
}

} // verus!

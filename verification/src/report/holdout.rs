//! Holdout calibration: the rules a calibration corpus must meet, the
//! confusion counts of its train and holdout cases, and the per-task
//! metrics and status derived from them.

use vstd::prelude::*;
use crate::text::{chars_of, same_chars, trim, trimmed};

verus! {

pub const HOLDOUT_CORPUS_SCHEMA_VERSION: &'static str = "seiri.calibration-corpus.v1";
pub const HOLDOUT_REPORT_SCHEMA_VERSION: &'static str = "seiri.calibration-holdout.v1";
pub const MINIMUM_HOLDOUT_CASES_PER_TASK: usize = 20;
pub const HOLDOUT_SPLIT_METHOD: &'static str = "fixed_case_ids_no_random_reshuffle_disjoint_task_fixtures";
pub const MAX_CORPUS_BYTES: u64 = 1048576;
pub const MAX_CASES: usize = 512;

#[derive(Debug, Clone, Copy, PartialEq, Eq, PartialOrd, Ord, Structural)]
pub enum CalibrationTask {
    Route,
    Wording,
    Consistency,
    Profile,
    Planner,
}

pub open spec fn all_tasks() -> Seq<CalibrationTask> {
    seq![
        CalibrationTask::Route,
        CalibrationTask::Wording,
        CalibrationTask::Consistency,
        CalibrationTask::Profile,
        CalibrationTask::Planner,
    ]
}

impl CalibrationTask {
    /// Every task, in report order.
    pub fn all() -> (r: [CalibrationTask; 5])
        ensures
            r@ == all_tasks(),
    {
        let r = [
            CalibrationTask::Route,
            CalibrationTask::Wording,
            CalibrationTask::Consistency,
            CalibrationTask::Profile,
            CalibrationTask::Planner,
        ];
        assert(r@ =~= all_tasks());
        r
    }
}

#[derive(Debug, Clone, Copy, PartialEq, Eq, Structural)]
pub enum CalibrationSplit {
    Train,
    Holdout,
}

#[derive(Debug, Clone, Copy, PartialEq, Eq, Structural)]
pub enum CorpusVisibility {
    PublicSynthetic,
}

/// One labelled case of a calibration corpus: its task, the fixture
/// directory it runs on and the expected outcome.
#[derive(Debug, Clone, PartialEq, Eq)]
pub struct CalibrationCase {
    pub id: String,
    pub split: CalibrationSplit,
    pub task: CalibrationTask,
    pub fixture: String,
    pub expected: bool,
}

#[derive(Debug, Clone, PartialEq, Eq)]
pub struct CalibrationCorpus {
    pub schema_version: String,
    pub corpus_id: String,
    pub visibility: CorpusVisibility,
    pub split_method: String,
    pub cases: Vec<CalibrationCase>,
}

#[derive(Debug, Clone, Copy, PartialEq, Eq, Structural)]
pub enum HoldoutError {
    Io,
    SymlinkCorpus,
    CorpusTooLarge,
    InvalidJson,
    UnsupportedSchema,
    InvalidCorpus,
    FixtureEscape,
    Audit,
}

impl HoldoutError {
    /// The error's description.
    pub open spec fn text(self) -> Seq<char> {
        match self {
            HoldoutError::Io => "failed to read the public holdout corpus"@,
            HoldoutError::SymlinkCorpus => "holdout corpus must not be a symlink"@,
            HoldoutError::CorpusTooLarge => "holdout corpus exceeds its byte limit"@,
            HoldoutError::InvalidJson => "holdout corpus is not valid JSON"@,
            HoldoutError::UnsupportedSchema => "holdout corpus schema is unsupported"@,
            HoldoutError::InvalidCorpus => "holdout corpus invariants are invalid"@,
            HoldoutError::FixtureEscape => "holdout fixture escapes the public fixture root"@,
            HoldoutError::Audit => "holdout fixture evaluation failed"@,
        }
    }

    /// `text()`.
    pub fn message(self) -> (r: &'static str)
        ensures
            r@ == self.text(),
    {
        match self {
            HoldoutError::Io => "failed to read the public holdout corpus",
            HoldoutError::SymlinkCorpus => "holdout corpus must not be a symlink",
            HoldoutError::CorpusTooLarge => "holdout corpus exceeds its byte limit",
            HoldoutError::InvalidJson => "holdout corpus is not valid JSON",
            HoldoutError::UnsupportedSchema => "holdout corpus schema is unsupported",
            HoldoutError::InvalidCorpus => "holdout corpus invariants are invalid",
            HoldoutError::FixtureEscape => "holdout fixture escapes the public fixture root",
            HoldoutError::Audit => "holdout fixture evaluation failed",
        }
    }
}

pub open spec fn case_ids_valid(cases: Seq<CalibrationCase>) -> bool {
    &&& forall|i: int| 0 <= i < cases.len() ==> trim((#[trigger] cases[i]).id@).len() > 0
    &&& forall|i: int, j: int| 0 <= i < j < cases.len() ==> (#[trigger] cases[i]).id@ != (#[trigger] cases[j]).id@
}

pub open spec fn has_case(cases: Seq<CalibrationCase>, task: CalibrationTask, split: CalibrationSplit) -> bool {
    exists|i: int| 0 <= i < cases.len() && (#[trigger] cases[i]).task == task && cases[i].split == split
}

/// Every task has train and holdout cases.
pub open spec fn tasks_covered(cases: Seq<CalibrationCase>) -> bool {
    forall|t: int| 0 <= t < all_tasks().len() ==> has_case(cases, #[trigger] all_tasks()[t], CalibrationSplit::Train)
        && has_case(cases, all_tasks()[t], CalibrationSplit::Holdout)
}

/// No fixture serves one task in both splits.
pub open spec fn fixtures_disjoint(cases: Seq<CalibrationCase>) -> bool {
    forall|i: int, j: int| 0 <= i < cases.len() && 0 <= j < cases.len()
        && (#[trigger] cases[i]).split == CalibrationSplit::Train && (#[trigger] cases[j]).split == CalibrationSplit::Holdout
        ==> !(cases[i].task == cases[j].task && cases[i].fixture@ == cases[j].fixture@)
}

/// The corpus rules: the supported schema, then a named corpus with the
/// fixed split method and 1 to 512 cases of distinct non-blank ids, each
/// task in both splits, and no task fixture in both splits.
pub open spec fn corpus_check(c: CalibrationCorpus) -> Result<(), HoldoutError> {
    if c.schema_version@ != HOLDOUT_CORPUS_SCHEMA_VERSION@ {
        Err(HoldoutError::UnsupportedSchema)
    } else if trim(c.corpus_id@).len() == 0 || c.split_method@ != HOLDOUT_SPLIT_METHOD@
        || c.cases@.len() == 0 || c.cases@.len() > MAX_CASES || !case_ids_valid(c.cases@)
        || !tasks_covered(c.cases@) || !fixtures_disjoint(c.cases@) {
        Err(HoldoutError::InvalidCorpus)
    } else {
        Ok(())
    }
}

fn same_str(a: &str, b: &str) -> (r: bool)
    ensures
        r == (a@ == b@),
{
    let x = chars_of(a);
    let y = chars_of(b);
    same_chars(x.as_slice(), y.as_slice())
}

fn check_case_ids(cases: &[CalibrationCase]) -> (r: bool)
    ensures
        r == case_ids_valid(cases@),
{
    let mut i: usize = 0;
    while i < cases.len()
        invariant
            i <= cases.len(),
            forall|a: int| 0 <= a < i ==> trim((#[trigger] cases@[a]).id@).len() > 0,
            forall|a: int, b: int| 0 <= a < b < i ==> (#[trigger] cases@[a]).id@ != (#[trigger] cases@[b]).id@,
        decreases cases.len() - i,
    {
        let id = chars_of(cases[i].id.as_str());
        if trimmed(id.as_slice()).len() == 0 {
            return false;
        }
        let mut j: usize = 0;
        while j < i
            invariant
                j <= i < cases.len(),
                forall|a: int| 0 <= a < j ==> (#[trigger] cases@[a]).id@ != cases@[i as int].id@,
            decreases i - j,
        {
            if same_str(cases[j].id.as_str(), cases[i].id.as_str()) {
                return false;
            }
            j = j + 1;
        }
        i = i + 1;
    }
    true
}

fn find_case(cases: &[CalibrationCase], task: CalibrationTask, split: CalibrationSplit) -> (r: bool)
    ensures
        r == has_case(cases@, task, split),
{
    let mut i: usize = 0;
    while i < cases.len()
        invariant
            i <= cases.len(),
            forall|a: int| 0 <= a < i ==> !((#[trigger] cases@[a]).task == task && cases@[a].split == split),
        decreases cases.len() - i,
    {
        if cases[i].task == task && cases[i].split == split {
            return true;
        }
        i = i + 1;
    }
    false
}

fn check_tasks_covered(cases: &[CalibrationCase]) -> (r: bool)
    ensures
        r == tasks_covered(cases@),
{
    let tasks = CalibrationTask::all();
    let mut t: usize = 0;
    while t < 5
        invariant
            t <= 5,
            tasks@ == all_tasks(),
            forall|u: int| 0 <= u < t ==> has_case(cases@, #[trigger] all_tasks()[u], CalibrationSplit::Train)
                && has_case(cases@, all_tasks()[u], CalibrationSplit::Holdout),
        decreases 5 - t,
    {
        let task = tasks[t];
        if !find_case(cases, task, CalibrationSplit::Train) || !find_case(cases, task, CalibrationSplit::Holdout) {
            return false;
        }
        t = t + 1;
    }
    true
}

fn check_fixtures_disjoint(cases: &[CalibrationCase]) -> (r: bool)
    ensures
        r == fixtures_disjoint(cases@),
{
    let mut i: usize = 0;
    while i < cases.len()
        invariant
            i <= cases.len(),
            forall|a: int, b: int| 0 <= a < i && 0 <= b < cases@.len()
                && (#[trigger] cases@[a]).split == CalibrationSplit::Train && (#[trigger] cases@[b]).split == CalibrationSplit::Holdout
                ==> !(cases@[a].task == cases@[b].task && cases@[a].fixture@ == cases@[b].fixture@),
        decreases cases.len() - i,
    {
        if cases[i].split == CalibrationSplit::Train {
            let mut j: usize = 0;
            while j < cases.len()
                invariant
                    i < cases.len(),
                    j <= cases.len(),
                    cases@[i as int].split == CalibrationSplit::Train,
                    forall|b: int| 0 <= b < j && (#[trigger] cases@[b]).split == CalibrationSplit::Holdout
                        ==> !(cases@[i as int].task == cases@[b].task && cases@[i as int].fixture@ == cases@[b].fixture@),
                decreases cases.len() - j,
            {
                if cases[j].split == CalibrationSplit::Holdout && cases[j].task == cases[i].task
                    && same_str(cases[i].fixture.as_str(), cases[j].fixture.as_str()) {
                    return false;
                }
                j = j + 1;
            }
        }
        i = i + 1;
    }
    true
}

/// `corpus_check(corpus)`.
pub fn validate_corpus(corpus: &CalibrationCorpus) -> (r: Result<(), HoldoutError>)
    ensures
        r == corpus_check(*corpus),
{
    if !same_str(corpus.schema_version.as_str(), HOLDOUT_CORPUS_SCHEMA_VERSION) {
        return Err(HoldoutError::UnsupportedSchema);
    }
    let id = chars_of(corpus.corpus_id.as_str());
    let cases = corpus.cases.as_slice();
    if trimmed(id.as_slice()).len() == 0 || !same_str(corpus.split_method.as_str(), HOLDOUT_SPLIT_METHOD)
        || cases.len() == 0 || cases.len() > MAX_CASES || !check_case_ids(cases) || !check_tasks_covered(cases)
        || !check_fixtures_disjoint(cases) {
        return Err(HoldoutError::InvalidCorpus);
    }
    Ok(())
}


/// Outcomes of labelled cases, by expected and actual result.
#[derive(Debug, Clone, Copy, Default, PartialEq, Eq, Structural)]
pub struct ConfusionCounts {
    pub true_positive: usize,
    pub true_negative: usize,
    pub false_positive: usize,
    pub false_negative: usize,
}

impl ConfusionCounts {
    pub open spec fn total(self) -> int {
        self.true_positive + self.true_negative + self.false_positive + self.false_negative
    }

    pub fn new() -> (r: Self)
        ensures
            r == (ConfusionCounts { true_positive: 0, true_negative: 0, false_positive: 0, false_negative: 0 }),
    {
        ConfusionCounts { true_positive: 0, true_negative: 0, false_positive: 0, false_negative: 0 }
    }

    /// Counts one case with the `expected` and `actual` outcome.
    pub fn record(&mut self, expected: bool, actual: bool)
        requires
            old(self).total() < usize::MAX,
        ensures
            final(self).true_positive == old(self).true_positive + if expected && actual { 1int } else { 0 },
            final(self).true_negative == old(self).true_negative + if !expected && !actual { 1int } else { 0 },
            final(self).false_positive == old(self).false_positive + if !expected && actual { 1int } else { 0 },
            final(self).false_negative == old(self).false_negative + if expected && !actual { 1int } else { 0 },
            final(self).total() == old(self).total() + 1,
    {
        if expected && actual {
            self.true_positive = self.true_positive + 1;
        } else if !expected && !actual {
            self.true_negative = self.true_negative + 1;
        } else if !expected && actual {
            self.false_positive = self.false_positive + 1;
        } else {
            self.false_negative = self.false_negative + 1;
        }
    }

    /// All counted cases.
    pub fn samples(self) -> (r: usize)
        requires
            self.total() <= usize::MAX,
        ensures
            r == self.total(),
    {
        self.true_positive + self.true_negative + self.false_positive + self.false_negative
    }

    /// Cases whose outcome was expected.
    pub fn correct(self) -> (r: usize)
        requires
            self.total() <= usize::MAX,
        ensures
            r == self.true_positive + self.true_negative,
    {
        self.true_positive + self.true_negative
    }

    /// Cases expected to be positive.
    pub fn positives(self) -> (r: usize)
        requires
            self.total() <= usize::MAX,
        ensures
            r == self.true_positive + self.false_negative,
    {
        self.true_positive + self.false_negative
    }

    /// Cases expected to be negative.
    pub fn negatives(self) -> (r: usize)
        requires
            self.total() <= usize::MAX,
        ensures
            r == self.true_negative + self.false_positive,
    {
        self.true_negative + self.false_positive
    }
}

#[derive(Debug, Clone, Copy, PartialEq, Eq, Structural)]
pub enum EmpiricalCalibrationStatus {
    InsufficientSample,
    Calibrated,
}

#[derive(Debug, Clone, PartialEq, Eq)]
pub enum PeakAllocationMeasurement {
    NotMeasured { reason: String },
}

#[derive(Debug, Clone, PartialEq, Eq)]
pub struct TaskResourceMeasurement {
    pub runtime_micros: u64,
    pub peak_allocation: PeakAllocationMeasurement,
}

/// `numerator / denominator` in thousandths, capped at 1000; none for a
/// zero denominator.
pub open spec fn ratio_spec(numerator: usize, denominator: usize) -> Option<u16> {
    if denominator == 0 {
        None
    } else {
        let scaled = (if numerator * 1000 > usize::MAX { usize::MAX as int } else { numerator * 1000 }) / (denominator as int);
        Some(if scaled > 1000 { 1000u16 } else { scaled as u16 })
    }
}

/// `ratio_spec(numerator, denominator)`: the multiplication saturates.
pub fn ratio_x1000(numerator: usize, denominator: usize) -> (r: Option<u16>)
    ensures
        r == ratio_spec(numerator, denominator),
{
    if denominator == 0 {
        return None;
    }
    let product: usize = match numerator.checked_mul(1000) {
        Some(p) => p,
        None => usize::MAX,
    };
    let scaled = product / denominator;
    if scaled > 1000 {
        Some(1000)
    } else {
        Some(scaled as u16)
    }
}

/// What the cases of one task have shown so far.
#[derive(Debug, Clone, PartialEq, Eq)]
pub struct TaskAccumulator {
    pub train: ConfusionCounts,
    pub holdout: ConfusionCounts,
    /// The distinct fixtures of its holdout cases.
    pub holdout_fixtures: Vec<String>,
    pub evaluated_holdout: usize,
    pub runtime_micros: u64,
}

pub open spec fn fixture_views(v: Seq<String>) -> Seq<Seq<char>> {
    v.map_values(|s: String| s@)
}

pub open spec fn no_duplicates(v: Seq<Seq<char>>) -> bool {
    forall|i: int, j: int| 0 <= i < j < v.len() ==> v[i] != v[j]
}

impl TaskAccumulator {
    pub open spec fn wf(&self) -> bool {
        no_duplicates(fixture_views(self.holdout_fixtures@))
    }

    pub fn new() -> (r: Self)
        ensures
            r.wf(),
            r.train == (ConfusionCounts { true_positive: 0, true_negative: 0, false_positive: 0, false_negative: 0 }),
            r.holdout == (ConfusionCounts { true_positive: 0, true_negative: 0, false_positive: 0, false_negative: 0 }),
            r.holdout_fixtures@.len() == 0,
            r.evaluated_holdout == 0,
            r.runtime_micros == 0,
    {
        let r = TaskAccumulator {
            train: ConfusionCounts::new(),
            holdout: ConfusionCounts::new(),
            holdout_fixtures: Vec::new(),
            evaluated_holdout: 0,
            runtime_micros: 0,
        };
        assert(fixture_views(r.holdout_fixtures@) =~= Seq::<Seq<char>>::empty());
        r
    }

    /// Adds the outcome of one case that took `elapsed_micros`.
    pub fn record_case(&mut self, split: CalibrationSplit, fixture: &str, expected: bool, actual: bool, elapsed_micros: u64)
        requires
            old(self).wf(),
            old(self).train.total() < usize::MAX,
            old(self).holdout.total() < usize::MAX,
            old(self).evaluated_holdout < usize::MAX,
        ensures
            final(self).wf(),
            final(self).runtime_micros == if old(self).runtime_micros + elapsed_micros > u64::MAX { u64::MAX as int } else { old(self).runtime_micros + elapsed_micros },
            split == CalibrationSplit::Train ==> {
                &&& final(self).train.total() == old(self).train.total() + 1
                &&& final(self).holdout == old(self).holdout
                &&& final(self).holdout_fixtures == old(self).holdout_fixtures
                &&& final(self).evaluated_holdout == old(self).evaluated_holdout
            },
            split == CalibrationSplit::Holdout ==> {
                &&& final(self).train == old(self).train
                &&& final(self).holdout.total() == old(self).holdout.total() + 1
                &&& final(self).evaluated_holdout == old(self).evaluated_holdout + 1
                &&& forall|x: Seq<char>| fixture_views(final(self).holdout_fixtures@).contains(x)
                    <==> (fixture_views(old(self).holdout_fixtures@).contains(x) || x == fixture@)
            },
    {
        self.runtime_micros = self.runtime_micros.saturating_add(elapsed_micros);
        match split {
            CalibrationSplit::Train => {
                self.train.record(expected, actual);
            },
            CalibrationSplit::Holdout => {
                let ghost before = fixture_views(self.holdout_fixtures@);
                let mut found = false;
                let mut i: usize = 0;
                while i < self.holdout_fixtures.len()
                    invariant
                        i <= self.holdout_fixtures.len(),
                        before == fixture_views(self.holdout_fixtures@),
                        !found ==> forall|k: int| 0 <= k < i ==> before[k] != fixture@,
                        found ==> before.contains(fixture@),
                    decreases self.holdout_fixtures.len() - i,
                {
                    if same_str(self.holdout_fixtures[i].as_str(), fixture) {
                        assert(before[i as int] == fixture@);
                        found = true;
                    }
                    i = i + 1;
                }
                if !found {
                    self.holdout_fixtures.push(fixture.to_string());
                    proof {
                        let after = fixture_views(self.holdout_fixtures@);
                        assert(after =~= before.push(fixture@));
                        assert forall|x: Seq<char>| after.contains(x) <==> (before.contains(x) || x == fixture@) by {
                            if after.contains(x) {
                                let k = choose|k: int| 0 <= k < after.len() && after[k] == x;
                                if k < before.len() {
                                    assert(before[k] == x);
                                }
                            }
                            if before.contains(x) {
                                let k = choose|k: int| 0 <= k < before.len() && before[k] == x;
                                assert(after[k] == x);
                            }
                            if x == fixture@ {
                                assert(after[before.len() as int] == x);
                            }
                        }
                    }
                }
                self.holdout.record(expected, actual);
                self.evaluated_holdout = self.evaluated_holdout + 1;
            },
        }
    }
}

/// The metrics of one task.
#[derive(Debug, Clone, PartialEq, Eq)]
pub struct TaskCalibrationMetrics {
    pub task: CalibrationTask,
    pub train: ConfusionCounts,
    pub holdout: ConfusionCounts,
    pub independent_holdout_cases: usize,
    pub precision_x1000: Option<u16>,
    pub recall_x1000: Option<u16>,
    pub false_positives: usize,
    pub false_negatives: usize,
    pub coverage_x1000: u16,
    pub minimum_holdout_cases: usize,
    pub status: EmpiricalCalibrationStatus,
    pub resources: TaskResourceMeasurement,
}

/// Calibrated with enough distinct holdout fixtures and both expected
/// outcomes among the holdout cases.
pub open spec fn task_status(independent: nat, holdout: ConfusionCounts) -> EmpiricalCalibrationStatus {
    if independent >= MINIMUM_HOLDOUT_CASES_PER_TASK && holdout.true_positive + holdout.false_negative > 0
        && holdout.true_negative + holdout.false_positive > 0 {
        EmpiricalCalibrationStatus::Calibrated
    } else {
        EmpiricalCalibrationStatus::InsufficientSample
    }
}

/// The metrics of a task from what its cases showed.
pub fn metrics_for(task: CalibrationTask, accumulator: TaskAccumulator) -> (r: TaskCalibrationMetrics)
    requires
        accumulator.holdout.total() <= usize::MAX,
    ensures
        r.task == task,
        r.train == accumulator.train,
        r.holdout == accumulator.holdout,
        r.independent_holdout_cases == accumulator.holdout_fixtures@.len(),
        r.precision_x1000 == ratio_spec(accumulator.holdout.true_positive,
            (accumulator.holdout.true_positive + accumulator.holdout.false_positive) as usize),
        r.recall_x1000 == ratio_spec(accumulator.holdout.true_positive,
            (accumulator.holdout.true_positive + accumulator.holdout.false_negative) as usize),
        r.false_positives == accumulator.holdout.false_positive,
        r.false_negatives == accumulator.holdout.false_negative,
        r.coverage_x1000 == match ratio_spec(accumulator.evaluated_holdout, accumulator.holdout.total() as usize) {
            Some(v) => v,
            None => 0,
        },
        r.minimum_holdout_cases == MINIMUM_HOLDOUT_CASES_PER_TASK,
        r.status == task_status(accumulator.holdout_fixtures@.len(), accumulator.holdout),
        r.resources.runtime_micros == accumulator.runtime_micros,
{
    let holdout = accumulator.holdout;
    let independent_holdout_cases = accumulator.holdout_fixtures.len();
    let precision_x1000 = ratio_x1000(holdout.true_positive, holdout.true_positive + holdout.false_positive);
    let recall_x1000 = ratio_x1000(holdout.true_positive, holdout.positives());
    let coverage_x1000 = match ratio_x1000(accumulator.evaluated_holdout, holdout.samples()) {
        Some(v) => v,
        None => 0,
    };
    let status = if independent_holdout_cases >= MINIMUM_HOLDOUT_CASES_PER_TASK && holdout.positives() > 0
        && holdout.negatives() > 0 {
        EmpiricalCalibrationStatus::Calibrated
    } else {
        EmpiricalCalibrationStatus::InsufficientSample
    };
    TaskCalibrationMetrics {
        task,
        train: accumulator.train,
        holdout,
        independent_holdout_cases,
        precision_x1000,
        recall_x1000,
        false_positives: holdout.false_positive,
        false_negatives: holdout.false_negative,
        coverage_x1000,
        minimum_holdout_cases: MINIMUM_HOLDOUT_CASES_PER_TASK,
        status,
        resources: TaskResourceMeasurement {
            runtime_micros: accumulator.runtime_micros,
            peak_allocation: PeakAllocationMeasurement::NotMeasured {
                reason: "No allocator instrumentation is active; RepoSeiri does not report an estimated value as a measured peak.".to_string(),
            },
        },
    }
}

/// Calibrated when every task is.
pub fn overall_status(metrics: &[TaskCalibrationMetrics]) -> (r: EmpiricalCalibrationStatus)
    ensures
        r == if forall|i: int| 0 <= i < metrics@.len() ==> (#[trigger] metrics@[i]).status == EmpiricalCalibrationStatus::Calibrated {
            EmpiricalCalibrationStatus::Calibrated
        } else {
            EmpiricalCalibrationStatus::InsufficientSample
        },
{
    let mut i: usize = 0;
    while i < metrics.len()
        invariant
            i <= metrics.len(),
            forall|k: int| 0 <= k < i ==> (#[trigger] metrics@[k]).status == EmpiricalCalibrationStatus::Calibrated,
        decreases metrics.len() - i,
    {
        if metrics[i].status != EmpiricalCalibrationStatus::Calibrated {
            return EmpiricalCalibrationStatus::InsufficientSample;
        }
        i = i + 1;
    }
    EmpiricalCalibrationStatus::Calibrated
}

} // verus!

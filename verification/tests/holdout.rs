use reposeiri::report::holdout::{
    metrics_for, overall_status, ratio_x1000, validate_corpus, CalibrationCase, CalibrationCorpus,
    CalibrationSplit, CalibrationTask, ConfusionCounts, CorpusVisibility,
    EmpiricalCalibrationStatus, HoldoutError, TaskAccumulator, HOLDOUT_CORPUS_SCHEMA_VERSION,
    HOLDOUT_SPLIT_METHOD, MINIMUM_HOLDOUT_CASES_PER_TASK,
};

fn case(id: &str, split: CalibrationSplit, task: CalibrationTask, fixture: &str) -> CalibrationCase {
    CalibrationCase {
        id: id.to_string(),
        split,
        task,
        fixture: fixture.to_string(),
        expected: true,
    }
}

fn full_corpus() -> CalibrationCorpus {
    let mut cases = Vec::new();
    for (n, task) in CalibrationTask::all().into_iter().enumerate() {
        cases.push(case(&format!("t{n}"), CalibrationSplit::Train, task, &format!("train/{n}")));
        cases.push(case(&format!("h{n}"), CalibrationSplit::Holdout, task, &format!("holdout/{n}")));
    }
    CalibrationCorpus {
        schema_version: HOLDOUT_CORPUS_SCHEMA_VERSION.to_string(),
        corpus_id: "public".to_string(),
        visibility: CorpusVisibility::PublicSynthetic,
        split_method: HOLDOUT_SPLIT_METHOD.to_string(),
        cases,
    }
}

#[test]
fn corpus_rules() {
    assert_eq!(validate_corpus(&full_corpus()), Ok(()));
    let mut schema = full_corpus();
    schema.schema_version = "v0".to_string();
    schema.corpus_id = " ".to_string();
    assert_eq!(validate_corpus(&schema), Err(HoldoutError::UnsupportedSchema));
    let mut blank = full_corpus();
    blank.corpus_id = " ".to_string();
    assert_eq!(validate_corpus(&blank), Err(HoldoutError::InvalidCorpus));
    let mut duplicate = full_corpus();
    duplicate.cases[1].id = "t0".to_string();
    assert_eq!(validate_corpus(&duplicate), Err(HoldoutError::InvalidCorpus));
    let mut missing = full_corpus();
    missing.cases.pop();
    assert_eq!(validate_corpus(&missing), Err(HoldoutError::InvalidCorpus));
    let mut shared = full_corpus();
    shared.cases[1].fixture = "train/0".to_string();
    assert_eq!(validate_corpus(&shared), Err(HoldoutError::InvalidCorpus));
    let mut other_task = full_corpus();
    other_task.cases[3].fixture = "train/0".to_string();
    assert_eq!(validate_corpus(&other_task), Ok(()));
    let mut empty = full_corpus();
    empty.cases.clear();
    assert_eq!(validate_corpus(&empty), Err(HoldoutError::InvalidCorpus));
}

#[test]
fn confusion_counts() {
    let mut counts = ConfusionCounts::new();
    counts.record(true, true);
    counts.record(false, false);
    counts.record(false, true);
    counts.record(true, false);
    counts.record(true, true);
    assert_eq!(counts.true_positive, 2);
    assert_eq!(counts.samples(), 5);
    assert_eq!(counts.correct(), 3);
    assert_eq!(counts.positives(), 3);
    assert_eq!(counts.negatives(), 2);
}

#[test]
fn ratios_in_thousandths() {
    assert_eq!(ratio_x1000(1, 0), None);
    assert_eq!(ratio_x1000(1, 3), Some(333));
    assert_eq!(ratio_x1000(5, 3), Some(1000));
    assert_eq!(ratio_x1000(usize::MAX, usize::MAX), Some(1));
    assert_eq!(ratio_x1000(0, 7), Some(0));
}

#[test]
fn metrics_and_status() {
    let mut acc = TaskAccumulator::new();
    for n in 0..MINIMUM_HOLDOUT_CASES_PER_TASK {
        let fixture = format!("f{n}");
        acc.record_case(CalibrationSplit::Holdout, &fixture, n % 2 == 0, true, 10);
    }
    acc.record_case(CalibrationSplit::Holdout, "f0", true, true, u64::MAX);
    acc.record_case(CalibrationSplit::Train, "t", true, false, 1);
    assert_eq!(acc.holdout_fixtures.len(), MINIMUM_HOLDOUT_CASES_PER_TASK);
    assert_eq!(acc.runtime_micros, u64::MAX);
    let metrics = metrics_for(CalibrationTask::Route, acc);
    assert_eq!(metrics.independent_holdout_cases, 20);
    assert_eq!(metrics.holdout.true_positive, 11);
    assert_eq!(metrics.holdout.false_positive, 10);
    assert_eq!(metrics.precision_x1000, Some(523));
    assert_eq!(metrics.recall_x1000, Some(1000));
    assert_eq!(metrics.coverage_x1000, 1000);
    assert_eq!(metrics.train.false_negative, 1);
    assert_eq!(metrics.status, EmpiricalCalibrationStatus::Calibrated);
    assert_eq!(overall_status(&[metrics.clone()]), EmpiricalCalibrationStatus::Calibrated);
    let thin = metrics_for(CalibrationTask::Wording, TaskAccumulator::new());
    assert_eq!(thin.status, EmpiricalCalibrationStatus::InsufficientSample);
    assert_eq!(thin.precision_x1000, None);
    assert_eq!(thin.coverage_x1000, 0);
    assert_eq!(
        overall_status(&[metrics, thin]),
        EmpiricalCalibrationStatus::InsufficientSample
    );
    assert_eq!(HoldoutError::Audit.message(), "holdout fixture evaluation failed");
}

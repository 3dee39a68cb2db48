use reposeiri::patterns::model::{
    contained_relative, enabled_by_default, evaluate_adoption_gate, validate_identifier,
    AdoptionBlocker, AdoptionGateDecision, FixtureExecutionResult, FixtureExecutionStatus,
    FixtureScanBudget, FixtureSuiteReport, PatternAdoptionReview, PatternAdoptionStage,
    PatternFixtureKind, PatternPackLoadError, RelativeFixturePath,
};

fn passing_report(fingerprint: &str) -> FixtureSuiteReport {
    FixtureSuiteReport {
        schema_version: "1".to_string(),
        pack_fingerprint: fingerprint.to_string(),
        results: vec![FixtureExecutionResult {
            fixture_id: "positive-1".to_string(),
            kind: PatternFixtureKind::Positive,
            status: FixtureExecutionStatus::Passed,
        }],
        subprocesses_started: 0,
        network_requests_started: 0,
    }
}

fn review(fingerprint: &str) -> PatternAdoptionReview {
    PatternAdoptionReview {
        review_id: "R-1".to_string(),
        reviewer: "maintainer".to_string(),
        reviewed_pack_fingerprint: fingerprint.to_string(),
    }
}

#[test]
fn stage_and_kind_labels() {
    assert_eq!(PatternAdoptionStage::CommonBaseline.as_str(), "common_baseline");
    assert_eq!(PatternAdoptionStage::Candidate.as_str(), "candidate");
    assert!(PatternAdoptionStage::CommonBaseline.active_in_common_baseline());
    assert!(!PatternAdoptionStage::Candidate.active_in_common_baseline());
    let slugs: Vec<&str> = PatternFixtureKind::all().iter().map(|k| k.slug()).collect();
    assert_eq!(slugs, vec!["positive", "negative", "ambiguous", "partial", "malformed"]);
    assert!(enabled_by_default());
}

#[test]
fn fixture_paths_must_stay_relative_and_contained() {
    assert!(RelativeFixturePath::try_new("fixtures/positive".to_string()).is_ok());
    assert_eq!(
        RelativeFixturePath::try_new("fixtures/positive".to_string()).unwrap().as_str(),
        "fixtures/positive"
    );
    for bad in ["", "/abs", "a/../b", "..", &"x".repeat(513)] {
        assert_eq!(
            RelativeFixturePath::try_new(bad.to_string()),
            Err(PatternPackLoadError::InvalidFixturePath),
            "{bad}"
        );
    }
    assert!(contained_relative(&"a/..b/c".chars().collect::<Vec<_>>()));
}

#[test]
fn scan_budget_limits() {
    assert_eq!(FixtureScanBudget::default().validate(), Ok(()));
    let zero = FixtureScanBudget { max_depth: 0, ..FixtureScanBudget::default() };
    assert_eq!(zero.validate(), Err(PatternPackLoadError::InvalidScanBudget));
    let big = FixtureScanBudget { max_total_bytes: 33_554_433, ..FixtureScanBudget::default() };
    assert_eq!(big.validate(), Err(PatternPackLoadError::InvalidScanBudget));
}

#[test]
fn identifiers_are_short_ascii_words() {
    assert_eq!(validate_identifier("repo.security-policy_1"), Ok(()));
    assert_eq!(validate_identifier(""), Err(PatternPackLoadError::InvalidIdentifier));
    assert_eq!(validate_identifier("has space"), Err(PatternPackLoadError::InvalidIdentifier));
    assert_eq!(validate_identifier(&"a".repeat(129)), Err(PatternPackLoadError::InvalidIdentifier));
    assert_eq!(validate_identifier(&"a".repeat(128)), Ok(()));
}

#[test]
fn adoption_gate_lists_blockers_in_order() {
    let stages = [PatternAdoptionStage::Candidate];
    assert_eq!(
        evaluate_adoption_gate("fp", "1", &stages, &passing_report("fp"), Some(&review("fp")), "1"),
        AdoptionGateDecision::EligibleForMaintainerAdoption
    );
    assert_eq!(
        evaluate_adoption_gate(
            "fp",
            "2",
            &[PatternAdoptionStage::CommonBaseline],
            &passing_report("other"),
            None,
            "1"
        ),
        AdoptionGateDecision::Blocked(vec![
            AdoptionBlocker::FixtureFailure,
            AdoptionBlocker::MissingReview,
            AdoptionBlocker::SchemaMismatch,
            AdoptionBlocker::NonCandidateDefinition,
        ])
    );
    let blank = PatternAdoptionReview { reviewer: "  ".to_string(), ..review("fp") };
    assert_eq!(
        evaluate_adoption_gate("fp", "1", &stages, &passing_report("fp"), Some(&blank), "1"),
        AdoptionGateDecision::Blocked(vec![AdoptionBlocker::ReviewFingerprintMismatch])
    );
    let mut failing = passing_report("fp");
    failing.results[0].status = FixtureExecutionStatus::Failed;
    assert!(!failing.all_passed());
    assert!(passing_report("fp").all_passed());
}

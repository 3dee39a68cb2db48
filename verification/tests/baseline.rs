use reposeiri::fs::classify::ImportantFileKind;
use reposeiri::markdown::routes::RouteKind;
use reposeiri::patterns::baseline::{
    common_registry, evaluate_common_baseline, evidence_ids_for_detector, pattern_groups,
    profile_baseline_rule, stable_id_of, Evidence, EvidenceKind, EvidenceRecord, EvidenceScope,
    PatternDetector, PatternGroup, PatternOutcome, RepoEvidence,
};
use reposeiri::patterns::model::PatternAdoptionStage;
use reposeiri::patterns::overlay::{
    evaluate_executable_overlay, route_for_group, ExtensionDefinition, PatternExtensionError,
    PatternExtensionState,
};
use reposeiri::patterns::predicate::{Observation, PredicateInstruction, PredicateProgram};
use reposeiri::profiles::report::{GateKind, Severity};
use reposeiri::profiles::scoring::BaselineStatus;

fn evidence(id: &str, kind: EvidenceKind, route: Option<RouteKind>, value: &str) -> Evidence {
    Evidence { id: id.to_string(), kind, route, value: value.to_string() }
}

#[test]
fn common_registry_lists_every_group() {
    let registry = common_registry();
    let definitions = registry.definitions();
    assert_eq!(definitions.len(), 25);
    assert_eq!(definitions[0].id, "common.identity.readme_present");
    assert_eq!(definitions[0].adoption_stage, PatternAdoptionStage::CommonBaseline);
    let groups = pattern_groups();
    assert_eq!(groups.len(), 13);
    for group in &groups {
        assert!(definitions.iter().any(|definition| definition.group == group.group), "{:?}", group.group);
    }
    let mut ids: Vec<&str> = definitions.iter().map(|definition| definition.id).collect();
    ids.sort_unstable();
    ids.dedup();
    assert_eq!(ids.len(), 25);
    assert!(definitions.iter().any(|d| d.adoption_stage == PatternAdoptionStage::Candidate));
}

#[test]
fn detectors_read_the_ledger_before_legacy_evidence() {
    let legacy = RepoEvidence {
        evidence: vec![
            evidence("e1", EvidenceKind::MarkdownLink, Some(RouteKind::Docs), ""),
            evidence("e2", EvidenceKind::ImportantFile, None, "License"),
            evidence("e3", EvidenceKind::ReadmePresent, Some(RouteKind::Docs), ""),
        ],
        ledger: Vec::new(),
    };
    assert_eq!(evidence_ids_for_detector(&legacy, PatternDetector::ReadmeRoute(RouteKind::Docs)), vec!["e1"]);
    assert_eq!(evidence_ids_for_detector(&legacy, PatternDetector::Route(RouteKind::Docs)), vec!["e1", "e3"]);
    assert_eq!(evidence_ids_for_detector(&legacy, PatternDetector::ImportantFile(ImportantFileKind::License)), vec!["e2"]);
    assert!(evidence_ids_for_detector(&legacy, PatternDetector::ImportantFile(ImportantFileKind::Support)).is_empty());

    let ledger = RepoEvidence {
        evidence: legacy.evidence.clone(),
        ledger: vec![
            EvidenceRecord {
                id: "r1".to_string(),
                scope: EvidenceScope::Root,
                kind: EvidenceKind::ReadmePresent,
                route: None,
                value: String::new(),
                legacy_evidence_id: Some("e3".to_string()),
            },
            EvidenceRecord {
                id: "r2".to_string(),
                scope: EvidenceScope::Nested,
                kind: EvidenceKind::ReadmePresent,
                route: None,
                value: String::new(),
                legacy_evidence_id: None,
            },
        ],
    };
    assert_eq!(evidence_ids_for_detector(&ledger, PatternDetector::EvidenceKind(EvidenceKind::ReadmePresent)), vec!["e3"]);
    assert!(evidence_ids_for_detector(&ledger, PatternDetector::Route(RouteKind::Docs)).is_empty());
}

#[test]
fn baseline_reports_missing_patterns_as_findings() {
    let snapshot = RepoEvidence {
        evidence: vec![evidence("e1", EvidenceKind::ReadmePresent, None, "")],
        ledger: Vec::new(),
    };
    let evaluation = evaluate_common_baseline(&snapshot);
    let active = common_registry()
        .definitions()
        .iter()
        .filter(|definition| definition.adoption_stage == PatternAdoptionStage::CommonBaseline)
        .count();
    assert_eq!(evaluation.rules.len(), active);
    assert_eq!(evaluation.pattern_matches.len(), active);
    let first = &evaluation.rules[0];
    assert_eq!(first.status, BaselineStatus::Present);
    assert_eq!(first.rule_id, "baseline-rule-0001");
    assert_eq!(first.message, "Pattern observed in common baseline evidence.");
    assert!(first.finding_id.is_none());
    assert_eq!(evaluation.pattern_matches[0].outcome, PatternOutcome::Present);
    assert_eq!(evaluation.pattern_matches[0].basis, "evidence kind");
    let second = &evaluation.rules[1];
    assert_eq!(second.status, BaselineStatus::Missing);
    assert_eq!(second.finding_id.as_deref(), Some("finding-0001"));
    assert_eq!(evaluation.findings.len(), active - 1);
    let finding = &evaluation.findings[0];
    assert_eq!(finding.title, "Documentation route is missing");
    let recommendation = finding.recommendation.as_ref().unwrap();
    assert_eq!(recommendation.id, "rec-0001");
    assert_eq!(recommendation.gate, GateKind::Safe);
    let summary = evaluation.summary;
    assert_eq!(
        summary.required_present + summary.required_missing + summary.optional_present + summary.optional_missing,
        active
    );
    assert_eq!(summary.required_present, 1);
    let profile_rule = profile_baseline_rule(first);
    assert_eq!(profile_rule.pattern_id, first.pattern_id);
    assert_eq!(profile_rule.evidence_ids, vec!["e1".to_string()]);
}

#[test]
fn stable_ids_pad_to_four_digits() {
    assert_eq!(stable_id_of("finding", 7), "finding-0007");
    assert_eq!(stable_id_of("rec", 12345), "rec-12345");
}

fn single_atom_program() -> PredicateProgram<u32> {
    PredicateProgram::try_new(vec![7], vec![PredicateInstruction::PushAtom(0)]).unwrap()
}

#[test]
fn overlay_evaluates_enabled_patterns_and_refuses_common_ids() {
    let definitions = vec![
        ExtensionDefinition { id: "ext.present".to_string(), group: PatternGroup::Doc, enabled: true, predicate: single_atom_program() },
        ExtensionDefinition { id: "ext.absent".to_string(), group: PatternGroup::Sec, enabled: true, predicate: single_atom_program() },
        ExtensionDefinition { id: "ext.off".to_string(), group: PatternGroup::Hyg, enabled: false, predicate: single_atom_program() },
        ExtensionDefinition { id: "ext.unknown".to_string(), group: PatternGroup::Lif, enabled: true, predicate: single_atom_program() },
    ];
    let observations = vec![
        vec![Observation::Present { evidence: vec![4, 5] }],
        vec![Observation::Absent { coverage: 1 }],
        vec![Observation::Absent { coverage: 1 }],
        vec![Observation::Unknown(3)],
    ];
    let overlay = evaluate_executable_overlay(&definitions, &observations, "pack", "1.0").unwrap();
    assert_eq!(overlay.evaluations.len(), 4);
    assert_eq!(overlay.evaluations[0].state, PatternExtensionState::Present);
    assert_eq!(overlay.evaluations[0].evidence_ids, vec![4, 5]);
    assert_eq!(overlay.evaluations[0].route, RouteKind::Docs);
    assert_eq!(overlay.evaluations[1].state, PatternExtensionState::Absent);
    assert_eq!(overlay.evaluations[2].state, PatternExtensionState::Disabled);
    assert_eq!(overlay.evaluations[3].state, PatternExtensionState::Unknown(3));
    assert_eq!(overlay.pattern_matches.len(), 2);
    assert_eq!(overlay.pattern_matches[1].id, "extension-pattern-match-0002");
    assert_eq!(overlay.pattern_matches[0].basis, "validated data-only predicate from executable pack pack@1.0");
    assert_eq!(overlay.findings.len(), 1);
    assert_eq!(overlay.findings[0].id, "extension-finding-0001");
    assert_eq!(overlay.findings[0].severity, Severity::Info);
    assert_eq!(
        overlay.findings[0].message,
        "The explicitly selected data-only predicate `ext.absent` was absent under complete predicate coverage."
    );

    let clash = vec![ExtensionDefinition {
        id: "common.docs.route_present".to_string(),
        group: PatternGroup::Doc,
        enabled: true,
        predicate: single_atom_program(),
    }];
    let error = evaluate_executable_overlay(&clash, &[vec![Observation::Absent { coverage: 1 }]], "p", "1").unwrap_err();
    assert_eq!(error, PatternExtensionError::CommonPatternConflict("common.docs.route_present".to_string()));
    assert_eq!(error.message(), "executable pattern `common.docs.route_present` conflicts with the common registry");
    assert_eq!(route_for_group(PatternGroup::Lif), RouteKind::Lifecycle);
}

use reposeiri::fs::classify::ImportantFileKind;
use reposeiri::fs::records::{FileKind, FileRecord};
use reposeiri::markdown::routes::RouteKind;
use reposeiri::profiles::branches::{profile_branches, CalibrationLookup, CalibrationPriorState};
use reposeiri::profiles::catalog::{branch_profiles, catalog_rules, common_profile_registry, profile_rules};
use reposeiri::profiles::registry::{
    ProfileDefinition, ProfileKind, ProfilePriority, ProfileRegistry, ProfileRegistryError,
    ProfileRuleDefinition,
};
use reposeiri::profiles::report::{
    evaluate_profile, evaluate_profile_from_parts, ordered_recommendations, profile_branch_summary,
    to_profile_rule_result, FindingSummary, GateKind, ProfileAnalysis, Severity,
};
use reposeiri::profiles::scoring::{
    evidence_backed_status, has_route, path_or_readme_contains, profile_signal_score, score_view,
    BaselineRuleResult, BaselineStatus, ProfileScoringInput, ProfileSnapshot,
};
use reposeiri::profiles::weight::StaticProfileWeight;

fn all_profiles() -> Vec<ProfileKind> {
    ProfileKind::all()
}

fn present(pattern: &str, route: Option<RouteKind>) -> BaselineRuleResult {
    BaselineRuleResult {
        pattern_id: pattern.to_string(),
        title: format!("{pattern} title"),
        route,
        status: BaselineStatus::Present,
        evidence_ids: vec!["evidence-1".to_string()],
        finding_id: None,
    }
}

fn missing(pattern: &str, finding: Option<&str>) -> BaselineRuleResult {
    BaselineRuleResult {
        pattern_id: pattern.to_string(),
        title: format!("{pattern} title"),
        route: None,
        status: BaselineStatus::Missing,
        evidence_ids: Vec::new(),
        finding_id: finding.map(str::to_string),
    }
}

fn empty_snapshot() -> ProfileSnapshot {
    ProfileSnapshot {
        shown_routes: Vec::new(),
        important_files: Vec::new(),
        files: Vec::new(),
        readme_texts: Vec::new(),
    }
}

#[test]
fn every_profile_weights_nine_patterns_to_one_hundred() {
    for profile in all_profiles() {
        let rules = catalog_rules(profile);
        assert_eq!(rules.len(), 9, "{profile:?}");
        let total: u32 = rules.iter().map(|rule| rule.weight.get()).sum();
        assert_eq!(total, 100, "{profile:?}");
        let mut ids: Vec<&str> = rules.iter().map(|rule| rule.pattern_id).collect();
        ids.sort_unstable();
        ids.dedup();
        assert_eq!(ids.len(), 9);
    }
}

#[test]
fn library_catalog_leads_with_identity_and_docs() {
    let rules = profile_rules(ProfileKind::Library);
    assert_eq!(rules[0].pattern_id, "common.identity.readme_present");
    assert_eq!(rules[0].weight.get(), 15);
    assert_eq!(rules[0].priority, ProfilePriority::Critical);
    assert_eq!(rules[1].pattern_id, "common.docs.route_present");
    assert_eq!(rules[1].weight.get(), 22);
    let ml = catalog_rules(ProfileKind::Ml);
    let research = catalog_rules(ProfileKind::Research);
    assert_eq!(ml, research);
}

#[test]
fn built_in_registry_is_complete() {
    let registry = common_profile_registry();
    assert_eq!(registry.definitions().len(), 11);
    assert!(registry.validate_complete().is_ok());
    let docs = registry.definition(ProfileKind::Docs).unwrap();
    assert_eq!(docs.profile, ProfileKind::Docs);
    assert_eq!(docs.rules.len(), 9);
    assert_eq!(branch_profiles().len(), 10);
    assert!(branch_profiles().iter().all(|(profile, order)| *profile != ProfileKind::Common && *order == 0));
}

fn rule(id: &'static str) -> ProfileRuleDefinition {
    ProfileRuleDefinition {
        pattern_id: id,
        weight: StaticProfileWeight::from_registry_value(5).unwrap(),
        priority: ProfilePriority::Low,
        reason: "r",
    }
}

fn complete_definitions() -> Vec<ProfileDefinition> {
    all_profiles()
        .into_iter()
        .map(|profile| ProfileDefinition { profile, rules: vec![rule("a")] })
        .collect()
}

#[test]
fn registry_rejects_each_kind_of_gap() {
    assert!(ProfileRegistry::try_complete(complete_definitions()).is_ok());

    let mut duplicate = complete_definitions();
    duplicate.push(ProfileDefinition { profile: ProfileKind::Cli, rules: vec![rule("a")] });
    let error = ProfileRegistry::try_complete(duplicate).unwrap_err();
    assert_eq!(error, ProfileRegistryError::DuplicateProfile(ProfileKind::Cli));
    assert_eq!(error.message(), "duplicate profile 'cli'");

    let mut empty = complete_definitions();
    empty[2].rules.clear();
    let error = ProfileRegistry::try_complete(empty).unwrap_err();
    assert_eq!(error, ProfileRegistryError::EmptyProfile(ProfileKind::Cli));
    assert_eq!(error.message(), "profile 'cli' has no rules");

    let mut repeated = complete_definitions();
    repeated[1].rules = vec![rule("a"), rule("b"), rule("a")];
    let error = ProfileRegistry::try_complete(repeated).unwrap_err();
    assert_eq!(
        error,
        ProfileRegistryError::DuplicateRule { profile: ProfileKind::Library, pattern_id: "a" }
    );
    assert_eq!(error.message(), "profile 'library' has duplicate rule 'a'");

    let mut short = complete_definitions();
    short.remove(3);
    let error = ProfileRegistry::try_complete(short).unwrap_err();
    assert_eq!(error, ProfileRegistryError::MissingProfile(ProfileKind::Infra));
    assert_eq!(error.message(), "profile 'infra' is missing");
}

#[test]
fn evidence_backs_present_status() {
    assert_eq!(evidence_backed_status(&present("x", None)), BaselineStatus::Present);
    let mut bare = present("x", None);
    bare.evidence_ids.clear();
    assert_eq!(evidence_backed_status(&bare), BaselineStatus::Missing);
}

#[test]
fn score_view_weighs_present_rules() {
    let weight = |value| StaticProfileWeight::from_registry_value(value).unwrap();
    let inputs = [
        ProfileScoringInput { status: BaselineStatus::Present, weight: weight(20) },
        ProfileScoringInput { status: BaselineStatus::Missing, weight: weight(60) },
        ProfileScoringInput { status: BaselineStatus::Present, weight: weight(3) },
    ];
    let view = score_view(&inputs);
    assert_eq!(view.total_weight, 83);
    assert_eq!(view.earned_weight, 23);
    assert_eq!(view.score_x100, 27);
    assert_eq!(view.present_rules, 2);
    assert_eq!(view.missing_rules, 1);
    assert_eq!(score_view(&[]).score_x100, 0);
}

#[test]
fn routes_are_shown_by_baseline_or_analysis() {
    let baseline = vec![present("common.docs.route_present", Some(RouteKind::Docs))];
    assert!(has_route(None, &baseline, RouteKind::Docs));
    assert!(!has_route(None, &baseline, RouteKind::Support));
    let mut snapshot = empty_snapshot();
    snapshot.shown_routes.push(RouteKind::Support);
    assert!(has_route(Some(&snapshot), &baseline, RouteKind::Support));
}

#[test]
fn path_signals_skip_fixture_trees_and_read_readme_words() {
    let mut snapshot = empty_snapshot();
    snapshot.files.push(FileRecord { path: "examples\\api".to_string(), kind: FileKind::Directory, size_bytes: 0 });
    assert!(!path_or_readme_contains(Some(&snapshot), &["api"]));
    snapshot.files.push(FileRecord { path: "Src\\Main.rs".to_string(), kind: FileKind::File, size_bytes: 4 });
    assert!(path_or_readme_contains(Some(&snapshot), &["src/main.rs"]));
    assert!(!path_or_readme_contains(None, &["src/main.rs"]));
    let mut readme = empty_snapshot();
    readme.readme_texts.push("See the SDK guide".to_string());
    assert!(path_or_readme_contains(Some(&readme), &["sdk"]));
    assert!(!path_or_readme_contains(Some(&readme), &["sd"]));
}

#[test]
fn signal_score_counts_purpose_signals_only() {
    let mut snapshot = empty_snapshot();
    snapshot.important_files.push(ImportantFileKind::CargoToml);
    let (score, matched, missing) = profile_signal_score(Some(&snapshot), &[], ProfileKind::Library);
    assert_eq!(score, 60);
    assert_eq!(matched, vec!["package manifest".to_string()]);
    assert_eq!(missing, vec!["examples or API wording".to_string()]);

    let (score, matched, missing) = profile_signal_score(None, &[], ProfileKind::Common);
    assert_eq!((score, matched.len(), missing.len()), (0, 0, 0));

    let mut research = empty_snapshot();
    research.files.push(FileRecord { path: "papers/intro.pdf".to_string(), kind: FileKind::File, size_bytes: 1 });
    let (score, matched, _) = profile_signal_score(Some(&research), &[], ProfileKind::Research);
    assert_eq!(score, 100);
    assert_eq!(matched, vec!["research artifact path".to_string()]);
}

#[test]
fn rule_results_are_numbered_and_default_to_missing() {
    let definition = &catalog_rules(ProfileKind::Common)[0];
    let unknown = to_profile_rule_result(7, ProfileKind::Common, definition, None);
    assert_eq!(unknown.rule_id, "profile-rule-0007");
    assert_eq!(unknown.title, "Unknown baseline pattern");
    assert_eq!(unknown.status, BaselineStatus::Missing);
    let known = present("common.identity.readme_present", Some(RouteKind::Identity));
    let result = to_profile_rule_result(12345, ProfileKind::Common, definition, Some(&known));
    assert_eq!(result.rule_id, "profile-rule-12345");
    assert_eq!(result.status, BaselineStatus::Present);
    assert_eq!(result.weight, 20);
    assert_eq!(result.evidence_ids, vec!["evidence-1".to_string()]);
}

#[test]
fn report_scores_common_profile_and_orders_recommendations() {
    let baseline = vec![
        present("common.identity.readme_present", Some(RouteKind::Identity)),
        present("common.license.file_present", Some(RouteKind::License)),
        missing("common.docs.route_present", Some("finding-docs")),
        missing("common.support.route_present", None),
    ];
    let findings = vec![FindingSummary {
        id: "finding-docs".to_string(),
        title: "Documentation route is missing".to_string(),
        severity: Severity::Low,
        gate: Some(GateKind::Safe),
    }];
    let report = evaluate_profile_from_parts(&baseline, &findings, ProfileKind::Common);
    assert_eq!(report.rules.len(), 9);
    assert_eq!(report.score.total_weight, 100);
    assert_eq!(report.score.earned_weight, 40);
    assert_eq!(report.score.score_x100, 40);
    assert_eq!(report.recommendations.len(), 7);
    let first = &report.recommendations[0];
    assert_eq!(first.rank, 1);
    assert_eq!(first.pattern_id, "common.docs.route_present");
    assert_eq!(first.title, "Documentation route is missing");
    assert_eq!(first.gate, GateKind::Safe);
    assert_eq!(report.recommendations[1].pattern_id, "common.quickstart.route_present");
    assert_eq!(report.recommendations[1].gate, GateKind::Guarded);
    assert_eq!(report.recommendations[6].pattern_id, "common.automation.route_present");
    assert_eq!(report.branches.len(), 10);
    assert_eq!(report.branch_summary.emitted_profiles, 10);
    assert!(report.branch_summary.ambiguous);
    assert_eq!(report.branch_summary.top_profile, Some(report.branches[0].profile));
}

#[test]
fn recommendations_break_ties_by_pattern_id() {
    let definition = &catalog_rules(ProfileKind::Common)[4];
    let mut b = to_profile_rule_result(1, ProfileKind::Common, definition, None);
    b.pattern_id = "b".to_string();
    let mut a = b.clone();
    a.pattern_id = "a".to_string();
    let ordered = ordered_recommendations(&[b, a], &[]);
    assert_eq!(ordered[0].pattern_id, "a");
    assert_eq!(ordered[1].pattern_id, "b");
    assert_eq!(ordered[1].rank, 2);
}

#[test]
fn branches_rank_by_score_then_affinity_then_profile() {
    let priors = [CalibrationLookup::NotRequested; 10];
    let branches = profile_branches(None, &[], ProfileKind::Cli, &priors);
    let order: Vec<ProfileKind> = branches.iter().map(|branch| branch.profile).collect();
    assert_eq!(
        order,
        vec![
            ProfileKind::Library,
            ProfileKind::Cli,
            ProfileKind::Infra,
            ProfileKind::Product,
            ProfileKind::Runtime,
            ProfileKind::Docs,
            ProfileKind::Tutorial,
            ProfileKind::Ml,
            ProfileKind::Research,
            ProfileKind::Template,
        ]
    );
    assert!(branches.iter().enumerate().all(|(index, branch)| branch.rank == index + 1));
    let cli = branches.iter().find(|branch| branch.profile == ProfileKind::Cli).unwrap();
    assert!(cli.rationale.ends_with(" Selected CLI/API profile; confidence remains evidence-weighted."));

    let mut boosted = [CalibrationLookup::NotRequested; 10];
    boosted[9] = CalibrationLookup::Available(100);
    let branches = profile_branches(None, &[], ProfileKind::Cli, &boosted);
    assert_eq!(branches[0].profile, ProfileKind::Template);
    assert_eq!(branches[0].semantics.rank_score, 15);
    assert_eq!(branches[0].semantics.calibration_prior, CalibrationPriorState::AppliedRedacted);
    let summary = profile_branch_summary(ProfileKind::Cli, &branches);
    assert_eq!(summary.top_profile, Some(ProfileKind::Template));
    assert_eq!(summary.top_rank_score_x100, Some(15));
    assert!(summary.ambiguous);
}

#[test]
fn evaluation_needs_a_baseline() {
    let analysis = ProfileAnalysis { baseline: None, findings: Vec::new(), snapshot: empty_snapshot() };
    assert!(evaluate_profile(&analysis, ProfileKind::Library).is_none());
    let analysis = ProfileAnalysis { baseline: Some(Vec::new()), findings: Vec::new(), snapshot: empty_snapshot() };
    let report = evaluate_profile(&analysis, ProfileKind::Library).unwrap();
    assert_eq!(report.score.score_x100, 0);
    assert_eq!(report.recommendations.len(), 9);
    assert_eq!(report.recommendations[0].pattern_id, "common.docs.route_present");
}

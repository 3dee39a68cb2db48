use reposeiri::markdown::routes::RouteKind;
use reposeiri::profiles::scoring::{shown_routes, ProfileSnapshot, RouteAssessmentFlags};
use reposeiri::profiles::signals::{
    contains_signal, is_primary_artifact_path, is_purpose_signal, profile_rank_score,
    trim_matches_char, typed_path_signal,
};
use reposeiri::profiles::weight::StaticProfileWeight;

#[test]
fn weights_are_non_zero() {
    assert!(StaticProfileWeight::from_registry_value(0).is_none());
    assert_eq!(StaticProfileWeight::from_registry_value(7).unwrap().get(), 7);
    assert_eq!(StaticProfileWeight::from_registry_value(u16::MAX).unwrap().get(), 65_535);
}

#[test]
fn rank_score_blends_and_caps() {
    assert_eq!(profile_rank_score(0, 0, 0), 0);
    assert_eq!(profile_rank_score(100, 100, 100), 100);
    assert_eq!(profile_rank_score(50, 40, 10), 7 + 22 + 3);
    assert_eq!(profile_rank_score(255, 255, 255), 100);
}

#[test]
fn purpose_labels() {
    assert!(is_purpose_signal("docs directory"));
    assert!(is_purpose_signal("template or action path"));
    assert!(!is_purpose_signal("Docs directory"));
    assert!(!is_purpose_signal("license file"));
}

#[test]
fn signal_words_are_whole_ascii_words() {
    assert!(contains_signal("A Rust-based CLI tool", &["cli"]));
    assert!(contains_signal("see /docs/ folder", &["/docs/"]));
    assert!(!contains_signal("clients only", &["cli"]));
    assert!(!contains_signal("", &["cli"]));
    assert!(!contains_signal("tool", &[]));
    assert!(contains_signal("server, api", &["web", "API"]));
}

#[test]
fn slashes_are_trimmed_from_both_ends() {
    let trimmed: String = trim_matches_char(&"//a/b//".chars().collect::<Vec<_>>(), '/')
        .into_iter()
        .collect();
    assert_eq!(trimmed, "a/b");
    assert!(trim_matches_char(&"///".chars().collect::<Vec<_>>(), '/').is_empty());
}

#[test]
fn primary_artifacts_exclude_fixture_and_build_trees() {
    assert!(is_primary_artifact_path("src/main.rs"));
    assert!(!is_primary_artifact_path("tests/a.rs"));
    assert!(!is_primary_artifact_path("node_modules/x/index.js"));
    assert!(is_primary_artifact_path("testing/a.rs"));
    assert!(!is_primary_artifact_path("vendor"));
}

#[test]
fn typed_path_signals() {
    assert!(typed_path_signal("src/bin/tool.rs", "bin"));
    assert!(typed_path_signal("Dockerfile.prod", "dockerfile") == false);
    assert!(typed_path_signal("deploy/docker.yml", "docker"));
    assert!(typed_path_signal(".github/workflows/ci.yml", "/.github/workflows/ci.yml/"));
    assert!(typed_path_signal("x/.github/workflows/ci.yml", ".github/workflows/ci.yml"));
    assert!(!typed_path_signal("x.github/workflows/ci.yml", ".github/workflows/ci.yml"));
    assert!(typed_path_signal("src/Main.rs", "MAIN") == false);
    assert!(typed_path_signal("src/main.rs", "MAIN"));
}

#[test]
fn shown_routes_come_from_assessments_and_facts() {
    let flags = |route, root_structured, inherited, readme_routed| RouteAssessmentFlags { route, root_structured, inherited, readme_routed };
    let assessments = [
        flags(RouteKind::Security, false, false, false),
        flags(RouteKind::Docs, false, true, false),
        flags(RouteKind::Support, false, false, true),
        flags(RouteKind::Docs, true, false, false),
    ];
    let facts = [None, Some(RouteKind::License), Some(RouteKind::Hygiene)];
    assert_eq!(
        shown_routes(&assessments, &facts),
        vec![RouteKind::Hygiene, RouteKind::Docs, RouteKind::Support, RouteKind::License]
    );
    assert!(shown_routes(&[], &[]).is_empty());
}

#[test]
fn snapshot_routes_come_from_observations() {
    let assessments = [RouteAssessmentFlags { route: RouteKind::Docs, root_structured: true, inherited: false, readme_routed: false }];
    let snapshot = ProfileSnapshot::from_observations(&assessments, &[Some(RouteKind::Security)], vec![], vec![], vec![]);
    assert_eq!(snapshot.shown_routes, vec![RouteKind::Docs, RouteKind::Security]);
}

use reposeiri::markdown::route_map::{
    classify_target_status, evidence_lines, normalize_target_key, readme_hub_routes,
    route_counts, strip_target_fragment, target_counts, target_probe_path, target_routes,
    ReadmeRouteTarget, ReadmeRouteTargetStatus, RouteCandidate, RouteSource,
};
use reposeiri::markdown::routes::RouteKind;

fn candidate(route: RouteKind, source: RouteSource, target: Option<&str>, line: usize) -> RouteCandidate {
    RouteCandidate {
        route,
        source,
        text: "x".to_string(),
        target: target.map(str::to_string),
        line,
        span: None,
    }
}

fn target(text: &str, status: ReadmeRouteTargetStatus, routes: Vec<RouteKind>) -> ReadmeRouteTarget {
    ReadmeRouteTarget {
        target: text.to_string(),
        line: 1,
        source: RouteSource::Link,
        status,
        routes,
    }
}

#[test]
fn target_keys_and_fragments() {
    assert_eq!(strip_target_fragment("docs/a.md#x"), "docs/a.md");
    assert_eq!(strip_target_fragment("a.md ?q"), "a.md");
    assert_eq!(normalize_target_key("  Docs\\A.md#top "), "docs/a.md");
    assert_eq!(normalize_target_key("#only"), "");
}

#[test]
fn target_statuses() {
    assert_eq!(classify_target_status("HTTPS://x", Some(true)), ReadmeRouteTargetStatus::External);
    assert_eq!(classify_target_status("mailto:a@b", None), ReadmeRouteTargetStatus::Mail);
    assert_eq!(classify_target_status("#top", None), ReadmeRouteTargetStatus::Anchor);
    assert_eq!(classify_target_status(" ?q", None), ReadmeRouteTargetStatus::Anchor);
    assert_eq!(classify_target_status("SECURITY.md", None), ReadmeRouteTargetStatus::Unknown);
    assert_eq!(classify_target_status("SECURITY.md", Some(true)), ReadmeRouteTargetStatus::LocalPresent);
    assert_eq!(classify_target_status("SECURITY.md#x", Some(false)), ReadmeRouteTargetStatus::LocalMissing);
    assert_eq!(target_probe_path(" docs/a.md#x "), Some("docs/a.md".to_string()));
    assert_eq!(target_probe_path("http://x"), None);
    assert_eq!(target_probe_path("#x"), None);
}

#[test]
fn per_route_evidence() {
    let candidates = vec![
        candidate(RouteKind::Security, RouteSource::Heading, None, 7),
        candidate(RouteKind::Security, RouteSource::Link, Some("SECURITY.md"), 3),
        candidate(RouteKind::Support, RouteSource::Link, Some("./SECURITY.md#x"), 3),
        candidate(RouteKind::Security, RouteSource::Badge, Some("security.md"), 7),
    ];
    let counts = route_counts(&candidates, RouteKind::Security);
    assert_eq!(
        (counts.candidate_count, counts.heading_count, counts.link_count, counts.badge_count),
        (3, 1, 1, 1)
    );
    assert_eq!(evidence_lines(&candidates, RouteKind::Security), vec![3, 7]);
    assert_eq!(evidence_lines(&candidates, RouteKind::Docs), Vec::<usize>::new());
    assert_eq!(target_routes(&candidates, "security.md"), vec![RouteKind::Security]);
    assert_eq!(target_routes(&candidates, "./security.md"), vec![RouteKind::Support]);
    assert_eq!(readme_hub_routes().len(), 14);
    assert_eq!(readme_hub_routes()[0], RouteKind::Identity);
}

#[test]
fn target_count_summary() {
    let targets = vec![
        target("a.md", ReadmeRouteTargetStatus::LocalMissing, vec![RouteKind::Docs, RouteKind::Support]),
        target("a.md", ReadmeRouteTargetStatus::LocalMissing, vec![RouteKind::Docs]),
        target("b.md", ReadmeRouteTargetStatus::LocalPresent, vec![RouteKind::Docs]),
    ];
    let counts = target_counts(&targets);
    assert_eq!(counts.target_count, 2);
    assert_eq!(counts.stale_target_count, 2);
    assert_eq!(counts.conflicting_target_count, 1);
}

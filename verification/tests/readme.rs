use reposeiri::markdown::readme::summarize_readme_events;
use reposeiri::markdown::route_map::RouteSource;
use reposeiri::markdown::routes::RouteKind;
use reposeiri::markdown::scan::scan_document;

#[test]
fn readme_parts_keep_source_order_and_sort_candidates() {
    let text = "# Project\n\n## Security\n\n[Docs](docs/) and [Support](SUPPORT.md)\n\n## Contributing\n";
    let scan = scan_document("README.md".to_string(), text).unwrap();
    let parts = summarize_readme_events(scan.events);
    let headings: Vec<&str> = parts.headings.iter().map(|h| h.text.as_str()).collect();
    assert_eq!(headings, vec!["Project", "Security", "Contributing"]);
    let links: Vec<&str> = parts.links.iter().map(|l| l.target.as_str()).collect();
    assert_eq!(links, vec!["docs/", "SUPPORT.md"]);
    assert!(parts.badges.is_empty());
    let routes: Vec<RouteKind> = parts.route_candidates.iter().map(|c| c.route).collect();
    let order = [
        RouteKind::Hygiene, RouteKind::Quickstart, RouteKind::Docs, RouteKind::Intake, RouteKind::Lifecycle,
        RouteKind::Support, RouteKind::Contributing, RouteKind::Security, RouteKind::Release, RouteKind::Governance,
        RouteKind::License, RouteKind::Ownership, RouteKind::Automation, RouteKind::Identity, RouteKind::Unknown,
    ];
    let rank = |r: &RouteKind| order.iter().position(|x| x == r).unwrap();
    assert!(routes.windows(2).all(|w| rank(&w[0]) <= rank(&w[1])));
    assert!(routes.contains(&RouteKind::Security) && routes.contains(&RouteKind::Support));
    assert!(parts.route_candidates.iter().any(|c| c.route == RouteKind::Docs && c.source == RouteSource::Link));
}

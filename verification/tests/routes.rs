use reposeiri::markdown::routes::{
    classify_route, classify_routes, contains_route_alias, has_explicit_release_marker,
    route_aliases, RouteKind,
};

#[test]
fn lifecycle_specific_version_terms_do_not_create_release_conflicts() {
    assert_eq!(
        classify_routes("Supported versions", None),
        vec![RouteKind::Lifecycle]
    );
    assert_eq!(
        classify_routes("Compatibility policy", None),
        vec![RouteKind::Lifecycle]
    );
    assert_eq!(
        classify_routes("Release supported versions", None),
        vec![RouteKind::Lifecycle, RouteKind::Release]
    );
}

#[test]
fn ascii_aliases_match_whole_words_only() {
    assert!(contains_route_alias("see the ci badge", "ci"));
    assert!(!contains_route_alias("special", "ci"));
    assert!(contains_route_alias("ci_x ci", "ci"));
    assert!(!contains_route_alias("ci_x", "ci"));
    assert!(contains_route_alias("セキュリティ情報", "セキュリティ"));
    assert!(!contains_route_alias("xa a", "a a"));
    assert!(contains_route_alias("(security)", "security"));
}

#[test]
fn intake_hides_support_unless_support_is_named() {
    assert_eq!(route_aliases("bug report issues"), vec![RouteKind::Intake]);
    assert_eq!(
        route_aliases("bug report and support"),
        vec![RouteKind::Intake, RouteKind::Support]
    );
    assert_eq!(route_aliases("issues"), vec![RouteKind::Support]);
}

#[test]
fn release_markers() {
    assert!(has_explicit_release_marker("see the changelog"));
    assert!(!has_explicit_release_marker("versions"));
    assert_eq!(route_aliases("lts versions"), vec![RouteKind::Lifecycle]);
    assert_eq!(
        route_aliases("lts changelog"),
        vec![RouteKind::Lifecycle, RouteKind::Release]
    );
}

#[test]
fn text_first_then_target() {
    assert_eq!(classify_route("Security Policy", None), RouteKind::Security);
    assert_eq!(classify_route("click here", Some("SECURITY.md")), RouteKind::Security);
    assert_eq!(classify_route("click here", Some("x.md")), RouteKind::Unknown);
    assert_eq!(classify_route("click here", None), RouteKind::Unknown);
    assert_eq!(
        classify_routes("Getting Started and Docs", Some("LICENSE")),
        vec![RouteKind::Quickstart, RouteKind::Docs]
    );
    assert_eq!(classify_routes("ライセンス", None), vec![RouteKind::License]);
}

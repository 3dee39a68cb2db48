use reposeiri::patterns::baseline::{common_registry, PatternGroup};
use reposeiri::patterns::document::{registry_document, render_common_registry_markdown, render_registry_markdown};
use reposeiri::patterns::baseline::PatternRegistry;
use reposeiri::report::registry::pattern_registry_to_markdown;

#[test]
fn registry_document_counts_groups() {
    let document = registry_document(&common_registry(), "schema.test");
    assert_eq!(document.schema_version, "schema.test");
    assert_eq!(document.registry_version, "pattern_registry.v2");
    assert_eq!(document.groups.len(), 13);
    assert_eq!(document.patterns.len(), 25);
    let lif = &document.groups[12];
    assert_eq!((lif.code, lif.title), ("LIF", "Lifecycle"));
    assert_eq!((lif.pattern_count, lif.baseline_count, lif.candidate_count), (3, 2, 1));
    let int = &document.groups[6];
    assert_eq!((int.code, int.pattern_count, int.baseline_count, int.candidate_count), ("INT", 4, 0, 4));
    let total: usize = document.groups.iter().map(|g| g.pattern_count).sum();
    assert_eq!(total, 25);
    let first = &document.patterns[0];
    assert_eq!(first.id, "common.identity.readme_present");
    assert_eq!(first.group, PatternGroup::Idn);
    assert_eq!(first.detector_kind, "evidence kind");
    assert_eq!(first.detector, "evidence kind:ReadmePresent");
    assert_eq!(first.adoption_stage, "common_baseline");
    assert!(first.active_in_common_baseline);
}

#[test]
fn registry_markdown_lists_groups_and_patterns() {
    let out = render_common_registry_markdown("schema.test");
    assert!(out.starts_with(
        "# RepoSeiri Pattern Registry\n\n- Schema: `schema.test`\n- Registry: `pattern_registry.v2`\n- Boundary: Registry patterns are deterministic review rules and candidates."
    ));
    assert!(out.contains("## Groups\n\n- `IDN` Identity: `1` patterns (`1` baseline / `0` candidate)\n"));
    assert!(out.contains("- `LIF` Lifecycle: `3` patterns (`2` baseline / `1` candidate)\n\n## IDN - Identity\n\n"));
    assert!(out.contains(
        "- `LIF-001` `candidate` route `Lifecycle` detector `README route:Lifecycle`: Lifecycle route is visible\n"
    ));
    assert!(out.contains(
        "- `common.quickstart.route_present` `common_baseline` route `Quickstart` detector `README route:Quickstart`: Quickstart route is visible\n"
    ));
    assert!(out.ends_with("\n\n"));
    assert_eq!(pattern_registry_to_markdown("schema.test"), out);
}

#[test]
fn empty_registry_says_no_patterns() {
    let out = render_registry_markdown(&PatternRegistry::new(Vec::new()), "s");
    assert!(out.contains("- `DOC` Documentation: `0` patterns (`0` baseline / `0` candidate)\n"));
    assert!(out.contains("## SEC - Security\n\nSecurity policy, disclosure, and safety routing.\n\n- No registered patterns.\n\n"));
    assert_eq!(out.matches("- No registered patterns.").count(), 13);
}

#[test]
fn common_registry_markdown_has_a_section_with_patterns_per_group() {
    let out = render_common_registry_markdown("schema.test");
    assert!(out.starts_with("# RepoSeiri Pattern Registry\n\n"));
    assert!(!out.contains("- No registered patterns."));
    let groups_at = out.find("## Groups").unwrap();
    let sections = out[groups_at..].matches("\n## ").count();
    assert_eq!(sections, 13);
    let registry = common_registry();
    let document = registry_document(&registry, "schema.test");
    for pattern in &document.patterns {
        let line_start = format!("\n- `{}` `", pattern.id);
        assert_eq!(out.matches(&line_start).count(), 1, "{}", pattern.id);
    }
}

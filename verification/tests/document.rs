use reposeiri::markdown::document::{
    classify_document_role, contains_any, local_target_key, looks_like_badge, markdown_limits,
    order_candidates, selection_rank, BudgetDecision, DocumentBudget, DocumentCandidate,
    DocumentIndexOptions, DocumentRole, DocumentScanOptions, SourceDocument,
};

fn candidate(path: &str, role: DocumentRole, primary: bool) -> DocumentCandidate {
    DocumentCandidate {
        path: path.to_string(),
        role,
        primary,
        declared_bytes: 10,
    }
}

#[test]
fn scan_limits() {
    let options = DocumentScanOptions::default();
    assert_eq!(options.max_source_bytes, 2 * 1024 * 1024);
    assert_eq!(options.max_events, 65_536);
    assert_eq!(options.max_diagnostics, 1_024);
    let derived = DocumentScanOptions::derived_for_source(10);
    assert_eq!((derived.max_source_bytes, derived.max_events, derived.max_diagnostics), (10, 21, 11));
    let huge = DocumentScanOptions::derived_for_source(usize::MAX);
    assert_eq!((huge.max_events, huge.max_diagnostics), (usize::MAX, usize::MAX));
    let index = DocumentIndexOptions::default();
    assert_eq!(index.max_documents, 256);
    assert_eq!(index.max_total_source_bytes, 4 * 1024 * 1024);
}

#[test]
fn document_roles() {
    let cases = [
        ("README.md", Some(DocumentRole::RootReadme)),
        ("README", Some(DocumentRole::RootReadme)),
        ("docs/README.md", Some(DocumentRole::Documentation)),
        ("SECURITY.md", Some(DocumentRole::SecurityPolicy)),
        (".github\\SUPPORT.md", Some(DocumentRole::SupportPolicy)),
        ("CONTRIBUTING", Some(DocumentRole::ContributionGuide)),
        ("RELEASES.md", Some(DocumentRole::ReleaseNotes)),
        ("governance.md", Some(DocumentRole::Governance)),
        (".github/ISSUE_TEMPLATE/bug.yml", Some(DocumentRole::GithubConfiguration)),
        ("CODEOWNERS", Some(DocumentRole::GithubConfiguration)),
        ("notes/plan.MD", Some(DocumentRole::OtherMarkdown)),
        ("src/lib.rs", None),
        ("readme.txt", None),
    ];
    for (path, role) in cases {
        assert_eq!(classify_document_role(path), role, "{path}");
    }
}

#[test]
fn readme_link_keys() {
    assert_eq!(local_target_key("  ./docs\\Guide.md#intro "), Some("docs/guide.md".to_string()));
    assert_eq!(local_target_key("././a.md?x=1"), Some("a.md".to_string()));
    assert_eq!(local_target_key("#anchor"), None);
    assert_eq!(local_target_key("HTTPS://example.com"), None);
    assert_eq!(local_target_key("mailto:x@example.com"), None);
    assert_eq!(local_target_key("./#top"), None);
    assert_eq!(local_target_key("   "), None);
}

#[test]
fn badges_and_needles() {
    assert!(looks_like_badge("Build", "https://img.shields.io/x"));
    assert!(looks_like_badge("CI status", "x.svg"));
    assert!(!looks_like_badge("Logo", "logo.png"));
    assert!(contains_any("abc", &["x", "bc"]));
    assert!(!contains_any("abc", &[]));
}

#[test]
fn source_document_accessors() {
    let doc = SourceDocument::new("README.md".to_string(), "# Title".to_string());
    assert_eq!(doc.path(), "README.md");
    assert_eq!(doc.text(), "# Title");
}

#[test]
fn budget_decisions() {
    let options = DocumentIndexOptions {
        max_documents: 2,
        max_total_source_bytes: 100,
        document: DocumentScanOptions::default(),
    };
    let mut budget = DocumentBudget::new();
    assert_eq!(budget.decide(60, &options), BudgetDecision::Read { remaining: 100 });
    budget.record(60);
    assert_eq!(budget.decide(50, &options), BudgetDecision::SkipByteBudget);
    assert_eq!(budget.decide(40, &options), BudgetDecision::Read { remaining: 40 });
    budget.record(40);
    assert_eq!(budget.decide(0, &options), BudgetDecision::SkipDocumentBudget);
    assert_eq!(budget.used_source_bytes, 100);
    assert_eq!(markdown_limits(&options, 40).max_source_bytes, 40);
    assert_eq!(markdown_limits(&options, usize::MAX).max_source_bytes, 2 * 1024 * 1024);
    assert_eq!(
        DocumentBudget::new().decide(u64::MAX, &options),
        BudgetDecision::SkipByteBudget
    );
}

#[test]
fn reading_order() {
    let links = vec!["docs/linked.md".to_string()];
    assert_eq!(selection_rank(&candidate("README.md", DocumentRole::RootReadme, true), &links), (0, 0));
    assert_eq!(selection_rank(&candidate("SECURITY.md", DocumentRole::SecurityPolicy, true), &links), (1, 1));
    assert_eq!(selection_rank(&candidate("docs/SECURITY.md", DocumentRole::SecurityPolicy, true), &links), (4, 1));
    assert_eq!(selection_rank(&candidate("docs/Linked.md", DocumentRole::Documentation, false), &links), (2, 7));
    assert_eq!(selection_rank(&candidate("docs/index.md", DocumentRole::Documentation, false), &links), (3, 7));
    assert_eq!(selection_rank(&candidate("vendor/x.md", DocumentRole::OtherMarkdown, false), &links), (5, 8));
    let ordered = order_candidates(
        &[
            candidate("vendor/x.md", DocumentRole::OtherMarkdown, false),
            candidate("docs/b.md", DocumentRole::Documentation, true),
            candidate("docs/a.md", DocumentRole::Documentation, true),
            candidate("SECURITY.md", DocumentRole::SecurityPolicy, true),
            candidate("README.md", DocumentRole::RootReadme, true),
            candidate("docs/a.md", DocumentRole::Documentation, false),
        ],
        &links,
    );
    let paths: Vec<(&str, bool)> = ordered.iter().map(|c| (c.path.as_str(), c.primary)).collect();
    assert_eq!(
        paths,
        vec![
            ("README.md", true),
            ("SECURITY.md", true),
            ("docs/a.md", true),
            ("docs/b.md", true),
            ("vendor/x.md", false),
        ]
    );
}

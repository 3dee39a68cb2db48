use reposeiri::markdown::diagnostics::{DocumentDiagnosticKind, MarkdownLinkKind};
use reposeiri::markdown::document::DocumentScanOptions;
use reposeiri::markdown::events::{DocumentEvent, MarkdownError};
use reposeiri::markdown::route_map::RouteSource;
use reposeiri::markdown::routes::RouteKind;
use reposeiri::markdown::scan::{scan_document, scan_document_with_options, scan_text};

fn options(max_source_bytes: usize, max_events: usize, max_diagnostics: usize) -> DocumentScanOptions {
    DocumentScanOptions { max_source_bytes, max_events, max_diagnostics }
}

#[test]
fn heading_and_link_are_scanned_in_source_order() {
    let text = "# Security\n\nRead [the policy](SECURITY.md) first.\n";
    let scan = scan_document("README.md".to_string(), text).expect("scan");
    assert_eq!(scan.path, "README.md");
    assert!(scan.diagnostics.is_empty());
    assert_eq!(scan.events.len(), 4);
    match &scan.events[0] {
        DocumentEvent::Heading(h) => {
            assert_eq!((h.level, h.text.as_str(), h.line), (1, "Security", 1));
            let span = h.span.expect("span");
            assert_eq!((span.byte_start, span.byte_end), (0, 10));
        }
        other => panic!("expected heading, got {other:?}"),
    }
    match &scan.events[1] {
        DocumentEvent::RouteCandidate(c) => {
            assert_eq!((c.route, c.source, c.line), (RouteKind::Security, RouteSource::Heading, 1));
        }
        other => panic!("expected route candidate, got {other:?}"),
    }
    match &scan.events[2] {
        DocumentEvent::Link(l) => {
            assert_eq!((l.text.as_str(), l.target.as_str(), l.line), ("the policy", "SECURITY.md", 3));
            assert_eq!(l.kind, MarkdownLinkKind::Inline);
            let span = l.span.expect("span");
            assert_eq!((span.byte_start, span.byte_end, span.column), (17, 42, 6));
        }
        other => panic!("expected link, got {other:?}"),
    }
    match &scan.events[3] {
        DocumentEvent::RouteCandidate(c) => {
            assert_eq!((c.route, c.source, c.line), (RouteKind::Security, RouteSource::Link, 3));
            assert_eq!(c.target.as_deref(), Some("SECURITY.md"));
        }
        other => panic!("expected route candidate, got {other:?}"),
    }
}

#[test]
fn fenced_code_hides_headings_and_links() {
    let text = "```md\n# Security\n[Security](SECURITY.md)\n```\n";
    let scan = scan_document("README.md".to_string(), text).expect("scan");
    assert!(scan.events.is_empty());
    assert!(scan.diagnostics.is_empty());
}

#[test]
fn unclosed_label_is_a_diagnostic() {
    let text = "Some text [broken\n";
    let scan = scan_document("README.md".to_string(), text).expect("scan");
    assert_eq!(scan.diagnostics.len(), 1);
    assert_eq!(scan.diagnostics[0].kind, DocumentDiagnosticKind::UnclosedLinkLabel);
    assert_eq!(scan.diagnostics[0].span.line, 1);
    assert_eq!(scan.diagnostics[0].span.column, 11);
}

#[test]
fn anchor_links_join_the_events() {
    let text = "<a href=\"CONTRIBUTING.md\">Contributing</a>\n";
    let scan = scan_document("README.md".to_string(), text).expect("scan");
    let anchors: Vec<_> = scan
        .events
        .iter()
        .filter_map(|e| match e {
            DocumentEvent::Link(l) if l.kind == MarkdownLinkKind::HtmlAnchor => Some(l.target.clone()),
            _ => None,
        })
        .collect();
    assert_eq!(anchors, vec!["CONTRIBUTING.md".to_string()]);
}

#[test]
fn source_over_limit_is_refused() {
    let result = scan_text("README.md".to_string(), "# Title\n", &options(4, 10, 10));
    match result {
        Err(MarkdownError::SourceLimitExceeded { path, bytes, limit }) => {
            assert_eq!((path.as_str(), bytes, limit), ("README.md", 8, 4));
        }
        other => panic!("expected source limit, got {other:?}"),
    }
}

#[test]
fn event_limit_is_reported() {
    let result = scan_document_with_options("README.md".to_string(), "# Security\n", &options(1024, 1, 10));
    match result {
        Err(MarkdownError::EventLimitExceeded { path, limit }) => assert_eq!((path.as_str(), limit), ("README.md", 1)),
        other => panic!("expected event limit, got {other:?}"),
    }
}

#[test]
fn diagnostic_limit_is_reported() {
    let result = scan_text("README.md".to_string(), "[a\n[b\n", &options(1024, 10, 1));
    match result {
        Err(MarkdownError::DiagnosticLimitExceeded { path, limit }) => assert_eq!((path.as_str(), limit), ("README.md", 1)),
        other => panic!("expected diagnostic limit, got {other:?}"),
    }
}

#[test]
fn empty_text_scans_to_nothing() {
    let scan = scan_document("EMPTY.md".to_string(), "").expect("scan");
    assert!(scan.events.is_empty() && scan.diagnostics.is_empty());
}

#[test]
fn every_short_text_gets_a_result() {
    for text in ["a", "ab", "abc", "<!-", "#", "é"] {
        let scan = scan_document_with_options("x.md".to_string(), text, &options(64 * 1024, 1024, 128));
        assert!(scan.is_ok(), "{text:?}");
    }
    let over = scan_document_with_options("x.md".to_string(), "abc", &options(2, 1024, 128));
    assert!(matches!(over, Err(MarkdownError::SourceLimitExceeded { bytes: 3, limit: 2, .. })));
}

use reposeiri::markdown::diagnostics::{LineIndex, MarkdownLinkKind};
use reposeiri::markdown::document::DocumentScanOptions;
use reposeiri::markdown::events::{
    markdown_link_kind, push_event, DocumentEvent, MarkdownError, MdEvent, MdEventKind,
    MdLinkType, SemanticState,
};
use reposeiri::markdown::route_map::RouteSource;
use reposeiri::markdown::routes::RouteKind;

fn ev(kind: MdEventKind, start: usize, end: usize) -> MdEvent {
    MdEvent { kind, start, end }
}

fn run(source: &str, events: Vec<MdEvent>) -> Vec<DocumentEvent> {
    let lines = LineIndex::new(source);
    let mut state = SemanticState::new();
    let mut out = Vec::new();
    for event in &events {
        out.extend(state.step(event, source.as_bytes(), &lines));
    }
    out
}

#[test]
fn heading_events_carry_route_candidates() {
    let source = "## Security  Policy\n";
    let out = run(
        source,
        vec![
            ev(MdEventKind::StartHeading(2), 0, 20),
            ev(MdEventKind::Text("Security  Policy".to_string()), 3, 19),
            ev(MdEventKind::EndHeading, 0, 20),
        ],
    );
    assert_eq!(out.len(), 2);
    match &out[0] {
        DocumentEvent::Heading(h) => {
            assert_eq!((h.level, h.text.as_str(), h.line), (2, "Security Policy", 1));
            let span = h.span.expect("span");
            assert_eq!((span.column, span.byte_start, span.byte_end), (1, 0, 19));
        }
        other => panic!("unexpected {other:?}"),
    }
    match &out[1] {
        DocumentEvent::RouteCandidate(c) => {
            assert_eq!((c.route, c.source), (RouteKind::Security, RouteSource::Heading));
            assert!(c.target.is_none());
        }
        other => panic!("unexpected {other:?}"),
    }
    let empty = run("#\n", vec![ev(MdEventKind::StartHeading(1), 0, 2), ev(MdEventKind::EndHeading, 0, 2)]);
    assert!(empty.is_empty());
}

#[test]
fn links_and_badges() {
    let source = "[Docs](docs/README.md) ![CI](https://img.shields.io/x.svg)\n";
    let out = run(
        source,
        vec![
            ev(MdEventKind::StartLink(MdLinkType::Inline, "docs/README.md".to_string()), 0, 22),
            ev(MdEventKind::Text("Docs".to_string()), 1, 5),
            ev(MdEventKind::EndLink, 0, 22),
            ev(MdEventKind::Break, 22, 23),
            ev(MdEventKind::StartImage(MdLinkType::Inline, "https://img.shields.io/x.svg".to_string()), 23, 58),
            ev(MdEventKind::Text("CI".to_string()), 25, 27),
            ev(MdEventKind::EndImage, 23, 58),
            ev(MdEventKind::Other, 58, 59),
        ],
    );
    assert_eq!(out.len(), 5);
    match (&out[0], &out[1]) {
        (DocumentEvent::Link(link), DocumentEvent::RouteCandidate(c)) => {
            assert_eq!(link.kind, MarkdownLinkKind::Inline);
            assert_eq!(link.route, Some(RouteKind::Docs));
            assert_eq!((c.route, c.source), (RouteKind::Docs, RouteSource::Link));
        }
        other => panic!("unexpected {other:?}"),
    }
    match (&out[2], &out[3], &out[4]) {
        (DocumentEvent::Link(image), DocumentEvent::Badge(badge), DocumentEvent::RouteCandidate(c)) => {
            assert_eq!(image.kind, MarkdownLinkKind::Image);
            assert_eq!(image.span.expect("span").column, 24);
            assert_eq!(badge.alt, "CI");
            assert_eq!((c.route, c.source), (RouteKind::Automation, RouteSource::Badge));
        }
        other => panic!("unexpected {other:?}"),
    }
}

#[test]
fn unmatched_ends_and_empty_targets_emit_nothing() {
    let out = run("x", vec![ev(MdEventKind::EndLink, 0, 1), ev(MdEventKind::EndHeading, 0, 1)]);
    assert!(out.is_empty());
    let out = run(
        "[x]()",
        vec![
            ev(MdEventKind::StartLink(MdLinkType::Inline, String::new()), 0, 5),
            ev(MdEventKind::Text("x".to_string()), 1, 2),
            ev(MdEventKind::EndLink, 0, 5),
        ],
    );
    assert!(out.is_empty());
}

#[test]
fn link_kinds_and_event_limits() {
    assert_eq!(markdown_link_kind(MdLinkType::Email, false), MarkdownLinkKind::Autolink);
    assert_eq!(markdown_link_kind(MdLinkType::WikiLink { has_pothole: true }, false), MarkdownLinkKind::Inline);
    assert_eq!(markdown_link_kind(MdLinkType::ShortcutUnknown, false), MarkdownLinkKind::Reference);
    assert_eq!(markdown_link_kind(MdLinkType::Inline, true), MarkdownLinkKind::Image);
    let options = DocumentScanOptions { max_source_bytes: 10, max_events: 1, max_diagnostics: 1 };
    let mut events = Vec::new();
    let heading = run("# Docs\n", vec![
        ev(MdEventKind::StartHeading(1), 0, 7),
        ev(MdEventKind::Text("Docs".to_string()), 2, 6),
        ev(MdEventKind::EndHeading, 0, 7),
    ]);
    assert!(push_event("README.md", &options, &mut events, heading[0].clone()).is_ok());
    match push_event("README.md", &options, &mut events, heading[1].clone()) {
        Err(MarkdownError::EventLimitExceeded { path, limit }) => {
            assert_eq!((path.as_str(), limit), ("README.md", 1));
        }
        other => panic!("unexpected {other:?}"),
    }
    assert_eq!(events.len(), 1);
}

use reposeiri::markdown::diagnostics::{
    collect_reference_definitions, diagnose_malformed_link, diagnose_unresolved_references,
    diagnostic_kind_rank, find_ascii_case_insensitive, markdown_lines, normalize_reference_label,
    normalized_visible_text, parse_html_anchor_links, scan_html_href, trim_trailing_line_ending,
    AnchorItem, DocumentDiagnosticKind, LineIndex, MarkdownLine, MarkdownLinkKind,
};

fn chars(s: &str) -> Vec<char> {
    s.chars().collect()
}

fn line(number: usize, byte_start: usize, text: &str) -> MarkdownLine {
    MarkdownLine {
        number,
        byte_start,
        text: text.to_string(),
    }
}

#[test]
fn lines_carry_numbers_and_byte_starts() {
    let lines = markdown_lines("a\r\nbé\nc");
    assert_eq!(lines, vec![line(1, 0, "a"), line(2, 3, "bé"), line(3, 7, "c")]);
    assert_eq!(markdown_lines("x\n"), vec![line(1, 0, "x")]);
    assert_eq!(markdown_lines("x\r"), vec![line(1, 0, "x\r")]);
    assert!(markdown_lines("").is_empty());
}

#[test]
fn unclosed_labels_and_targets() {
    let d = diagnose_malformed_link(&line(3, 10, "see [docs(x")).expect("label");
    assert_eq!(d.kind, DocumentDiagnosticKind::UnclosedLinkLabel);
    assert_eq!((d.span.line, d.span.column, d.span.byte_start, d.span.byte_end), (3, 5, 14, 21));
    let d = diagnose_malformed_link(&line(1, 0, "[a](b")).expect("target");
    assert_eq!(d.kind, DocumentDiagnosticKind::UnclosedLinkTarget);
    assert_eq!((d.span.column, d.span.byte_start, d.span.byte_end), (1, 0, 5));
    let d = diagnose_malformed_link(&line(1, 0, "[a](b) ![c](d")).expect("image target");
    assert_eq!((d.span.column, d.span.byte_start), (8, 7));
    let d = diagnose_malformed_link(&line(1, 0, "é[x")).expect("multibyte");
    assert_eq!((d.span.column, d.span.byte_start, d.span.byte_end), (2, 2, 4));
    assert!(diagnose_malformed_link(&line(1, 0, "é [a] ok [b](c)")).is_none());
}

#[test]
fn unresolved_reference_links() {
    let lines = markdown_lines("[Docs]: https://x\nsee [guide][docs] and [api][] and [x][missing]");
    let definitions = collect_reference_definitions(&lines);
    assert_eq!(definitions, vec![chars("docs")]);
    assert!(diagnose_unresolved_references(&lines[0], &definitions).is_empty());
    let found = diagnose_unresolved_references(&lines[1], &definitions);
    let spans: Vec<(usize, usize, usize)> = found
        .iter()
        .map(|d| (d.span.column, d.span.byte_start, d.span.byte_end))
        .collect();
    assert_eq!(spans, vec![(23, 40, 47), (35, 52, 64)]);
    assert!(found.iter().all(|d| d.kind == DocumentDiagnosticKind::UnresolvedReferenceLink));
}

#[test]
fn labels_and_visible_text() {
    assert_eq!(normalized_visible_text(&chars("  a \t b\n c  ")), chars("a b c"));
    assert_eq!(normalize_reference_label(&chars(" Big  Label ")), chars("big label"));
    assert!(normalized_visible_text(&chars("   ")).is_empty());
}

#[test]
fn case_insensitive_search() {
    assert_eq!(find_ascii_case_insensitive(&chars("x <A href"), &chars("<a"), 0), Some(2));
    assert_eq!(find_ascii_case_insensitive(&chars("x <A href"), &chars("<a"), 3), None);
    assert_eq!(find_ascii_case_insensitive(&chars("abc"), &chars(""), 0), None);
}

#[test]
fn href_attributes() {
    assert_eq!(scan_html_href(&chars(" href=\"a b\" class=x")), Ok(Some(chars("a b"))));
    assert_eq!(scan_html_href(&chars(" HREF=y data-x='1'")), Ok(Some(chars("y"))));
    assert_eq!(scan_html_href(&chars(" href")), Ok(None));
    assert_eq!(scan_html_href(&chars(" =x")), Err(DocumentDiagnosticKind::UnsupportedHtml));
    assert_eq!(scan_html_href(&chars(" href=\"x")), Err(DocumentDiagnosticKind::UnsupportedHtml));
    let many = " a".repeat(33);
    assert_eq!(scan_html_href(&chars(&many)), Err(DocumentDiagnosticKind::HtmlAttributeLimitExceeded));
    assert_eq!(scan_html_href(&chars(&" a".repeat(32))), Ok(None));
}

#[test]
fn html_anchor_links() {
    let text = "see <a href=\"SECURITY.md\">Security</a> and <a name=\"x\">y</a> <a href=\"z\"></a>";
    let items = parse_html_anchor_links(&line(2, 100, text));
    assert_eq!(items.len(), 2);
    match &items[0] {
        AnchorItem::Link(link) => {
            assert_eq!(link.text, "Security");
            assert_eq!(link.target, "SECURITY.md");
            assert_eq!(link.kind, MarkdownLinkKind::HtmlAnchor);
            assert_eq!(link.line, 2);
            let span = link.span.expect("span");
            assert_eq!((span.column, span.byte_start, span.byte_end), (5, 104, 138));
        }
        other => panic!("unexpected {other:?}"),
    }
    match &items[1] {
        AnchorItem::Diagnostic(d) => {
            assert_eq!(d.kind, DocumentDiagnosticKind::UnsupportedHtml);
            assert_eq!((d.span.byte_start, d.span.byte_end), (161, 177));
        }
        other => panic!("unexpected {other:?}"),
    }
    let unclosed = parse_html_anchor_links(&line(1, 0, "<a href=x"));
    assert_eq!(unclosed.len(), 1);
    assert!(parse_html_anchor_links(&line(1, 0, "<abbr>x</abbr>")).is_empty());
}

#[test]
fn line_index_spans() {
    let index = LineIndex::new("ab\nçd\n");
    assert_eq!(index.line_for(0), 1);
    assert_eq!(index.line_for(3), 2);
    assert_eq!(index.line_for(7), 3);
    let span = index.span(5, 6);
    assert_eq!((span.line, span.column, span.byte_start, span.byte_end), (2, 2, 5, 6));
    assert_eq!(trim_trailing_line_ending(b"a\r\n", 3), 1);
    assert_eq!(trim_trailing_line_ending(b"a\n\n", 3), 2);
    assert_eq!(diagnostic_kind_rank(DocumentDiagnosticKind::HtmlAttributeLimitExceeded), 4);
}

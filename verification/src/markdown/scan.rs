//! Scanning one Markdown text: the CommonMark parser's events read through
//! the semantic state, then link, reference and `<a>` findings line by
//! line, each list put in source order.

use vstd::prelude::*;
use vstd::utf8::encode_utf8;
use vstd::string::StringSliceAdditionalSpecFns;
use pulldown_cmark::{Event, LinkType, Options, Parser, Tag, TagEnd};
use crate::markdown::events::{
    event_views, run_output, run_state, lemma_run_output_grows, state_within, DocumentEvent,
    EventView, MarkdownError, MdEvent, MdEventKind, MdLinkType, SemanticState,
};
use crate::markdown::diagnostics::{
    anchors_from, byte_len, definition_label, diagnose_malformed_link, diagnose_unresolved_references,
    line_count, line_fits, line_text, malformed_from, parse_html_anchor_links, piece_byte_start,
    span_of_line, unresolved_from, AnchorFinding, AnchorItem, DocumentDiagnostic,
    DocumentDiagnosticKind, LineIndex, MarkdownLine, MarkdownLinkKind,
};
use crate::markdown::events::{anchor_events, anchor_link_events};
use crate::fs::containment::{split_on, views};
use crate::markdown::context::{hidden_mask, mask_hidden_contexts, masked_text};
use crate::markdown::diagnostics::{collect_reference_definitions, line_starts, markdown_lines};
use crate::markdown::order::{dedup, dedup_diagnostics, diagnostic_order, event_order, sort_by, sort_diagnostics, sort_events};
use crate::markdown::events::check_source_limit;
use crate::markdown::document::DocumentScanOptions;
use crate::text::{chars_of, string_of};

verus! {

#[verifier::external_type_specification]
#[verifier::external_body]
pub struct ExParserEvent<'a>(Event<'a>);

#[verifier::external_type_specification]
#[verifier::external_body]
pub struct ExParserLinkType(LinkType);

/// pulldown-cmark's `LinkType`, variant for variant.
#[verifier::external_body]
fn md_link_type(link_type: LinkType) -> MdLinkType {
    match link_type {
        LinkType::Inline => MdLinkType::Inline,
        LinkType::Reference => MdLinkType::Reference,
        LinkType::ReferenceUnknown => MdLinkType::ReferenceUnknown,
        LinkType::Collapsed => MdLinkType::Collapsed,
        LinkType::CollapsedUnknown => MdLinkType::CollapsedUnknown,
        LinkType::Shortcut => MdLinkType::Shortcut,
        LinkType::ShortcutUnknown => MdLinkType::ShortcutUnknown,
        LinkType::Autolink => MdLinkType::Autolink,
        LinkType::Email => MdLinkType::Email,
        LinkType::WikiLink { has_pothole } => MdLinkType::WikiLink { has_pothole },
    }
}

/// A pulldown-cmark event with its byte range: heading, link and image
/// starts and ends, text and line breaks keep what the scanner reads of
/// them (a heading's level is its number); every other event is `Other`.
#[verifier::external_body]
fn md_event(event: Event<'_>, start: usize, end: usize) -> MdEvent {
    let kind = match event {
        Event::Start(Tag::Heading { level, .. }) => MdEventKind::StartHeading(level as u8),
        Event::End(TagEnd::Heading(_)) => MdEventKind::EndHeading,
        Event::Start(Tag::Link { link_type, dest_url, .. }) => MdEventKind::StartLink(md_link_type(link_type), dest_url.into_string()),
        Event::Start(Tag::Image { link_type, dest_url, .. }) => MdEventKind::StartImage(md_link_type(link_type), dest_url.into_string()),
        Event::End(TagEnd::Link) => MdEventKind::EndLink,
        Event::End(TagEnd::Image) => MdEventKind::EndImage,
        Event::Text(value) => MdEventKind::Text(value.into_string()),
        Event::SoftBreak => MdEventKind::Break,
        Event::HardBreak => MdEventKind::Break,
        _ => MdEventKind::Other,
    };
    MdEvent { kind, start, end }
}

/// The events pulldown-cmark's parser, with no extensions, gives for a text.
pub uninterp spec fn commonmark_events_of(text: Seq<char>) -> Seq<MdEvent>;

/// Runs `pulldown_cmark::Parser::new_ext(text, Options::empty())` through
/// its offset iterator. The events depend on the text alone, and are named
/// `commonmark_events_of`; each range is the range of source bytes the
/// event maps to, so it lies within the text. Nothing else is stated of
/// the parser.
#[verifier::external_body]
fn commonmark_events(text: &str) -> (r: Vec<MdEvent>)
    ensures
        r@ == commonmark_events_of(text@),
        forall|i: int| 0 <= i < r@.len() ==> (#[trigger] r@[i]).start <= r@[i].end <= text.spec_bytes().len(),
{
    let mut out = Vec::new();
    for (event, range) in Parser::new_ext(text, Options::empty()).into_offset_iter() {
        out.push(md_event(event, range.start, range.end));
    }
    out
}

/// The document events the parser's events on `visible` complete, read in
/// order from nothing open.
pub open spec fn semantic_output(visible: Seq<char>, starts: Seq<usize>, source: Seq<u8>) -> Seq<EventView> {
    let events = commonmark_events_of(visible);
    run_output(events, events.len() as int, encode_utf8(visible), starts, source)
}

/// The document events of the masked text `visible` (as long, in bytes, as
/// the source that `lines` indexes): `semantic_output`, or the event limit
/// error when it holds more than `max_events`.
pub fn semantic_events(path: &str, visible: &str, lines: &LineIndex, options: &DocumentScanOptions) -> (r: Result<Vec<DocumentEvent>, MarkdownError>)
    requires
        visible.spec_bytes().len() == lines.bytes().len(),
        visible.spec_bytes().len() < usize::MAX,
    ensures
        semantic_output(visible@, lines.starts_seq(), lines.bytes()).len() <= options.max_events ==> (r matches Ok(out)
            && event_views(out@) == semantic_output(visible@, lines.starts_seq(), lines.bytes())),
        semantic_output(visible@, lines.starts_seq(), lines.bytes()).len() > options.max_events ==> (r matches
            Err(MarkdownError::EventLimitExceeded { path: p, limit }) && p@ == path@ && limit == options.max_events),
{
    let events = commonmark_events(visible);
    let bytes = visible.as_bytes();
    let ghost starts = lines.starts_seq();
    let ghost source = lines.bytes();
    let ghost n = events@.len() as int;
    let mut state = SemanticState::new();
    let mut out: Vec<DocumentEvent> = Vec::new();
    assert(event_views(out@) =~= run_output(events@, 0, bytes@, starts, source));
    let mut i: usize = 0;
    while i < events.len()
        invariant
            events@ == commonmark_events_of(visible@),
            n == events@.len(),
            forall|k: int| 0 <= k < events@.len() ==> (#[trigger] events@[k]).start <= events@[k].end <= bytes@.len(),
            bytes@ == visible.spec_bytes(),
            bytes@.len() == lines.bytes().len(),
            bytes@.len() < usize::MAX,
            starts == lines.starts_seq(),
            source == lines.bytes(),
            i <= events@.len(),
            state@ == run_state(events@, i as int, bytes@, starts, source),
            state_within(state, bytes@.len()),
            event_views(out@) == run_output(events@, i as int, bytes@, starts, source),
            out@.len() <= options.max_events,
        decreases events.len() - i,
    {
        let emitted = state.step(&events[i], bytes, lines);
        assert(event_views(out@) + event_views(emitted@) == run_output(events@, i + 1, bytes@, starts, source));
        if emitted.len() > options.max_events - out.len() {
            proof {
                lemma_run_output_grows(events@, i + 1, n, bytes@, starts, source);
            }
            return Err(MarkdownError::EventLimitExceeded {
                path: string_of(chars_of(path).as_slice()),
                limit: options.max_events,
            });
        }
        let ghost before = out@;
        let ghost em = emitted@;
        let mut more = emitted;
        out.append(&mut more);
        assert(event_views(out@) =~= event_views(before) + event_views(em));
        i = i + 1;
    }
    Ok(out)
}


/// What the line scan reports, in the order it is met.
pub enum FindingView {
    Diagnostic(DocumentDiagnostic),
    Event(EventView),
}

/// The diagnostic of a line's first malformed link, if any.
pub open spec fn malformed_findings(number: usize, start: usize, t: Seq<char>) -> Seq<FindingView> {
    match malformed_from(t, 0) {
        Some((kind, c)) => seq![FindingView::Diagnostic(DocumentDiagnostic { kind, span: span_of_line(number, start, t, c, t.len() as int) })],
        None => Seq::empty(),
    }
}

/// The diagnostics of a line's reference links to undefined labels.
pub open spec fn unresolved_findings(number: usize, start: usize, t: Seq<char>, defs: Set<Seq<char>>) -> Seq<FindingView> {
    unresolved_from(t, defs, 0).map_values(|r: (int, int)| FindingView::Diagnostic(DocumentDiagnostic {
        kind: DocumentDiagnosticKind::UnresolvedReferenceLink,
        span: span_of_line(number, start, t, r.0, r.1),
    }))
}

/// Events as findings.
pub open spec fn event_findings(evs: Seq<EventView>) -> Seq<FindingView> {
    evs.map_values(|v: EventView| FindingView::Event(v))
}

/// What one `<a>` finding reports: a link's events, or a diagnostic.
pub open spec fn anchor_finding(number: usize, start: usize, t: Seq<char>, f: AnchorFinding) -> Seq<FindingView> {
    match f {
        AnchorFinding::Link { text, target, start: s, end: e } =>
            event_findings(anchor_events(text, target, number, Some(span_of_line(number, start, t, s, e)), MarkdownLinkKind::HtmlAnchor)),
        AnchorFinding::Problem { kind, start: s, end: e } =>
            seq![FindingView::Diagnostic(DocumentDiagnostic { kind, span: span_of_line(number, start, t, s, e) })],
    }
}

/// What `<a>` findings report, in order.
pub open spec fn anchor_findings(number: usize, start: usize, t: Seq<char>, fs: Seq<AnchorFinding>) -> Seq<FindingView>
    decreases fs.len(),
{
    if fs.len() == 0 {
        Seq::empty()
    } else {
        anchor_finding(number, start, t, fs[0]) + anchor_findings(number, start, t, fs.drop_first())
    }
}

/// What line `number` (text `t` from byte `start`) reports: its malformed
/// link, its unresolved references, then its `<a>` anchors.
pub open spec fn line_findings(number: usize, start: usize, t: Seq<char>, defs: Set<Seq<char>>) -> Seq<FindingView> {
    malformed_findings(number, start, t) + unresolved_findings(number, start, t, defs)
        + anchor_findings(number, start, t, anchors_from(t, 0))
}

/// What the lines of `v` from index `i` on report, in order.
pub open spec fn text_findings_from(v: Seq<char>, defs: Set<Seq<char>>, i: int) -> Seq<FindingView>
    decreases line_count(v) - i,
{
    if i < 0 || i >= line_count(v) {
        Seq::empty()
    } else {
        line_findings((i + 1) as usize, piece_byte_start(split_on(v, '\n'), i) as usize, line_text(v, i), defs)
            + text_findings_from(v, defs, i + 1)
    }
}

/// The reference labels the lines of `v` define.
pub open spec fn defined_labels(v: Seq<char>) -> Set<Seq<char>> {
    Set::new(|x: Seq<char>| exists|k: int| 0 <= k < line_count(v) && definition_label(line_text(v, k)) == Some(x))
}

/// How a scan ends: its events and diagnostics, or the limit it hit.
pub enum ScanOutcome {
    Done(Seq<EventView>, Seq<DocumentDiagnostic>),
    EventLimit,
    DiagnosticLimit,
}

/// Pushing findings in order onto `events` and `diags`: an event past
/// `max_events` held, or a diagnostic past `max_diags` held, ends the scan.
#[verifier::opaque]
pub open spec fn push_all(fs: Seq<FindingView>, events: Seq<EventView>, diags: Seq<DocumentDiagnostic>, max_events: usize, max_diags: usize) -> ScanOutcome
    decreases fs.len(),
{
    if fs.len() == 0 {
        ScanOutcome::Done(events, diags)
    } else {
        match fs[0] {
            FindingView::Diagnostic(d) => if diags.len() >= max_diags {
                ScanOutcome::DiagnosticLimit
            } else {
                push_all(fs.drop_first(), events, diags.push(d), max_events, max_diags)
            },
            FindingView::Event(e) => if events.len() >= max_events {
                ScanOutcome::EventLimit
            } else {
                push_all(fs.drop_first(), events.push(e), diags, max_events, max_diags)
            },
        }
    }
}

/// Pushing a run of events at once.
pub proof fn lemma_push_events(evs: Seq<EventView>, rest: Seq<FindingView>, events: Seq<EventView>, diags: Seq<DocumentDiagnostic>, max_events: usize, max_diags: usize)
    requires
        events.len() <= max_events,
    ensures
        push_all(event_findings(evs) + rest, events, diags, max_events, max_diags) ==
            if events.len() + evs.len() > max_events {
                ScanOutcome::EventLimit
            } else {
                push_all(rest, events + evs, diags, max_events, max_diags)
            },
    decreases evs.len(),
{
    reveal(push_all);
    let fs = event_findings(evs) + rest;
    if evs.len() == 0 {
        assert(fs =~= rest);
        assert(events + evs =~= events);
    } else {
        let fs2 = event_findings(evs.drop_first()) + rest;
        assert(fs[0] == FindingView::Event(evs[0]));
        assert(fs.drop_first() =~= fs2);
        if events.len() < max_events {
            assert(push_all(fs, events, diags, max_events, max_diags) == push_all(fs2, events.push(evs[0]), diags, max_events, max_diags));
            lemma_push_events(evs.drop_first(), rest, events.push(evs[0]), diags, max_events, max_diags);
        }
        assert(events.push(evs[0]) + evs.drop_first() =~= events + evs);
    }
}


/// The error a scan that ends as `o` returns, for `path`.
pub open spec fn limit_error<T>(r: Result<T, MarkdownError>, o: ScanOutcome, path: Seq<char>, options: DocumentScanOptions) -> bool {
    match o {
        ScanOutcome::EventLimit => r matches Err(MarkdownError::EventLimitExceeded { path: p, limit })
            && p@ == path && limit == options.max_events,
        ScanOutcome::DiagnosticLimit => r matches Err(MarkdownError::DiagnosticLimitExceeded { path: p, limit })
            && p@ == path && limit == options.max_diagnostics,
        ScanOutcome::Done(_, _) => false,
    }
}

proof fn lemma_push_one(x: FindingView, rest: Seq<FindingView>, events: Seq<EventView>, diags: Seq<DocumentDiagnostic>, max_events: usize, max_diags: usize)
    ensures
        push_all(seq![x] + rest, events, diags, max_events, max_diags) == match x {
            FindingView::Diagnostic(d) => if diags.len() >= max_diags {
                ScanOutcome::DiagnosticLimit
            } else {
                push_all(rest, events, diags.push(d), max_events, max_diags)
            },
            FindingView::Event(e) => if events.len() >= max_events {
                ScanOutcome::EventLimit
            } else {
                push_all(rest, events.push(e), diags, max_events, max_diags)
            },
        },
{
    reveal(push_all);
    assert((seq![x] + rest)[0] == x);
    assert((seq![x] + rest).drop_first() =~= rest);
}

/// Holds a diagnostic as the scan does: the limit error once
/// `max_diagnostics` are held.
fn hold_diagnostic(path: &str, options: &DocumentScanOptions, diags: &mut Vec<DocumentDiagnostic>, d: DocumentDiagnostic, Ghost(rest): Ghost<Seq<FindingView>>, Ghost(events): Ghost<Seq<EventView>>) -> (r: Result<(), MarkdownError>)
    requires
        old(diags)@.len() <= options.max_diagnostics,
    ensures
        r is Ok ==> final(diags)@.len() <= options.max_diagnostics && push_all(rest, events, final(diags)@, options.max_events, options.max_diagnostics)
            == push_all(seq![FindingView::Diagnostic(d)] + rest, events, old(diags)@, options.max_events, options.max_diagnostics),
        r is Err ==> limit_error(r, push_all(seq![FindingView::Diagnostic(d)] + rest, events, old(diags)@, options.max_events, options.max_diagnostics), path@, *options),
{
    proof { lemma_push_one(FindingView::Diagnostic(d), rest, events, diags@, options.max_events, options.max_diagnostics); }
    crate::markdown::events::push_diagnostic(path, options, diags, d)
}

fn copy_link(l: &crate::markdown::diagnostics::MarkdownLink) -> (r: crate::markdown::diagnostics::MarkdownLink)
    ensures
        r.text@ == l.text@,
        r.target@ == l.target@,
        r.line == l.line,
        r.span == l.span,
        r.route == l.route,
        r.kind == l.kind,
{
    crate::markdown::diagnostics::MarkdownLink {
        text: string_of(chars_of(l.text.as_str()).as_slice()),
        target: string_of(chars_of(l.target.as_str()).as_slice()),
        line: l.line,
        span: l.span,
        route: l.route,
        kind: l.kind,
    }
}

/// How pushing a line's findings, then `next`, ends.
pub open spec fn line_outcome(line: MarkdownLine, references: Seq<Vec<char>>, next: Seq<FindingView>, events: Seq<DocumentEvent>, diags: Seq<DocumentDiagnostic>, options: DocumentScanOptions) -> ScanOutcome {
    push_all(line_findings(line.number, line.byte_start, line.text@, views(references).to_set()) + next,
        event_views(events), diags, options.max_events, options.max_diagnostics)
}

/// Scans one line of the masked text: its malformed link, its unresolved
/// references and its `<a>` anchors, held in that order against the limits.
fn scan_line(path: &str, options: &DocumentScanOptions, line: &MarkdownLine, references: &Vec<Vec<char>>, events: &mut Vec<DocumentEvent>, diags: &mut Vec<DocumentDiagnostic>, next_findings: Ghost<Seq<FindingView>>) -> (r: Result<(), MarkdownError>)
    requires
        line_fits(*line),
        old(events)@.len() <= options.max_events,
        old(diags)@.len() <= options.max_diagnostics,
    ensures
        r is Ok ==> final(events)@.len() <= options.max_events && final(diags)@.len() <= options.max_diagnostics
            && push_all(next_findings@, event_views(final(events)@), final(diags)@, options.max_events, options.max_diagnostics)
                == line_outcome(*line, references@, next_findings@, old(events)@, old(diags)@, *options),
        r is Err ==> limit_error(r, line_outcome(*line, references@, next_findings@, old(events)@, old(diags)@, *options), path@, *options),
{
    let ghost next = next_findings@;
    let ghost defs = views(references@).to_set();
    let ghost number = line.number;
    let ghost start = line.byte_start;
    let ghost t = line.text@;
    let ghost me = options.max_events;
    let ghost md = options.max_diagnostics;
    let ghost before = push_all(line_findings(number, start, t, defs) + next, event_views(events@), diags@, me, md);
    let ghost unresolved = unresolved_findings(number, start, t, defs);
    let ghost anchors = anchor_findings(number, start, t, anchors_from(t, 0));
    let ghost mut rem = unresolved + anchors + next;
    match diagnose_malformed_link(line) {
        Some(d) => {
            proof {
                assert(line_findings(number, start, t, defs) + next =~= seq![FindingView::Diagnostic(d)] + rem);
            }
            let held = hold_diagnostic(path, options, diags, d, Ghost(rem), Ghost(event_views(events@)));
            if held.is_err() {
                assert(push_all(seq![FindingView::Diagnostic(d)] + rem, event_views(events@), old(diags)@, me, md) == before);
                assert(limit_error(held, before, path@, *options));
                return held;
            }
        },
        None => {
            proof {
                assert(line_findings(number, start, t, defs) + next =~= rem);
            }
        },
    }
    assert(push_all(rem, event_views(events@), diags@, me, md) == before);
    let unresolved_diags = diagnose_unresolved_references(line, references.as_slice());
    let mut j: usize = 0;
    proof {
        assert(unresolved.skip(0) =~= unresolved);
    }
    while j < unresolved_diags.len()
        invariant
            line_fits(*line),
            defs == views(references@).to_set(),
            number == line.number && start == line.byte_start && t == line.text@,
            me == options.max_events && md == options.max_diagnostics,
            unresolved == unresolved_findings(number, start, t, defs),
            anchors == anchor_findings(number, start, t, anchors_from(t, 0)),
            unresolved_diags@.len() == unresolved.len(),
            forall|k: int| 0 <= k < unresolved.len() ==> unresolved[k] == FindingView::Diagnostic(#[trigger] unresolved_diags@[k]),
            j <= unresolved_diags@.len(),
            rem == unresolved.skip(j as int) + anchors + next,
            events@.len() <= me,
            diags@.len() <= md,
            push_all(rem, event_views(events@), diags@, me, md) == before,
            next == next_findings@,
            before == line_outcome(*line, references@, next_findings@, old(events)@, old(diags)@, *options),
        decreases unresolved_diags.len() - j,
    {
        let d = unresolved_diags[j];
        let ghost rest = unresolved.skip(j + 1) + anchors + next;
        proof {
            assert(rem =~= seq![FindingView::Diagnostic(d)] + rest);
        }
        let held = hold_diagnostic(path, options, diags, d, Ghost(rest), Ghost(event_views(events@)));
        if held.is_err() {
            return held;
        }
        proof { rem = rest; }
        j = j + 1;
    }
    proof {
        assert(rem =~= anchors + next);
    }
    let items = parse_html_anchor_links(line);
    let ghost fs = anchors_from(t, 0);
    let mut k: usize = 0;
    proof {
        assert(fs.skip(0) =~= fs);
    }
    while k < items.len()
        invariant
            line_fits(*line),
            number == line.number && start == line.byte_start && t == line.text@,
            me == options.max_events && md == options.max_diagnostics,
            fs == anchors_from(t, 0),
            items@.len() == fs.len(),
            forall|m: int| 0 <= m < items@.len() ==> crate::markdown::diagnostics::item_matches(#[trigger] items@[m], *line, fs[m]),
            k <= items@.len(),
            rem == anchor_findings(number, start, t, fs.skip(k as int)) + next,
            events@.len() <= me,
            diags@.len() <= md,
            push_all(rem, event_views(events@), diags@, me, md) == before,
            next == next_findings@,
            before == line_outcome(*line, references@, next_findings@, old(events)@, old(diags)@, *options),
        decreases items.len() - k,
    {
        let ghost f = fs[k as int];
        let ghost rest = anchor_findings(number, start, t, fs.skip(k + 1)) + next;
        proof {
            assert(fs.skip(k as int).drop_first() =~= fs.skip(k + 1));
            assert(fs.skip(k as int)[0] == f);
            assert(rem =~= anchor_finding(number, start, t, f) + rest);
        }
        match &items[k] {
            AnchorItem::Diagnostic(d) => {
                proof {
                    assert(anchor_finding(number, start, t, f) =~= seq![FindingView::Diagnostic(*d)]);
                }
                let held = hold_diagnostic(path, options, diags, *d, Ghost(rest), Ghost(event_views(events@)));
                if held.is_err() {
                    return held;
                }
            },
            AnchorItem::Link(link) => {
                let emitted = anchor_link_events(copy_link(link));
                proof {
                    assert(anchor_finding(number, start, t, f) == event_findings(event_views(emitted@)));
                    lemma_push_events(event_views(emitted@), rest, event_views(events@), diags@, me, md);
                }
                if emitted.len() > options.max_events - events.len() {
                    return Err(MarkdownError::EventLimitExceeded {
                        path: string_of(chars_of(path).as_slice()),
                        limit: options.max_events,
                    });
                }
                let ghost old_events = events@;
                let ghost em = emitted@;
                let mut more = emitted;
                events.append(&mut more);
                proof {
                    assert(event_views(events@) =~= event_views(old_events) + event_views(em));
                }
            },
        }
        proof { rem = rest; }
        k = k + 1;
    }
    proof {
        assert(fs.skip(k as int) =~= Seq::<AnchorFinding>::empty());
        assert(rem =~= next);
    }
    Ok(())
}


proof fn lemma_findings_step(v: Seq<char>, defs: Set<Seq<char>>, i: int, line: MarkdownLine)
    requires
        0 <= i < line_count(v),
        line.number == i + 1,
        line.byte_start == piece_byte_start(split_on(v, '\n'), i),
        line.text@ == line_text(v, i),
    ensures
        line_findings(line.number, line.byte_start, line.text@, defs) + text_findings_from(v, defs, i + 1)
            == text_findings_from(v, defs, i),
{
}

/// What scanning one Markdown document found: its events and diagnostics,
/// each in source order.
#[derive(Debug, Clone, PartialEq, Eq)]
pub struct DocumentScan {
    pub path: String,
    pub events: Vec<DocumentEvent>,
    pub diagnostics: Vec<DocumentDiagnostic>,
}

/// How scanning `text` ends. The parser reads the text with hidden
/// contexts masked; its document events come first, then each line's
/// findings are held in order against the limits; a scan that ends
/// within them lists its events and diagnostics in source order, without
/// repeated neighbouring diagnostics.
pub open spec fn scan_outcome(text: Seq<char>, options: DocumentScanOptions) -> ScanOutcome {
    let v = masked_text(text, hidden_mask(text));
    let source = encode_utf8(text);
    let semantic = semantic_output(v, line_starts(source, source.len() as int), source);
    if semantic.len() > options.max_events {
        ScanOutcome::EventLimit
    } else {
        match push_all(text_findings_from(v, defined_labels(v), 0), semantic, Seq::empty(), options.max_events, options.max_diagnostics) {
            ScanOutcome::Done(events, diags) => ScanOutcome::Done(sort_by(events, event_order()), dedup(sort_by(diags, diagnostic_order()))),
            other => other,
        }
    }
}

/// Scans one Markdown text: the source limit error for a text over
/// `max_source_bytes`, else as `scan_outcome` says.
#[verifier::rlimit(60)]
pub fn scan_text(path: String, text: &str, options: &DocumentScanOptions) -> (r: Result<DocumentScan, MarkdownError>)
    requires
        text.spec_bytes().len() < usize::MAX,
    ensures
        text.spec_bytes().len() > options.max_source_bytes ==> (r matches Err(MarkdownError::SourceLimitExceeded { path: p, bytes, limit })
            && p@ == path@ && bytes == text.spec_bytes().len() && limit == options.max_source_bytes),
        text.spec_bytes().len() <= options.max_source_bytes ==> match scan_outcome(text@, *options) {
            ScanOutcome::Done(events, diags) => r matches Ok(scan) && scan.path@ == path@
                && event_views(scan.events@) == events && scan.diagnostics@ == diags,
            other => limit_error(r, other, path@, *options),
        },
{
    let checked = check_source_limit(path.as_str(), text.len(), options);
    match checked {
        Err(e) => return Err(e),
        Ok(()) => {},
    }
    let lines_index = LineIndex::new(text);
    let visible = mask_hidden_contexts(text);
    let ghost v = visible@;
    let ghost source = text.spec_bytes();
    let ghost me = options.max_events;
    let ghost md = options.max_diagnostics;
    let mut events = match semantic_events(path.as_str(), visible.as_str(), &lines_index, options) {
        Ok(events) => events,
        Err(e) => return Err(e),
    };
    let lines = markdown_lines(visible.as_str());
    let references = collect_reference_definitions(lines.as_slice());
    let ghost defs = defined_labels(v);
    proof {
        assert forall|x: Seq<char>| #[trigger] views(references@).to_set().contains(x) == defs.contains(x) by {
            if views(references@).contains(x) {
                let k = choose|k: int| 0 <= k < lines@.len() && definition_label(#[trigger] lines@[k].text@) == Some(x);
                assert(lines@[k].text@ == line_text(v, k));
            }
            if defs.contains(x) {
                let k = choose|k: int| 0 <= k < line_count(v) && definition_label(line_text(v, k)) == Some(x);
                assert(lines@[k].text@ == line_text(v, k));
            }
        }
        assert(views(references@).to_set() =~= defs);
    }
    let ghost semantic = event_views(events@);
    let ghost outcome = push_all(text_findings_from(v, defs, 0), event_views(events@), Seq::empty(), me, md);
    let mut diags: Vec<DocumentDiagnostic> = Vec::new();
    let mut i: usize = 0;
    while i < lines.len()
        invariant
            lines@.len() == line_count(v),
            forall|k: int| 0 <= k < lines@.len() ==> {
                &&& (#[trigger] lines@[k]).number == k + 1
                &&& lines@[k].byte_start == piece_byte_start(split_on(v, '\n'), k)
                &&& lines@[k].text@ == line_text(v, k)
                &&& lines@[k].byte_start + byte_len(lines@[k].text@) <= byte_len(v)
            },
            byte_len(v) < usize::MAX,
            views(references@).to_set() == defs,
            me == options.max_events && md == options.max_diagnostics,
            i <= lines@.len(),
            events@.len() <= me,
            diags@.len() <= md,
            push_all(text_findings_from(v, defs, i as int), event_views(events@), diags@, me, md) == outcome,
            text.spec_bytes().len() <= options.max_source_bytes,
            v == masked_text(text@, hidden_mask(text@)),
            defs == defined_labels(v),
            semantic.len() <= me,
            outcome == push_all(text_findings_from(v, defs, 0), semantic, Seq::empty(), me, md),
            semantic == semantic_output(v, line_starts(text.spec_bytes(), text.spec_bytes().len() as int), text.spec_bytes()),
        decreases lines.len() - i,
    {
        let ghost next = text_findings_from(v, defs, i + 1);
        proof {
            lemma_findings_step(v, defs, i as int, lines@[i as int]);
        }
        let scanned = scan_line(path.as_str(), options, &lines[i], &references, &mut events, &mut diags, Ghost(next));
        match scanned {
            Err(e) => return Err(e),
            Ok(()) => {},
        }
        i = i + 1;
    }
    assert(text_findings_from(v, defs, i as int) =~= Seq::<FindingView>::empty());
    proof {
        reveal(push_all);
    }
    let sorted_events = sort_events(events);
    let sorted = sort_diagnostics(diags);
    let diagnostics = dedup_diagnostics(&sorted);
    Ok(DocumentScan { path, events: sorted_events, diagnostics })
}


/// `scan_text` of `text` under `options`.
pub fn scan_document_with_options(path: String, text: &str, options: &DocumentScanOptions) -> (r: Result<DocumentScan, MarkdownError>)
    requires
        text.spec_bytes().len() < usize::MAX,
    ensures
        text.spec_bytes().len() > options.max_source_bytes ==> (r matches Err(MarkdownError::SourceLimitExceeded { path: p, bytes, limit })
            && p@ == path@ && bytes == text.spec_bytes().len() && limit == options.max_source_bytes),
        text.spec_bytes().len() <= options.max_source_bytes ==> match scan_outcome(text@, *options) {
            ScanOutcome::Done(events, diags) => r matches Ok(scan) && scan.path@ == path@
                && event_views(scan.events@) == events && scan.diagnostics@ == diags,
            other => limit_error(r, other, path@, *options),
        },
{
    scan_text(path, text, options)
}

/// `scan_text` of `text` under the default limits.
pub fn scan_document(path: String, text: &str) -> (r: Result<DocumentScan, MarkdownError>)
    requires
        text.spec_bytes().len() < usize::MAX,
    ensures
        ({
            let options = DocumentScanOptions { max_source_bytes: 2097152, max_events: 65_536, max_diagnostics: 1_024 };
            &&& text.spec_bytes().len() > options.max_source_bytes ==> (r matches Err(MarkdownError::SourceLimitExceeded { path: p, bytes, limit })
                && p@ == path@ && bytes == text.spec_bytes().len() && limit == options.max_source_bytes)
            &&& text.spec_bytes().len() <= options.max_source_bytes ==> match scan_outcome(text@, options) {
                ScanOutcome::Done(events, diags) => r matches Ok(scan) && scan.path@ == path@
                    && event_views(scan.events@) == events && scan.diagnostics@ == diags,
                other => limit_error(r, other, path@, options),
            }
        }),
{
    let options = DocumentScanOptions::default();
    scan_text(path, text, &options)
}

} // verus!

//! Semantic document events from the Markdown parser's event stream:
//! headings, links, images, badges and the route candidates they name.
//! The parser runs outside; each of its events is handed to `step`, which
//! keeps the open heading and links and says which document events to
//! emit.

use vstd::prelude::*;
use crate::markdown::diagnostics::{
    index_line, index_span, trimmed_line_end, trim_trailing_line_ending, visible_text,
    normalized_visible_text, LineIndex, MarkdownLink, MarkdownLinkKind, SourceSpan,
};
use crate::markdown::document::{is_badge, looks_like_badge, DocumentScanOptions};
use crate::markdown::diagnostics::DocumentDiagnostic;
use std::io;
use std::path::PathBuf;
use crate::markdown::route_map::{RouteCandidate, RouteSource};
use crate::markdown::routes::{classified_routes, classify_route, RouteKind};
use crate::text::{append_chars, append_str, chars_of, push_char, string_of};
use crate::profiles::report::{decimal, decimal_chars};

verus! {

/// How the parser says a link was written.
#[derive(Debug, Clone, Copy, PartialEq, Eq, Structural)]
pub enum MdLinkType {
    Inline,
    Reference,
    ReferenceUnknown,
    Collapsed,
    CollapsedUnknown,
    Shortcut,
    ShortcutUnknown,
    Autolink,
    Email,
    WikiLink { has_pothole: bool },
}

pub open spec fn link_kind_of(link_type: MdLinkType, image: bool) -> MarkdownLinkKind {
    if image {
        MarkdownLinkKind::Image
    } else {
        match link_type {
            MdLinkType::Inline | MdLinkType::WikiLink { .. } => MarkdownLinkKind::Inline,
            MdLinkType::Autolink | MdLinkType::Email => MarkdownLinkKind::Autolink,
            _ => MarkdownLinkKind::Reference,
        }
    }
}

/// How each written form of a link is reported: an image is an image
/// whatever its form; otherwise an autolink or an e-mail autolink
/// (`<https://...>`, `<a@b.c>`) is an autolink, an inline or wiki link is
/// inline, and the reference forms (full, collapsed and shortcut, whether or
/// not their label is defined) are references. No link is an HTML anchor.
pub proof fn lemma_link_kinds(link_type: MdLinkType, image: bool)
    ensures
        image ==> link_kind_of(link_type, image) == MarkdownLinkKind::Image,
        !image ==> (link_kind_of(link_type, image) == MarkdownLinkKind::Autolink
            <==> (link_type == MdLinkType::Autolink || link_type == MdLinkType::Email)),
        !image ==> (link_kind_of(link_type, image) == MarkdownLinkKind::Inline
            <==> (link_type == MdLinkType::Inline || link_type is WikiLink)),
        !image ==> (link_kind_of(link_type, image) == MarkdownLinkKind::Reference <==> (
        link_type == MdLinkType::Reference || link_type == MdLinkType::ReferenceUnknown
            || link_type == MdLinkType::Collapsed || link_type == MdLinkType::CollapsedUnknown
            || link_type == MdLinkType::Shortcut || link_type == MdLinkType::ShortcutUnknown)),
        link_kind_of(link_type, image) != MarkdownLinkKind::HtmlAnchor,
{
}

/// `link_kind_of(link_type, image)`.
pub fn markdown_link_kind(link_type: MdLinkType, image: bool) -> (r: MarkdownLinkKind)
    ensures
        r == link_kind_of(link_type, image),
{
    if image {
        return MarkdownLinkKind::Image;
    }
    match link_type {
        MdLinkType::Inline | MdLinkType::WikiLink { .. } => MarkdownLinkKind::Inline,
        MdLinkType::Autolink | MdLinkType::Email => MarkdownLinkKind::Autolink,
        MdLinkType::Reference | MdLinkType::ReferenceUnknown | MdLinkType::Collapsed
        | MdLinkType::CollapsedUnknown | MdLinkType::Shortcut | MdLinkType::ShortcutUnknown => MarkdownLinkKind::Reference,
    }
}

/// One parser event, with the byte range of source it covers.
#[derive(Debug, Clone, PartialEq, Eq)]
pub enum MdEventKind {
    StartHeading(u8),
    EndHeading,
    StartLink(MdLinkType, String),
    StartImage(MdLinkType, String),
    EndLink,
    EndImage,
    Text(String),
    Break,
    Other,
}

#[derive(Debug, Clone, PartialEq, Eq)]
pub struct MdEvent {
    pub kind: MdEventKind,
    pub start: usize,
    pub end: usize,
}

#[derive(Debug, Clone, PartialEq, Eq)]
pub struct MarkdownHeading {
    pub level: u8,
    pub text: String,
    pub line: usize,
    pub span: Option<SourceSpan>,
}

#[derive(Debug, Clone, PartialEq, Eq)]
pub struct MarkdownBadge {
    pub alt: String,
    pub target: String,
    pub line: usize,
    pub span: Option<SourceSpan>,
}

/// What a document says, in source order.
#[derive(Debug, Clone, PartialEq, Eq)]
pub enum DocumentEvent {
    Heading(MarkdownHeading),
    Link(MarkdownLink),
    Badge(MarkdownBadge),
    RouteCandidate(RouteCandidate),
}

/// A document event as values.
pub enum EventView {
    Heading { level: u8, text: Seq<char>, line: usize, span: Option<SourceSpan> },
    Link { text: Seq<char>, target: Seq<char>, line: usize, span: Option<SourceSpan>, route: Option<RouteKind>, kind: MarkdownLinkKind },
    Badge { alt: Seq<char>, target: Seq<char>, line: usize, span: Option<SourceSpan> },
    Route { route: RouteKind, source: RouteSource, text: Seq<char>, target: Option<Seq<char>>, line: usize, span: Option<SourceSpan> },
}

impl View for DocumentEvent {
    type V = EventView;

    open spec fn view(&self) -> EventView {
        match self {
            DocumentEvent::Heading(h) => EventView::Heading { level: h.level, text: h.text@, line: h.line, span: h.span },
            DocumentEvent::Link(l) => EventView::Link {
                text: l.text@,
                target: l.target@,
                line: l.line,
                span: l.span,
                route: l.route,
                kind: l.kind,
            },
            DocumentEvent::Badge(b) => EventView::Badge { alt: b.alt@, target: b.target@, line: b.line, span: b.span },
            DocumentEvent::RouteCandidate(c) => EventView::Route {
                route: c.route,
                source: c.source,
                text: c.text@,
                target: match &c.target { Some(t) => Some(t@), None => None },
                line: c.line,
                span: c.span,
            },
        }
    }
}

pub open spec fn event_views(v: Seq<DocumentEvent>) -> Seq<EventView> {
    v.map_values(|e: DocumentEvent| e@)
}


/// A heading whose end has not been seen.
#[derive(Debug, Clone, PartialEq, Eq)]
pub struct OpenHeading {
    pub level: u8,
    pub start: usize,
    pub text: Vec<char>,
}

/// A link or image whose end has not been seen.
#[derive(Debug, Clone, PartialEq, Eq)]
pub struct OpenLink {
    pub start: usize,
    pub target: String,
    pub text: Vec<char>,
    pub kind: MarkdownLinkKind,
    pub image: bool,
}

/// The first route that names `text` (or, failing that, `target`).
pub open spec fn first_route(text: Seq<char>, target: Option<Seq<char>>) -> RouteKind {
    let routes = classified_routes(text, target);
    if routes.len() > 0 { routes[0] } else { RouteKind::Unknown }
}

pub open spec fn known_route(route: RouteKind) -> Option<RouteKind> {
    if route == RouteKind::Unknown { None } else { Some(route) }
}

/// What a heading that started at `start` and ends at byte `end` emits:
/// nothing when its text is empty; else the heading, and its route
/// candidate when it names a route.
pub open spec fn heading_events(level: u8, start: usize, raw: Seq<char>, end: usize, visible: Seq<u8>, starts: Seq<usize>, source: Seq<u8>) -> Seq<EventView> {
    let text = visible_text(raw);
    let line = index_line(starts, start as int);
    let span = Some(index_span(starts, source, start as int, trimmed_line_end(visible, end as int) as usize));
    let route = first_route(text, None);
    if text.len() == 0 {
        Seq::empty()
    } else {
        seq![EventView::Heading { level, text, line, span }] + if route == RouteKind::Unknown {
            Seq::<EventView>::empty()
        } else {
            seq![EventView::Route { route, source: RouteSource::Heading, text, target: None, line, span }]
        }
    }
}

/// What a link or image that started at `start` and ends at byte `end`
/// emits: nothing without text or target; an image that looks like a badge
/// gives the link, the badge and an automation route candidate; any other
/// link gives the link and, when it names one, its route candidate.
pub open spec fn link_events(start: usize, target: Seq<char>, raw: Seq<char>, kind: MarkdownLinkKind, image: bool, end: usize, starts: Seq<usize>, source: Seq<u8>) -> Seq<EventView> {
    let text = visible_text(raw);
    let line = index_line(starts, start as int);
    let span = Some(index_span(starts, source, start as int, end));
    let route = first_route(text, Some(target));
    let link = EventView::Link {
        text,
        target,
        line,
        span,
        route: known_route(route),
        kind: if image { MarkdownLinkKind::Image } else { kind },
    };
    let route_event = if route == RouteKind::Unknown {
        Seq::<EventView>::empty()
    } else {
        seq![EventView::Route { route, source: RouteSource::Link, text, target: Some(target), line, span }]
    };
    if text.len() == 0 || target.len() == 0 {
        Seq::empty()
    } else if image && is_badge(text, target) {
        seq![
            link,
            EventView::Badge { alt: text, target, line, span },
            EventView::Route { route: RouteKind::Automation, source: RouteSource::Badge, text, target: Some(target), line, span },
        ]
    } else {
        seq![link] + route_event
    }
}

/// The index of the last open link (`image`) or image, if any.
pub open spec fn last_open(links: Seq<OpenLink>, image: bool) -> int
    decreases links.len(),
{
    if links.len() == 0 {
        -1
    } else if links.last().image == image {
        links.len() - 1
    } else {
        last_open(links.drop_last(), image)
    }
}

proof fn lemma_last_open(links: Seq<OpenLink>, image: bool)
    ensures
        -1 <= last_open(links, image) < links.len(),
        last_open(links, image) >= 0 ==> links[last_open(links, image)].image == image,
    decreases links.len(),
{
    if links.len() > 0 && links.last().image != image {
        lemma_last_open(links.drop_last(), image);
    }
}

/// The open heading and links of a document being read.
#[derive(Debug, Clone, PartialEq, Eq)]
pub struct SemanticState {
    pub heading: Option<OpenHeading>,
    pub links: Vec<OpenLink>,
}

/// Every open start lies in a source of `n` bytes.
pub open spec fn state_within(s: SemanticState, n: nat) -> bool {
    &&& (s.heading matches Some(h) ==> h.start <= n)
    &&& forall|k: int| 0 <= k < s.links@.len() ==> (#[trigger] s.links@[k]).start <= n
}

/// An open heading as values.
pub struct OpenHeadingView {
    pub level: u8,
    pub start: usize,
    pub text: Seq<char>,
}

/// An open link or image as values.
pub struct OpenLinkView {
    pub start: usize,
    pub target: Seq<char>,
    pub text: Seq<char>,
    pub kind: MarkdownLinkKind,
    pub image: bool,
}

/// The open heading and links as values.
pub struct SemanticStateView {
    pub heading: Option<OpenHeadingView>,
    pub links: Seq<OpenLinkView>,
}

impl View for OpenLink {
    type V = OpenLinkView;

    open spec fn view(&self) -> OpenLinkView {
        OpenLinkView { start: self.start, target: self.target@, text: self.text@, kind: self.kind, image: self.image }
    }
}

impl View for SemanticState {
    type V = SemanticStateView;

    open spec fn view(&self) -> SemanticStateView {
        SemanticStateView {
            heading: match &self.heading {
                Some(h) => Some(OpenHeadingView { level: h.level, start: h.start, text: h.text@ }),
                None => None,
            },
            links: self.links@.map_values(|l: OpenLink| l@),
        }
    }
}

/// The state before the first event: nothing open.
pub open spec fn initial_state() -> SemanticStateView {
    SemanticStateView { heading: None, links: Seq::empty() }
}

/// The index of the last open link (`image`) or image among views, if any.
pub open spec fn last_open_view(links: Seq<OpenLinkView>, image: bool) -> int
    decreases links.len(),
{
    if links.len() == 0 {
        -1
    } else if links.last().image == image {
        links.len() - 1
    } else {
        last_open_view(links.drop_last(), image)
    }
}

proof fn lemma_last_open_view(links: Seq<OpenLink>, image: bool)
    ensures
        last_open(links, image) == last_open_view(links.map_values(|l: OpenLink| l@), image),
    decreases links.len(),
{
    if links.len() > 0 {
        assert(links.map_values(|l: OpenLink| l@).drop_last() =~= links.drop_last().map_values(|l: OpenLink| l@));
        lemma_last_open_view(links.drop_last(), image);
    }
}

/// Every open text with `v` appended.
pub open spec fn append_text(s: SemanticStateView, v: Seq<char>) -> SemanticStateView {
    SemanticStateView {
        heading: match s.heading {
            Some(h) => Some(OpenHeadingView { level: h.level, start: h.start, text: h.text + v }),
            None => None,
        },
        links: s.links.map_values(|l: OpenLinkView|
            OpenLinkView { start: l.start, target: l.target, text: l.text + v, kind: l.kind, image: l.image }),
    }
}

/// Closing the last open link (`image`) or image at byte `end`.
pub open spec fn close_link(s: SemanticStateView, image: bool, end: usize, starts: Seq<usize>, source: Seq<u8>) -> (SemanticStateView, Seq<EventView>) {
    let k = last_open_view(s.links, image);
    if k < 0 {
        (s, Seq::empty())
    } else {
        let o = s.links[k];
        (
            SemanticStateView { heading: s.heading, links: s.links.remove(k) },
            link_events(o.start, o.target, o.text, o.kind, o.image, end, starts, source),
        )
    }
}

/// One parser event read in state `s`: the next state and the document
/// events it completes.
pub open spec fn step_spec(s: SemanticStateView, e: MdEvent, visible: Seq<u8>, starts: Seq<usize>, source: Seq<u8>) -> (SemanticStateView, Seq<EventView>) {
    match e.kind {
        MdEventKind::StartHeading(level) => (
            SemanticStateView { heading: Some(OpenHeadingView { level, start: e.start, text: Seq::empty() }), links: s.links },
            Seq::empty(),
        ),
        MdEventKind::EndHeading => (
            SemanticStateView { heading: None, links: s.links },
            match s.heading {
                Some(h) => heading_events(h.level, h.start, h.text, e.end, visible, starts, source),
                None => Seq::empty(),
            },
        ),
        MdEventKind::StartLink(t, url) => (
            SemanticStateView {
                heading: s.heading,
                links: s.links.push(OpenLinkView { start: e.start, target: url@, text: Seq::empty(), kind: link_kind_of(t, false), image: false }),
            },
            Seq::empty(),
        ),
        MdEventKind::StartImage(t, url) => (
            SemanticStateView {
                heading: s.heading,
                links: s.links.push(OpenLinkView { start: e.start, target: url@, text: Seq::empty(), kind: link_kind_of(t, true), image: true }),
            },
            Seq::empty(),
        ),
        MdEventKind::EndLink => close_link(s, false, e.end, starts, source),
        MdEventKind::EndImage => close_link(s, true, e.end, starts, source),
        MdEventKind::Text(v) => (append_text(s, v@), Seq::empty()),
        MdEventKind::Break => (append_text(s, seq![' ']), Seq::empty()),
        MdEventKind::Other => (s, Seq::empty()),
    }
}

/// The state after the first `n` events.
pub open spec fn run_state(events: Seq<MdEvent>, n: int, visible: Seq<u8>, starts: Seq<usize>, source: Seq<u8>) -> SemanticStateView
    decreases n,
{
    if n <= 0 {
        initial_state()
    } else {
        step_spec(run_state(events, n - 1, visible, starts, source), events[n - 1], visible, starts, source).0
    }
}

/// The document events the first `n` events complete, in order.
pub open spec fn run_output(events: Seq<MdEvent>, n: int, visible: Seq<u8>, starts: Seq<usize>, source: Seq<u8>) -> Seq<EventView>
    decreases n,
{
    if n <= 0 {
        Seq::empty()
    } else {
        run_output(events, n - 1, visible, starts, source)
            + step_spec(run_state(events, n - 1, visible, starts, source), events[n - 1], visible, starts, source).1
    }
}

/// More events never take output back.
pub proof fn lemma_run_output_grows(events: Seq<MdEvent>, m: int, n: int, visible: Seq<u8>, starts: Seq<usize>, source: Seq<u8>)
    requires
        0 <= m <= n,
    ensures
        run_output(events, m, visible, starts, source).len() <= run_output(events, n, visible, starts, source).len(),
    decreases n - m,
{
    if m < n {
        lemma_run_output_grows(events, m, n - 1, visible, starts, source);
    }
}

/// What `advance` promises of one event, stated relationally.
pub open spec fn advance_post(before: SemanticState, after: SemanticState, event: MdEvent, r: Seq<DocumentEvent>, visible: Seq<u8>, starts: Seq<usize>, source: Seq<u8>) -> bool {
    match &event.kind {
        MdEventKind::StartHeading(level) => {
            &&& after.heading == Some(OpenHeading { level: *level, start: event.start, text: after.heading->Some_0.text })
            &&& after.heading->Some_0.text@.len() == 0
            &&& after.links == before.links
            &&& r.len() == 0
        },
        MdEventKind::EndHeading => {
            &&& after.heading is None
            &&& after.links == before.links
            &&& event_views(r) == match &before.heading {
                Some(h) => heading_events(h.level, h.start, h.text@, event.end, visible, starts, source),
                None => Seq::empty(),
            }
        },
        MdEventKind::StartLink(link_type, url) | MdEventKind::StartImage(link_type, url) => {
            let image = event.kind is StartImage;
            &&& after.heading == before.heading
            &&& after.links@.len() == before.links@.len() + 1
            &&& after.links@.drop_last() == before.links@
            &&& after.links@.last().start == event.start
            &&& after.links@.last().target@ == url@
            &&& after.links@.last().text@.len() == 0
            &&& after.links@.last().kind == link_kind_of(*link_type, image)
            &&& after.links@.last().image == image
            &&& r.len() == 0
        },
        MdEventKind::EndLink | MdEventKind::EndImage => {
            let image = event.kind == MdEventKind::EndImage;
            let k = last_open(before.links@, image);
            &&& after.heading == before.heading
            &&& if k < 0 {
                &&& after.links@ == before.links@
                &&& r.len() == 0
            } else {
                let o = before.links@[k];
                &&& after.links@ == before.links@.remove(k)
                &&& event_views(r) == link_events(o.start, o.target@, o.text@, o.kind, o.image, event.end, starts, source)
            }
        },
        MdEventKind::Text(value) => text_appended(before, after, value@) && r.len() == 0,
        MdEventKind::Break => text_appended(before, after, seq![' ']) && r.len() == 0,
        MdEventKind::Other => after == before && r.len() == 0,
    }
}

proof fn lemma_step_view(before: SemanticState, after: SemanticState, event: MdEvent, r: Seq<DocumentEvent>, visible: Seq<u8>, starts: Seq<usize>, source: Seq<u8>)
    requires
        advance_post(before, after, event, r, visible, starts, source),
    ensures
        (after@, event_views(r)) == step_spec(before@, event, visible, starts, source),
{
    let f = |l: OpenLink| l@;
    lemma_last_open_view(before.links@, false);
    lemma_last_open_view(before.links@, true);
    match &event.kind {
        MdEventKind::StartHeading(level) => {
            assert(event_views(r) =~= Seq::<EventView>::empty());
            assert(after.heading->Some_0.text@ =~= Seq::<char>::empty());
        },
        MdEventKind::EndHeading => {},
        MdEventKind::StartLink(_, _) | MdEventKind::StartImage(_, _) => {
            assert(event_views(r) =~= Seq::<EventView>::empty());
            assert(after.links@ =~= before.links@.push(after.links@.last()));
            assert(after.links@.last().text@ =~= Seq::<char>::empty());
            assert(after.links@.map_values(f) =~= before.links@.map_values(f).push(after.links@.last()@));
            assert(after@.links =~= step_spec(before@, event, visible, starts, source).0.links);
        },
        MdEventKind::EndLink | MdEventKind::EndImage => {
            let image = event.kind == MdEventKind::EndImage;
            let k = last_open(before.links@, image);
            if k < 0 {
                assert(event_views(r) =~= Seq::<EventView>::empty());
            } else {
                lemma_last_open(before.links@, image);
                assert forall|j: int| 0 <= j < after.links@.len() implies
                    #[trigger] after.links@.map_values(f)[j] == before.links@.map_values(f).remove(k)[j] by {
                    if j < k {
                        assert(after.links@[j] == before.links@[j]);
                    } else {
                        assert(after.links@[j] == before.links@[j + 1]);
                    }
                }
                assert(after.links@.map_values(f) =~= before.links@.map_values(f).remove(k));
            }
        },
        MdEventKind::Text(value) => {
            assert(event_views(r) =~= Seq::<EventView>::empty());
            assert(after@.links =~= append_text(before@, value@).links);
        },
        MdEventKind::Break => {
            assert(event_views(r) =~= Seq::<EventView>::empty());
            assert(after@.links =~= append_text(before@, seq![' ']).links);
        },
        MdEventKind::Other => {
            assert(event_views(r) =~= Seq::<EventView>::empty());
        },
    }
}

/// `after` is `before` with `v` appended to the open heading's text and to
/// every open link's text.
pub open spec fn text_appended(before: SemanticState, after: SemanticState, v: Seq<char>) -> bool {
    &&& (after.heading matches Some(h) ==> (before.heading matches Some(h0)
        && h.level == h0.level && h.start == h0.start && h.text@ == h0.text@ + v))
    &&& (after.heading is None <==> before.heading is None)
    &&& after.links@.len() == before.links@.len()
    &&& forall|k: int| 0 <= k < after.links@.len() ==> {
        let a = #[trigger] after.links@[k];
        let b = before.links@[k];
        a.start == b.start && a.target == b.target && a.kind == b.kind && a.image == b.image
            && a.text@ == b.text@ + v
    }
}

impl SemanticState {
    pub fn new() -> (r: Self)
        ensures
            r.heading is None,
            r.links@.len() == 0,
            r@ == initial_state(),
    {
        let r = SemanticState { heading: None, links: Vec::new() };
        assert(r@.links =~= Seq::<OpenLinkView>::empty());
        r
    }

    /// Takes one parser event (whose bytes lie in `visible`, the masked
    /// source that `lines` indexes) and returns the document events it
    /// completes: `step_spec` of the state and the event.
    pub fn step(&mut self, event: &MdEvent, visible: &[u8], lines: &LineIndex) -> (r: Vec<DocumentEvent>)
        requires
            state_within(*old(self), visible@.len()),
            event.start <= event.end <= visible@.len(),
            visible@.len() == lines.bytes().len(),
            visible@.len() < usize::MAX,
        ensures
            state_within(*final(self), visible@.len()),
            (final(self)@, event_views(r@)) == step_spec(old(self)@, *event, visible@, lines.starts_seq(), lines.bytes()),
    {
        let ghost before = *self;
        let r = self.advance(event, visible, lines);
        proof {
            lemma_step_view(before, *self, *event, r@, visible@, lines.starts_seq(), lines.bytes());
        }
        r
    }

    fn advance(&mut self, event: &MdEvent, visible: &[u8], lines: &LineIndex) -> (r: Vec<DocumentEvent>)
        requires
            state_within(*old(self), visible@.len()),
            event.start <= event.end <= visible@.len(),
            visible@.len() == lines.bytes().len(),
            visible@.len() < usize::MAX,
        ensures
            state_within(*final(self), visible@.len()),
            advance_post(*old(self), *final(self), *event, r@, visible@, lines.starts_seq(), lines.bytes()),
    {
        let mut out: Vec<DocumentEvent> = Vec::new();
        match &event.kind {
            MdEventKind::StartHeading(level) => {
                self.heading = Some(OpenHeading { level: *level, start: event.start, text: Vec::new() });
            },
            MdEventKind::EndHeading => {
                let taken = self.heading.take();
                match taken {
                    Some(open) => {
                        emit_heading(&open, event.end, visible, lines, &mut out);
                    },
                    None => {
                        assert(event_views(out@) =~= Seq::<EventView>::empty());
                    },
                }
            },
            MdEventKind::StartLink(link_type, url) => {
                let kind = markdown_link_kind(*link_type, false);
                let ghost links_before = self.links@;
                self.links.push(OpenLink { start: event.start, target: url.clone(), text: Vec::new(), kind, image: false });
                assert(self.links@.drop_last() =~= links_before);
            },
            MdEventKind::StartImage(link_type, url) => {
                let kind = markdown_link_kind(*link_type, true);
                let ghost links_before = self.links@;
                self.links.push(OpenLink { start: event.start, target: url.clone(), text: Vec::new(), kind, image: true });
                assert(self.links@.drop_last() =~= links_before);
            },
            MdEventKind::EndLink | MdEventKind::EndImage => {
                let image = match &event.kind {
                    MdEventKind::EndImage => true,
                    _ => false,
                };
                proof { lemma_last_open(self.links@, image); }
                match take_open_link(&mut self.links, image) {
                    Some(open) => {
                        emit_open_link(&open, event.end, visible, lines, &mut out);
                    },
                    None => {},
                }
            },
            MdEventKind::Text(value) => {
                let v = chars_of(value.as_str());
                match &mut self.heading {
                    Some(open) => {
                        let mut copy = v.clone();
                        open.text.append(&mut copy);
                    },
                    None => {},
                }
                append_to_links(&mut self.links, v.as_slice());
            },
            MdEventKind::Break => {
                let v: Vec<char> = vec![' '];
                assert(v@ =~= seq![' ']);
                match &mut self.heading {
                    Some(open) => {
                        let mut space = v.clone();
                        open.text.append(&mut space);
                    },
                    None => {},
                }
                append_to_links(&mut self.links, v.as_slice());
            },
            MdEventKind::Other => {},
        }
        out
    }
}

fn append_to_links(links: &mut Vec<OpenLink>, v: &[char])
    ensures
        final(links)@.len() == old(links)@.len(),
        forall|k: int| 0 <= k < final(links)@.len() ==> {
            let a = #[trigger] final(links)@[k];
            let b = old(links)@[k];
            a.start == b.start && a.target == b.target && a.kind == b.kind && a.image == b.image
                && a.text@ == b.text@ + v@
        },
{
    let ghost before = links@;
    let mut i: usize = 0;
    while i < links.len()
        invariant
            i <= links@.len(),
            links@.len() == before.len(),
            forall|k: int| 0 <= k < links@.len() ==> {
                let a = #[trigger] links@[k];
                let b = before[k];
                a.start == b.start && a.target == b.target && a.kind == b.kind && a.image == b.image
                    && a.text@ == if k < i { b.text@ + v@ } else { b.text@ }
            },
        decreases links.len() - i,
    {
        let mut text = links[i].text.clone();
        let mut extra = crate::text::slice_of(v, 0, v.len());
        assert(v@.subrange(0, v@.len() as int) =~= v@);
        text.append(&mut extra);
        let updated = OpenLink {
            start: links[i].start,
            target: links[i].target.clone(),
            text,
            kind: links[i].kind,
            image: links[i].image,
        };
        links.set(i, updated);
        i = i + 1;
    }
}

/// Removes and returns the last open link or image (as `image` says).
fn take_open_link(links: &mut Vec<OpenLink>, image: bool) -> (r: Option<OpenLink>)
    ensures
        ({
            let k = last_open(old(links)@, image);
            if k < 0 {
                r is None && final(links)@ == old(links)@
            } else {
                r == Some(old(links)@[k]) && final(links)@ == old(links)@.remove(k)
            }
        }),
{
    let mut i = links.len();
    assert(old(links)@.take(i as int) =~= old(links)@);
    while i > 0 && links[i - 1].image != image
        invariant
            i <= links@.len(),
            links@ == old(links)@,
            last_open(links@, image) == last_open(links@.take(i as int), image),
        decreases i,
    {
        assert(links@.take(i as int).drop_last() =~= links@.take(i - 1));
        i = i - 1;
    }
    if i == 0 {
        assert(links@.take(0) =~= Seq::<OpenLink>::empty());
        return None;
    }
    assert(links@.take(i as int).last() == links@[i - 1]);
    let open = links.remove(i - 1);
    Some(open)
}

fn events_push(out: &mut Vec<DocumentEvent>, e: DocumentEvent)
    ensures
        event_views(final(out)@) == event_views(old(out)@).push(e@),
{
    out.push(e);
    assert(event_views(out@) =~= event_views(old(out)@).push(e@));
}

fn opt_string_clone(o: &Option<String>) -> (r: Option<String>)
    ensures
        match o {
            Some(s) => r matches Some(t) && t@ == s@,
            None => r is None,
        },
{
    match o {
        Some(s) => Some(s.clone()),
        None => None,
    }
}

fn emit_heading(open: &OpenHeading, end: usize, visible: &[u8], lines: &LineIndex, out: &mut Vec<DocumentEvent>)
    requires
        old(out)@.len() == 0,
        open.start <= visible@.len(),
        end <= visible@.len(),
        visible@.len() == lines.bytes().len(),
        visible@.len() < usize::MAX,
    ensures
        event_views(final(out)@) == heading_events(open.level, open.start, open.text@, end, visible@, lines.starts_seq(), lines.bytes()),
{
    let trimmed_end = trim_trailing_line_ending(visible, end);
    let text_v = normalized_visible_text(open.text.as_slice());
    let line = lines.line_for(open.start);
    let span = lines.span(open.start, trimmed_end);
    assert(event_views(out@) =~= Seq::<EventView>::empty());
    if text_v.len() == 0 {
        return;
    }
    let text = string_of(text_v.as_slice());
    let route = classify_route(text.as_str(), None);
    events_push(out, DocumentEvent::Heading(MarkdownHeading { level: open.level, text: string_of(text_v.as_slice()), line, span: Some(span) }));
    if route != RouteKind::Unknown {
        events_push(out, DocumentEvent::RouteCandidate(RouteCandidate {
            route,
            source: RouteSource::Heading,
            text,
            target: None,
            line,
            span: Some(span),
        }));
    }
    assert(event_views(out@) =~= heading_events(open.level, open.start, open.text@, end, visible@, lines.starts_seq(), lines.bytes()));
}

fn emit_open_link(open: &OpenLink, end: usize, visible: &[u8], lines: &LineIndex, out: &mut Vec<DocumentEvent>)
    requires
        old(out)@.len() == 0,
        open.start <= visible@.len(),
        end <= visible@.len(),
        visible@.len() == lines.bytes().len(),
        visible@.len() < usize::MAX,
    ensures
        event_views(final(out)@) == link_events(open.start, open.target@, open.text@, open.kind, open.image, end, lines.starts_seq(), lines.bytes()),
{
    let text_v = normalized_visible_text(open.text.as_slice());
    let line = lines.line_for(open.start);
    let span = lines.span(open.start, end);
    assert(event_views(out@) =~= Seq::<EventView>::empty());
    let target_chars = chars_of(open.target.as_str());
    if text_v.len() == 0 || target_chars.len() == 0 {
        return;
    }
    let text = string_of(text_v.as_slice());
    let route = classify_route(text.as_str(), Some(open.target.as_str()));
    let link_route = if route == RouteKind::Unknown { None } else { Some(route) };
    let kind = if open.image { MarkdownLinkKind::Image } else { open.kind };
    events_push(out, DocumentEvent::Link(MarkdownLink {
        text: string_of(text_v.as_slice()),
        target: string_of(target_chars.as_slice()),
        line,
        span: Some(span),
        route: link_route,
        kind,
    }));
    if open.image && looks_like_badge(text.as_str(), open.target.as_str()) {
        events_push(out, DocumentEvent::Badge(MarkdownBadge {
            alt: string_of(text_v.as_slice()),
            target: string_of(target_chars.as_slice()),
            line,
            span: Some(span),
        }));
        events_push(out, DocumentEvent::RouteCandidate(RouteCandidate {
            route: RouteKind::Automation,
            source: RouteSource::Badge,
            text,
            target: Some(string_of(target_chars.as_slice())),
            line,
            span: Some(span),
        }));
    } else if route != RouteKind::Unknown {
        events_push(out, DocumentEvent::RouteCandidate(RouteCandidate {
            route,
            source: RouteSource::Link,
            text,
            target: Some(string_of(target_chars.as_slice())),
            line,
            span: Some(span),
        }));
    }
    assert(event_views(out@) =~= link_events(open.start, open.target@, open.text@, open.kind, open.image, end, lines.starts_seq(), lines.bytes()));
}


/// What an `<a>` link found in the source emits: the link with the route
/// its text (or target) names, and that route's candidate when it names one.
pub open spec fn anchor_events(text: Seq<char>, target: Seq<char>, line: usize, span: Option<SourceSpan>, kind: MarkdownLinkKind) -> Seq<EventView> {
    let route = first_route(text, Some(target));
    let link = EventView::Link { text, target, line, span, route: known_route(route), kind };
    if route == RouteKind::Unknown {
        seq![link]
    } else {
        seq![link, EventView::Route { route, source: RouteSource::Link, text, target: Some(target), line, span }]
    }
}

/// `anchor_events` of a parsed anchor link.
pub fn anchor_link_events(link: MarkdownLink) -> (r: Vec<DocumentEvent>)
    ensures
        event_views(r@) == anchor_events(link.text@, link.target@, link.line, link.span, link.kind),
{
    let route = classify_route(link.text.as_str(), Some(link.target.as_str()));
    let text_chars = chars_of(link.text.as_str());
    let target_chars = chars_of(link.target.as_str());
    let mut out: Vec<DocumentEvent> = Vec::new();
    out.push(DocumentEvent::Link(MarkdownLink {
        text: string_of(text_chars.as_slice()),
        target: string_of(target_chars.as_slice()),
        line: link.line,
        span: link.span,
        route: if route == RouteKind::Unknown { None } else { Some(route) },
        kind: link.kind,
    }));
    if route != RouteKind::Unknown {
        out.push(DocumentEvent::RouteCandidate(RouteCandidate {
            route,
            source: RouteSource::Link,
            text: link.text,
            target: Some(link.target),
            line: link.line,
            span: link.span,
        }));
    }
    assert(event_views(out@) =~= anchor_events(text_chars@, target_chars@, link.line, link.span, link.kind));
    out
}

/// The order in which events at one offset are listed.
pub fn event_order_rank(event: &DocumentEvent) -> (r: u8)
    ensures
        r == match event {
            DocumentEvent::Heading(_) => 0u8,
            DocumentEvent::Link(_) => 1u8,
            DocumentEvent::Badge(_) => 2u8,
            DocumentEvent::RouteCandidate(_) => 3u8,
        },
{
    match event {
        DocumentEvent::Heading(_) => 0,
        DocumentEvent::Link(_) => 1,
        DocumentEvent::Badge(_) => 2,
        DocumentEvent::RouteCandidate(_) => 3,
    }
}

/// Where an event stands in its source.
pub fn event_span(event: &DocumentEvent) -> (r: Option<SourceSpan>)
    ensures
        r == match event {
            DocumentEvent::Heading(h) => h.span,
            DocumentEvent::Link(l) => l.span,
            DocumentEvent::Badge(b) => b.span,
            DocumentEvent::RouteCandidate(c) => c.span,
        },
{
    match event {
        DocumentEvent::Heading(h) => h.span,
        DocumentEvent::Link(l) => l.span,
        DocumentEvent::Badge(b) => b.span,
        DocumentEvent::RouteCandidate(c) => c.span,
    }
}

/// Why scanning a document failed.
#[derive(Debug)]
pub enum MarkdownError {
    Io { path: PathBuf, source: io::Error },
    InvalidUtf8 { path: PathBuf, valid_up_to: usize },
    SourceLimitExceeded { path: String, bytes: usize, limit: usize },
    EventLimitExceeded { path: String, limit: usize },
    DiagnosticLimitExceeded { path: String, limit: usize },
}

/// `std::io::Error`'s display text, through `ToString`. Nothing is stated
/// of it: it may carry the operating system's own message.
#[verifier::external_body]
fn io_error_text(error: &io::Error) -> String {
    error.to_string()
}

impl MarkdownError {
    /// The message of an error other than `Io`, whose message ends with the
    /// I/O error's own text.
    pub open spec fn text(&self) -> Seq<char> {
        match self {
            MarkdownError::Io { .. } => "failed to read repository markdown: "@,
            MarkdownError::InvalidUtf8 { valid_up_to, .. } =>
                "repository markdown is not valid UTF-8 after byte "@ + decimal(*valid_up_to as nat),
            MarkdownError::SourceLimitExceeded { path, bytes, limit } =>
                "markdown "@ + path@ + " has "@ + decimal(*bytes as nat) + " bytes and exceeds source limit "@ + decimal(*limit as nat),
            MarkdownError::EventLimitExceeded { path, limit } =>
                "markdown "@ + path@ + " exceeds event limit "@ + decimal(*limit as nat),
            MarkdownError::DiagnosticLimitExceeded { path, limit } =>
                "markdown "@ + path@ + " exceeds diagnostic limit "@ + decimal(*limit as nat),
        }
    }

    /// The error's message: `text()`, followed for `Io` by the I/O error's
    /// text.
    pub fn message(&self) -> (r: String)
        ensures
            self is Io ==> exists|t: Seq<char>| r@ == self.text() + t,
            !(self is Io) ==> r@ == self.text(),
    {
        let mut out: Vec<char> = Vec::new();
        match self {
            MarkdownError::Io { source, .. } => {
                append_str(&mut out, "failed to read repository markdown: ");
                let text = io_error_text(source);
                append_str(&mut out, text.as_str());
                assert(out@ == self.text() + text@);
            },
            MarkdownError::InvalidUtf8 { valid_up_to, .. } => {
                append_str(&mut out, "repository markdown is not valid UTF-8 after byte ");
                append_chars(&mut out, decimal_chars(*valid_up_to));
            },
            MarkdownError::SourceLimitExceeded { path, bytes, limit } => {
                append_str(&mut out, "markdown ");
                append_str(&mut out, path.as_str());
                append_str(&mut out, " has ");
                append_chars(&mut out, decimal_chars(*bytes));
                append_str(&mut out, " bytes and exceeds source limit ");
                append_chars(&mut out, decimal_chars(*limit));
            },
            MarkdownError::EventLimitExceeded { path, limit } => {
                append_str(&mut out, "markdown ");
                append_str(&mut out, path.as_str());
                append_str(&mut out, " exceeds event limit ");
                append_chars(&mut out, decimal_chars(*limit));
            },
            MarkdownError::DiagnosticLimitExceeded { path, limit } => {
                append_str(&mut out, "markdown ");
                append_str(&mut out, path.as_str());
                append_str(&mut out, " exceeds diagnostic limit ");
                append_chars(&mut out, decimal_chars(*limit));
            },
        }
        string_of(out.as_slice())
    }
}

/// A source of `bytes` bytes within the scan's source limit; else the
/// limit error for `path`.
pub fn check_source_limit(path: &str, bytes: usize, options: &DocumentScanOptions) -> (r: Result<(), MarkdownError>)
    ensures
        bytes <= options.max_source_bytes ==> r is Ok,
        bytes > options.max_source_bytes ==> (r matches Err(MarkdownError::SourceLimitExceeded { path: p, bytes: b, limit })
            && p@ == path@ && b == bytes && limit == options.max_source_bytes),
{
    if bytes > options.max_source_bytes {
        return Err(MarkdownError::SourceLimitExceeded {
            path: string_of(chars_of(path).as_slice()),
            bytes,
            limit: options.max_source_bytes,
        });
    }
    Ok(())
}

/// Appends an event while fewer than `max_events` are held; else the event
/// limit error for `path`.
pub fn push_event(path: &str, options: &DocumentScanOptions, events: &mut Vec<DocumentEvent>, event: DocumentEvent) -> (r: Result<(), MarkdownError>)
    ensures
        old(events)@.len() < options.max_events ==> r is Ok && final(events)@ == old(events)@.push(event),
        old(events)@.len() >= options.max_events ==> final(events)@ == old(events)@ && (r matches
            Err(MarkdownError::EventLimitExceeded { path: p, limit }) && p@ == path@ && limit == options.max_events),
{
    if events.len() >= options.max_events {
        return Err(MarkdownError::EventLimitExceeded { path: string_of(chars_of(path).as_slice()), limit: options.max_events });
    }
    events.push(event);
    Ok(())
}

/// Appends a diagnostic while fewer than `max_diagnostics` are held; else
/// the diagnostic limit error for `path`.
pub fn push_diagnostic(path: &str, options: &DocumentScanOptions, diagnostics: &mut Vec<DocumentDiagnostic>, diagnostic: DocumentDiagnostic) -> (r: Result<(), MarkdownError>)
    ensures
        old(diagnostics)@.len() < options.max_diagnostics ==> r is Ok && final(diagnostics)@ == old(diagnostics)@.push(diagnostic),
        old(diagnostics)@.len() >= options.max_diagnostics ==> final(diagnostics)@ == old(diagnostics)@ && (r matches
            Err(MarkdownError::DiagnosticLimitExceeded { path: p, limit }) && p@ == path@ && limit == options.max_diagnostics),
{
    if diagnostics.len() >= options.max_diagnostics {
        return Err(MarkdownError::DiagnosticLimitExceeded { path: string_of(chars_of(path).as_slice()), limit: options.max_diagnostics });
    }
    diagnostics.push(diagnostic);
    Ok(())
}

} // verus!

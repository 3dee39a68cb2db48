//! Source order for a scan's events and diagnostics: a stable insertion
//! sort by (start byte, kind rank, end byte), and the removal of repeated
//! neighbours.

use vstd::prelude::*;
use crate::markdown::diagnostics::{diagnostic_kind_rank, DocumentDiagnostic, DocumentDiagnosticKind, SourceSpan};
use crate::markdown::events::{event_order_rank, event_span, event_views, DocumentEvent, EventView};

verus! {

/// `s` (sorted by `le`) with `x` placed after every element that `le`
/// puts at or before it: the step of a stable insertion sort.
pub open spec fn insert_by<A>(s: Seq<A>, x: A, le: spec_fn(A, A) -> bool) -> Seq<A>
    decreases s.len(),
{
    if s.len() == 0 {
        seq![x]
    } else if le(s.last(), x) {
        s.push(x)
    } else {
        insert_by(s.drop_last(), x, le).push(s.last())
    }
}

/// `s` sorted stably by `le`: each element inserted in turn.
pub open spec fn sort_by<A>(s: Seq<A>, le: spec_fn(A, A) -> bool) -> Seq<A>
    decreases s.len(),
{
    if s.len() == 0 {
        s
    } else {
        insert_by(sort_by(s.drop_last(), le), s.last(), le)
    }
}

/// `s` without elements equal to the one before them.
pub open spec fn dedup<A>(s: Seq<A>) -> Seq<A>
    decreases s.len(),
{
    if s.len() == 0 {
        s
    } else {
        let d = dedup(s.drop_last());
        if d.len() > 0 && d.last() == s.last() { d } else { d.push(s.last()) }
    }
}

/// Inserting at `j`, past every element that `le` puts after `x`, is the
/// insertion step.
pub proof fn lemma_insert_at<A>(s: Seq<A>, x: A, le: spec_fn(A, A) -> bool, j: int)
    requires
        0 <= j <= s.len(),
        forall|k: int| j <= k < s.len() ==> !le(#[trigger] s[k], x),
        j == 0 || le(s[j - 1], x),
    ensures
        insert_by(s, x, le) == s.insert(j, x),
    decreases s.len(),
{
    if s.len() == 0 {
        assert(s.insert(j, x) =~= seq![x]);
    } else if le(s.last(), x) {
        assert(s.insert(j, x) =~= s.push(x));
    } else {
        lemma_insert_at(s.drop_last(), x, le, j);
        assert(s.drop_last().insert(j, x).push(s.last()) =~= s.insert(j, x));
    }
}

/// The span an event carries.
pub open spec fn view_span(e: EventView) -> Option<SourceSpan> {
    match e {
        EventView::Heading { span, .. } => span,
        EventView::Link { span, .. } => span,
        EventView::Badge { span, .. } => span,
        EventView::Route { span, .. } => span,
    }
}

/// Where events at one offset are listed: headings, links, badges, routes.
pub open spec fn view_rank(e: EventView) -> int {
    match e {
        EventView::Heading { .. } => 0,
        EventView::Link { .. } => 1,
        EventView::Badge { .. } => 2,
        EventView::Route { .. } => 3,
    }
}

/// The key `(start, rank, end)` compares `(a0, a1, a2)` at or before `(b0, b1, b2)`.
pub open spec fn key_le(a0: int, a1: int, a2: int, b0: int, b1: int, b2: int) -> bool {
    a0 < b0 || (a0 == b0 && (a1 < b1 || (a1 == b1 && a2 <= b2)))
}

/// `a` is listed at or before `b`: by start byte, rank, then end byte (an
/// event without a span counts as at byte 0).
pub open spec fn event_before(a: EventView, b: EventView) -> bool {
    let (sa, ea) = match view_span(a) { Some(s) => (s.byte_start as int, s.byte_end as int), None => (0, 0) };
    let (sb, eb) = match view_span(b) { Some(s) => (s.byte_start as int, s.byte_end as int), None => (0, 0) };
    key_le(sa, view_rank(a), ea, sb, view_rank(b), eb)
}

pub open spec fn event_order() -> spec_fn(EventView, EventView) -> bool {
    |a: EventView, b: EventView| event_before(a, b)
}

/// Where diagnostics at one offset are listed, by kind.
pub open spec fn diagnostic_rank(kind: DocumentDiagnosticKind) -> int {
    match kind {
        DocumentDiagnosticKind::UnclosedLinkLabel => 0,
        DocumentDiagnosticKind::UnclosedLinkTarget => 1,
        DocumentDiagnosticKind::UnresolvedReferenceLink => 2,
        DocumentDiagnosticKind::UnsupportedHtml => 3,
        DocumentDiagnosticKind::HtmlAttributeLimitExceeded => 4,
    }
}

/// `a` is listed at or before `b`: by start byte, kind rank, then end byte.
pub open spec fn diagnostic_before(a: DocumentDiagnostic, b: DocumentDiagnostic) -> bool {
    key_le(a.span.byte_start as int, diagnostic_rank(a.kind), a.span.byte_end as int,
        b.span.byte_start as int, diagnostic_rank(b.kind), b.span.byte_end as int)
}

pub open spec fn diagnostic_order() -> spec_fn(DocumentDiagnostic, DocumentDiagnostic) -> bool {
    |a: DocumentDiagnostic, b: DocumentDiagnostic| diagnostic_before(a, b)
}

fn event_listed_before(a: &DocumentEvent, b: &DocumentEvent) -> (r: bool)
    ensures
        r == event_before(a@, b@),
{
    let (sa, ea) = match event_span(a) { Some(s) => (s.byte_start, s.byte_end), None => (0, 0) };
    let (sb, eb) = match event_span(b) { Some(s) => (s.byte_start, s.byte_end), None => (0, 0) };
    let ra = event_order_rank(a);
    let rb = event_order_rank(b);
    sa < sb || (sa == sb && (ra < rb || (ra == rb && ea <= eb)))
}

fn diagnostic_listed_before(a: &DocumentDiagnostic, b: &DocumentDiagnostic) -> (r: bool)
    ensures
        r == diagnostic_before(*a, *b),
{
    let ra = diagnostic_kind_rank(a.kind);
    let rb = diagnostic_kind_rank(b.kind);
    a.span.byte_start < b.span.byte_start || (a.span.byte_start == b.span.byte_start
        && (ra < rb || (ra == rb && a.span.byte_end <= b.span.byte_end)))
}

proof fn lemma_remove_parts<A>(w: Seq<A>, i: int)
    requires
        0 <= i < w.len(),
    ensures
        w.remove(i).take(i) == w.take(i),
        w.remove(i).skip(i) == w.skip(i + 1),
{
    w.remove_ensures(i);
    assert(w.remove(i).take(i) =~= w.take(i));
    assert(w.remove(i).skip(i) =~= w.skip(i + 1));
}

proof fn lemma_insert_parts<A>(v1: Seq<A>, s: Seq<A>, i: int, j: int, x: A)
    requires
        0 <= j <= i <= v1.len(),
        s == v1.take(i),
    ensures
        v1.insert(j, x).take(i + 1) == s.insert(j, x),
        v1.insert(j, x).skip(i + 1) == v1.skip(i),
{
    v1.insert_ensures(j, x);
    s.insert_ensures(j, x);
    assert forall|k: int| 0 <= k < i + 1 implies #[trigger] v1.insert(j, x).take(i + 1)[k] == s.insert(j, x)[k] by {
        if k > j {
            assert(v1.insert(j, x)[k] == v1[k - 1]);
            assert(s.insert(j, x)[k] == s[k - 1]);
        }
    }
    assert(v1.insert(j, x).take(i + 1) =~= s.insert(j, x));
    assert forall|k: int| 0 <= k < v1.len() - i implies #[trigger] v1.insert(j, x).skip(i + 1)[k] == v1.skip(i)[k] by {
        assert(v1.insert(j, x)[i + 1 + k] == v1[i + k]);
    }
    assert(v1.insert(j, x).skip(i + 1) =~= v1.skip(i));
}

proof fn lemma_skip_next<A>(w: Seq<A>, w0: Seq<A>, i: int)
    requires
        0 <= i < w.len(),
        w.len() == w0.len(),
        w.skip(i) == w0.skip(i),
    ensures
        w.skip(i + 1) == w0.skip(i + 1),
{
    assert forall|k: int| 0 <= k < w.len() - i - 1 implies #[trigger] w.skip(i + 1)[k] == w0.skip(i + 1)[k] by {
        assert(w.skip(i)[k + 1] == w0.skip(i)[k + 1]);
    }
    assert(w.skip(i + 1) =~= w0.skip(i + 1));
}

proof fn lemma_views_remove(s: Seq<DocumentEvent>, i: int)
    requires
        0 <= i < s.len(),
    ensures
        event_views(s.remove(i)) == event_views(s).remove(i),
{
    assert forall|k: int| 0 <= k < s.len() - 1 implies #[trigger] event_views(s.remove(i))[k] == event_views(s).remove(i)[k] by {
        if k < i {
            assert(s.remove(i)[k] == s[k]);
        } else {
            assert(s.remove(i)[k] == s[k + 1]);
        }
    }
    assert(event_views(s.remove(i)) =~= event_views(s).remove(i));
}

proof fn lemma_views_insert(s: Seq<DocumentEvent>, i: int, x: DocumentEvent)
    requires
        0 <= i <= s.len(),
    ensures
        event_views(s.insert(i, x)) == event_views(s).insert(i, x@),
{
    s.insert_ensures(i, x);
    event_views(s).insert_ensures(i, x@);
    assert forall|k: int| 0 <= k < s.len() + 1 implies #[trigger] event_views(s.insert(i, x))[k] == event_views(s).insert(i, x@)[k] by {
        if k < i {
        } else if k == i {
        } else {
            assert(s.insert(i, x)[k] == s[k - 1]);
            assert(event_views(s).insert(i, x@)[k] == event_views(s)[k - 1]);
        }
    }
    assert(event_views(s.insert(i, x)) =~= event_views(s).insert(i, x@));
}

/// The events in source order: `sort_by` their views under `event_order`.
pub fn sort_events(v: Vec<DocumentEvent>) -> (r: Vec<DocumentEvent>)
    ensures
        event_views(r@) == sort_by(event_views(v@), event_order()),
{
    let ghost w0 = event_views(v@);
    let mut v = v;
    let n = v.len();
    let mut i: usize = 0;
    assert(w0.take(0) =~= Seq::<EventView>::empty());
    assert(event_views(v@).skip(0) =~= w0);
    while i < n
        invariant
            n == v@.len(),
            w0.len() == n,
            i <= n,
            event_views(v@).take(i as int) == sort_by(w0.take(i as int), event_order()),
            event_views(v@).skip(i as int) == w0.skip(i as int),
        decreases n - i,
    {
        let ghost w = event_views(v@);
        let ghost old_v = v@;
        let x = v.remove(i);
        proof {
            lemma_views_remove(old_v, i as int);
            assert(w[i as int] == w0[i as int]) by {
                assert(w.skip(i as int)[0] == w0.skip(i as int)[0]);
            }
            assert(x@ == w[i as int]);
        }
        let ghost s = event_views(v@).take(i as int);
        let ghost v1 = event_views(v@);
        proof {
            lemma_remove_parts(w, i as int);
        }
        let mut j = i;
        while j > 0 && !event_listed_before(&v[j - 1], &x)
            invariant
                j <= i,
                i < n,
                v@.len() == n - 1,
                s == event_views(v@).take(i as int),
                forall|k: int| j <= k < i ==> !event_before(#[trigger] s[k], x@),
            decreases j,
        {
            assert(s[j - 1] == v@[j - 1]@);
            j = j - 1;
        }
        proof {
            if j > 0 {
                assert(s[j - 1] == v@[j - 1]@);
            }
            lemma_insert_at(s, x@, event_order(), j as int);
        }
        let ghost before_insert = v@;
        v.insert(j, x);
        proof {
            lemma_views_insert(before_insert, j as int, x);
            assert(w0.take(i + 1).drop_last() =~= w0.take(i as int));
            assert(w0.take(i + 1).last() == w0[i as int]);
            lemma_insert_parts(v1, s, i as int, j as int, x@);
            lemma_skip_next(w, w0, i as int);
        }
        i = i + 1;
    }
    assert(event_views(v@).take(n as int) =~= event_views(v@));
    assert(w0.take(n as int) =~= w0);
    v
}

/// The diagnostics in source order: `sort_by` under `diagnostic_order`.
pub fn sort_diagnostics(v: Vec<DocumentDiagnostic>) -> (r: Vec<DocumentDiagnostic>)
    ensures
        r@ == sort_by(v@, diagnostic_order()),
{
    let ghost w0 = v@;
    let mut v = v;
    let n = v.len();
    let mut i: usize = 0;
    assert(w0.take(0) =~= Seq::<DocumentDiagnostic>::empty());
    assert(v@.skip(0) =~= w0);
    while i < n
        invariant
            n == v@.len(),
            w0.len() == n,
            i <= n,
            v@.take(i as int) == sort_by(w0.take(i as int), diagnostic_order()),
            v@.skip(i as int) == w0.skip(i as int),
        decreases n - i,
    {
        let ghost w = v@;
        let x = v.remove(i);
        proof {
            assert(w[i as int] == w0[i as int]) by {
                assert(w.skip(i as int)[0] == w0.skip(i as int)[0]);
            }
            lemma_remove_parts(w, i as int);
        }
        let ghost s = v@.take(i as int);
        let ghost v1 = v@;
        let mut j = i;
        while j > 0 && !diagnostic_listed_before(&v[j - 1], &x)
            invariant
                j <= i,
                i < n,
                v@.len() == n - 1,
                s == v@.take(i as int),
                forall|k: int| j <= k < i ==> !diagnostic_before(#[trigger] s[k], x),
            decreases j,
        {
            j = j - 1;
        }
        proof {
            lemma_insert_at(s, x, diagnostic_order(), j as int);
        }
        v.insert(j, x);
        proof {
            assert(w0.take(i + 1).drop_last() =~= w0.take(i as int));
            lemma_insert_parts(v1, s, i as int, j as int, x);
            lemma_skip_next(w, w0, i as int);
        }
        i = i + 1;
    }
    assert(v@.take(n as int) =~= v@);
    assert(w0.take(n as int) =~= w0);
    v
}

/// The diagnostics without a repeat of the one before: `dedup`.
pub fn dedup_diagnostics(v: &Vec<DocumentDiagnostic>) -> (r: Vec<DocumentDiagnostic>)
    ensures
        r@ == dedup(v@),
{
    let mut out: Vec<DocumentDiagnostic> = Vec::new();
    let mut i: usize = 0;
    assert(v@.take(0) =~= Seq::<DocumentDiagnostic>::empty());
    while i < v.len()
        invariant
            i <= v@.len(),
            out@ == dedup(v@.take(i as int)),
        decreases v.len() - i,
    {
        let x = v[i];
        assert(v@.take(i + 1).drop_last() =~= v@.take(i as int));
        if out.len() == 0 || out[out.len() - 1] != x {
            out.push(x);
        }
        i = i + 1;
    }
    assert(v@.take(v@.len() as int) =~= v@);
    out
}

} // verus!

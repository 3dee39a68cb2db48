//! A README's scan, summarized: its headings, links and badges in source
//! order, and its route candidates ordered by route, line, text and start.

use vstd::prelude::*;
use crate::markdown::diagnostics::{MarkdownLink, SourceSpan};
use crate::markdown::events::{DocumentEvent, MarkdownBadge, MarkdownHeading};
use crate::markdown::route_map::RouteCandidate;
use crate::markdown::routes::RouteKind;
use crate::text::chars_of;

verus! {

/// The parts of a README's scan.
#[derive(Debug)]
pub struct ReadmeParts {
    pub headings: Vec<MarkdownHeading>,
    pub links: Vec<MarkdownLink>,
    pub badges: Vec<MarkdownBadge>,
    pub route_candidates: Vec<RouteCandidate>,
}

pub open spec fn headings_of(e: Seq<DocumentEvent>) -> Seq<MarkdownHeading>
    decreases e.len(),
{
    if e.len() == 0 {
        Seq::empty()
    } else {
        let prev = headings_of(e.drop_last());
        match e.last() {
            DocumentEvent::Heading(h) => prev.push(h),
            _ => prev,
        }
    }
}

pub open spec fn links_of(e: Seq<DocumentEvent>) -> Seq<MarkdownLink>
    decreases e.len(),
{
    if e.len() == 0 {
        Seq::empty()
    } else {
        let prev = links_of(e.drop_last());
        match e.last() {
            DocumentEvent::Link(l) => prev.push(l),
            _ => prev,
        }
    }
}

pub open spec fn badges_of(e: Seq<DocumentEvent>) -> Seq<MarkdownBadge>
    decreases e.len(),
{
    if e.len() == 0 {
        Seq::empty()
    } else {
        let prev = badges_of(e.drop_last());
        match e.last() {
            DocumentEvent::Badge(b) => prev.push(b),
            _ => prev,
        }
    }
}

pub open spec fn candidates_of(e: Seq<DocumentEvent>) -> Seq<RouteCandidate>
    decreases e.len(),
{
    if e.len() == 0 {
        Seq::empty()
    } else {
        let prev = candidates_of(e.drop_last());
        match e.last() {
            DocumentEvent::RouteCandidate(c) => prev.push(c),
            _ => prev,
        }
    }
}

/// The order of `RouteKind`'s variants.
pub open spec fn route_index(r: RouteKind) -> int {
    match r {
        RouteKind::Hygiene => 0,
        RouteKind::Quickstart => 1,
        RouteKind::Docs => 2,
        RouteKind::Intake => 3,
        RouteKind::Lifecycle => 4,
        RouteKind::Support => 5,
        RouteKind::Contributing => 6,
        RouteKind::Security => 7,
        RouteKind::Release => 8,
        RouteKind::Governance => 9,
        RouteKind::License => 10,
        RouteKind::Ownership => 11,
        RouteKind::Automation => 12,
        RouteKind::Identity => 13,
        RouteKind::Unknown => 14,
    }
}

fn route_index_of(r: RouteKind) -> (i: u8)
    ensures
        i as int == route_index(r),
{
    match r {
        RouteKind::Hygiene => 0,
        RouteKind::Quickstart => 1,
        RouteKind::Docs => 2,
        RouteKind::Intake => 3,
        RouteKind::Lifecycle => 4,
        RouteKind::Support => 5,
        RouteKind::Contributing => 6,
        RouteKind::Security => 7,
        RouteKind::Release => 8,
        RouteKind::Governance => 9,
        RouteKind::License => 10,
        RouteKind::Ownership => 11,
        RouteKind::Automation => 12,
        RouteKind::Identity => 13,
        RouteKind::Unknown => 14,
    }
}

/// `a` comes before `b` in lexicographic character order.
pub open spec fn text_lt(a: Seq<char>, b: Seq<char>) -> bool
    decreases a.len(),
{
    if a.len() == 0 {
        b.len() > 0
    } else if b.len() == 0 {
        false
    } else if a[0] != b[0] {
        (a[0] as u32) < (b[0] as u32)
    } else {
        text_lt(a.drop_first(), b.drop_first())
    }
}

/// A span's start; a candidate without a span sorts last.
pub open spec fn span_start(span: Option<SourceSpan>) -> int {
    match span {
        Some(s) => s.byte_start as int,
        None => usize::MAX as int,
    }
}

/// `a` comes strictly before `b`: by route, then line, then text, then
/// start.
pub open spec fn candidate_lt(a: RouteCandidate, b: RouteCandidate) -> bool {
    route_index(a.route) < route_index(b.route)
    || (route_index(a.route) == route_index(b.route) && (a.line < b.line
        || (a.line == b.line && (text_lt(a.text@, b.text@)
            || (a.text@ == b.text@ && span_start(a.span) < span_start(b.span))))))
}

/// Inserting `x` into `s` after every element it does not come before.
pub open spec fn insert_stable(s: Seq<RouteCandidate>, x: RouteCandidate) -> Seq<RouteCandidate>
    decreases s.len(),
{
    if s.len() == 0 {
        seq![x]
    } else if candidate_lt(x, s.last()) {
        insert_stable(s.drop_last(), x).push(s.last())
    } else {
        s.push(x)
    }
}

/// The candidates in a stable sort by `candidate_lt`: equal keys keep their
/// order.
pub open spec fn sorted_candidates(s: Seq<RouteCandidate>) -> Seq<RouteCandidate>
    decreases s.len(),
{
    if s.len() == 0 {
        Seq::empty()
    } else {
        insert_stable(sorted_candidates(s.drop_last()), s.last())
    }
}

fn text_less(a: &String, b: &String) -> (r: bool)
    ensures
        r == text_lt(a@, b@),
{
    let x = chars_of(a.as_str());
    let y = chars_of(b.as_str());
    let mut i: usize = 0;
    assert(x@.skip(0) =~= x@);
    assert(y@.skip(0) =~= y@);
    while i < x.len() && i < y.len() && x[i] == y[i]
        invariant
            i <= x@.len(),
            i <= y@.len(),
            text_lt(a@, b@) == text_lt(x@.skip(i as int), y@.skip(i as int)),
            x@ == a@,
            y@ == b@,
        decreases x.len() - i,
    {
        assert(x@.skip(i as int).drop_first() =~= x@.skip(i + 1));
        assert(y@.skip(i as int).drop_first() =~= y@.skip(i + 1));
        i = i + 1;
    }
    if i == x.len() {
        assert(x@.skip(i as int).len() == 0);
        i < y.len()
    } else if i == y.len() {
        false
    } else {
        assert(x@.skip(i as int)[0] == x@[i as int]);
        assert(y@.skip(i as int)[0] == y@[i as int]);
        (x[i] as u32) < (y[i] as u32)
    }
}

fn span_start_of(span: Option<SourceSpan>) -> (r: usize)
    ensures
        r as int == span_start(span),
{
    match span {
        Some(s) => s.byte_start,
        None => usize::MAX,
    }
}

fn candidate_less(a: &RouteCandidate, b: &RouteCandidate) -> (r: bool)
    ensures
        r == candidate_lt(*a, *b),
{
    let ra = route_index_of(a.route);
    let rb = route_index_of(b.route);
    if ra != rb {
        return ra < rb;
    }
    if a.line != b.line {
        return a.line < b.line;
    }
    if text_less(&a.text, &b.text) {
        return true;
    }
    if text_less(&b.text, &a.text) {
        proof { lemma_text_lt_asym(b.text@, a.text@); }
        return false;
    }
    proof { lemma_text_total(a.text@, b.text@); }
    span_start_of(a.span) < span_start_of(b.span)
}

proof fn lemma_text_lt_asym(a: Seq<char>, b: Seq<char>)
    requires
        text_lt(a, b),
    ensures
        !text_lt(b, a),
        a != b,
    decreases a.len(),
{
    if a.len() > 0 && b.len() > 0 && a[0] == b[0] {
        lemma_text_lt_asym(a.drop_first(), b.drop_first());
        if a == b {
            assert(a.drop_first() == b.drop_first());
        }
    }
}

proof fn lemma_text_total(a: Seq<char>, b: Seq<char>)
    requires
        !text_lt(a, b),
        !text_lt(b, a),
    ensures
        a == b,
    decreases a.len(),
{
    if a.len() > 0 && b.len() > 0 {
        if a[0] == b[0] {
            lemma_text_total(a.drop_first(), b.drop_first());
            assert(a =~= seq![a[0]] + a.drop_first());
            assert(b =~= seq![b[0]] + b.drop_first());
        } else {
            if (a[0] as u32) == (b[0] as u32) {
                vstd::utf8::char_u32_cast(a[0], a[0] as u32);
                vstd::utf8::char_u32_cast(b[0], b[0] as u32);
            }
        }
    } else {
        assert(a.len() == 0 && b.len() == 0);
        assert(a =~= b);
    }
}

/// `insert_stable(s, x)` into `v`.
fn insert_candidate(v: &mut Vec<RouteCandidate>, x: RouteCandidate)
    ensures
        final(v)@ == insert_stable(old(v)@, x),
{
    let ghost s = v@;
    let mut i = v.len();
    assert(s.take(s.len() as int) =~= s);
    assert(s.skip(s.len() as int) =~= Seq::<RouteCandidate>::empty());
    assert(insert_stable(s, x) + Seq::<RouteCandidate>::empty() =~= insert_stable(s, x));
    while i > 0 && candidate_less(&x, &v[i - 1])
        invariant
            i <= s.len(),
            v@ == s,
            insert_stable(s, x) == insert_stable(s.take(i as int), x) + s.skip(i as int),
        decreases i,
    {
        proof {
            let t = s.take(i as int);
            assert(t.drop_last() =~= s.take(i - 1));
            assert(t.last() == s[i - 1]);
            assert(s.skip(i - 1) =~= seq![s[i - 1]] + s.skip(i as int));
            assert(insert_stable(t, x) == insert_stable(s.take(i - 1), x).push(s[i - 1]));
            assert(insert_stable(t, x) + s.skip(i as int) =~= insert_stable(s.take(i - 1), x) + s.skip(i - 1));
        }
        i = i - 1;
    }
    proof {
        let t = s.take(i as int);
        if i > 0 {
            assert(t.last() == s[i - 1]);
            assert(insert_stable(t, x) == t.push(x));
        } else {
            assert(t.len() == 0);
            assert(insert_stable(t, x) == seq![x]);
        }
    }
    v.insert(i, x);
    proof {
        assert(v@ =~= s.take(i as int).push(x) + s.skip(i as int));
    }
}

/// Splits a README's events into its headings, links and badges, in
/// source order, and its route candidates, in `sorted_candidates` order.
pub fn summarize_readme_events(events: Vec<DocumentEvent>) -> (r: ReadmeParts)
    ensures
        r.headings@ == headings_of(events@),
        r.links@ == links_of(events@),
        r.badges@ == badges_of(events@),
        r.route_candidates@ == sorted_candidates(candidates_of(events@)),
        candidates_ordered(r.route_candidates@),
        r.route_candidates@.to_multiset() == candidates_of(events@).to_multiset(),
        r.headings@ == events@.filter(|e: DocumentEvent| e is Heading).map_values(
            |e: DocumentEvent| e->Heading_0,
        ),
        r.links@ == events@.filter(|e: DocumentEvent| e is Link).map_values(
            |e: DocumentEvent| e->Link_0,
        ),
        r.badges@ == events@.filter(|e: DocumentEvent| e is Badge).map_values(
            |e: DocumentEvent| e->Badge_0,
        ),
{
    let ghost all = events@;
    let n = events.len();
    let mut rest = events;
    let mut headings: Vec<MarkdownHeading> = Vec::new();
    let mut links: Vec<MarkdownLink> = Vec::new();
    let mut badges: Vec<MarkdownBadge> = Vec::new();
    let mut candidates: Vec<RouteCandidate> = Vec::new();
    let mut k: usize = 0;
    assert(all.skip(0) =~= all);
    while rest.len() > 0
        invariant
            k <= all.len(),
            n == all.len(),
            rest@ == all.skip(k as int),
            headings@ == headings_of(all.take(k as int)),
            links@ == links_of(all.take(k as int)),
            badges@ == badges_of(all.take(k as int)),
            candidates@ == sorted_candidates(candidates_of(all.take(k as int))),
        decreases rest.len(),
    {
        let ghost before = rest@;
        let e = rest.remove(0);
        proof {
            assert(e == all[k as int]);
            assert(rest@ =~= all.skip(k + 1));
            assert(all.take(k + 1).drop_last() =~= all.take(k as int));
            assert(all.take(k + 1).last() == all[k as int]);
        }
        match e {
            DocumentEvent::Heading(h) => { headings.push(h); },
            DocumentEvent::Link(l) => { links.push(l); },
            DocumentEvent::Badge(b) => { badges.push(b); },
            DocumentEvent::RouteCandidate(c) => {
                proof {
                    let prev = candidates_of(all.take(k as int));
                    assert(candidates_of(all.take(k + 1)) == prev.push(c));
                    assert(prev.push(c).drop_last() =~= prev);
                }
                insert_candidate(&mut candidates, c);
            },
        }
        k = k + 1;
    }
    proof {
        assert(all.take(all.len() as int) =~= all);
        lemma_sorted_candidates(candidates_of(all));
        lemma_summary_keeps_events(all);
    }
    ReadmeParts { headings, links, badges, route_candidates: candidates }
}

proof fn lemma_text_trans(a: Seq<char>, b: Seq<char>, c: Seq<char>)
    requires
        text_lt(a, b),
        text_lt(b, c),
    ensures
        text_lt(a, c),
    decreases a.len(),
{
    if a.len() > 0 && b.len() > 0 && c.len() > 0 {
        if a[0] == b[0] && b[0] == c[0] {
            lemma_text_trans(a.drop_first(), b.drop_first(), c.drop_first());
        }
    }
}

/// Same route, line, text and start.
pub open spec fn same_key(a: RouteCandidate, b: RouteCandidate) -> bool {
    route_index(a.route) == route_index(b.route) && a.line == b.line && a.text@ == b.text@
        && span_start(a.span) == span_start(b.span)
}

proof fn lemma_candidate_order(a: RouteCandidate, b: RouteCandidate, c: RouteCandidate)
    ensures
        !candidate_lt(a, a),
        candidate_lt(a, b) ==> !candidate_lt(b, a),
        (!candidate_lt(a, b) && !candidate_lt(b, a)) ==> same_key(a, b),
        (candidate_lt(a, b) && candidate_lt(b, c)) ==> candidate_lt(a, c),
        (candidate_lt(a, b) && same_key(b, c)) ==> candidate_lt(a, c),
        (same_key(a, b) && candidate_lt(b, c)) ==> candidate_lt(a, c),
{
    if text_lt(a.text@, a.text@) {
        lemma_text_lt_asym(a.text@, a.text@);
    }
    if text_lt(a.text@, b.text@) {
        lemma_text_lt_asym(a.text@, b.text@);
    }
    if !text_lt(a.text@, b.text@) && !text_lt(b.text@, a.text@) {
        lemma_text_total(a.text@, b.text@);
    }
    if text_lt(a.text@, b.text@) && text_lt(b.text@, c.text@) {
        lemma_text_trans(a.text@, b.text@, c.text@);
    }
}

/// No element of `s` comes before an earlier one.
pub open spec fn candidates_ordered(s: Seq<RouteCandidate>) -> bool {
    forall|i: int, j: int| 0 <= i < j < s.len() ==> !candidate_lt(#[trigger] s[j], #[trigger] s[i])
}

proof fn lemma_insert_stable(s: Seq<RouteCandidate>, x: RouteCandidate)
    requires
        candidates_ordered(s),
    ensures
        candidates_ordered(insert_stable(s, x)),
        insert_stable(s, x).to_multiset() == s.to_multiset().insert(x),
        insert_stable(s, x).len() == s.len() + 1,
        forall|y: RouteCandidate| (forall|i: int| 0 <= i < s.len() ==> !candidate_lt(#[trigger] s[i], y)) && !candidate_lt(x, y)
            ==> forall|i: int| 0 <= i < insert_stable(s, x).len() ==> !candidate_lt(#[trigger] insert_stable(s, x)[i], y),
    decreases s.len(),
{
    broadcast use vstd::seq_lib::group_to_multiset_ensures;
    if s.len() == 0 {
        assert(seq![x].to_multiset() =~= Seq::<RouteCandidate>::empty().to_multiset().insert(x)) by {
            assert(seq![x] =~= Seq::<RouteCandidate>::empty().push(x));
        }
    } else if candidate_lt(x, s.last()) {
        let t = s.drop_last();
        let l = s.last();
        assert forall|i: int, j: int| 0 <= i < j < t.len() implies !candidate_lt(#[trigger] t[j], #[trigger] t[i]) by {
            assert(t[i] == s[i] && t[j] == s[j]);
        }
        lemma_insert_stable(t, x);
        let u = insert_stable(t, x);
        let r = u.push(l);
        assert(s =~= t.push(l));
        assert forall|i: int| 0 <= i < u.len() implies !candidate_lt(l, #[trigger] u[i]) by {
            assert(u.to_multiset().count(u[i]) > 0);
            assert(u.to_multiset() == t.to_multiset().insert(x));
            if u[i] == x {
                lemma_candidate_order(x, l, x);
            } else {
                assert(t.to_multiset().count(u[i]) > 0);
                assert(t.contains(u[i]));
                let k = choose|k: int| 0 <= k < t.len() && t[k] == u[i];
                assert(s[k] == t[k]);
                assert(!candidate_lt(s[s.len() - 1], s[k]));
            }
        }
        assert forall|i: int, j: int| 0 <= i < j < r.len() implies !candidate_lt(#[trigger] r[j], #[trigger] r[i]) by {
            if j < u.len() {
                assert(r[i] == u[i] && r[j] == u[j]);
            } else {
                assert(r[j] == l && r[i] == u[i]);
            }
        }
        assert(r.to_multiset() =~= s.to_multiset().insert(x));
        assert forall|y: RouteCandidate| (forall|i: int| 0 <= i < s.len() ==> !candidate_lt(#[trigger] s[i], y)) && !candidate_lt(x, y)
            implies forall|i: int| 0 <= i < r.len() ==> !candidate_lt(#[trigger] r[i], y) by {
            assert forall|i: int| 0 <= i < t.len() implies !candidate_lt(#[trigger] t[i], y) by {
                assert(t[i] == s[i]);
            }
            assert(!candidate_lt(s[s.len() - 1], y));
            assert forall|i: int| 0 <= i < r.len() implies !candidate_lt(#[trigger] r[i], y) by {
                if i < u.len() {
                    assert(r[i] == u[i]);
                } else {
                    assert(r[i] == l);
                }
            }
        }
    } else {
        let l = s.last();
        let r = s.push(x);
        assert forall|i: int, j: int| 0 <= i < j < r.len() implies !candidate_lt(#[trigger] r[j], #[trigger] r[i]) by {
            if j < s.len() {
                assert(r[i] == s[i] && r[j] == s[j]);
            } else {
                assert(r[j] == x && r[i] == s[i]);
                if i < s.len() - 1 {
                    assert(!candidate_lt(s[s.len() - 1], s[i]));
                    lemma_candidate_order(x, s[s.len() - 1], s[i]);
                    lemma_candidate_order(s[i], s[s.len() - 1], x);
                    lemma_candidate_order(s[s.len() - 1], s[i], x);
                    lemma_candidate_order(x, s[i], s[s.len() - 1]);
                }
            }
        }
        assert forall|y: RouteCandidate| (forall|i: int| 0 <= i < s.len() ==> !candidate_lt(#[trigger] s[i], y)) && !candidate_lt(x, y)
            implies forall|i: int| 0 <= i < r.len() ==> !candidate_lt(#[trigger] r[i], y) by {
            assert forall|i: int| 0 <= i < r.len() implies !candidate_lt(#[trigger] r[i], y) by {
                if i < s.len() {
                    assert(r[i] == s[i]);
                } else {
                    assert(r[i] == x);
                }
            }
        }
    }
}

/// The route candidates of a summary are in order (no candidate comes
/// before an earlier one by route, line, text and start) and are exactly
/// the scan's candidates.
pub proof fn lemma_sorted_candidates(s: Seq<RouteCandidate>)
    ensures
        candidates_ordered(sorted_candidates(s)),
        sorted_candidates(s).to_multiset() == s.to_multiset(),
    decreases s.len(),
{
    broadcast use vstd::seq_lib::group_to_multiset_ensures;
    if s.len() > 0 {
        lemma_sorted_candidates(s.drop_last());
        lemma_insert_stable(sorted_candidates(s.drop_last()), s.last());
        assert(s =~= s.drop_last().push(s.last()));
    }
}

/// The summary keeps each kind of event as it came: its headings are exactly
/// the input's heading events, its links the link events, its badges the
/// badge events and its candidates the route-candidate events, each list in
/// source order, with nothing dropped, added or moved.
pub proof fn lemma_summary_keeps_events(events: Seq<DocumentEvent>)
    ensures
        headings_of(events) == events.filter(|e: DocumentEvent| e is Heading).map_values(
            |e: DocumentEvent| e->Heading_0,
        ),
        links_of(events) == events.filter(|e: DocumentEvent| e is Link).map_values(
            |e: DocumentEvent| e->Link_0,
        ),
        badges_of(events) == events.filter(|e: DocumentEvent| e is Badge).map_values(
            |e: DocumentEvent| e->Badge_0,
        ),
        candidates_of(events) == events.filter(|e: DocumentEvent| e is RouteCandidate).map_values(
            |e: DocumentEvent| e->RouteCandidate_0,
        ),
    decreases events.len(),
{
    reveal(Seq::filter);
    if events.len() > 0 {
        let init = events.drop_last();
        lemma_summary_keeps_events(init);
        let fh = |e: DocumentEvent| e is Heading;
        let fl = |e: DocumentEvent| e is Link;
        let fb = |e: DocumentEvent| e is Badge;
        let fc = |e: DocumentEvent| e is RouteCandidate;
        let gh = |e: DocumentEvent| e->Heading_0;
        let gl = |e: DocumentEvent| e->Link_0;
        let gb = |e: DocumentEvent| e->Badge_0;
        let gc = |e: DocumentEvent| e->RouteCandidate_0;
        assert(events.filter(fh) == (if fh(events.last()) { init.filter(fh).push(events.last()) } else { init.filter(fh) }));
        assert(events.filter(fl) == (if fl(events.last()) { init.filter(fl).push(events.last()) } else { init.filter(fl) }));
        assert(events.filter(fb) == (if fb(events.last()) { init.filter(fb).push(events.last()) } else { init.filter(fb) }));
        assert(events.filter(fc) == (if fc(events.last()) { init.filter(fc).push(events.last()) } else { init.filter(fc) }));
        assert(init.filter(fh).push(events.last()).map_values(gh) =~= init.filter(fh).map_values(gh).push(gh(events.last())));
        assert(init.filter(fl).push(events.last()).map_values(gl) =~= init.filter(fl).map_values(gl).push(gl(events.last())));
        assert(init.filter(fb).push(events.last()).map_values(gb) =~= init.filter(fb).map_values(gb).push(gb(events.last())));
        assert(init.filter(fc).push(events.last()).map_values(gc) =~= init.filter(fc).map_values(gc).push(gc(events.last())));
    }
}

} // verus!

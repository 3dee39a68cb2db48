//! README route map evidence: where each route candidate came from, the
//! keys and kinds of their targets, and the per-route counts that the
//! route assessment is made from.

use vstd::prelude::*;
use crate::markdown::document::before_delimiter;
use crate::markdown::routes::RouteKind;
use crate::markdown::diagnostics::SourceSpan;
use crate::text::{
    ascii_lower, chars_of, has_prefix, replace_char, replace_chars, starts_with_str, string_of,
    to_ascii_lower, trim, trimmed,
};
use crate::markdown::document::cut_at_fragment;

verus! {

/// Where in the README a route candidate was found.
#[derive(Debug, Clone, Copy, PartialEq, Eq, Structural)]
pub enum RouteSource {
    Heading,
    Link,
    Badge,
}

/// A README element that names a route.
#[derive(Debug, Clone, PartialEq, Eq)]
pub struct RouteCandidate {
    pub route: RouteKind,
    pub source: RouteSource,
    pub text: String,
    pub target: Option<String>,
    pub line: usize,
    pub span: Option<SourceSpan>,
}

/// A target before its fragment or query, trimmed.
pub open spec fn target_path_part(target: Seq<char>) -> Seq<char> {
    trim(before_delimiter(target))
}

/// `target_path_part(target)`.
pub fn strip_target_fragment(target: &str) -> (r: String)
    ensures
        r@ == target_path_part(target@),
{
    let t = chars_of(target);
    let cut = cut_at_fragment(t.as_slice());
    string_of(trimmed(cut.as_slice()).as_slice())
}

/// The key that groups candidates pointing at the same target.
pub open spec fn target_key(target: Seq<char>) -> Seq<char> {
    ascii_lower(replace_char(target_path_part(trim(target)), '\\', '/'))
}

/// `target_key(target)`.
pub fn normalize_target_key(target: &str) -> (r: String)
    ensures
        r@ == target_key(target@),
{
    let t = chars_of(target);
    let tt = trimmed(t.as_slice());
    let cut = cut_at_fragment(tt.as_slice());
    let part = trimmed(cut.as_slice());
    let slashed = replace_chars(part.as_slice(), '\\', '/');
    string_of(to_ascii_lower(slashed.as_slice()).as_slice())
}

/// What a route target is.
#[derive(Debug, Clone, Copy, PartialEq, Eq, Structural)]
pub enum ReadmeRouteTargetStatus {
    External,
    Mail,
    Anchor,
    /// A local target, with no repository to look in.
    Unknown,
    LocalPresent,
    LocalMissing,
}

/// The form of a target: web, mail or anchor, or the local path to look
/// for (`None`).
pub open spec fn target_form(target: Seq<char>) -> Option<ReadmeRouteTargetStatus> {
    let t = trim(target);
    let lower = ascii_lower(t);
    if has_prefix(lower, "http://"@) || has_prefix(lower, "https://"@) {
        Some(ReadmeRouteTargetStatus::External)
    } else if has_prefix(lower, "mailto:"@) {
        Some(ReadmeRouteTargetStatus::Mail)
    } else if has_prefix(t, "#"@) || target_path_part(t).len() == 0 {
        Some(ReadmeRouteTargetStatus::Anchor)
    } else {
        None
    }
}

/// The repository-relative path whose existence decides the status of a
/// local target; none for web, mail and anchor targets.
pub fn target_probe_path(target: &str) -> (r: Option<String>)
    ensures
        match target_form(target@) {
            Some(_) => r is None,
            None => r matches Some(p) && p@ == target_path_part(trim(target@)),
        },
{
    let raw = chars_of(target);
    let t_v = trimmed(raw.as_slice());
    let t = t_v.as_slice();
    let lower_v = to_ascii_lower(t);
    let lower = lower_v.as_slice();
    if starts_with_str(lower, "http://") || starts_with_str(lower, "https://") || starts_with_str(lower, "mailto:")
        || starts_with_str(t, "#") {
        return None;
    }
    let cut = cut_at_fragment(t);
    let local = trimmed(cut.as_slice());
    if local.len() == 0 {
        return None;
    }
    Some(string_of(local.as_slice()))
}

/// The status of a target: its form, or for a local target whether the
/// repository holds it (`exists`; none when there is no repository).
pub open spec fn target_status(target: Seq<char>, exists: Option<bool>) -> ReadmeRouteTargetStatus {
    match target_form(target) {
        Some(s) => s,
        None => match exists {
            None => ReadmeRouteTargetStatus::Unknown,
            Some(true) => ReadmeRouteTargetStatus::LocalPresent,
            Some(false) => ReadmeRouteTargetStatus::LocalMissing,
        },
    }
}

/// `target_status(target, exists)`.
pub fn classify_target_status(target: &str, exists: Option<bool>) -> (r: ReadmeRouteTargetStatus)
    ensures
        r == target_status(target@, exists),
{
    let raw = chars_of(target);
    let t_v = trimmed(raw.as_slice());
    let t = t_v.as_slice();
    let lower_v = to_ascii_lower(t);
    let lower = lower_v.as_slice();
    if starts_with_str(lower, "http://") || starts_with_str(lower, "https://") {
        return ReadmeRouteTargetStatus::External;
    }
    if starts_with_str(lower, "mailto:") {
        return ReadmeRouteTargetStatus::Mail;
    }
    if starts_with_str(t, "#") {
        return ReadmeRouteTargetStatus::Anchor;
    }
    let cut = cut_at_fragment(t);
    if trimmed(cut.as_slice()).len() == 0 {
        return ReadmeRouteTargetStatus::Anchor;
    }
    match exists {
        None => ReadmeRouteTargetStatus::Unknown,
        Some(true) => ReadmeRouteTargetStatus::LocalPresent,
        Some(false) => ReadmeRouteTargetStatus::LocalMissing,
    }
}

/// The routes a README hub is assessed on, in report order.
pub open spec fn hub_routes() -> Seq<RouteKind> {
    seq![
        RouteKind::Identity,
        RouteKind::Docs,
        RouteKind::Quickstart,
        RouteKind::Support,
        RouteKind::Intake,
        RouteKind::Security,
        RouteKind::Release,
        RouteKind::Lifecycle,
        RouteKind::Governance,
        RouteKind::Contributing,
        RouteKind::License,
        RouteKind::Automation,
        RouteKind::Ownership,
        RouteKind::Hygiene,
    ]
}

/// `hub_routes()`.
pub fn readme_hub_routes() -> (r: Vec<RouteKind>)
    ensures
        r@ == hub_routes(),
{
    let r = vec![
        RouteKind::Identity,
        RouteKind::Docs,
        RouteKind::Quickstart,
        RouteKind::Support,
        RouteKind::Intake,
        RouteKind::Security,
        RouteKind::Release,
        RouteKind::Lifecycle,
        RouteKind::Governance,
        RouteKind::Contributing,
        RouteKind::License,
        RouteKind::Automation,
        RouteKind::Ownership,
        RouteKind::Hygiene,
    ];
    assert(r@ =~= hub_routes());
    r
}

/// How often a route was named, in all and by source.
#[derive(Debug, Clone, Copy, PartialEq, Eq, Structural)]
pub struct RouteCounts {
    pub candidate_count: usize,
    pub heading_count: usize,
    pub link_count: usize,
    pub badge_count: usize,
}

/// The number of candidates for `route` (from `source`, when given).
pub open spec fn count_route(cs: Seq<RouteCandidate>, route: RouteKind, source: Option<RouteSource>) -> nat
    decreases cs.len(),
{
    if cs.len() == 0 {
        0
    } else {
        let c = cs.last();
        count_route(cs.drop_last(), route, source) + if c.route == route && (source is None || source == Some(c.source)) { 1nat } else { 0nat }
    }
}

proof fn lemma_count_bound(cs: Seq<RouteCandidate>, route: RouteKind, source: Option<RouteSource>)
    ensures
        count_route(cs, route, source) <= cs.len(),
    decreases cs.len(),
{
    if cs.len() > 0 {
        lemma_count_bound(cs.drop_last(), route, source);
    }
}

/// The counts of `route` among the candidates.
pub fn route_counts(candidates: &[RouteCandidate], route: RouteKind) -> (r: RouteCounts)
    ensures
        r.candidate_count == count_route(candidates@, route, None),
        r.heading_count == count_route(candidates@, route, Some(RouteSource::Heading)),
        r.link_count == count_route(candidates@, route, Some(RouteSource::Link)),
        r.badge_count == count_route(candidates@, route, Some(RouteSource::Badge)),
{
    let mut r = RouteCounts { candidate_count: 0, heading_count: 0, link_count: 0, badge_count: 0 };
    let mut i: usize = 0;
    while i < candidates.len()
        invariant
            i <= candidates.len(),
            r.candidate_count == count_route(candidates@.take(i as int), route, None),
            r.heading_count == count_route(candidates@.take(i as int), route, Some(RouteSource::Heading)),
            r.link_count == count_route(candidates@.take(i as int), route, Some(RouteSource::Link)),
            r.badge_count == count_route(candidates@.take(i as int), route, Some(RouteSource::Badge)),
        decreases candidates.len() - i,
    {
        let ghost pre = candidates@.take(i as int);
        assert(candidates@.take(i + 1).drop_last() =~= pre);
        proof {
            lemma_count_bound(pre, route, None);
            lemma_count_bound(pre, route, Some(RouteSource::Heading));
            lemma_count_bound(pre, route, Some(RouteSource::Link));
            lemma_count_bound(pre, route, Some(RouteSource::Badge));
        }
        let c = &candidates[i];
        if c.route == route {
            r.candidate_count = r.candidate_count + 1;
            match c.source {
                RouteSource::Heading => { r.heading_count = r.heading_count + 1; },
                RouteSource::Link => { r.link_count = r.link_count + 1; },
                RouteSource::Badge => { r.badge_count = r.badge_count + 1; },
            }
        }
        i = i + 1;
    }
    assert(candidates@.take(candidates.len() as int) =~= candidates@);
    r
}

/// The lines where `route` was named, ascending, each once.
pub fn evidence_lines(candidates: &[RouteCandidate], route: RouteKind) -> (r: Vec<usize>)
    ensures
        forall|i: int, j: int| 0 <= i < j < r@.len() ==> r@[i] < r@[j],
        forall|l: usize| r@.contains(l) <==> exists|k: int| 0 <= k < candidates@.len()
            && (#[trigger] candidates@[k]).route == route && candidates@[k].line == l,
{
    let mut out: Vec<usize> = Vec::new();
    let mut i: usize = 0;
    while i < candidates.len()
        invariant
            i <= candidates.len(),
            forall|a: int, b: int| 0 <= a < b < out@.len() ==> out@[a] < out@[b],
            forall|l: usize| out@.contains(l) <==> exists|k: int| 0 <= k < i
                && (#[trigger] candidates@[k]).route == route && candidates@[k].line == l,
        decreases candidates.len() - i,
    {
        let ghost before = out@;
        if candidates[i].route == route {
            let line = candidates[i].line;
            let mut j: usize = 0;
            while j < out.len() && out[j] < line
                invariant
                    j <= out@.len(),
                    out@ == before,
                    forall|m: int| 0 <= m < j ==> out@[m] < line,
                decreases out.len() - j,
            {
                j = j + 1;
            }
            if j == out.len() || out[j] != line {
                out.insert(j, line);
                proof {
                    assert(out@ =~= before.insert(j as int, line));
                    assert forall|a: int, b: int| 0 <= a < b < out@.len() implies out@[a] < out@[b] by {
                        if b < j {
                        } else if a > j {
                            assert(out@[a] == before[a - 1]);
                            assert(out@[b] == before[b - 1]);
                        } else if a == j {
                            assert(out@[b] == before[b - 1]);
                            assert(before[j as int] > line);
                        } else if b == j {
                        } else {
                            assert(out@[b] == before[b - 1]);
                        }
                    }
                    assert forall|l: usize| out@.contains(l) <==> exists|k: int| 0 <= k < i + 1
                        && (#[trigger] candidates@[k]).route == route && candidates@[k].line == l by {
                        if out@.contains(l) {
                            let m = choose|m: int| 0 <= m < out@.len() && out@[m] == l;
                            if m < j {
                                assert(before[m] == l);
                                assert(before.contains(l));
                            } else if m > j {
                                assert(before[m - 1] == l);
                                assert(before.contains(l));
                            } else {
                                assert(candidates@[i as int].line == l);
                            }
                        }
                        if exists|k: int| 0 <= k < i + 1 && (#[trigger] candidates@[k]).route == route && candidates@[k].line == l {
                            let k = choose|k: int| 0 <= k < i + 1 && (#[trigger] candidates@[k]).route == route && candidates@[k].line == l;
                            if k < i {
                                assert(before.contains(l));
                                let m = choose|m: int| 0 <= m < before.len() && before[m] == l;
                                if m < j {
                                    assert(out@[m] == l);
                                } else {
                                    assert(out@[m + 1] == l);
                                }
                            } else {
                                assert(out@[j as int] == l);
                            }
                        }
                    }
                }
            } else {
                proof {
                    assert forall|l: usize| out@.contains(l) <==> exists|k: int| 0 <= k < i + 1
                        && (#[trigger] candidates@[k]).route == route && candidates@[k].line == l by {
                        if exists|k: int| 0 <= k < i + 1 && (#[trigger] candidates@[k]).route == route && candidates@[k].line == l {
                            let k = choose|k: int| 0 <= k < i + 1 && (#[trigger] candidates@[k]).route == route && candidates@[k].line == l;
                            if k == i {
                                assert(out@[j as int] == l);
                            }
                        }
                    }
                }
            }
        } else {
            proof {
                assert forall|l: usize| out@.contains(l) <==> exists|k: int| 0 <= k < i + 1
                    && (#[trigger] candidates@[k]).route == route && candidates@[k].line == l by {
                    if exists|k: int| 0 <= k < i + 1 && (#[trigger] candidates@[k]).route == route && candidates@[k].line == l {
                        let k = choose|k: int| 0 <= k < i + 1 && (#[trigger] candidates@[k]).route == route && candidates@[k].line == l;
                        assert(k < i);
                    }
                }
            }
        }
        i = i + 1;
    }
    out
}


/// Every route kind, in declaration order.
pub open spec fn route_kind_order() -> Seq<RouteKind> {
    seq![
        RouteKind::Hygiene,
        RouteKind::Quickstart,
        RouteKind::Docs,
        RouteKind::Intake,
        RouteKind::Lifecycle,
        RouteKind::Support,
        RouteKind::Contributing,
        RouteKind::Security,
        RouteKind::Release,
        RouteKind::Governance,
        RouteKind::License,
        RouteKind::Ownership,
        RouteKind::Automation,
        RouteKind::Identity,
        RouteKind::Unknown,
    ]
}

/// Some candidate for `route` has a target with this key.
pub open spec fn routes_key(cs: Seq<RouteCandidate>, key: Seq<char>, route: RouteKind) -> bool {
    exists|k: int| 0 <= k < cs.len() && (#[trigger] cs[k]).route == route
        && (cs[k].target matches Some(t) && target_key(t@) == key)
}

pub open spec fn key_filter(cs: Seq<RouteCandidate>, key: Seq<char>) -> spec_fn(RouteKind) -> bool {
    |route: RouteKind| routes_key(cs, key, route)
}

/// The routes that point at the target with this key, each once, in
/// declaration order.
pub open spec fn target_route_set(cs: Seq<RouteCandidate>, key: Seq<char>) -> Seq<RouteKind> {
    route_kind_order().filter(key_filter(cs, key))
}

fn route_kind_list() -> (r: Vec<RouteKind>)
    ensures
        r@ == route_kind_order(),
{
    let r = vec![
        RouteKind::Hygiene,
        RouteKind::Quickstart,
        RouteKind::Docs,
        RouteKind::Intake,
        RouteKind::Lifecycle,
        RouteKind::Support,
        RouteKind::Contributing,
        RouteKind::Security,
        RouteKind::Release,
        RouteKind::Governance,
        RouteKind::License,
        RouteKind::Ownership,
        RouteKind::Automation,
        RouteKind::Identity,
        RouteKind::Unknown,
    ];
    assert(r@ =~= route_kind_order());
    r
}

fn candidate_keys(candidates: &[RouteCandidate]) -> (r: Vec<Option<Vec<char>>>)
    ensures
        r@.len() == candidates@.len(),
        forall|k: int| 0 <= k < r@.len() ==> match (#[trigger] candidates@[k]).target {
            Some(t) => r@[k] matches Some(v) && v@ == target_key(t@),
            None => r@[k] is None,
        },
{
    let mut r: Vec<Option<Vec<char>>> = Vec::new();
    let mut i: usize = 0;
    while i < candidates.len()
        invariant
            i <= candidates.len(),
            r@.len() == i,
            forall|k: int| 0 <= k < i ==> match (#[trigger] candidates@[k]).target {
                Some(t) => r@[k] matches Some(v) && v@ == target_key(t@),
                None => r@[k] is None,
            },
        decreases candidates.len() - i,
    {
        match &candidates[i].target {
            Some(t) => {
                let key = normalize_target_key(t.as_str());
                r.push(Some(chars_of(key.as_str())));
            },
            None => {
                r.push(None);
            },
        }
        i = i + 1;
    }
    r
}

/// `target_route_set(candidates, key)`.
pub fn target_routes(candidates: &[RouteCandidate], key: &str) -> (r: Vec<RouteKind>)
    ensures
        r@ == target_route_set(candidates@, key@),
{
    let keys = candidate_keys(candidates);
    let kc = chars_of(key);
    let order = route_kind_list();
    let mut out: Vec<RouteKind> = Vec::new();
    let mut i: usize = 0;
    proof {
        reveal(Seq::filter);
        assert(order@.take(0) =~= Seq::<RouteKind>::empty());
    }
    while i < order.len()
        invariant
            order@ == route_kind_order(),
            i <= order.len(),
            kc@ == key@,
            keys@.len() == candidates@.len(),
            forall|k: int| 0 <= k < keys@.len() ==> match (#[trigger] candidates@[k]).target {
                Some(t) => keys@[k] matches Some(v) && v@ == target_key(t@),
                None => keys@[k] is None,
            },
            out@ == order@.take(i as int).filter(key_filter(candidates@, key@)),
        decreases order.len() - i,
    {
        let route = order[i];
        let mut found = false;
        let mut j: usize = 0;
        while j < candidates.len()
            invariant
                j <= candidates.len(),
                kc@ == key@,
                keys@.len() == candidates@.len(),
                forall|k: int| 0 <= k < keys@.len() ==> match (#[trigger] candidates@[k]).target {
                    Some(t) => keys@[k] matches Some(v) && v@ == target_key(t@),
                    None => keys@[k] is None,
                },
                found ==> routes_key(candidates@, key@, route),
                !found ==> forall|k: int| 0 <= k < j ==> !((#[trigger] candidates@[k]).route == route
                    && (candidates@[k].target matches Some(t) && target_key(t@) == key@)),
            decreases candidates.len() - j,
        {
            if candidates[j].route == route {
                match &keys[j] {
                    Some(v) => {
                        if crate::text::same_chars(v.as_slice(), kc.as_slice()) {
                            found = true;
                        }
                    },
                    None => {},
                }
            }
            j = j + 1;
        }
        proof {
            reveal(Seq::filter);
            assert(order@.take(i + 1).drop_last() =~= order@.take(i as int));
            assert(found == routes_key(candidates@, key@, route));
        }
        if found {
            out.push(route);
        }
        i = i + 1;
    }
    assert(order@.take(order.len() as int) =~= order@);
    out
}

/// A route's target as the route map reports it.
#[derive(Debug, Clone, PartialEq, Eq)]
pub struct ReadmeRouteTarget {
    pub target: String,
    pub line: usize,
    pub source: RouteSource,
    pub status: ReadmeRouteTargetStatus,
    pub routes: Vec<RouteKind>,
}

/// Target `i` is the first with its target text.
pub open spec fn first_target(ts: Seq<ReadmeRouteTarget>, i: int) -> bool {
    forall|j: int| 0 <= j < i ==> (#[trigger] ts[j]).target@ != ts[i].target@
}

/// The number of distinct target texts among the first `n` targets.
pub open spec fn distinct_targets(ts: Seq<ReadmeRouteTarget>, n: int) -> nat
    decreases n,
{
    if n <= 0 {
        0
    } else {
        distinct_targets(ts, n - 1) + if first_target(ts, n - 1) { 1nat } else { 0nat }
    }
}

/// The number of targets with the status, among the first `n`.
pub open spec fn count_status(ts: Seq<ReadmeRouteTarget>, status: ReadmeRouteTargetStatus, n: int) -> nat
    decreases n,
{
    if n <= 0 {
        0
    } else {
        count_status(ts, status, n - 1) + if ts[n - 1].status == status { 1nat } else { 0nat }
    }
}

/// The number of targets, among the first `n`, that more than one route
/// points at.
pub open spec fn count_conflicting(ts: Seq<ReadmeRouteTarget>, n: int) -> nat
    decreases n,
{
    if n <= 0 {
        0
    } else {
        count_conflicting(ts, n - 1) + if ts[n - 1].routes@.len() > 1 { 1nat } else { 0nat }
    }
}

/// The target counts of a route map entry.
#[derive(Debug, Clone, Copy, PartialEq, Eq, Structural)]
pub struct TargetCounts {
    pub target_count: usize,
    pub stale_target_count: usize,
    pub conflicting_target_count: usize,
}

/// Distinct target texts, missing local targets, and targets that more than
/// one route points at.
pub fn target_counts(targets: &[ReadmeRouteTarget]) -> (r: TargetCounts)
    ensures
        r.target_count == distinct_targets(targets@, targets@.len() as int),
        r.stale_target_count == count_status(targets@, ReadmeRouteTargetStatus::LocalMissing, targets@.len() as int),
        r.conflicting_target_count == count_conflicting(targets@, targets@.len() as int),
{
    let mut r = TargetCounts { target_count: 0, stale_target_count: 0, conflicting_target_count: 0 };
    let mut i: usize = 0;
    while i < targets.len()
        invariant
            i <= targets.len(),
            r.target_count == distinct_targets(targets@, i as int),
            r.stale_target_count == count_status(targets@, ReadmeRouteTargetStatus::LocalMissing, i as int),
            r.conflicting_target_count == count_conflicting(targets@, i as int),
            r.target_count <= i,
            r.stale_target_count <= i,
            r.conflicting_target_count <= i,
        decreases targets.len() - i,
    {
        let mut first = true;
        let mut j: usize = 0;
        while j < i
            invariant
                j <= i < targets.len(),
                first == forall|m: int| 0 <= m < j ==> (#[trigger] targets@[m]).target@ != targets@[i as int].target@,
            decreases i - j,
        {
            let a = chars_of(targets[j].target.as_str());
            let b = chars_of(targets[i].target.as_str());
            if crate::text::same_chars(a.as_slice(), b.as_slice()) {
                first = false;
            }
            j = j + 1;
        }
        if first {
            r.target_count = r.target_count + 1;
        }
        if targets[i].status == ReadmeRouteTargetStatus::LocalMissing {
            r.stale_target_count = r.stale_target_count + 1;
        }
        if targets[i].routes.len() > 1 {
            r.conflicting_target_count = r.conflicting_target_count + 1;
        }
        i = i + 1;
    }
    r
}

} // verus!

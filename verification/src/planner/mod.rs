//! Patch planning decisions: which README route links may be proposed,
//! where they may be inserted, and why a route is held instead.

use vstd::prelude::*;
use vstd::utf8::{is_char_boundary, is_continuation_byte, valid_utf8};
use crate::fs::containment::split_on;
use crate::fs::records::FileRecord;
use crate::markdown::routes::RouteKind;
use crate::patterns::model::{contained_relative, is_contained_relative};
use crate::profiles::report::GateKind;
use crate::text::{chars_of, ends_with_str, equals_str, has_prefix, has_suffix, starts_with_str};
use crate::utf8::decode_bytes;
use crate::profiles::report::{decimal, decimal_chars};
use crate::text::string_of;

verus! {

/// The routes that patches may link from the README, in planning order.
pub open spec fn patch_routes() -> Seq<RouteKind> {
    seq![
        RouteKind::Docs,
        RouteKind::Quickstart,
        RouteKind::Support,
        RouteKind::Intake,
        RouteKind::Contributing,
        RouteKind::Security,
        RouteKind::Release,
        RouteKind::Lifecycle,
        RouteKind::Governance,
        RouteKind::License,
        RouteKind::Automation,
        RouteKind::Ownership,
        RouteKind::Hygiene,
    ]
}

/// `patch_routes()`.
pub fn patch_route_list() -> (r: Vec<RouteKind>)
    ensures
        r@ == patch_routes(),
{
    let r = vec![
        RouteKind::Docs,
        RouteKind::Quickstart,
        RouteKind::Support,
        RouteKind::Intake,
        RouteKind::Contributing,
        RouteKind::Security,
        RouteKind::Release,
        RouteKind::Lifecycle,
        RouteKind::Governance,
        RouteKind::License,
        RouteKind::Automation,
        RouteKind::Ownership,
        RouteKind::Hygiene,
    ];
    assert(r@ =~= patch_routes());
    r
}

/// Why a route's link is not proposed.
#[derive(Debug, Clone, Copy, PartialEq, Eq, Structural)]
pub enum PatchHoldReason {
    MissingReadme,
    StaleBase,
    UnsupportedEncoding,
    NoExistingTarget,
    CanonicalConflict,
    UnknownTargetRelation,
    PairedLanguageIncomplete,
    StaleAnchor,
}

/// How a decision may be applied, and where the route stands among missing-route
/// priorities (from 1).
#[derive(Debug, Clone, Copy, PartialEq, Eq, Structural)]
pub struct PatchDecisionBasis {
    pub gate: GateKind,
    pub priority_rank: Option<usize>,
}

/// A route whose link is held back.
#[derive(Debug, Clone, PartialEq, Eq)]
pub struct PatchHold {
    pub route: RouteKind,
    pub target_path: Option<String>,
    pub reason: PatchHoldReason,
    pub decision_basis: PatchDecisionBasis,
}

/// The position (from 1) of `route` in the missing-route priorities.
pub open spec fn priority_position(priorities: Seq<RouteKind>, route: RouteKind) -> Option<usize> {
    match priorities.index_of_first(route) {
        Some(i) => Some((i + 1) as usize),
        None => None,
    }
}

/// The decision basis of `route` under `gate`.
pub fn decision_basis(priorities: &[RouteKind], route: RouteKind, gate: GateKind) -> (r: PatchDecisionBasis)
    requires
        priorities@.len() < usize::MAX,
    ensures
        r.gate == gate,
        r.priority_rank == priority_position(priorities@, route),
{
    let mut i: usize = 0;
    while i < priorities.len()
        invariant
            i <= priorities.len(),
            priorities@.len() < usize::MAX,
            forall|k: int| 0 <= k < i ==> priorities@[k] != route,
        decreases priorities.len() - i,
    {
        if priorities[i] == route {
            proof {
                assert(priorities@.contains(route));
                priorities@.index_of_first_ensures(route);
                let j = priorities@.index_of_first(route)->0;
                if j < i {
                    assert(priorities@[j] != route);
                }
            }
            return PatchDecisionBasis { gate, priority_rank: Some(i + 1) };
        }
        i = i + 1;
    }
    proof {
        priorities@.index_of_first_ensures(route);
        if priorities@.contains(route) {
            let j = choose|j: int| 0 <= j < priorities@.len() && priorities@[j] == route;
            assert(priorities@[j] == route);
        }
    }
    PatchDecisionBasis { gate, priority_rank: None }
}

/// Holds for every patch route, with no target, under a manual gate: the
/// plan when the README cannot be patched at all.
pub open spec fn all_held(held: Seq<PatchHold>, priorities: Seq<RouteKind>, reason: PatchHoldReason) -> bool {
    &&& held.len() == patch_routes().len()
    &&& forall|k: int| 0 <= k < held.len() ==> {
        let h = #[trigger] held[k];
        &&& h.route == patch_routes()[k]
        &&& h.target_path is None
        &&& h.reason == reason
        &&& h.decision_basis == (PatchDecisionBasis {
            gate: GateKind::Manual,
            priority_rank: priority_position(priorities, patch_routes()[k]),
        })
    }
}

/// Every patch route held for `reason`.
pub fn hold_all(priorities: &[RouteKind], reason: PatchHoldReason) -> (r: Vec<PatchHold>)
    requires
        priorities@.len() < usize::MAX,
    ensures
        all_held(r@, priorities@, reason),
{
    let routes = patch_route_list();
    let mut held: Vec<PatchHold> = Vec::new();
    let mut k: usize = 0;
    while k < routes.len()
        invariant
            k <= routes.len(),
            routes@ == patch_routes(),
            priorities@.len() < usize::MAX,
            held@.len() == k,
            forall|m: int| 0 <= m < k ==> {
                let h = #[trigger] held@[m];
                &&& h.route == patch_routes()[m]
                &&& h.target_path is None
                &&& h.reason == reason
                &&& h.decision_basis == (PatchDecisionBasis {
                    gate: GateKind::Manual,
                    priority_rank: priority_position(priorities@, patch_routes()[m]),
                })
            },
        decreases routes.len() - k,
    {
        let route = routes[k];
        let basis = decision_basis(priorities, route, GateKind::Manual);
        held.push(PatchHold { route, target_path: None, reason, decision_basis: basis });
        k = k + 1;
    }
    held
}

/// Whether the README can be patched: its document is indexed, its source
/// is in the store, the source matches the analysed base, and the encoding
/// is known. The first failing check decides the hold.
pub open spec fn readme_hold(
    has_readme: bool,
    indexed: bool,
    source_present: bool,
    base_matches: bool,
    encoding_known: bool,
) -> Option<PatchHoldReason> {
    if !has_readme || !indexed {
        Some(PatchHoldReason::MissingReadme)
    } else if !source_present {
        Some(PatchHoldReason::StaleBase)
    } else if !encoding_known {
        Some(PatchHoldReason::UnsupportedEncoding)
    } else if !base_matches {
        Some(PatchHoldReason::StaleBase)
    } else {
        None
    }
}

/// `readme_hold(..)`.
pub fn readme_gate(
    has_readme: bool,
    indexed: bool,
    source_present: bool,
    base_matches: bool,
    encoding_known: bool,
) -> (r: Option<PatchHoldReason>)
    ensures
        r == readme_hold(has_readme, indexed, source_present, base_matches, encoding_known),
{
    if !has_readme || !indexed {
        Some(PatchHoldReason::MissingReadme)
    } else if !source_present {
        Some(PatchHoldReason::StaleBase)
    } else if !encoding_known {
        Some(PatchHoldReason::UnsupportedEncoding)
    } else if !base_matches {
        Some(PatchHoldReason::StaleBase)
    } else {
        None
    }
}

/// A relative path whose components are all names or `.`: no root and no `..`.
pub fn is_safe_relative(path: &str) -> (r: bool)
    ensures
        r == is_contained_relative(path@),
{
    let p = chars_of(path);
    contained_relative(p.as_slice())
}

/// `s` without its trailing `/`s.
pub open spec fn trim_trailing_slashes(s: Seq<char>) -> Seq<char>
    decreases s.len(),
{
    if s.len() > 0 && s.last() == '/' {
        trim_trailing_slashes(s.drop_last())
    } else {
        s
    }
}

fn trimmed_end(s: &[char]) -> (r: Vec<char>)
    ensures
        r@ == trim_trailing_slashes(s@),
{
    let mut end = s.len();
    assert(s@.subrange(0, end as int) =~= s@);
    while end > 0 && s[end - 1] == '/'
        invariant
            end <= s.len(),
            trim_trailing_slashes(s@.subrange(0, end as int)) == trim_trailing_slashes(s@),
        decreases end,
    {
        assert(s@.subrange(0, end as int).drop_last() =~= s@.subrange(0, end as int - 1));
        end = end - 1;
    }
    assert(trim_trailing_slashes(s@.subrange(0, end as int)) == s@.subrange(0, end as int));
    crate::text::slice_of(s, 0, end)
}

/// A walked file is the candidate (without trailing `/`), or lies under a
/// candidate directory (one ending in `/`).
pub open spec fn candidate_matches(candidate: Seq<char>, path: Seq<char>) -> bool {
    path == trim_trailing_slashes(candidate) || (has_suffix(candidate, seq!['/']) && has_prefix(path, candidate))
}

/// The candidate at `i` is safe and present.
pub open spec fn target_exists(candidates: Seq<&str>, files: Seq<FileRecord>, i: int) -> bool {
    &&& is_contained_relative(candidates[i]@)
    &&& exists|k: int| 0 <= k < files.len() && candidate_matches(candidates[i]@, (#[trigger] files[k]).path@)
}

/// The first of a route's target candidates that is a safe relative path
/// and exists among the walked files.
pub fn existing_target(candidates: &[&str], files: &[FileRecord]) -> (r: Option<usize>)
    ensures
        match r {
            Some(i) => i < candidates@.len() && target_exists(candidates@, files@, i as int)
                && forall|j: int| 0 <= j < i ==> !target_exists(candidates@, files@, j),
            None => forall|j: int| 0 <= j < candidates@.len() ==> !target_exists(candidates@, files@, j),
        },
{
    let mut i: usize = 0;
    while i < candidates.len()
        invariant
            i <= candidates.len(),
            forall|j: int| 0 <= j < i ==> !target_exists(candidates@, files@, j),
        decreases candidates.len() - i,
    {
        let c = chars_of(candidates[i]);
        if contained_relative(c.as_slice()) {
            let canonical = trimmed_end(c.as_slice());
            let dir = ends_with_str(c.as_slice(), "/");
            let mut k: usize = 0;
            while k < files.len()
                invariant
                    k <= files.len(),
                    i < candidates.len(),
                    c@ == candidates@[i as int]@,
                    canonical@ == trim_trailing_slashes(c@),
                    dir == has_suffix(c@, "/"@),
                    is_contained_relative(c@),
                    forall|j: int| 0 <= j < i ==> !target_exists(candidates@, files@, j),
                    forall|m: int| 0 <= m < k ==> !candidate_matches(c@, (#[trigger] files@[m]).path@),
                decreases files.len() - k,
            {
                let p = chars_of(files[k].path.as_str());
                proof {
                    reveal_strlit("/");
                    assert("/"@ =~= seq!['/']);
                }
                if crate::text::same_chars(p.as_slice(), canonical.as_slice())
                    || (dir && starts_with_str(p.as_slice(), candidates[i]))
                {
                    assert(candidate_matches(c@, files@[k as int].path@));
                    return Some(i);
                }
                k = k + 1;
            }
            proof {
                reveal_strlit("/");
                assert("/"@ =~= seq!['/']);
            }
        }
        i = i + 1;
    }
    None
}

#[derive(Debug, Clone, Copy, PartialEq, Eq, Structural)]
pub enum DocumentLanguage {
    Japanese,
    English,
}

/// How the README's languages are laid out.
#[derive(Debug, Clone, Copy, PartialEq, Eq, Structural)]
pub enum LanguageTopology {
    Monolingual(DocumentLanguage),
    /// Japanese and English sections, each with its own insertion offset.
    Parallel { japanese_insertion: usize, english_insertion: usize },
    Ambiguous,
}

/// Where a link is inserted, and in which language it is labelled.
#[derive(Debug, Clone, Copy, PartialEq, Eq, Structural)]
pub struct InsertionPoint {
    pub offset: usize,
    pub language: DocumentLanguage,
}

/// The insertion points a layout asks for: the end of a monolingual
/// README, or the Japanese then the English section of a parallel one.
pub open spec fn topology_points(t: LanguageTopology, end: usize) -> Seq<InsertionPoint> {
    match t {
        LanguageTopology::Monolingual(language) => seq![InsertionPoint { offset: end, language }],
        LanguageTopology::Parallel { japanese_insertion, english_insertion } => seq![
            InsertionPoint { offset: japanese_insertion, language: DocumentLanguage::Japanese },
            InsertionPoint { offset: english_insertion, language: DocumentLanguage::English },
        ],
        LanguageTopology::Ambiguous => seq![],
    }
}

/// The insertion points for a README: none without a known layout, for
/// source that is not UTF-8, for parallel sections that share an offset,
/// or when an offset is past the end or inside a character.
pub open spec fn insertion_spec(topology: Option<LanguageTopology>, source: Seq<u8>) -> Option<Seq<InsertionPoint>> {
    match topology {
        None => None,
        Some(LanguageTopology::Ambiguous) => None,
        Some(t) => {
            let points = topology_points(t, source.len() as usize);
            if !valid_utf8(source) {
                None
            } else if points.len() == 2 && points[0].offset == points[1].offset {
                None
            } else if exists|k: int| 0 <= k < points.len() && ((#[trigger] points[k]).offset > source.len()
                || !is_char_boundary(source, points[k].offset as int)) {
                None
            } else {
                Some(points)
            }
        },
    }
}

/// Whether `offset` is at the end of, or begins a character of, valid UTF-8.
fn on_boundary(source: &[u8], offset: usize) -> (r: bool)
    requires
        valid_utf8(source@),
    ensures
        r == (offset <= source@.len() && is_char_boundary(source@, offset as int)),
{
    if offset > source.len() {
        return false;
    }
    if offset == source.len() {
        proof { vstd::utf8::is_char_boundary_start_end_of_seq(source@); }
        return true;
    }
    proof { vstd::utf8::is_char_boundary_iff_not_is_continuation_byte(source@, offset as int); }
    let b = source[offset];
    !(0x80 <= b && b <= 0xbf)
}

/// `insertion_spec(topology, source)`.
pub fn insertion_points(topology: Option<LanguageTopology>, source: &[u8]) -> (r: Option<Vec<InsertionPoint>>)
    requires
        source@.len() <= usize::MAX,
    ensures
        match r {
            Some(v) => insertion_spec(topology, source@) == Some(v@),
            None => insertion_spec(topology, source@) is None,
        },
{
    let points: Vec<InsertionPoint> = match topology {
        None => return None,
        Some(LanguageTopology::Ambiguous) => return None,
        Some(LanguageTopology::Monolingual(language)) => vec![InsertionPoint { offset: source.len(), language }],
        Some(LanguageTopology::Parallel { japanese_insertion, english_insertion }) => vec![
            InsertionPoint { offset: japanese_insertion, language: DocumentLanguage::Japanese },
            InsertionPoint { offset: english_insertion, language: DocumentLanguage::English },
        ],
    };
    let ghost t = topology->0;
    assert(points@ =~= topology_points(t, source.len()));
    let mut copy: Vec<u8> = Vec::new();
    let mut i: usize = 0;
    while i < source.len()
        invariant
            i <= source.len(),
            copy@ == source@.take(i as int),
        decreases source.len() - i,
    {
        copy.push(source[i]);
        i = i + 1;
        assert(copy@ =~= source@.take(i as int));
    }
    assert(source@.take(source.len() as int) =~= source@);
    if decode_bytes(copy).is_none() {
        return None;
    }
    if points.len() == 2 && points[0].offset == points[1].offset {
        return None;
    }
    let mut k: usize = 0;
    while k < points.len()
        invariant
            k <= points.len(),
            valid_utf8(source@),
            topology is Some,
            !(topology->0 is Ambiguous),
            points@ == topology_points(topology->0, source.len()),
            !(points@.len() == 2 && points@[0].offset == points@[1].offset),
            forall|m: int| 0 <= m < k ==> !((#[trigger] points@[m]).offset > source@.len()
                || !is_char_boundary(source@, points@[m].offset as int)),
        decreases points.len() - k,
    {
        if !on_boundary(source, points[k].offset) {
            assert(points@[k as int].offset > source@.len() || !is_char_boundary(source@, points@[k as int].offset as int));
            return None;
        }
        k = k + 1;
    }
    Some(points)
}

/// What planning decides for one route.
#[derive(Debug, Clone, PartialEq, Eq)]
pub enum RouteStep {
    /// The README already routes there: nothing to do.
    AlreadyLinked,
    Held(PatchHold),
    /// A link to `target_path` may be proposed at `points`.
    Ready { target_path: String, points: Vec<InsertionPoint>, paired_language: bool },
}

/// The decision for `route`, in order: nothing when the README already
/// routes there; held without a target when none exists; held under a
/// manual gate for a canonical conflict, an unknown target relation, or
/// insertion points that cannot be had; else ready, paired when there are
/// two points.
pub open spec fn route_step_spec(
    route: RouteKind,
    readme_has_route: bool,
    target: Option<Seq<char>>,
    conflict: bool,
    unknown_relation: bool,
    points: Option<Seq<InsertionPoint>>,
    priorities: Seq<RouteKind>,
) -> (Option<(PatchHoldReason, bool, GateKind)>, bool) {
    if readme_has_route {
        (None, false)
    } else if target is None {
        (Some((PatchHoldReason::NoExistingTarget, false, GateKind::Guarded)), false)
    } else if conflict {
        (Some((PatchHoldReason::CanonicalConflict, true, GateKind::Manual)), false)
    } else if unknown_relation {
        (Some((PatchHoldReason::UnknownTargetRelation, true, GateKind::Manual)), false)
    } else if points is None {
        (Some((PatchHoldReason::PairedLanguageIncomplete, true, GateKind::Manual)), false)
    } else {
        (None, true)
    }
}

/// Decides one route.
pub fn plan_route(
    route: RouteKind,
    readme_has_route: bool,
    target: Option<&str>,
    conflict: bool,
    unknown_relation: bool,
    points: Option<Vec<InsertionPoint>>,
    priorities: &[RouteKind],
) -> (r: RouteStep)
    requires
        priorities@.len() < usize::MAX,
    ensures
        ({
            let target_view = match target { Some(t) => Some(t@), None => None::<Seq<char>> };
            let points_view = match points { Some(p) => Some(p@), None => None::<Seq<InsertionPoint>> };
            let (hold, ready) = route_step_spec(route, readme_has_route, target_view, conflict, unknown_relation, points_view, priorities@);
            match r {
                RouteStep::AlreadyLinked => hold is None && !ready,
                RouteStep::Held(h) => hold matches Some((reason, with_target, gate)) && h.route == route
                    && h.reason == reason
                    && (if with_target { h.target_path matches Some(p) && target_view == Some(p@) } else { h.target_path is None })
                    && h.decision_basis == (PatchDecisionBasis { gate, priority_rank: priority_position(priorities@, route) }),
                RouteStep::Ready { target_path, points: p, paired_language } => ready
                    && target_view == Some(target_path@) && points_view == Some(p@)
                    && paired_language == (p@.len() == 2),
            }
        }),
{
    if readme_has_route {
        return RouteStep::AlreadyLinked;
    }
    let t = match target {
        None => {
            let basis = decision_basis(priorities, route, GateKind::Guarded);
            return RouteStep::Held(PatchHold { route, target_path: None, reason: PatchHoldReason::NoExistingTarget, decision_basis: basis });
        },
        Some(t) => t,
    };
    if conflict {
        let basis = decision_basis(priorities, route, GateKind::Manual);
        return RouteStep::Held(PatchHold { route, target_path: Some(t.to_owned()), reason: PatchHoldReason::CanonicalConflict, decision_basis: basis });
    }
    if unknown_relation {
        let basis = decision_basis(priorities, route, GateKind::Manual);
        return RouteStep::Held(PatchHold { route, target_path: Some(t.to_owned()), reason: PatchHoldReason::UnknownTargetRelation, decision_basis: basis });
    }
    match points {
        None => {
            let basis = decision_basis(priorities, route, GateKind::Manual);
            RouteStep::Held(PatchHold { route, target_path: Some(t.to_owned()), reason: PatchHoldReason::PairedLanguageIncomplete, decision_basis: basis })
        },
        Some(p) => {
            let paired_language = p.len() == 2;
            RouteStep::Ready { target_path: t.to_owned(), points: p, paired_language }
        },
    }
}

/// A ready proposal is held as a stale anchor, under a guarded gate, when
/// its preflight is not ready or it cannot be bound to an anchor.
pub fn confirm_proposal(
    route: RouteKind,
    target_path: &str,
    preflight_ready: bool,
    anchored: bool,
    priorities: &[RouteKind],
) -> (r: Option<PatchHold>)
    requires
        priorities@.len() < usize::MAX,
    ensures
        (preflight_ready && anchored) <==> r is None,
        r matches Some(h) ==> h.route == route && h.reason == PatchHoldReason::StaleAnchor
            && (h.target_path matches Some(p) && p@ == target_path@)
            && h.decision_basis == (PatchDecisionBasis { gate: GateKind::Guarded, priority_rank: priority_position(priorities@, route) }),
{
    if preflight_ready && anchored {
        None
    } else {
        let basis = decision_basis(priorities, route, GateKind::Guarded);
        Some(PatchHold { route, target_path: Some(target_path.to_owned()), reason: PatchHoldReason::StaleAnchor, decision_basis: basis })
    }
}

fn push_str(out: &mut Vec<char>, s: &str)
    ensures
        final(out)@ == old(out)@ + s@,
{
    let mut t = chars_of(s);
    out.append(&mut t);
}

/// The inserted line: a line ending, a list item linking `label` to the
/// target, and a line ending.
pub open spec fn link_text(eol: Seq<char>, label: Seq<char>, target: Seq<char>) -> Seq<char> {
    eol + "- ["@ + label + "]("@ + target + ")"@ + eol
}

/// `link_text(eol, label, target_path)`.
pub fn patch_link_text(eol: &str, label: &str, target_path: &str) -> (r: String)
    ensures
        r@ == link_text(eol@, label@, target_path@),
{
    let mut out: Vec<char> = Vec::new();
    push_str(&mut out, eol);
    push_str(&mut out, "- [");
    push_str(&mut out, label);
    push_str(&mut out, "](");
    push_str(&mut out, target_path);
    push_str(&mut out, ")");
    push_str(&mut out, eol);
    string_of(out.as_slice())
}

/// The id of the `index`th edit of the `ordinal`th route, both from 1.
pub fn patch_edit_id(ordinal: usize, index: usize) -> (r: String)
    ensures
        r@ == "patch-edit-"@ + decimal(ordinal as nat) + "-"@ + decimal(index as nat),
{
    let mut out: Vec<char> = Vec::new();
    push_str(&mut out, "patch-edit-");
    let mut a = decimal_chars(ordinal);
    out.append(&mut a);
    push_str(&mut out, "-");
    let mut b = decimal_chars(index);
    out.append(&mut b);
    string_of(out.as_slice())
}

/// The id of the proposal for the `ordinal`th route, from 1.
pub fn patch_proposal_id(ordinal: usize) -> (r: String)
    ensures
        r@ == "patch-proposal-"@ + decimal(ordinal as nat),
{
    let mut out: Vec<char> = Vec::new();
    push_str(&mut out, "patch-proposal-");
    let mut a = decimal_chars(ordinal);
    out.append(&mut a);
    string_of(out.as_slice())
}

/// A route's place in the route order (the order of `RouteKind`'s
/// variants), by which the plan lists its operations and holds.
pub open spec fn route_rank(r: RouteKind) -> int {
    match r {
        RouteKind::Hygiene => 0,
        RouteKind::Quickstart => 1,
        RouteKind::Docs => 2,
        RouteKind::Intake => 3,
        RouteKind::Lifecycle => 4,
        RouteKind::Support => 5,
        RouteKind::Contributing => 6,
        RouteKind::Security => 7,
        RouteKind::Release => 8,
        RouteKind::Governance => 9,
        RouteKind::License => 10,
        RouteKind::Ownership => 11,
        RouteKind::Automation => 12,
        RouteKind::Identity => 13,
        RouteKind::Unknown => 14,
    }
}

/// The planning positions of the patch routes, taken in route order.
pub open spec fn planning_by_rank() -> Seq<int> {
    seq![12int, 1, 0, 3, 7, 2, 4, 5, 6, 8, 9, 11, 10]
}

/// What planning knows of one patch route.
#[derive(Debug, Clone, PartialEq, Eq)]
pub struct RouteInput {
    pub readme_has_route: bool,
    pub target: Option<String>,
    pub conflict: bool,
    pub unknown_relation: bool,
    pub points: Option<Vec<InsertionPoint>>,
}

/// `r` is the step `plan_route` takes for `route` with `input`.
pub open spec fn step_of(r: RouteStep, route: RouteKind, input: RouteInput, priorities: Seq<RouteKind>) -> bool {
    let target_view = match input.target { Some(t) => Some(t@), None => None::<Seq<char>> };
    let points_view = match input.points { Some(p) => Some(p@), None => None::<Seq<InsertionPoint>> };
    let (hold, ready) = route_step_spec(route, input.readme_has_route, target_view, input.conflict, input.unknown_relation, points_view, priorities);
    match r {
        RouteStep::AlreadyLinked => hold is None && !ready,
        RouteStep::Held(h) => hold matches Some((reason, with_target, gate)) && h.route == route
            && h.reason == reason
            && (if with_target { h.target_path matches Some(p) && target_view == Some(p@) } else { h.target_path is None })
            && h.decision_basis == (PatchDecisionBasis { gate, priority_rank: priority_position(priorities, route) }),
        RouteStep::Ready { target_path, points: p, paired_language } => ready
            && target_view == Some(target_path@) && points_view == Some(p@)
            && paired_language == (p@.len() == 2),
    }
}

fn copy_points(p: &Vec<InsertionPoint>) -> (r: Vec<InsertionPoint>)
    ensures
        r@ == p@,
{
    let mut out: Vec<InsertionPoint> = Vec::new();
    let mut i: usize = 0;
    while i < p.len()
        invariant
            i <= p@.len(),
            out@ == p@.take(i as int),
        decreases p.len() - i,
    {
        out.push(p[i]);
        assert(out@ =~= p@.take(i + 1));
        i = i + 1;
    }
    assert(p@.take(p@.len() as int) =~= p@);
    out
}

/// Decides every patch route, `inputs[i]` being what is known of the `i`th
/// patch route in planning order: one step per route, listed in route order,
/// each with its route and planning position.
pub fn plan_routes(inputs: &Vec<RouteInput>, priorities: &[RouteKind]) -> (r: Vec<(RouteKind, usize, RouteStep)>)
    requires
        inputs@.len() == patch_routes().len(),
        priorities@.len() < usize::MAX,
    ensures
        r@.len() == patch_routes().len(),
        forall|j: int| 0 <= j < r@.len() ==> {
            let (route, at, step) = #[trigger] r@[j];
            &&& at as int == planning_by_rank()[j]
            &&& route == patch_routes()[at as int]
            &&& step_of(step, route, inputs@[at as int], priorities@)
        },
{
    let routes = patch_route_list();
    let order: Vec<usize> = vec![12, 1, 0, 3, 7, 2, 4, 5, 6, 8, 9, 11, 10];
    assert(order@.len() == 13);
    let mut out: Vec<(RouteKind, usize, RouteStep)> = Vec::new();
    let mut j: usize = 0;
    while j < order.len()
        invariant
            j <= 13,
            order@ == seq![12usize, 1, 0, 3, 7, 2, 4, 5, 6, 8, 9, 11, 10],
            routes@ == patch_routes(),
            inputs@.len() == 13,
            priorities@.len() < usize::MAX,
            out@.len() == j,
            forall|k: int| 0 <= k < j ==> {
                let (route, at, step) = #[trigger] out@[k];
                &&& at as int == planning_by_rank()[k]
                &&& route == patch_routes()[at as int]
                &&& step_of(step, route, inputs@[at as int], priorities@)
            },
        decreases 13 - j,
    {
        let at = order[j];
        assert(at < 13);
        let input = &inputs[at];
        let route = routes[at];
        let target: Option<&str> = match &input.target {
            Some(t) => Some(t.as_str()),
            None => None,
        };
        let points = match &input.points {
            Some(p) => Some(copy_points(p)),
            None => None,
        };
        let step = plan_route(route, input.readme_has_route, target, input.conflict, input.unknown_relation, points, priorities);
        out.push((route, at, step));
        j = j + 1;
    }
    out
}

/// The plan's steps are listed in strictly increasing route order, so each
/// patch route is planned once, and `Identity` is never planned.
pub proof fn lemma_plan_order()
    ensures
        forall|a: int, b: int| 0 <= a < b < planning_by_rank().len() ==>
            route_rank(patch_routes()[#[trigger] planning_by_rank()[a]]) < route_rank(patch_routes()[#[trigger] planning_by_rank()[b]]),
        forall|a: int| 0 <= a < planning_by_rank().len() ==>
            patch_routes()[#[trigger] planning_by_rank()[a]] != RouteKind::Identity,
        forall|i: int| 0 <= i < patch_routes().len() ==> #[trigger] planning_by_rank().contains(i),
{
    let o = planning_by_rank();
    let p = patch_routes();
    assert(o.len() == 13 && p.len() == 13);
    let rank_of = seq![2int, 1, 5, 3, 6, 7, 8, 4, 9, 10, 12, 11, 0];
    assert forall|a: int| 0 <= a < 13 implies route_rank(p[#[trigger] o[a]]) == a by {
        assert(o[a] == seq![12int, 1, 0, 3, 7, 2, 4, 5, 6, 8, 9, 11, 10][a]);
    }
    assert forall|i: int| 0 <= i < 13 implies #[trigger] planning_by_rank().contains(i) by {
        assert(o[rank_of[i]] == i);
    }
}

} // verus!

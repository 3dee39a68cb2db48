//! A profile report: the selected profile's rule results and weighted
//! score, its ordered recommendations, and the ranked branch summary.

use vstd::prelude::*;
use crate::markdown::routes::RouteKind;
use crate::profiles::branches::{
    branch_fit, branch_profile_list, branch_slot, branch_views, catalog_earned, expected_branch,
    last_rule_at, pattern_status, profile_branches, ranked, BranchView, CalibrationLookup,
    ProfileBranch,
};
use crate::profiles::catalog::{catalog, catalog_rules, lemma_catalog_shape, total_weight};
use crate::profiles::registry::{rule_views, RuleView};
use crate::profiles::scoring::{
    earned_sum, score_view, status_count, weight_sum, weighted_score, ProfileScoreView,
    ProfileScoringInput, ProfileSnapshot,
};
use crate::profiles::registry::{ProfileKind, ProfilePriority, ProfileRuleDefinition};
use crate::profiles::scoring::{backed_status, evidence_backed_status, string_views, BaselineRuleResult, BaselineStatus};
use crate::text::{chars_of, equals_str, lemma_lex_total, lemma_lex_transitive, lex_less, lex_lt, string_of};

verus! {

pub open spec fn digit_char(d: nat) -> char {
    if d == 0 { '0' } else if d == 1 { '1' } else if d == 2 { '2' } else if d == 3 { '3' }
    else if d == 4 { '4' } else if d == 5 { '5' } else if d == 6 { '6' } else if d == 7 { '7' }
    else if d == 8 { '8' } else { '9' }
}

/// The decimal digits of `n`, most significant first.
pub open spec fn decimal(n: nat) -> Seq<char>
    decreases n,
{
    if n < 10 {
        seq![digit_char(n)]
    } else {
        decimal(n / 10).push(digit_char(n % 10))
    }
}

/// `decimal(n)` led by zeros up to `width` characters.
pub open spec fn zero_padded(n: nat, width: nat) -> Seq<char> {
    let d = decimal(n);
    if d.len() >= width {
        d
    } else {
        Seq::new((width - d.len()) as nat, |_i: int| '0') + d
    }
}

fn digit(d: usize) -> (c: char)
    requires
        d < 10,
    ensures
        c == digit_char(d as nat),
{
    if d == 0 { '0' } else if d == 1 { '1' } else if d == 2 { '2' } else if d == 3 { '3' }
    else if d == 4 { '4' } else if d == 5 { '5' } else if d == 6 { '6' } else if d == 7 { '7' }
    else if d == 8 { '8' } else { '9' }
}

/// `decimal(n)`.
pub fn decimal_chars(n: usize) -> (r: Vec<char>)
    ensures
        r@ == decimal(n as nat),
    decreases n,
{
    if n < 10 {
        let mut v: Vec<char> = Vec::new();
        v.push(digit(n));
        assert(v@ =~= decimal(n as nat));
        v
    } else {
        let mut v = decimal_chars(n / 10);
        v.push(digit(n % 10));
        v
    }
}

/// `zero_padded(n, width)`.
pub fn zero_padded_chars(n: usize, width: usize) -> (r: Vec<char>)
    ensures
        r@ == zero_padded(n as nat, width as nat),
{
    let mut d = decimal_chars(n);
    let mut out: Vec<char> = Vec::new();
    let mut k: usize = d.len();
    while k < width
        invariant
            d.len() <= k <= width || (k == d.len() && d.len() >= width),
            out@ =~= Seq::new((k - d.len()) as nat, |_i: int| '0'),
        decreases width - k,
    {
        out.push('0');
        k = k + 1;
        assert(out@ =~= Seq::new((k - d.len()) as nat, |_i: int| '0'));
    }
    let ghost digits = d@;
    out.append(&mut d);
    proof {
        if digits.len() >= width as nat {
            assert(out@ =~= digits);
        }
    }
    out
}

fn push_str(out: &mut Vec<char>, s: &str)
    ensures
        final(out)@ == old(out)@ + s@,
{
    let mut t = chars_of(s);
    out.append(&mut t);
}

/// How a missing rule's fix may be applied.
#[derive(Debug, Clone, Copy, PartialEq, Eq, Structural)]
pub enum GateKind {
    Safe,
    Guarded,
    Manual,
}

#[derive(Debug, Clone, Copy, PartialEq, Eq, Structural)]
pub enum Severity {
    Info,
    Low,
    Medium,
    High,
}

/// A finding as profile recommendations read it.
#[derive(Debug, Clone, PartialEq, Eq)]
pub struct FindingSummary {
    pub id: String,
    pub title: String,
    pub severity: Severity,
    /// How the finding's recommendation may be applied, when it has one.
    pub gate: Option<GateKind>,
}

/// A profile rule as reported: its baseline outcome under the profile's weight.
#[derive(Debug, Clone, PartialEq, Eq)]
pub struct ProfileRuleResult {
    pub rule_id: String,
    pub profile: ProfileKind,
    pub pattern_id: String,
    pub title: String,
    pub route: Option<RouteKind>,
    pub status: BaselineStatus,
    pub weight: u32,
    pub priority: ProfilePriority,
    pub evidence_ids: Vec<String>,
    pub finding_id: Option<String>,
    pub reason: String,
}

pub open spec fn opt_view(o: Option<String>) -> Option<Seq<char>> {
    match o {
        Some(s) => Some(s@),
        None => None,
    }
}

fn clone_opt(o: &Option<String>) -> (r: Option<String>)
    ensures
        opt_view(r) == opt_view(*o),
{
    match o {
        Some(s) => Some(s.clone()),
        None => None,
    }
}

pub fn clone_strings(v: &Vec<String>) -> (r: Vec<String>)
    ensures
        string_views(r@) == string_views(v@),
{
    let mut r: Vec<String> = Vec::new();
    let mut i: usize = 0;
    while i < v.len()
        invariant
            i <= v.len(),
            r@.len() == i,
            forall|k: int| 0 <= k < i ==> (#[trigger] r@[k])@ == v@[k]@,
        decreases v.len() - i,
    {
        r.push(v[i].clone());
        i = i + 1;
    }
    assert(string_views(r@) =~= string_views(v@));
    r
}

pub open spec fn rule_id(index: nat) -> Seq<char> {
    "profile-rule-"@ + zero_padded(index, 4)
}

/// The result of the rule at `index` (counted from 1): the baseline rule's
/// title, route, evidence and finding, with its evidence-backed status; an
/// unknown pattern is missing.
pub fn to_profile_rule_result(
    index: usize,
    profile: ProfileKind,
    definition: &ProfileRuleDefinition,
    baseline_rule: Option<&BaselineRuleResult>,
) -> (r: ProfileRuleResult)
    ensures
        r.rule_id@ == rule_id(index as nat),
        r.profile == profile,
        r.pattern_id@ == definition.pattern_id@,
        r.weight == definition.weight.value(),
        r.priority == definition.priority,
        r.reason@ == definition.reason@,
        match baseline_rule {
            Some(b) => r.title@ == b.title@ && r.route == b.route && r.status == backed_status(*b)
                && string_views(r.evidence_ids@) == string_views(b.evidence_ids@) && opt_view(r.finding_id) == opt_view(b.finding_id),
            None => r.title@ == "Unknown baseline pattern"@ && r.route is None
                && r.status == BaselineStatus::Missing && r.evidence_ids@.len() == 0 && r.finding_id is None,
        },
{
    let mut id: Vec<char> = Vec::new();
    push_str(&mut id, "profile-rule-");
    let mut digits = zero_padded_chars(index, 4);
    id.append(&mut digits);
    let rule_id = string_of(id.as_slice());
    match baseline_rule {
        Some(rule) => ProfileRuleResult {
            rule_id,
            profile,
            pattern_id: definition.pattern_id.to_owned(),
            title: rule.title.clone(),
            route: rule.route,
            status: evidence_backed_status(rule),
            weight: definition.weight.get(),
            priority: definition.priority,
            evidence_ids: clone_strings(&rule.evidence_ids),
            finding_id: clone_opt(&rule.finding_id),
            reason: definition.reason.to_owned(),
        },
        None => ProfileRuleResult {
            rule_id,
            profile,
            pattern_id: definition.pattern_id.to_owned(),
            title: "Unknown baseline pattern".to_owned(),
            route: None,
            status: BaselineStatus::Missing,
            weight: definition.weight.get(),
            priority: definition.priority,
            evidence_ids: Vec::new(),
            finding_id: None,
            reason: definition.reason.to_owned(),
        },
    }
}

/// Which branch leads, and whether the lead is too weak or too narrow to
/// call.
#[derive(Debug, Clone, PartialEq, Eq)]
pub struct ProfileBranchSummary {
    pub selected_profile: ProfileKind,
    pub top_profile: Option<ProfileKind>,
    pub top_rank_score_x100: Option<u8>,
    pub emitted_profiles: usize,
    pub ambiguous: bool,
    pub boundary: String,
}

/// The lead is ambiguous without branches, when the top rank score is under
/// 60, or when it leads the second by less than 15.
pub open spec fn ambiguous_lead(branches: Seq<BranchView>) -> bool {
    if branches.len() == 0 {
        true
    } else if branches.len() == 1 {
        branches[0].semantics.rank_score < 60
    } else {
        let top = branches[0].semantics.rank_score;
        let second = branches[1].semantics.rank_score;
        top < 60 || (if top >= second { top - second } else { 0 }) < 15
    }
}

pub open spec fn summary_boundary() -> Seq<char> {
    "Profile fit, typed purpose affinity, rank score, and calibration-prior state are separate values. Purpose affinity excludes fixture, test, generated, and supporting-example paths. Rank score is not a probability or a repository type, popularity, trust, security, or quality assertion."@
}

/// The summary of ranked branches.
pub fn profile_branch_summary(selected_profile: ProfileKind, branches: &[ProfileBranch]) -> (r: ProfileBranchSummary)
    ensures
        r.selected_profile == selected_profile,
        r.top_profile == (if branches@.len() > 0 { Some(branches@[0].profile) } else { None::<ProfileKind> }),
        r.top_rank_score_x100 == (if branches@.len() > 0 { Some(branches@[0].semantics.rank_score) } else { None::<u8> }),
        r.emitted_profiles == branches@.len(),
        r.ambiguous == ambiguous_lead(branches@.map_values(|b: ProfileBranch| b@)),
        r.boundary@ == summary_boundary(),
{
    let ghost views = branches@.map_values(|b: ProfileBranch| b@);
    let ambiguous = if branches.len() == 0 {
        true
    } else if branches.len() == 1 {
        branches[0].semantics.rank_score < 60
    } else {
        let top = branches[0].semantics.rank_score;
        let second = branches[1].semantics.rank_score;
        top < 60 || top.saturating_sub(second) < 15
    };
    assert(branches.len() > 0 ==> views[0] == branches@[0]@);
    assert(branches.len() > 1 ==> views[1] == branches@[1]@);
    ProfileBranchSummary {
        selected_profile,
        top_profile: if branches.len() > 0 { Some(branches[0].profile) } else { None },
        top_rank_score_x100: if branches.len() > 0 { Some(branches[0].semantics.rank_score) } else { None },
        emitted_profiles: branches.len(),
        ambiguous,
        boundary: "Profile fit, typed purpose affinity, rank score, and calibration-prior state are separate values. Purpose affinity excludes fixture, test, generated, and supporting-example paths. Rank score is not a probability or a repository type, popularity, trust, security, or quality assertion.".to_owned(),
    }
}

/// A recommendation for a missing profile rule.
#[derive(Debug, Clone, PartialEq, Eq)]
pub struct ProfileRecommendation {
    pub rank: usize,
    pub finding_id: Option<String>,
    pub pattern_id: String,
    pub title: String,
    pub gate: GateKind,
    pub severity: Severity,
    pub priority: ProfilePriority,
    pub weight: u32,
    pub reason: String,
}

pub struct RecView {
    pub rank: usize,
    pub finding_id: Option<Seq<char>>,
    pub pattern_id: Seq<char>,
    pub title: Seq<char>,
    pub gate: GateKind,
    pub severity: Severity,
    pub priority: ProfilePriority,
    pub weight: u32,
    pub reason: Seq<char>,
}

impl View for ProfileRecommendation {
    type V = RecView;

    open spec fn view(&self) -> RecView {
        RecView {
            rank: self.rank,
            finding_id: opt_view(self.finding_id),
            pattern_id: self.pattern_id@,
            title: self.title@,
            gate: self.gate,
            severity: self.severity,
            priority: self.priority,
            weight: self.weight,
            reason: self.reason@,
        }
    }
}

/// The last finding with id `id` is at `i`: a later finding replaces an
/// earlier one with the same id.
pub open spec fn last_finding_at(f: Seq<FindingSummary>, id: Seq<char>, i: int) -> bool {
    &&& 0 <= i < f.len()
    &&& f[i].id@ == id
    &&& forall|j: int| i < j < f.len() ==> (#[trigger] f[j]).id@ != id
}

pub open spec fn finding_for(f: Seq<FindingSummary>, id: Option<Seq<char>>) -> Option<FindingSummary> {
    match id {
        None => None,
        Some(id) => if exists|i: int| last_finding_at(f, id, i) {
            Some(f[choose|i: int| last_finding_at(f, id, i)])
        } else {
            None
        },
    }
}

/// The recommendation for a missing rule: the title, gate and severity of
/// its finding where it names one (a guarded gate when the finding has no
/// recommendation), else the rule's title, a guarded gate and info severity.
pub open spec fn recommendation_for(rule: ProfileRuleResult, f: Seq<FindingSummary>) -> RecView {
    let finding = finding_for(f, opt_view(rule.finding_id));
    RecView {
        rank: 0,
        finding_id: opt_view(rule.finding_id),
        pattern_id: rule.pattern_id@,
        title: match finding { Some(x) => x.title@, None => rule.title@ },
        gate: match finding {
            Some(x) => match x.gate { Some(g) => g, None => GateKind::Guarded },
            None => GateKind::Guarded,
        },
        severity: match finding { Some(x) => x.severity, None => Severity::Info },
        priority: rule.priority,
        weight: rule.weight,
        reason: rule.reason@,
    }
}

/// The recommendations of the missing rules, in rule order.
pub open spec fn pending_recommendations(rules: Seq<ProfileRuleResult>, f: Seq<FindingSummary>) -> Seq<RecView>
    decreases rules.len(),
{
    if rules.len() == 0 {
        seq![]
    } else {
        let prev = pending_recommendations(rules.drop_last(), f);
        if rules.last().status == BaselineStatus::Missing {
            prev.push(recommendation_for(rules.last(), f))
        } else {
            prev
        }
    }
}

pub open spec fn priority_rank(p: ProfilePriority) -> nat {
    match p {
        ProfilePriority::Low => 1,
        ProfilePriority::Normal => 2,
        ProfilePriority::High => 3,
        ProfilePriority::Critical => 4,
    }
}

pub open spec fn severity_rank(s: Severity) -> nat {
    match s {
        Severity::Info => 1,
        Severity::Low => 2,
        Severity::Medium => 3,
        Severity::High => 4,
    }
}

/// `a` comes before `b`: higher priority, then higher weight, then higher
/// severity, then the pattern id that sorts first.
pub open spec fn recommended_before(a: RecView, b: RecView) -> bool {
    priority_rank(a.priority) > priority_rank(b.priority) || (priority_rank(a.priority) == priority_rank(b.priority) && (
        a.weight > b.weight || (a.weight == b.weight && (
            severity_rank(a.severity) > severity_rank(b.severity) || (severity_rank(a.severity) == severity_rank(b.severity)
                && lex_lt(a.pattern_id, b.pattern_id))))))
}

proof fn lemma_before_transitive(a: RecView, b: RecView, c: RecView)
    requires
        recommended_before(a, b),
        recommended_before(b, c),
    ensures
        recommended_before(a, c),
{
    if lex_lt(a.pattern_id, b.pattern_id) && lex_lt(b.pattern_id, c.pattern_id) {
        lemma_lex_transitive(a.pattern_id, b.pattern_id, c.pattern_id);
    }
}

proof fn lemma_before_asymmetric(a: RecView, b: RecView)
    requires
        recommended_before(a, b),
    ensures
        !recommended_before(b, a),
{
    lemma_lex_total(a.pattern_id, b.pattern_id);
}

fn priority_value(p: ProfilePriority) -> (r: u8)
    ensures
        r == priority_rank(p),
{
    match p {
        ProfilePriority::Low => 1,
        ProfilePriority::Normal => 2,
        ProfilePriority::High => 3,
        ProfilePriority::Critical => 4,
    }
}

fn severity_value(s: Severity) -> (r: u8)
    ensures
        r == severity_rank(s),
{
    match s {
        Severity::Info => 1,
        Severity::Low => 2,
        Severity::Medium => 3,
        Severity::High => 4,
    }
}

/// `recommended_before(a@, b@)`.
fn before(a: &ProfileRecommendation, b: &ProfileRecommendation) -> (r: bool)
    ensures
        r == recommended_before(a@, b@),
{
    let (pa, pb) = (priority_value(a.priority), priority_value(b.priority));
    if pa != pb {
        return pa > pb;
    }
    if a.weight != b.weight {
        return a.weight > b.weight;
    }
    let (sa, sb) = (severity_value(a.severity), severity_value(b.severity));
    if sa != sb {
        return sa > sb;
    }
    let x = chars_of(a.pattern_id.as_str());
    let y = chars_of(b.pattern_id.as_str());
    lex_less(x.as_slice(), y.as_slice())
}

/// `finding_for(findings, id)`, as an index.
fn find_finding(findings: &[FindingSummary], id: &String) -> (r: Option<usize>)
    ensures
        match r {
            Some(i) => i < findings@.len() && last_finding_at(findings@, id@, i as int),
            None => !exists|i: int| last_finding_at(findings@, id@, i),
        },
{
    let mut i: usize = findings.len();
    while i > 0
        invariant
            i <= findings.len(),
            forall|j: int| i <= j < findings@.len() ==> (#[trigger] findings@[j]).id@ != id@,
        decreases i,
    {
        let k = i - 1;
        let c = chars_of(findings[k].id.as_str());
        if equals_str(c.as_slice(), id.as_str()) {
            return Some(k);
        }
        i = k;
    }
    None
}

proof fn lemma_last_finding_unique(f: Seq<FindingSummary>, id: Seq<char>, a: int, b: int)
    requires
        last_finding_at(f, id, a),
        last_finding_at(f, id, b),
    ensures
        a == b,
{
    if a < b {
        assert(f[b].id@ == id);
    } else if b < a {
        assert(f[a].id@ == id);
    }
}

proof fn lemma_finding_for(f: Seq<FindingSummary>, id: Seq<char>, i: int)
    requires
        last_finding_at(f, id, i),
    ensures
        finding_for(f, Some(id)) == Some(f[i]),
{
    let c = choose|c: int| last_finding_at(f, id, c);
    lemma_last_finding_unique(f, id, c, i);
}

/// `recommendation_for(rule, findings)`.
fn recommend(rule: &ProfileRuleResult, findings: &[FindingSummary]) -> (r: ProfileRecommendation)
    ensures
        r@ == recommendation_for(*rule, findings@),
{
    let found: Option<usize> = match &rule.finding_id {
        Some(id) => {
            let r = find_finding(findings, id);
            proof {
                assert(opt_view(rule.finding_id) == Some(id@));
                if r is Some {
                    assert(last_finding_at(findings@, id@, r->0 as int));
                    lemma_finding_for(findings@, id@, r->0 as int);
                    assert(finding_for(findings@, opt_view(rule.finding_id)) == Some(findings@[r->0 as int]));
                }
            }
            r
        },
        None => None,
    };
    match found {
        Some(i) => {
            let f = &findings[i];
            ProfileRecommendation {
                rank: 0,
                finding_id: clone_opt(&rule.finding_id),
                pattern_id: rule.pattern_id.clone(),
                title: f.title.clone(),
                gate: match f.gate { Some(g) => g, None => GateKind::Guarded },
                severity: f.severity,
                priority: rule.priority,
                weight: rule.weight,
                reason: rule.reason.clone(),
            }
        },
        None => ProfileRecommendation {
            rank: 0,
            finding_id: clone_opt(&rule.finding_id),
            pattern_id: rule.pattern_id.clone(),
            title: rule.title.clone(),
            gate: GateKind::Guarded,
            severity: Severity::Info,
            priority: rule.priority,
            weight: rule.weight,
            reason: rule.reason.clone(),
        },
    }
}

pub open spec fn rec_views(v: Seq<ProfileRecommendation>) -> Seq<RecView> {
    v.map_values(|r: ProfileRecommendation| r@)
}

/// No recommendation belongs before one ahead of it.
pub open spec fn recommendations_ordered(v: Seq<RecView>) -> bool {
    forall|i: int, j: int| 0 <= i < j < v.len() ==> !recommended_before(#[trigger] v[j], #[trigger] v[i])
}

/// A stable sort of recommendations.
fn sort_recommendations(items: Vec<ProfileRecommendation>) -> (out: Vec<ProfileRecommendation>)
    ensures
        out@.to_multiset() == items@.to_multiset(),
        recommendations_ordered(rec_views(out@)),
{
    broadcast use vstd::seq_lib::to_multiset_insert, vstd::seq_lib::to_multiset_remove;
    let mut input = items;
    let ghost all = input@;
    let mut out: Vec<ProfileRecommendation> = Vec::new();
    assert(out@.to_multiset() =~= vstd::multiset::Multiset::empty()) by {
        broadcast use vstd::seq_lib::group_to_multiset_ensures, vstd::multiset::lemma_multiset_empty_len;
    };
    while input.len() > 0
        invariant
            out@.to_multiset().add(input@.to_multiset()) == all.to_multiset(),
            recommendations_ordered(rec_views(out@)),
        decreases input.len(),
    {
        let ghost in_before = input@;
        let ghost out_before = out@;
        let x = input.remove(0);
        let mut p: usize = 0;
        while p < out.len() && !before(&x, &out[p])
            invariant
                p <= out.len(),
                out@ == out_before,
                forall|k: int| 0 <= k < p ==> !recommended_before(x@, #[trigger] out@[k]@),
            decreases out.len() - p,
        {
            p = p + 1;
        }
        let ghost at = p as int;
        out.insert(p, x);
        proof {
            let after = out@;
            let bv = rec_views(after);
            let ob = rec_views(out_before);
            assert(after =~= out_before.insert(at, x));
            assert(in_before.remove(0) =~= input@);
            assert(in_before[0] == x);
            assert forall|i: int, j: int| 0 <= i < j < bv.len() implies !recommended_before(#[trigger] bv[j], #[trigger] bv[i]) by {
                assert(bv[i] == after[i]@);
                assert(bv[j] == after[j]@);
                if j == at {
                    assert(after[i] == out_before[i]);
                } else if i == at {
                    assert(after[j] == out_before[j - 1]);
                    assert(recommended_before(x@, out_before[at]@));
                    if j - 1 > at {
                        assert(ob[at] == out_before[at]@);
                        assert(ob[j - 1] == out_before[j - 1]@);
                        assert(!recommended_before(ob[j - 1], ob[at]));
                        if recommended_before(out_before[j - 1]@, x@) {
                            lemma_before_transitive(out_before[j - 1]@, x@, out_before[at]@);
                        }
                    } else {
                        lemma_before_asymmetric(x@, out_before[at]@);
                    }
                } else if i < at && j > at {
                    assert(after[i] == out_before[i]);
                    assert(after[j] == out_before[j - 1]);
                    assert(ob[i] == out_before[i]@);
                    assert(ob[j - 1] == out_before[j - 1]@);
                } else if i > at {
                    assert(after[i] == out_before[i - 1]);
                    assert(after[j] == out_before[j - 1]);
                    assert(ob[i - 1] == out_before[i - 1]@);
                    assert(ob[j - 1] == out_before[j - 1]@);
                } else {
                    assert(after[i] == out_before[i]);
                    assert(after[j] == out_before[j]);
                    assert(ob[i] == out_before[i]@);
                    assert(ob[j] == out_before[j]@);
                }
            }
            vstd::seq_lib::to_multiset_insert(out_before, at, x);
            vstd::seq_lib::to_multiset_remove(in_before, 0);
            assert(out@.to_multiset() == out_before.to_multiset().insert(x));
            assert(input@.to_multiset() == in_before.to_multiset().remove(x));
            assert(in_before.to_multiset().count(x) > 0) by {
                broadcast use vstd::seq_lib::to_multiset_contains;
                assert(in_before.contains(x));
            }
            assert(out@.to_multiset().add(input@.to_multiset()) =~= out_before.to_multiset().add(in_before.to_multiset())) by {
                broadcast use vstd::multiset::group_multiset_axioms;
            }
        }
    }
    assert(input@.to_multiset() =~= vstd::multiset::Multiset::empty()) by {
        broadcast use vstd::seq_lib::group_to_multiset_ensures, vstd::multiset::lemma_multiset_empty_len;
    };
    assert(out@.to_multiset().add(input@.to_multiset()) =~= out@.to_multiset()) by {
        broadcast use vstd::multiset::group_multiset_axioms;
    };
    out
}

pub open spec fn unranked(v: RecView) -> RecView {
    RecView { rank: 0, ..v }
}

/// The recommendations for the missing rules, best first, ranked from 1:
/// every pending recommendation appears, and nothing else.
pub fn ordered_recommendations(rules: &[ProfileRuleResult], findings: &[FindingSummary]) -> (r: Vec<ProfileRecommendation>)
    ensures
        r@.len() == pending_recommendations(rules@, findings@).len(),
        forall|i: int| 0 <= i < r@.len() ==> (#[trigger] r@[i]).rank == i + 1,
        recommendations_ordered(rec_views(r@)),
        forall|i: int| 0 <= i < r@.len() ==> pending_recommendations(rules@, findings@).contains(unranked((#[trigger] r@[i])@)),
        forall|k: int| 0 <= k < pending_recommendations(rules@, findings@).len() ==>
            exists|i: int| 0 <= i < r@.len() && unranked(r@[i]@) == #[trigger] pending_recommendations(rules@, findings@)[k],
{
    broadcast use vstd::seq_lib::to_multiset_contains;
    let mut built: Vec<ProfileRecommendation> = Vec::new();
    let mut k: usize = 0;
    while k < rules.len()
        invariant
            k <= rules.len(),
            rec_views(built@) == pending_recommendations(rules@.take(k as int), findings@),
            forall|m: int| 0 <= m < built@.len() ==> (#[trigger] built@[m]).rank == 0,
        decreases rules.len() - k,
    {
        assert(rules@.take(k as int + 1).drop_last() =~= rules@.take(k as int));
        if rules[k].status == BaselineStatus::Missing {
            let rec = recommend(&rules[k], findings);
            built.push(rec);
            assert(rec_views(built@) =~= pending_recommendations(rules@.take(k as int), findings@).push(rec@));
        }
        k = k + 1;
    }
    assert(rules@.take(rules.len() as int) =~= rules@);
    let ghost all = built@;
    let ghost pending = pending_recommendations(rules@, findings@);
    assert(rec_views(all).len() == all.len());
    let sorted = sort_recommendations(built);
    let ghost ordered = sorted@;
    let n = sorted.len();
    assert(ordered.len() == all.len()) by {
        assert(ordered.to_multiset().len() == ordered.len()) by {
            broadcast use vstd::seq_lib::group_to_multiset_ensures;
        }
        assert(all.to_multiset().len() == all.len()) by {
            broadcast use vstd::seq_lib::group_to_multiset_ensures;
        }
    }
    assert forall|i: int| 0 <= i < ordered.len() implies exists|m: int| 0 <= m < all.len() && all[m] == #[trigger] ordered[i] by {
        assert(ordered.contains(ordered[i]));
        assert(ordered.to_multiset().count(ordered[i]) > 0);
        assert(all.contains(ordered[i]));
    }
    assert forall|m: int| 0 <= m < all.len() implies exists|i: int| 0 <= i < ordered.len() && ordered[i] == #[trigger] all[m] by {
        assert(all.contains(all[m]));
        assert(all.to_multiset().count(all[m]) > 0);
        assert(ordered.contains(all[m]));
    }
    let mut rest = sorted;
    let mut out: Vec<ProfileRecommendation> = Vec::new();
    let mut i: usize = 0;
    while i < n
        invariant
            i <= n,
            n == ordered.len(),
            rest@ == ordered.subrange(i as int, n as int),
            out@.len() == i,
            forall|m: int| 0 <= m < i ==> (#[trigger] out@[m])@ == (RecView { rank: (m + 1) as usize, ..ordered[m]@ }),
        decreases n - i,
    {
        let b = rest.remove(0);
        assert(b == ordered[i as int]);
        out.push(ProfileRecommendation {
            rank: i + 1,
            finding_id: b.finding_id,
            pattern_id: b.pattern_id,
            title: b.title,
            gate: b.gate,
            severity: b.severity,
            priority: b.priority,
            weight: b.weight,
            reason: b.reason,
        });
        assert(rest@ =~= ordered.subrange(i as int + 1, n as int));
        i = i + 1;
    }
    proof {
        let r = out@;
        assert forall|a: int, b: int| 0 <= a < b < r.len() implies !recommended_before(#[trigger] rec_views(r)[b], #[trigger] rec_views(r)[a]) by {
            assert(rec_views(ordered)[a] == ordered[a]@);
            assert(rec_views(ordered)[b] == ordered[b]@);
            assert(rec_views(r)[a] == r[a]@);
            assert(rec_views(r)[b] == r[b]@);
        }
        assert forall|i: int| 0 <= i < r.len() implies pending.contains(unranked((#[trigger] r[i])@)) by {
            let m = choose|m: int| 0 <= m < all.len() && all[m] == ordered[i];
            assert(rec_views(all)[m] == all[m]@);
            assert(pending[m] == all[m]@);
            assert(unranked(r[i]@) == all[m]@);
        }
        assert forall|k: int| 0 <= k < pending.len() implies exists|i: int| 0 <= i < r.len() && unranked(r[i]@) == #[trigger] pending[k] by {
            let i = choose|i: int| 0 <= i < ordered.len() && ordered[i] == all[k];
            assert(rec_views(all)[k] == all[k]@);
            assert(unranked(r[i]@) == all[k]@);
        }
    }
    out
}

/// A profile's report.
#[derive(Debug, Clone, PartialEq, Eq)]
pub struct ProfileReport {
    pub profile: ProfileKind,
    pub score: ProfileScoreView,
    pub branch_summary: ProfileBranchSummary,
    pub branches: Vec<ProfileBranch>,
    pub rules: Vec<ProfileRuleResult>,
    pub recommendations: Vec<ProfileRecommendation>,
}

/// What profile evaluation reads of an analysed repository: the baseline
/// report's rules when a baseline ran, its findings, and the repository
/// evidence behind profile signals.
#[derive(Debug, Clone, PartialEq, Eq)]
pub struct ProfileAnalysis {
    pub baseline: Option<Vec<BaselineRuleResult>>,
    pub findings: Vec<FindingSummary>,
    pub snapshot: ProfileSnapshot,
}

/// The last baseline rule for pattern `id`, if any.
pub open spec fn baseline_rule_for(b: Seq<BaselineRuleResult>, id: Seq<char>) -> Option<BaselineRuleResult> {
    if exists|i: int| last_rule_at(b, id, i) {
        Some(b[choose|i: int| last_rule_at(b, id, i)])
    } else {
        None
    }
}

/// `baseline_rule_for(baseline, id)`, as a reference.
fn baseline_rule_of<'a>(baseline: &'a [BaselineRuleResult], id: &str) -> (r: Option<&'a BaselineRuleResult>)
    ensures
        match r {
            Some(x) => baseline_rule_for(baseline@, id@) == Some(*x),
            None => baseline_rule_for(baseline@, id@) is None,
        },
{
    let mut i: usize = baseline.len();
    while i > 0
        invariant
            i <= baseline.len(),
            forall|j: int| i <= j < baseline.len() ==> (#[trigger] baseline@[j]).pattern_id@ != id@,
        decreases i,
    {
        let k = i - 1;
        let pc = chars_of(baseline[k].pattern_id.as_str());
        if equals_str(pc.as_slice(), id) {
            proof {
                assert(last_rule_at(baseline@, id@, k as int));
                let c = choose|c: int| last_rule_at(baseline@, id@, c);
                if c < k {
                    assert(baseline@[k as int].pattern_id@ == id@);
                } else if k < c {
                    assert(baseline@[c].pattern_id@ == id@);
                }
            }
            return Some(&baseline[k]);
        }
        i = k;
    }
    assert(!exists|c: int| last_rule_at(baseline@, id@, c));
    None
}

/// The result that the `k`th catalog rule (from 0) reports.
pub open spec fn rule_result_matches(r: ProfileRuleResult, k: int, profile: ProfileKind, def: RuleView, b: Seq<BaselineRuleResult>) -> bool {
    &&& r.rule_id@ == rule_id((k + 1) as nat)
    &&& r.profile == profile
    &&& r.pattern_id@ == def.pattern_id
    &&& r.weight == def.weight
    &&& r.priority == def.priority
    &&& r.reason@ == def.reason
    &&& match baseline_rule_for(b, def.pattern_id) {
        Some(x) => r.title@ == x.title@ && r.route == x.route && r.status == backed_status(x)
            && string_views(r.evidence_ids@) == string_views(x.evidence_ids@) && opt_view(r.finding_id) == opt_view(x.finding_id),
        None => r.title@ == "Unknown baseline pattern"@ && r.route is None
            && r.status == BaselineStatus::Missing && r.evidence_ids@.len() == 0 && r.finding_id is None,
    }
}

proof fn lemma_status_of_rule(b: Seq<BaselineRuleResult>, id: Seq<char>)
    ensures
        pattern_status(b, id) == match baseline_rule_for(b, id) {
            Some(x) => backed_status(x),
            None => BaselineStatus::Missing,
        },
{
}

/// The report of `profile` on a baseline: each catalog rule's result,
/// the weighted score, the recommendations for missing rules, and the
/// branches ranked on the baseline alone with no calibration.
pub fn evaluate_profile_from_parts(
    baseline: &[BaselineRuleResult],
    findings: &[FindingSummary],
    profile: ProfileKind,
) -> (r: ProfileReport)
    ensures
        r.profile == profile,
        r.rules@.len() == catalog(profile).len(),
        forall|k: int| 0 <= k < r.rules@.len() ==> rule_result_matches(#[trigger] r.rules@[k], k, profile, catalog(profile)[k], baseline@),
        r.score.total_weight == total_weight(catalog(profile)),
        r.score.earned_weight == catalog_earned(baseline@, catalog(profile)),
        r.score.score_x100 == branch_fit(baseline@, profile),
        r.recommendations@.len() == pending_recommendations(r.rules@, findings@).len(),
        forall|i: int| 0 <= i < r.recommendations@.len() ==> (#[trigger] r.recommendations@[i]).rank == i + 1,
        recommendations_ordered(rec_views(r.recommendations@)),
        forall|i: int| 0 <= i < r.recommendations@.len() ==>
            pending_recommendations(r.rules@, findings@).contains(unranked((#[trigger] r.recommendations@[i])@)),
        forall|k: int| 0 <= k < pending_recommendations(r.rules@, findings@).len() ==>
            exists|i: int| 0 <= i < r.recommendations@.len() && unranked(r.recommendations@[i]@) == #[trigger] pending_recommendations(r.rules@, findings@)[k],
        branches_report(r.branches@, None, baseline@, profile, Seq::new(10, |_i: int| CalibrationLookup::NotRequested)),
        summary_of(r.branch_summary, profile, r.branches@),
{
    let priors: Vec<CalibrationLookup> = vec![
        CalibrationLookup::NotRequested, CalibrationLookup::NotRequested, CalibrationLookup::NotRequested,
        CalibrationLookup::NotRequested, CalibrationLookup::NotRequested, CalibrationLookup::NotRequested,
        CalibrationLookup::NotRequested, CalibrationLookup::NotRequested, CalibrationLookup::NotRequested,
        CalibrationLookup::NotRequested,
    ];
    assert(priors@ =~= Seq::new(10, |_i: int| CalibrationLookup::NotRequested));
    profile_report(None, baseline, findings, profile, priors.as_slice())
}

/// The branches satisfy `profile_branches`' contract.
pub open spec fn branches_report(
    r: Seq<ProfileBranch>,
    snapshot: Option<&ProfileSnapshot>,
    baseline: Seq<BaselineRuleResult>,
    selected: ProfileKind,
    priors: Seq<CalibrationLookup>,
) -> bool {
    &&& r.len() == 10
    &&& forall|i: int| 0 <= i < r.len() ==> (#[trigger] r[i])@ == expected_branch(
            snapshot, baseline, selected, priors[branch_slot(r[i].profile)], r[i].profile, (i + 1) as usize)
    &&& ranked(branch_views(r))
    &&& forall|p: ProfileKind| branch_profile_list().contains(p) <==> exists|i: int| 0 <= i < r.len() && (#[trigger] r[i]).profile == p
}

/// The summary satisfies `profile_branch_summary`'s contract.
pub open spec fn summary_of(s: ProfileBranchSummary, selected: ProfileKind, branches: Seq<ProfileBranch>) -> bool {
    &&& s.selected_profile == selected
    &&& s.top_profile == (if branches.len() > 0 { Some(branches[0].profile) } else { None::<ProfileKind> })
    &&& s.top_rank_score_x100 == (if branches.len() > 0 { Some(branches[0].semantics.rank_score) } else { None::<u8> })
    &&& s.emitted_profiles == branches.len()
    &&& s.ambiguous == ambiguous_lead(branches.map_values(|b: ProfileBranch| b@))
    &&& s.boundary@ == summary_boundary()
}

/// The report of `profile`, with branches ranked on `snapshot` when one is
/// given and with the calibration answers `priors` in branch order.
fn profile_report(
    snapshot: Option<&ProfileSnapshot>,
    baseline: &[BaselineRuleResult],
    findings: &[FindingSummary],
    profile: ProfileKind,
    priors: &[CalibrationLookup],
) -> (r: ProfileReport)
    requires
        priors@.len() == 10,
    ensures
        r.profile == profile,
        r.rules@.len() == catalog(profile).len(),
        forall|k: int| 0 <= k < r.rules@.len() ==> rule_result_matches(#[trigger] r.rules@[k], k, profile, catalog(profile)[k], baseline@),
        r.score.total_weight == total_weight(catalog(profile)),
        r.score.earned_weight == catalog_earned(baseline@, catalog(profile)),
        r.score.score_x100 == branch_fit(baseline@, profile),
        r.recommendations@.len() == pending_recommendations(r.rules@, findings@).len(),
        forall|i: int| 0 <= i < r.recommendations@.len() ==> (#[trigger] r.recommendations@[i]).rank == i + 1,
        recommendations_ordered(rec_views(r.recommendations@)),
        forall|i: int| 0 <= i < r.recommendations@.len() ==>
            pending_recommendations(r.rules@, findings@).contains(unranked((#[trigger] r.recommendations@[i])@)),
        forall|k: int| 0 <= k < pending_recommendations(r.rules@, findings@).len() ==>
            exists|i: int| 0 <= i < r.recommendations@.len() && unranked(r.recommendations@[i]@) == #[trigger] pending_recommendations(r.rules@, findings@)[k],
        branches_report(r.branches@, snapshot, baseline@, profile, priors@),
        summary_of(r.branch_summary, profile, r.branches@),
{
    let definitions = catalog_rules(profile);
    let ghost c = catalog(profile);
    proof { lemma_catalog_shape(profile); }
    let mut rules: Vec<ProfileRuleResult> = Vec::new();
    let mut inputs: Vec<ProfileScoringInput> = Vec::new();
    let mut k: usize = 0;
    while k < definitions.len()
        invariant
            k <= definitions.len(),
            c == catalog(profile),
            c.len() == 9,
            rule_views(definitions@) == c,
            rules@.len() == k,
            inputs@.len() == k,
            forall|m: int| 0 <= m < k ==> rule_result_matches(#[trigger] rules@[m], m, profile, c[m], baseline@),
            weight_sum(inputs@) == total_weight(c.take(k as int)),
            earned_sum(inputs@) == catalog_earned(baseline@, c.take(k as int)),
        decreases definitions.len() - k,
    {
        let def = &definitions[k];
        assert(rule_views(definitions@)[k as int] == definitions@[k as int]@);
        let found = baseline_rule_of(baseline, def.pattern_id);
        let result = to_profile_rule_result(k + 1, profile, def, found);
        proof { lemma_status_of_rule(baseline@, def.pattern_id@); }
        let ghost before = inputs@;
        inputs.push(ProfileScoringInput { status: result.status, weight: def.weight });
        rules.push(result);
        proof {
            assert(c.take(k as int + 1).drop_last() =~= c.take(k as int));
            assert(inputs@.drop_last() =~= before);
        }
        k = k + 1;
    }
    assert(c.take(9) =~= c);
    assert(rule_views(definitions@).len() == definitions@.len());
    let score = score_view(inputs.as_slice());
    let recommendations = ordered_recommendations(rules.as_slice(), findings);
    let branches = profile_branches(snapshot, baseline, profile, priors);
    let branch_summary = profile_branch_summary(profile, branches.as_slice());
    ProfileReport { profile, score, branch_summary, branches, rules, recommendations }
}

/// The report of `profile` on an analysed repository, with the calibration
/// answers `priors` for the branch profiles in branch order; none without a
/// baseline.
pub fn evaluate_profile_with_calibration(
    analysis: &ProfileAnalysis,
    profile: ProfileKind,
    priors: &[CalibrationLookup],
) -> (r: Option<ProfileReport>)
    requires
        priors@.len() == 10,
    ensures
        analysis.baseline is None <==> r is None,
        r matches Some(rep) ==> {
            let b = analysis.baseline->0@;
            &&& rep.profile == profile
            &&& rep.rules@.len() == catalog(profile).len()
            &&& (forall|k: int| 0 <= k < rep.rules@.len() ==> rule_result_matches(#[trigger] rep.rules@[k], k, profile, catalog(profile)[k], b))
            &&& rep.score.total_weight == total_weight(catalog(profile))
            &&& rep.score.earned_weight == catalog_earned(b, catalog(profile))
            &&& rep.score.score_x100 == branch_fit(b, profile)
            &&& rep.recommendations@.len() == pending_recommendations(rep.rules@, analysis.findings@).len()
            &&& (forall|i: int| 0 <= i < rep.recommendations@.len() ==> (#[trigger] rep.recommendations@[i]).rank == i + 1)
            &&& recommendations_ordered(rec_views(rep.recommendations@))
            &&& (forall|i: int| 0 <= i < rep.recommendations@.len() ==>
                pending_recommendations(rep.rules@, analysis.findings@).contains(unranked((#[trigger] rep.recommendations@[i])@)))
            &&& (forall|k: int| 0 <= k < pending_recommendations(rep.rules@, analysis.findings@).len() ==>
                exists|i: int| 0 <= i < rep.recommendations@.len() && unranked(rep.recommendations@[i]@) == #[trigger] pending_recommendations(rep.rules@, analysis.findings@)[k])
            &&& branches_report(rep.branches@, Some(&analysis.snapshot), b, profile, priors@)
            &&& summary_of(rep.branch_summary, profile, rep.branches@)
        },
{
    match &analysis.baseline {
        None => None,
        Some(baseline) => Some(profile_report(Some(&analysis.snapshot), baseline.as_slice(), analysis.findings.as_slice(), profile, priors)),
    }
}

/// The report of `profile` on an analysed repository without calibration.
pub fn evaluate_profile(analysis: &ProfileAnalysis, profile: ProfileKind) -> (r: Option<ProfileReport>)
    ensures
        analysis.baseline is None <==> r is None,
        r matches Some(rep) ==> {
            let b = analysis.baseline->0@;
            &&& rep.profile == profile
            &&& rep.rules@.len() == catalog(profile).len()
            &&& (forall|k: int| 0 <= k < rep.rules@.len() ==> rule_result_matches(#[trigger] rep.rules@[k], k, profile, catalog(profile)[k], b))
            &&& rep.score.total_weight == total_weight(catalog(profile))
            &&& rep.score.earned_weight == catalog_earned(b, catalog(profile))
            &&& rep.score.score_x100 == branch_fit(b, profile)
            &&& rep.recommendations@.len() == pending_recommendations(rep.rules@, analysis.findings@).len()
            &&& (forall|i: int| 0 <= i < rep.recommendations@.len() ==> (#[trigger] rep.recommendations@[i]).rank == i + 1)
            &&& recommendations_ordered(rec_views(rep.recommendations@))
            &&& (forall|i: int| 0 <= i < rep.recommendations@.len() ==>
                pending_recommendations(rep.rules@, analysis.findings@).contains(unranked((#[trigger] rep.recommendations@[i])@)))
            &&& (forall|k: int| 0 <= k < pending_recommendations(rep.rules@, analysis.findings@).len() ==>
                exists|i: int| 0 <= i < rep.recommendations@.len() && unranked(rep.recommendations@[i]@) == #[trigger] pending_recommendations(rep.rules@, analysis.findings@)[k])
            &&& branches_report(rep.branches@, Some(&analysis.snapshot), b, profile, Seq::new(10, |_i: int| CalibrationLookup::NotRequested))
            &&& summary_of(rep.branch_summary, profile, rep.branches@)
        },
{
    let priors: Vec<CalibrationLookup> = vec![
        CalibrationLookup::NotRequested, CalibrationLookup::NotRequested, CalibrationLookup::NotRequested,
        CalibrationLookup::NotRequested, CalibrationLookup::NotRequested, CalibrationLookup::NotRequested,
        CalibrationLookup::NotRequested, CalibrationLookup::NotRequested, CalibrationLookup::NotRequested,
        CalibrationLookup::NotRequested,
    ];
    assert(priors@ =~= Seq::new(10, |_i: int| CalibrationLookup::NotRequested));
    evaluate_profile_with_calibration(analysis, profile, priors.as_slice())
}

} // verus!

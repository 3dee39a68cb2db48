//! Profile branches: every candidate profile scored by its catalog fit,
//! its purpose signals and an optional calibration prior, ranked best first.

use vstd::prelude::*;
use crate::profiles::catalog::{catalog, catalog_rules, lemma_catalog_shape, total_weight, branch_order};
use crate::profiles::registry::{profile_rank, rule_views, ProfileKind, RuleView};
use crate::profiles::scoring::{
    backed_status, earned_sum, evidence_backed_status, evidence_score, profile_signal_score,
    score_view, signal_table, string_views, tally, weight_sum, weighted_score, BaselineRuleResult,
    BaselineStatus, ProfileScoringInput, ProfileSnapshot,
};
use crate::profiles::signals::{profile_rank_score, rank_score};
use crate::text::{chars_of, equals_str, string_of};

verus! {

/// What a calibration source answered for a profile.
#[derive(Debug, Clone, Copy, PartialEq, Eq, Structural)]
pub enum CalibrationLookup {
    NotRequested,
    /// A prior with its rank weight, out of 100.
    Available(u8),
    Unavailable,
}

/// How a calibration prior took part, without its value.
#[derive(Debug, Clone, Copy, PartialEq, Eq, Structural)]
pub enum CalibrationPriorState {
    NotRequested,
    AppliedRedacted,
    Unavailable,
}

/// The prior weight that ranking uses, and the state reports show.
pub open spec fn prior_parts(l: CalibrationLookup) -> (u8, CalibrationPriorState) {
    match l {
        CalibrationLookup::NotRequested => (0, CalibrationPriorState::NotRequested),
        CalibrationLookup::Available(w) => (w, CalibrationPriorState::AppliedRedacted),
        CalibrationLookup::Unavailable => (0, CalibrationPriorState::Unavailable),
    }
}

/// A branch's separate values.
#[derive(Debug, Clone, Copy, PartialEq, Eq, Structural)]
pub struct ProfileBranchSemantics {
    pub fit: u8,
    pub purpose_affinity: u8,
    pub rank_score: u8,
    pub calibration_prior: CalibrationPriorState,
}

/// One ranked profile branch.
#[derive(Debug, Clone, PartialEq, Eq)]
pub struct ProfileBranch {
    pub rank: usize,
    pub profile: ProfileKind,
    pub semantics: ProfileBranchSemantics,
    pub matched_signals: Vec<String>,
    pub missing_signals: Vec<String>,
    pub rationale: String,
}

pub struct BranchView {
    pub rank: usize,
    pub profile: ProfileKind,
    pub semantics: ProfileBranchSemantics,
    pub matched: Seq<Seq<char>>,
    pub missing: Seq<Seq<char>>,
    pub rationale: Seq<char>,
}

impl View for ProfileBranch {
    type V = BranchView;

    open spec fn view(&self) -> BranchView {
        BranchView {
            rank: self.rank,
            profile: self.profile,
            semantics: self.semantics,
            matched: string_views(self.matched_signals@),
            missing: string_views(self.missing_signals@),
            rationale: self.rationale@,
        }
    }
}

/// The last baseline rule for pattern `id` is at `i`: a later rule for a
/// pattern replaces an earlier one.
pub open spec fn last_rule_at(b: Seq<BaselineRuleResult>, id: Seq<char>, i: int) -> bool {
    &&& 0 <= i < b.len()
    &&& b[i].pattern_id@ == id
    &&& forall|j: int| i < j < b.len() ==> (#[trigger] b[j]).pattern_id@ != id
}

/// The evidence-backed status of the last baseline rule for `id`; missing
/// when no rule names it.
pub open spec fn pattern_status(b: Seq<BaselineRuleResult>, id: Seq<char>) -> BaselineStatus {
    if exists|i: int| last_rule_at(b, id, i) {
        backed_status(b[choose|i: int| last_rule_at(b, id, i)])
    } else {
        BaselineStatus::Missing
    }
}

/// `pattern_status(baseline, id)`.
fn pattern_status_of(baseline: &[BaselineRuleResult], id: &str) -> (r: BaselineStatus)
    ensures
        r == pattern_status(baseline@, id@),
{
    let mut i: usize = baseline.len();
    while i > 0
        invariant
            i <= baseline.len(),
            forall|j: int| i <= j < baseline.len() ==> (#[trigger] baseline@[j]).pattern_id@ != id@,
        decreases i,
    {
        let k = i - 1;
        let pc = chars_of(baseline[k].pattern_id.as_str());
        if equals_str(pc.as_slice(), id) {
            proof {
                assert(last_rule_at(baseline@, id@, k as int));
                let c = choose|c: int| last_rule_at(baseline@, id@, c);
                if c < k {
                    assert(baseline@[k as int].pattern_id@ == id@);
                } else if k < c {
                    assert(baseline@[c].pattern_id@ == id@);
                }
            }
            return evidence_backed_status(&baseline[k]);
        }
        i = k;
    }
    assert(!exists|c: int| last_rule_at(baseline@, id@, c));
    BaselineStatus::Missing
}

/// The catalog weight whose patterns the baseline shows.
pub open spec fn catalog_earned(b: Seq<BaselineRuleResult>, c: Seq<RuleView>) -> nat
    decreases c.len(),
{
    if c.len() == 0 {
        0
    } else {
        catalog_earned(b, c.drop_last()) + if pattern_status(b, c.last().pattern_id) == BaselineStatus::Present {
            c.last().weight as nat
        } else {
            0
        }
    }
}

/// How well the baseline fits a profile's catalog, out of 100.
pub open spec fn branch_fit(b: Seq<BaselineRuleResult>, profile: ProfileKind) -> nat {
    weighted_score(catalog_earned(b, catalog(profile)), total_weight(catalog(profile)))
}

/// The weighted fit of the baseline to `profile`'s catalog.
fn catalog_fit(baseline: &[BaselineRuleResult], profile: ProfileKind) -> (r: u8)
    ensures
        r as nat == branch_fit(baseline@, profile),
{
    let rules = catalog_rules(profile);
    let ghost c = catalog(profile);
    proof { lemma_catalog_shape(profile); }
    let mut inputs: Vec<ProfileScoringInput> = Vec::new();
    let mut k: usize = 0;
    while k < rules.len()
        invariant
            k <= rules.len(),
            c == catalog(profile),
            rule_views(rules@) == c,
            inputs@.len() == k,
            weight_sum(inputs@) == total_weight(c.take(k as int)),
            earned_sum(inputs@) == catalog_earned(baseline@, c.take(k as int)),
        decreases rules.len() - k,
    {
        let status = pattern_status_of(baseline, rules[k].pattern_id);
        let ghost before = inputs@;
        inputs.push(ProfileScoringInput { status, weight: rules[k].weight });
        proof {
            assert(rule_views(rules@)[k as int] == rules@[k as int]@);
            assert(c.take(k as int + 1).drop_last() =~= c.take(k as int));
            assert(inputs@.drop_last() =~= before);
        }
        k = k + 1;
    }
    assert(c.take(rules.len() as int) =~= c);
    assert(rule_views(rules@).len() == rules@.len());
    let view = score_view(inputs.as_slice());
    view.score_x100
}

/// The note a branch's rationale adds when it is the selected profile.
pub open spec fn selected_note() -> Seq<char> {
    " Selected CLI/API profile; confidence remains evidence-weighted."@
}

pub open spec fn base_rationale() -> Seq<char> {
    "Combines observed route/file/path evidence and profile fit. An explicit local calibration prior may affect rank but its value remains redacted from public fields. This is a branch hint, not a repository type assertion."@
}

pub open spec fn branch_rationale(selected: bool) -> Seq<char> {
    if selected { base_rationale() + selected_note() } else { base_rationale() }
}

fn push_str(out: &mut Vec<char>, s: &str)
    ensures
        final(out)@ == old(out)@ + s@,
{
    let mut t = chars_of(s);
    out.append(&mut t);
}

fn rationale(selected: bool) -> (r: String)
    ensures
        r@ == branch_rationale(selected),
{
    let mut out: Vec<char> = Vec::new();
    push_str(&mut out, "Combines observed route/file/path evidence and profile fit. An explicit local calibration prior may affect rank but its value remains redacted from public fields. This is a branch hint, not a repository type assertion.");
    if selected {
        push_str(&mut out, " Selected CLI/API profile; confidence remains evidence-weighted.");
    }
    string_of(out.as_slice())
}

/// The branch of `profile` at `rank`, before ranking.
pub open spec fn expected_branch(
    snapshot: Option<&ProfileSnapshot>,
    baseline: Seq<BaselineRuleResult>,
    selected: ProfileKind,
    lookup: CalibrationLookup,
    profile: ProfileKind,
    rank: usize,
) -> BranchView {
    let t = tally(snapshot, baseline, signal_table(profile));
    let fit = branch_fit(baseline, profile) as u8;
    let affinity = evidence_score(t.score, t.total) as u8;
    let prior = prior_parts(lookup);
    BranchView {
        rank,
        profile,
        semantics: ProfileBranchSemantics {
            fit,
            purpose_affinity: affinity,
            rank_score: rank_score(prior.0, affinity, fit),
            calibration_prior: prior.1,
        },
        matched: t.matched,
        missing: t.missing,
        rationale: branch_rationale(profile == selected),
    }
}

/// `a` ranks ahead of `b`: a higher rank score, then a higher purpose
/// affinity, then the earlier profile.
pub open spec fn ranks_ahead(a: BranchView, b: BranchView) -> bool {
    a.semantics.rank_score > b.semantics.rank_score
        || (a.semantics.rank_score == b.semantics.rank_score && (
            a.semantics.purpose_affinity > b.semantics.purpose_affinity
            || (a.semantics.purpose_affinity == b.semantics.purpose_affinity
                && profile_rank(a.profile) < profile_rank(b.profile))))
}

proof fn lemma_ahead_transitive(a: BranchView, b: BranchView, c: BranchView)
    requires
        ranks_ahead(a, b),
        ranks_ahead(b, c),
    ensures
        ranks_ahead(a, c),
{
}

proof fn lemma_ahead_asymmetric(a: BranchView, b: BranchView)
    requires
        ranks_ahead(a, b),
    ensures
        !ranks_ahead(b, a),
{
}

/// `ranks_ahead(a@, b@)`.
fn ahead(a: &ProfileBranch, b: &ProfileBranch) -> (r: bool)
    ensures
        r == ranks_ahead(a@, b@),
{
    let (x, y) = (&a.semantics, &b.semantics);
    x.rank_score > y.rank_score || (x.rank_score == y.rank_score && (x.purpose_affinity > y.purpose_affinity
        || (x.purpose_affinity == y.purpose_affinity && a.profile.order() < b.profile.order())))
}

pub open spec fn branch_views(v: Seq<ProfileBranch>) -> Seq<BranchView> {
    v.map_values(|b: ProfileBranch| b@)
}

/// No branch ranks ahead of one before it.
pub open spec fn ranked(v: Seq<BranchView>) -> bool {
    forall|i: int, j: int| 0 <= i < j < v.len() ==> !ranks_ahead(#[trigger] v[j], #[trigger] v[i])
}

/// A stable sort of branches, best first.
fn sort_branches(branches: Vec<ProfileBranch>) -> (out: Vec<ProfileBranch>)
    ensures
        out@.to_multiset() == branches@.to_multiset(),
        ranked(branch_views(out@)),
{
    broadcast use vstd::seq_lib::to_multiset_insert, vstd::seq_lib::to_multiset_remove;
    let mut input = branches;
    let ghost all = input@;
    let mut out: Vec<ProfileBranch> = Vec::new();
    assert(out@.to_multiset() =~= vstd::multiset::Multiset::empty()) by {
        broadcast use vstd::seq_lib::group_to_multiset_ensures, vstd::multiset::lemma_multiset_empty_len;
    };
    while input.len() > 0
        invariant
            out@.to_multiset().add(input@.to_multiset()) == all.to_multiset(),
            ranked(branch_views(out@)),
        decreases input.len(),
    {
        let ghost in_before = input@;
        let ghost out_before = out@;
        let x = input.remove(0);
        let mut p: usize = 0;
        while p < out.len() && !ahead(&x, &out[p])
            invariant
                p <= out.len(),
                out@ == out_before,
                forall|k: int| 0 <= k < p ==> !ranks_ahead(x@, #[trigger] out@[k]@),
            decreases out.len() - p,
        {
            p = p + 1;
        }
        let ghost at = p as int;
        out.insert(p, x);
        proof {
            let after = out@;
            let bv = branch_views(after);
            let ob = branch_views(out_before);
            assert(after =~= out_before.insert(at, x));
            assert(in_before.remove(0) =~= input@);
            assert(in_before[0] == x);
            assert forall|i: int, j: int| 0 <= i < j < bv.len() implies !ranks_ahead(#[trigger] bv[j], #[trigger] bv[i]) by {
                assert(bv[i] == after[i]@);
                assert(bv[j] == after[j]@);
                if j == at {
                    assert(after[i] == out_before[i]);
                } else if i == at {
                    assert(after[j] == out_before[j - 1]);
                    assert(ranks_ahead(x@, out_before[at]@));
                    if j - 1 > at {
                        assert(ob[at] == out_before[at]@);
                        assert(ob[j - 1] == out_before[j - 1]@);
                        assert(!ranks_ahead(ob[j - 1], ob[at]));
                        if ranks_ahead(out_before[j - 1]@, x@) {
                            lemma_ahead_transitive(out_before[j - 1]@, x@, out_before[at]@);
                        }
                    } else {
                        lemma_ahead_asymmetric(x@, out_before[at]@);
                    }
                } else if i < at && j > at {
                    assert(after[i] == out_before[i]);
                    assert(after[j] == out_before[j - 1]);
                    assert(ob[i] == out_before[i]@);
                    assert(ob[j - 1] == out_before[j - 1]@);
                } else if i > at {
                    assert(after[i] == out_before[i - 1]);
                    assert(after[j] == out_before[j - 1]);
                    assert(ob[i - 1] == out_before[i - 1]@);
                    assert(ob[j - 1] == out_before[j - 1]@);
                } else {
                    assert(after[i] == out_before[i]);
                    assert(after[j] == out_before[j]);
                    assert(ob[i] == out_before[i]@);
                    assert(ob[j] == out_before[j]@);
                }
            }
            vstd::seq_lib::to_multiset_insert(out_before, at, x);
            vstd::seq_lib::to_multiset_remove(in_before, 0);
            assert(out@.to_multiset() == out_before.to_multiset().insert(x));
            assert(input@.to_multiset() == in_before.to_multiset().remove(x));
            assert(in_before.to_multiset().count(x) > 0) by {
                broadcast use vstd::seq_lib::to_multiset_contains;
                assert(in_before.contains(x));
            }
            assert(out@.to_multiset().add(input@.to_multiset()) =~= out_before.to_multiset().add(in_before.to_multiset())) by {
                broadcast use vstd::multiset::group_multiset_axioms;
            }
        }
    }
    assert(input@.to_multiset() =~= vstd::multiset::Multiset::empty()) by {
        broadcast use vstd::seq_lib::group_to_multiset_ensures, vstd::multiset::lemma_multiset_empty_len;
    };
    assert(out@.to_multiset().add(input@.to_multiset()) =~= out@.to_multiset()) by {
        broadcast use vstd::multiset::group_multiset_axioms;
    };
    out
}

/// Where a profile's calibration answer stands among the branch profiles.
pub open spec fn branch_slot(p: ProfileKind) -> int {
    match p {
        ProfileKind::Library => 0,
        ProfileKind::Infra => 1,
        ProfileKind::Cli => 2,
        ProfileKind::Product => 3,
        ProfileKind::Runtime => 4,
        ProfileKind::Docs => 5,
        ProfileKind::Tutorial => 6,
        ProfileKind::Ml => 7,
        ProfileKind::Research => 8,
        ProfileKind::Template => 9,
        ProfileKind::Common => -1,
    }
}

pub open spec fn branch_profile_list() -> Seq<ProfileKind> {
    branch_order().map_values(|e: (ProfileKind, u16)| e.0)
}

/// The branch of `profile`, before ranking.
fn build_branch(
    snapshot: Option<&ProfileSnapshot>,
    baseline: &[BaselineRuleResult],
    selected: ProfileKind,
    lookup: CalibrationLookup,
    profile: ProfileKind,
) -> (b: ProfileBranch)
    ensures
        b@ == expected_branch(snapshot, baseline@, selected, lookup, profile, 0),
{
    let fit = catalog_fit(baseline, profile);
    let (affinity, matched, missing) = profile_signal_score(snapshot, baseline, profile);
    let (prior_weight, calibration_prior) = match lookup {
        CalibrationLookup::NotRequested => (0u8, CalibrationPriorState::NotRequested),
        CalibrationLookup::Available(w) => (w, CalibrationPriorState::AppliedRedacted),
        CalibrationLookup::Unavailable => (0u8, CalibrationPriorState::Unavailable),
    };
    let rank_score = profile_rank_score(prior_weight, affinity, fit);
    ProfileBranch {
        rank: 0,
        profile,
        semantics: ProfileBranchSemantics { fit, purpose_affinity: affinity, rank_score, calibration_prior },
        matched_signals: matched,
        missing_signals: missing,
        rationale: rationale(profile == selected),
    }
}

/// Every branch profile scored and ranked best first: by rank score, then
/// purpose affinity, then profile order. `priors` holds the calibration
/// answer for each branch profile, in branch order.
pub fn profile_branches(
    snapshot: Option<&ProfileSnapshot>,
    baseline: &[BaselineRuleResult],
    selected: ProfileKind,
    priors: &[CalibrationLookup],
) -> (r: Vec<ProfileBranch>)
    requires
        priors@.len() == 10,
    ensures
        r@.len() == 10,
        forall|i: int| 0 <= i < r@.len() ==> (#[trigger] r@[i])@ == expected_branch(
            snapshot, baseline@, selected, priors@[branch_slot(r@[i].profile)], r@[i].profile, (i + 1) as usize),
        ranked(branch_views(r@)),
        forall|p: ProfileKind| branch_profile_list().contains(p) <==> exists|i: int| 0 <= i < r@.len() && (#[trigger] r@[i]).profile == p,
{
    broadcast use vstd::seq_lib::to_multiset_contains;
    let order = crate::profiles::catalog::branch_profiles();
    let mut built: Vec<ProfileBranch> = Vec::new();
    let mut k: usize = 0;
    while k < order.len()
        invariant
            k <= order.len(),
            order@ == branch_order(),
            priors@.len() == 10,
            built@.len() == k,
            forall|m: int| 0 <= m < k ==> (#[trigger] built@[m]).profile == branch_order()[m].0,
            forall|m: int| 0 <= m < k ==> (#[trigger] built@[m])@ == expected_branch(
                snapshot, baseline@, selected, priors@[m], branch_order()[m].0, 0),
        decreases order.len() - k,
    {
        let (profile, _static_order) = order[k];
        let b = build_branch(snapshot, baseline, selected, priors[k], profile);
        built.push(b);
        k = k + 1;
    }
    let ghost all = built@;
    assert forall|m: int| 0 <= m < 10 implies branch_slot((#[trigger] all[m]).profile) == m by {
        assert(all[m].profile == branch_order()[m].0);
    }
    let sorted = sort_branches(built);
    let ghost ordered = sorted@;
    assert(ordered.len() == 10) by {
        assert(ordered.to_multiset().len() == ordered.len()) by {
            broadcast use vstd::seq_lib::group_to_multiset_ensures;
        }
        assert(all.to_multiset().len() == all.len()) by {
            broadcast use vstd::seq_lib::group_to_multiset_ensures;
        }
    }
    // Each ranked branch is one of those built, and each built one is ranked.
    assert forall|i: int| 0 <= i < 10 implies exists|m: int| 0 <= m < 10 && all[m] == #[trigger] ordered[i] by {
        assert(ordered.contains(ordered[i]));
        assert(ordered.to_multiset().count(ordered[i]) > 0);
        assert(all.contains(ordered[i]));
    }
    assert forall|m: int| 0 <= m < 10 implies exists|i: int| 0 <= i < 10 && ordered[i] == #[trigger] all[m] by {
        assert(all.contains(all[m]));
        assert(all.to_multiset().count(all[m]) > 0);
        assert(ordered.contains(all[m]));
    }
    let mut rest = sorted;
    let mut out: Vec<ProfileBranch> = Vec::new();
    let mut i: usize = 0;
    while i < 10
        invariant
            i <= 10,
            ordered.len() == 10,
            rest@ == ordered.subrange(i as int, 10),
            out@.len() == i,
            forall|m: int| 0 <= m < i ==> (#[trigger] out@[m])@ == (BranchView { rank: (m + 1) as usize, ..ordered[m]@ }),
        decreases 10 - i,
    {
        let b = rest.remove(0);
        assert(b == ordered[i as int]);
        out.push(ProfileBranch {
            rank: i + 1,
            profile: b.profile,
            semantics: b.semantics,
            matched_signals: b.matched_signals,
            missing_signals: b.missing_signals,
            rationale: b.rationale,
        });
        assert(rest@ =~= ordered.subrange(i as int + 1, 10));
        i = i + 1;
    }
    proof {
        let r = out@;
        assert forall|i: int| 0 <= i < r.len() implies (#[trigger] r[i])@ == expected_branch(
            snapshot, baseline@, selected, priors@[branch_slot(r[i].profile)], r[i].profile, (i + 1) as usize) by {
            let m = choose|m: int| 0 <= m < 10 && all[m] == ordered[i];
            assert(r[i]@ == (BranchView { rank: (i + 1) as usize, ..ordered[i]@ }));
            assert(branch_slot(all[m].profile) == m);
        }
        assert(ranked(branch_views(r))) by {
            assert forall|a: int, b: int| 0 <= a < b < r.len() implies !ranks_ahead(#[trigger] branch_views(r)[b], #[trigger] branch_views(r)[a]) by {
                assert(branch_views(ordered)[a] == ordered[a]@);
                assert(branch_views(ordered)[b] == ordered[b]@);
                assert(branch_views(r)[a] == r[a]@);
                assert(branch_views(r)[b] == r[b]@);
            }
        }
        assert forall|p: ProfileKind| branch_profile_list().contains(p) <==> exists|i: int| 0 <= i < r.len() && (#[trigger] r[i]).profile == p by {
            if branch_profile_list().contains(p) {
                let m = choose|m: int| 0 <= m < branch_profile_list().len() && branch_profile_list()[m] == p;
                assert(all[m].profile == p);
                let i = choose|i: int| 0 <= i < 10 && ordered[i] == all[m];
                assert(r[i]@.profile == ordered[i]@.profile);
            }
            if exists|i: int| 0 <= i < r.len() && (#[trigger] r[i]).profile == p {
                let i = choose|i: int| 0 <= i < r.len() && (#[trigger] r[i]).profile == p;
                let m = choose|m: int| 0 <= m < 10 && all[m] == ordered[i];
                assert(r[i]@.profile == ordered[i]@.profile);
                assert(branch_profile_list()[m] == p);
            }
        }
    }
    out
}

} // verus!

//! Executable pattern overlays: data-only predicate patterns evaluated on a
//! repository's atom observations beside the common baseline, never in
//! place of it.

use vstd::prelude::*;
use crate::markdown::routes::RouteKind;
use crate::patterns::baseline::{
    common_patterns, definition_views, stable_id, stable_id_of, PatternGroup, PatternOutcome,
    PatternRegistry,
};
use crate::patterns::predicate::{
    all_well_formed, copy_observation, obs_views, reference_result, EvidenceId, Observation,
    ObservationView, PredicateProgram, UnknownReason,
};
use crate::profiles::report::{GateKind, Severity};
use crate::text::{chars_of, equals_str, string_of};

verus! {

/// The route a pattern group speaks for.
pub open spec fn group_route(group: PatternGroup) -> RouteKind {
    match group {
        PatternGroup::Idn => RouteKind::Identity,
        PatternGroup::Doc => RouteKind::Docs,
        PatternGroup::Qst => RouteKind::Quickstart,
        PatternGroup::Sup => RouteKind::Support,
        PatternGroup::Sec => RouteKind::Security,
        PatternGroup::Ctr => RouteKind::Contributing,
        PatternGroup::Int => RouteKind::Intake,
        PatternGroup::Aut => RouteKind::Automation,
        PatternGroup::Rel => RouteKind::Release,
        PatternGroup::Own => RouteKind::Ownership,
        PatternGroup::Gov => RouteKind::Governance,
        PatternGroup::Hyg => RouteKind::Hygiene,
        PatternGroup::Lif => RouteKind::Lifecycle,
    }
}

/// `group_route(group)`.
pub fn route_for_group(group: PatternGroup) -> (r: RouteKind)
    ensures
        r == group_route(group),
{
    match group {
        PatternGroup::Idn => RouteKind::Identity,
        PatternGroup::Doc => RouteKind::Docs,
        PatternGroup::Qst => RouteKind::Quickstart,
        PatternGroup::Sup => RouteKind::Support,
        PatternGroup::Sec => RouteKind::Security,
        PatternGroup::Ctr => RouteKind::Contributing,
        PatternGroup::Int => RouteKind::Intake,
        PatternGroup::Aut => RouteKind::Automation,
        PatternGroup::Rel => RouteKind::Release,
        PatternGroup::Own => RouteKind::Ownership,
        PatternGroup::Gov => RouteKind::Governance,
        PatternGroup::Hyg => RouteKind::Hygiene,
        PatternGroup::Lif => RouteKind::Lifecycle,
    }
}

/// A data-only pattern of an executable pack.
pub struct ExtensionDefinition<A> {
    pub id: String,
    pub group: PatternGroup,
    pub enabled: bool,
    pub predicate: PredicateProgram<A>,
}

/// What an overlay pattern showed.
#[derive(Debug, Clone, PartialEq, Eq)]
pub enum PatternExtensionState {
    Disabled,
    Present,
    Absent,
    Unknown(UnknownReason),
    Conflict,
}

#[derive(Debug, Clone, PartialEq, Eq)]
pub struct PatternExtensionEvaluation {
    pub pattern_id: String,
    pub group: PatternGroup,
    pub route: RouteKind,
    pub state: PatternExtensionState,
    pub evidence_ids: Vec<EvidenceId>,
}

/// A match of an overlay pattern that was decided.
#[derive(Debug, Clone, PartialEq, Eq)]
pub struct ExtensionMatch {
    pub id: String,
    pub pattern_id: String,
    pub route: RouteKind,
    pub outcome: PatternOutcome,
    pub evidence_ids: Vec<EvidenceId>,
    pub basis: String,
}

/// A finding for an overlay pattern that was absent.
#[derive(Debug, Clone, PartialEq, Eq)]
pub struct ExtensionFinding {
    pub id: String,
    pub severity: Severity,
    pub title: String,
    pub message: String,
    pub recommendation_id: String,
    pub gate: GateKind,
    pub recommendation_title: String,
    pub recommendation_message: String,
}

#[derive(Debug, Clone, PartialEq, Eq)]
pub enum PatternExtensionError {
    CommonPatternConflict(String),
}

impl PatternExtensionError {
    pub fn message(&self) -> (r: String)
        ensures
            r@ == match self {
                PatternExtensionError::CommonPatternConflict(id) =>
                    "executable pattern `"@ + id@ + "` conflicts with the common registry"@,
            },
    {
        match self {
            PatternExtensionError::CommonPatternConflict(id) => {
                let mut out = chars_of("executable pattern `");
                let mut middle = chars_of(id.as_str());
                out.append(&mut middle);
                let mut tail = chars_of("` conflicts with the common registry");
                out.append(&mut tail);
                string_of(out.as_slice())
            },
        }
    }
}

/// An overlay's evaluations, matches and findings.
#[derive(Debug, Clone, PartialEq, Eq)]
pub struct ExecutableOverlayEvaluation {
    pub evaluations: Vec<PatternExtensionEvaluation>,
    pub pattern_matches: Vec<ExtensionMatch>,
    pub findings: Vec<ExtensionFinding>,
}

/// The state, evidence and outcome an observation gives an enabled pattern:
/// present with its evidence, absent, unknown with its reason, or conflicting
/// with its alternatives; only presence and absence decide an outcome.
pub open spec fn observed_state(o: ObservationView) -> (PatternExtensionState, Seq<EvidenceId>, Option<PatternOutcome>) {
    match o {
        ObservationView::Present(e) => (PatternExtensionState::Present, e, Some(PatternOutcome::Present)),
        ObservationView::Absent(_) => (PatternExtensionState::Absent, seq![], Some(PatternOutcome::Missing)),
        ObservationView::Unknown(reason) => (PatternExtensionState::Unknown(reason), seq![], None),
        ObservationView::Conflict(a) => (PatternExtensionState::Conflict, a, None),
    }
}

fn state_of(o: &Observation) -> (r: (PatternExtensionState, Vec<EvidenceId>, Option<PatternOutcome>))
    ensures
        (r.0, r.1@, r.2) == observed_state(o@),
{
    match o {
        Observation::Present { evidence } => (PatternExtensionState::Present, copy_ids(evidence), Some(PatternOutcome::Present)),
        Observation::Absent { .. } => (PatternExtensionState::Absent, Vec::new(), Some(PatternOutcome::Missing)),
        Observation::Unknown(reason) => (PatternExtensionState::Unknown(*reason), Vec::new(), None),
        Observation::Conflict { alternatives } => (PatternExtensionState::Conflict, copy_ids(alternatives), None),
    }
}

fn copy_ids(v: &Vec<EvidenceId>) -> (r: Vec<EvidenceId>)
    ensures
        r@ == v@,
{
    let mut r: Vec<EvidenceId> = Vec::new();
    let mut i: usize = 0;
    while i < v.len()
        invariant
            i <= v.len(),
            r@ == v@.take(i as int),
        decreases v.len() - i,
    {
        r.push(v[i]);
        i = i + 1;
        assert(r@ =~= v@.take(i as int));
    }
    assert(v@.take(v.len() as int) =~= v@);
    r
}

/// The first definition whose id a common pattern has is at `i`.
pub open spec fn first_conflict_at<A>(defs: Seq<ExtensionDefinition<A>>, common: Seq<Seq<char>>, i: int) -> bool {
    &&& 0 <= i < defs.len()
    &&& common.contains(defs[i].id@)
    &&& forall|j: int| 0 <= j < i ==> !common.contains(#[trigger] defs[j].id@)
}

pub open spec fn common_ids() -> Seq<Seq<char>> {
    common_patterns().map_values(|d: crate::patterns::baseline::DefinitionView| d.id)
}

/// The outcome that the `k`th definition, observed as `o`, contributes:
/// `Some` exactly for enabled definitions whose observation decides one.
pub open spec fn decided<A>(d: ExtensionDefinition<A>, o: ObservationView) -> Option<PatternOutcome> {
    if d.enabled { observed_state(o).2 } else { None }
}

/// The observation that the `k`th definition's predicate gives.
pub open spec fn observed_at<A>(defs: Seq<ExtensionDefinition<A>>, obs: Seq<Vec<Observation>>, k: int) -> ObservationView {
    reference_result(defs[k].predicate.instruction_seq(), obs_views(obs[k]@))
}

/// The definitions among the first `n` that decide an outcome, in order,
/// with that outcome.
pub open spec fn decided_entries<A>(defs: Seq<ExtensionDefinition<A>>, obs: Seq<Vec<Observation>>, n: int) -> Seq<(int, PatternOutcome)>
    decreases n,
{
    if n <= 0 {
        Seq::empty()
    } else {
        let prev = decided_entries(defs, obs, n - 1);
        match decided(defs[n - 1], observed_at(defs, obs, n - 1)) {
            Some(out) => prev.push((n - 1, out)),
            None => prev,
        }
    }
}

/// The definitions among the first `n` whose decided outcome is Missing.
pub open spec fn missing_entries<A>(defs: Seq<ExtensionDefinition<A>>, obs: Seq<Vec<Observation>>, n: int) -> Seq<int>
    decreases n,
{
    if n <= 0 {
        Seq::empty()
    } else {
        let prev = missing_entries(defs, obs, n - 1);
        if decided(defs[n - 1], observed_at(defs, obs, n - 1)) == Some(PatternOutcome::Missing) {
            prev.push(n - 1)
        } else {
            prev
        }
    }
}

/// The definitions of the entries whose outcome is Missing, in order.
pub open spec fn missing_of(entries: Seq<(int, PatternOutcome)>) -> Seq<int>
    decreases entries.len(),
{
    if entries.len() == 0 {
        Seq::empty()
    } else {
        let prev = missing_of(entries.drop_last());
        if entries.last().1 == PatternOutcome::Missing { prev.push(entries.last().0) } else { prev }
    }
}

/// The definitions that get findings are exactly, in order, those among
/// the definitions that decide an outcome whose outcome is Missing: one
/// finding per Missing match, and none for a disabled or undecided
/// definition.
pub proof fn lemma_findings_are_missing_matches<A>(defs: Seq<ExtensionDefinition<A>>, obs: Seq<Vec<Observation>>, n: int)
    requires
        0 <= n,
    ensures
        missing_entries(defs, obs, n) == missing_of(decided_entries(defs, obs, n)),
    decreases n,
{
    if n > 0 {
        lemma_findings_are_missing_matches(defs, obs, n - 1);
        let prev = decided_entries(defs, obs, n - 1);
        match decided(defs[n - 1], observed_at(defs, obs, n - 1)) {
            Some(out) => {
                assert(prev.push((n - 1, out)).drop_last() =~= prev);
            },
            None => {},
        }
    }
}

/// `m` is the match of definition `d`, observed as `o`, with outcome `out`.
pub open spec fn match_of<A>(m: ExtensionMatch, d: ExtensionDefinition<A>, o: ObservationView, out: PatternOutcome) -> bool {
    &&& m.pattern_id@ == d.id@
    &&& m.route == group_route(d.group)
    &&& m.outcome == out
    &&& m.evidence_ids@ == observed_state(o).1
}

/// `f` is the finding of absent definition `d`.
pub open spec fn finding_of<A>(f: ExtensionFinding, d: ExtensionDefinition<A>) -> bool {
    &&& f.title@ == "Executable pattern candidate was not observed"@
    &&& f.message@ == "The explicitly selected data-only predicate `"@ + d.id@ + "` was absent under complete predicate coverage."@
    &&& f.recommendation_title@ == "Review candidate pattern gap"@
    &&& f.recommendation_message@ == "Review the candidate against repository intent; RepoSeiri does not automatically adopt pack policy."@
}

pub open spec fn basis_text(pack_id: Seq<char>, pack_version: Seq<char>) -> Seq<char> {
    "validated data-only predicate from executable pack "@ + pack_id + "@"@ + pack_version
}

/// Evaluates each pack definition, in order: a disabled one is reported as
/// such; an enabled one by its predicate on its atom observations. Decided
/// outcomes become matches, and absences findings for review. A pack that
/// redefines a common pattern is refused.
pub fn evaluate_executable_overlay<A>(
    definitions: &[ExtensionDefinition<A>],
    observations: &[Vec<Observation>],
    pack_id: &str,
    pack_version: &str,
) -> (r: Result<ExecutableOverlayEvaluation, PatternExtensionError>)
    requires
        observations@.len() == definitions@.len(),
        forall|k: int| 0 <= k < definitions@.len() ==> (#[trigger] observations@[k])@.len() == definitions@[k].predicate.atom_seq().len()
            && all_well_formed(obs_views(observations@[k]@)),
    ensures
        (exists|i: int| first_conflict_at(definitions@, common_ids(), i)) <==> r is Err,
        r matches Err(PatternExtensionError::CommonPatternConflict(id)) ==>
            exists|i: int| first_conflict_at(definitions@, common_ids(), i) && id@ == definitions@[i].id@,
        r matches Ok(ev) ==> {
            &&& ev.evaluations@.len() == definitions@.len()
            &&& forall|k: int| 0 <= k < definitions@.len() ==> {
                let d = #[trigger] definitions@[k];
                let e = ev.evaluations@[k];
                let o = reference_result(d.predicate.instruction_seq(), obs_views(observations@[k]@));
                &&& e.pattern_id@ == d.id@
                &&& e.group == d.group
                &&& e.route == group_route(d.group)
                &&& if d.enabled {
                        e.state == observed_state(o).0 && e.evidence_ids@ == observed_state(o).1
                    } else {
                        e.state == PatternExtensionState::Disabled && e.evidence_ids@.len() == 0
                    }
            }
            &&& forall|m: int| 0 <= m < ev.pattern_matches@.len() ==> (#[trigger] ev.pattern_matches@[m]).id@ == stable_id("extension-pattern-match"@, (m + 1) as nat)
                && ev.pattern_matches@[m].basis@ == basis_text(pack_id@, pack_version@)
            &&& forall|m: int| 0 <= m < ev.findings@.len() ==> (#[trigger] ev.findings@[m]).id@ == stable_id("extension-finding"@, (m + 1) as nat)
                && ev.findings@[m].recommendation_id@ == stable_id("extension-rec"@, (m + 1) as nat)
                && ev.findings@[m].severity == Severity::Info && ev.findings@[m].gate == GateKind::Manual
            &&& ev.pattern_matches@.len() == decided_entries(definitions@, observations@, definitions@.len() as int).len()
            &&& forall|m: int| 0 <= m < ev.pattern_matches@.len() ==> {
                let (j, out) = decided_entries(definitions@, observations@, definitions@.len() as int)[m];
                match_of(#[trigger] ev.pattern_matches@[m], definitions@[j], observed_at(definitions@, observations@, j), out)
            }
            &&& ev.findings@.len() == missing_entries(definitions@, observations@, definitions@.len() as int).len()
            &&& forall|m: int| 0 <= m < ev.findings@.len() ==>
                finding_of(#[trigger] ev.findings@[m], definitions@[missing_entries(definitions@, observations@, definitions@.len() as int)[m]])
        },
{
    let registry = crate::patterns::baseline::common_registry();
    let common = registry.definitions();
    let ghost cids = common_ids();
    assert(definition_views(common@).map_values(|d: crate::patterns::baseline::DefinitionView| d.id) =~= cids);
    let mut i: usize = 0;
    while i < definitions.len()
        invariant
            i <= definitions.len(),
            definition_views(common@) == common_patterns(),
            cids == common_ids(),
            forall|j: int| 0 <= j < i ==> !cids.contains(#[trigger] definitions@[j].id@),
        decreases definitions.len() - i,
    {
        let id = chars_of(definitions[i].id.as_str());
        let mut c: usize = 0;
        while c < common.len()
            invariant
                c <= common.len(),
                i < definitions.len(),
                id@ == definitions@[i as int].id@,
                definition_views(common@) == common_patterns(),
                cids == common_ids(),
                forall|j: int| 0 <= j < i ==> !cids.contains(#[trigger] definitions@[j].id@),
                forall|m: int| 0 <= m < c ==> cids[m] != id@,
            decreases common.len() - c,
        {
            assert(cids[c as int] == common@[c as int].id@) by {
                assert(definition_views(common@)[c as int] == common@[c as int]@);
            }
            if equals_str(id.as_slice(), common[c].id) {
                assert(first_conflict_at(definitions@, cids, i as int));
                return Err(PatternExtensionError::CommonPatternConflict(string_of(id.as_slice())));
            }
            c = c + 1;
        }
        assert(!cids.contains(definitions@[i as int].id@)) by {
            assert(cids.len() == common@.len());
            if cids.contains(definitions@[i as int].id@) {
                let m = choose|m: int| 0 <= m < cids.len() && cids[m] == definitions@[i as int].id@;
            }
        }
        i = i + 1;
    }
    proof {
        if exists|x: int| first_conflict_at(definitions@, cids, x) {
            let x = choose|x: int| first_conflict_at(definitions@, cids, x);
        }
    }
    let mut evaluations: Vec<PatternExtensionEvaluation> = Vec::new();
    let mut pattern_matches: Vec<ExtensionMatch> = Vec::new();
    let mut findings: Vec<ExtensionFinding> = Vec::new();
    let mut k: usize = 0;
    while k < definitions.len()
        invariant
            k <= definitions.len(),
            observations@.len() == definitions@.len(),
            forall|j: int| 0 <= j < definitions@.len() ==> (#[trigger] observations@[j])@.len() == definitions@[j].predicate.atom_seq().len()
                && all_well_formed(obs_views(observations@[j]@)),
            evaluations@.len() == k,
            pattern_matches@.len() <= k,
            findings@.len() <= k,
            forall|j: int| 0 <= j < k ==> {
                let d = #[trigger] definitions@[j];
                let e = evaluations@[j];
                let o = reference_result(d.predicate.instruction_seq(), obs_views(observations@[j]@));
                &&& e.pattern_id@ == d.id@
                &&& e.group == d.group
                &&& e.route == group_route(d.group)
                &&& if d.enabled {
                        e.state == observed_state(o).0 && e.evidence_ids@ == observed_state(o).1
                    } else {
                        e.state == PatternExtensionState::Disabled && e.evidence_ids@.len() == 0
                    }
            },
            forall|m: int| 0 <= m < pattern_matches@.len() ==> (#[trigger] pattern_matches@[m]).id@ == stable_id("extension-pattern-match"@, (m + 1) as nat)
                && pattern_matches@[m].basis@ == basis_text(pack_id@, pack_version@),
            forall|m: int| 0 <= m < findings@.len() ==> (#[trigger] findings@[m]).id@ == stable_id("extension-finding"@, (m + 1) as nat)
                && findings@[m].recommendation_id@ == stable_id("extension-rec"@, (m + 1) as nat)
                && findings@[m].severity == Severity::Info && findings@[m].gate == GateKind::Manual,
            pattern_matches@.len() == decided_entries(definitions@, observations@, k as int).len(),
            forall|m: int| 0 <= m < pattern_matches@.len() ==> {
                let (j, out) = decided_entries(definitions@, observations@, k as int)[m];
                match_of(#[trigger] pattern_matches@[m], definitions@[j], observed_at(definitions@, observations@, j), out)
            },
            findings@.len() == missing_entries(definitions@, observations@, k as int).len(),
            forall|m: int| 0 <= m < findings@.len() ==>
                finding_of(#[trigger] findings@[m], definitions@[missing_entries(definitions@, observations@, k as int)[m]]),
        decreases definitions.len() - k,
    {
        let d = &definitions[k];
        let route = route_for_group(d.group);
        let pattern_id = string_of(chars_of(d.id.as_str()).as_slice());
        if !d.enabled {
            evaluations.push(PatternExtensionEvaluation { pattern_id, group: d.group, route, state: PatternExtensionState::Disabled, evidence_ids: Vec::new() });
        } else {
            let observation = d.predicate.evaluate(observations[k].as_slice());
            let (state, evidence_ids, outcome) = state_of(&observation);
            match outcome {
                Some(outcome) => {
                    let number = pattern_matches.len() + 1;
                    let mut basis = chars_of("validated data-only predicate from executable pack ");
                    let mut idc = chars_of(pack_id);
                    basis.append(&mut idc);
                    basis.push('@');
                    let mut vc = chars_of(pack_version);
                    basis.append(&mut vc);
                    proof { reveal_strlit("@"); }
                    assert(basis@ =~= basis_text(pack_id@, pack_version@));
                    pattern_matches.push(ExtensionMatch {
                        id: stable_id_of("extension-pattern-match", number),
                        pattern_id: string_of(chars_of(d.id.as_str()).as_slice()),
                        route,
                        outcome,
                        evidence_ids: copy_ids(&evidence_ids),
                        basis: string_of(basis.as_slice()),
                    });
                    if outcome == PatternOutcome::Missing {
                        let finding_number = findings.len() + 1;
                        let mut message = chars_of("The explicitly selected data-only predicate `");
                        let mut idm = chars_of(d.id.as_str());
                        message.append(&mut idm);
                        let mut tail = chars_of("` was absent under complete predicate coverage.");
                        message.append(&mut tail);
                        findings.push(ExtensionFinding {
                            id: stable_id_of("extension-finding", finding_number),
                            severity: Severity::Info,
                            title: "Executable pattern candidate was not observed".to_owned(),
                            message: string_of(message.as_slice()),
                            recommendation_id: stable_id_of("extension-rec", finding_number),
                            gate: GateKind::Manual,
                            recommendation_title: "Review candidate pattern gap".to_owned(),
                            recommendation_message: "Review the candidate against repository intent; RepoSeiri does not automatically adopt pack policy.".to_owned(),
                        });
                    }
                },
                None => {},
            }
            evaluations.push(PatternExtensionEvaluation { pattern_id, group: d.group, route, state, evidence_ids });
        }
        k = k + 1;
    }
    Ok(ExecutableOverlayEvaluation { evaluations, pattern_matches, findings })
}

} // verus!

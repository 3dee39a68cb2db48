//! The built-in profile catalog: each profile weights the nine baseline
//! patterns, with a priority and a reason for each.

use vstd::prelude::*;
use crate::profiles::registry::{
    all_profiles, has_repeat, profiles_of, registry_check, repeats_earlier, rule_ids, rule_views,
    ProfileDefinition, ProfileKind, ProfilePriority, ProfileRegistry, ProfileRuleDefinition, RuleView,
};
use crate::profiles::weight::StaticProfileWeight;

verus! {

pub open spec fn rv(pattern_id: Seq<char>, weight: u16, priority: ProfilePriority, reason: Seq<char>) -> RuleView {
    RuleView { pattern_id, weight, priority, reason }
}

/// The nine baseline patterns that every profile weights.
pub open spec fn baseline_pattern_ids() -> Seq<Seq<char>> {
    seq![
        "common.identity.readme_present"@,
        "common.docs.route_present"@,
        "common.quickstart.route_present"@,
        "common.license.file_present"@,
        "common.support.route_present"@,
        "common.contributing.route_present"@,
        "common.security.route_present"@,
        "common.release.route_present"@,
        "common.automation.route_present"@,
    ]
}


/// The built-in rules of each profile, in report order.
pub open spec fn catalog(profile: ProfileKind) -> Seq<RuleView> {
    match profile {
        ProfileKind::Common => seq![
            rv("common.identity.readme_present"@, 20, ProfilePriority::Critical, "Every profile needs a visible repository identity route."@),
            rv("common.docs.route_present"@, 20, ProfilePriority::High, "Documentation routing is a common trust path."@),
            rv("common.quickstart.route_present"@, 20, ProfilePriority::High, "A first-run route reduces evaluation friction."@),
            rv("common.license.file_present"@, 20, ProfilePriority::High, "License visibility is a common reuse boundary."@),
            rv("common.support.route_present"@, 5, ProfilePriority::Normal, "Support routing helps separate questions from defects."@),
            rv("common.contributing.route_present"@, 5, ProfilePriority::Normal, "Contribution routing helps external changes stay reproducible."@),
            rv("common.security.route_present"@, 5, ProfilePriority::Normal, "Security routing is a common trust signal."@),
            rv("common.release.route_present"@, 3, ProfilePriority::Low, "Release routing helps users judge change risk."@),
            rv("common.automation.route_present"@, 2, ProfilePriority::Low, "Automation signals make maintenance state easier to inspect."@),
        ],
        ProfileKind::Library => seq![
            rv("common.identity.readme_present"@, 15, ProfilePriority::Critical, "A library needs immediate identity and scope."@),
            rv("common.docs.route_present"@, 22, ProfilePriority::Critical, "Library users need API and usage documentation."@),
            rv("common.quickstart.route_present"@, 18, ProfilePriority::High, "Library adoption depends on a small first example."@),
            rv("common.license.file_present"@, 18, ProfilePriority::High, "Reuse requires a visible license boundary."@),
            rv("common.release.route_present"@, 10, ProfilePriority::High, "Libraries need version and compatibility context."@),
            rv("common.security.route_present"@, 7, ProfilePriority::Normal, "Security disclosure matters for downstream users."@),
            rv("common.contributing.route_present"@, 6, ProfilePriority::Normal, "Libraries commonly benefit from contribution guidance."@),
            rv("common.support.route_present"@, 3, ProfilePriority::Low, "Support routing helps users report integration issues."@),
            rv("common.automation.route_present"@, 1, ProfilePriority::Low, "Automation is useful but secondary to user-facing routes."@),
        ],
        ProfileKind::Cli => seq![
            rv("common.identity.readme_present"@, 15, ProfilePriority::Critical, "A CLI needs immediate command purpose."@),
            rv("common.quickstart.route_present"@, 25, ProfilePriority::Critical, "A CLI should show install and first command quickly."@),
            rv("common.docs.route_present"@, 18, ProfilePriority::High, "CLI flags and workflows need a documentation route."@),
            rv("common.license.file_present"@, 14, ProfilePriority::High, "CLI reuse and packaging need license clarity."@),
            rv("common.release.route_present"@, 10, ProfilePriority::High, "CLI users need update and compatibility notes."@),
            rv("common.support.route_present"@, 8, ProfilePriority::Normal, "CLI users need a route for environment-specific failures."@),
            rv("common.automation.route_present"@, 5, ProfilePriority::Normal, "A visible build or CI signal helps trust installability."@),
            rv("common.security.route_present"@, 3, ProfilePriority::Low, "Security routing is still useful for shipped binaries."@),
            rv("common.contributing.route_present"@, 2, ProfilePriority::Low, "Contribution routing is useful after user workflows are clear."@),
        ],
        ProfileKind::Infra => seq![
            rv("common.identity.readme_present"@, 15, ProfilePriority::Critical, "Infrastructure repositories need clear blast-radius identity."@),
            rv("common.security.route_present"@, 22, ProfilePriority::Critical, "Infrastructure changes need a visible security route."@),
            rv("common.automation.route_present"@, 20, ProfilePriority::Critical, "Infrastructure trust depends heavily on automation signals."@),
            rv("common.docs.route_present"@, 14, ProfilePriority::High, "Operational repositories need runbook or architecture documentation."@),
            rv("common.quickstart.route_present"@, 10, ProfilePriority::High, "First-run guidance should show safe local or dry-run usage."@),
            rv("common.release.route_present"@, 8, ProfilePriority::Normal, "Release routing helps operators evaluate rollout risk."@),
            rv("common.license.file_present"@, 5, ProfilePriority::Normal, "License clarity still matters for reuse."@),
            rv("common.support.route_present"@, 4, ProfilePriority::Normal, "Support routing helps operational incidents find the right channel."@),
            rv("common.contributing.route_present"@, 2, ProfilePriority::Low, "Contribution guidance is secondary to safety and operations."@),
        ],
        ProfileKind::Product => seq![
            rv("common.identity.readme_present"@, 15, ProfilePriority::Critical, "A product repository needs immediate product identity and audience."@),
            rv("common.support.route_present"@, 22, ProfilePriority::Critical, "Product users need a clear support and triage route."@),
            rv("common.docs.route_present"@, 20, ProfilePriority::High, "Product repositories need user-facing documentation."@),
            rv("common.quickstart.route_present"@, 14, ProfilePriority::High, "A first-run route helps users evaluate the product quickly."@),
            rv("common.release.route_present"@, 12, ProfilePriority::High, "Release notes help product users understand change risk."@),
            rv("common.security.route_present"@, 7, ProfilePriority::Normal, "Security disclosure matters when users run or depend on the product."@),
            rv("common.license.file_present"@, 5, ProfilePriority::Normal, "License clarity still matters for distribution and reuse."@),
            rv("common.automation.route_present"@, 3, ProfilePriority::Low, "Automation is useful but secondary to user-facing routes."@),
            rv("common.contributing.route_present"@, 2, ProfilePriority::Low, "Contribution guidance is useful after support and docs routes are clear."@),
        ],
        ProfileKind::Runtime => seq![
            rv("common.identity.readme_present"@, 15, ProfilePriority::Critical, "A runtime or compiler repository needs clear toolchain identity."@),
            rv("common.security.route_present"@, 20, ProfilePriority::Critical, "Runtime and compiler users need a visible security route."@),
            rv("common.release.route_present"@, 18, ProfilePriority::Critical, "Release trains and compatibility notes are central for runtimes."@),
            rv("common.docs.route_present"@, 15, ProfilePriority::High, "Runtime users need build, language, and operational documentation."@),
            rv("common.automation.route_present"@, 12, ProfilePriority::High, "A visible build or test signal matters for runtime reliability review."@),
            rv("common.contributing.route_present"@, 8, ProfilePriority::Normal, "Runtime projects often need contribution and build guidance."@),
            rv("common.quickstart.route_present"@, 6, ProfilePriority::Normal, "A quickstart helps users verify the toolchain locally."@),
            rv("common.license.file_present"@, 4, ProfilePriority::Normal, "License clarity matters for redistribution."@),
            rv("common.support.route_present"@, 2, ProfilePriority::Low, "Support routing is useful but secondary to release and security routes."@),
        ],
        ProfileKind::Docs => seq![
            rv("common.identity.readme_present"@, 15, ProfilePriority::Critical, "A docs repository needs immediate subject identity."@),
            rv("common.docs.route_present"@, 28, ProfilePriority::Critical, "Documentation routing is the primary product surface."@),
            rv("common.quickstart.route_present"@, 18, ProfilePriority::High, "Readers need a first useful path into the material."@),
            rv("common.support.route_present"@, 10, ProfilePriority::High, "Docs users need a route for questions and corrections."@),
            rv("common.contributing.route_present"@, 10, ProfilePriority::Normal, "Docs quality often improves through contribution guidance."@),
            rv("common.license.file_present"@, 8, ProfilePriority::Normal, "Documentation reuse needs license clarity."@),
            rv("common.release.route_present"@, 5, ProfilePriority::Low, "Release routing matters when docs track product versions."@),
            rv("common.security.route_present"@, 3, ProfilePriority::Low, "Security routing is less central unless docs cover sensitive systems."@),
            rv("common.automation.route_present"@, 3, ProfilePriority::Low, "Automation is useful for docs builds but not the first route."@),
        ],
        ProfileKind::Tutorial => seq![
            rv("common.identity.readme_present"@, 15, ProfilePriority::Critical, "A tutorial needs immediate topic identity."@),
            rv("common.quickstart.route_present"@, 30, ProfilePriority::Critical, "Tutorial value depends on the first successful path."@),
            rv("common.docs.route_present"@, 20, ProfilePriority::High, "Supporting documentation keeps the README from becoming a manual."@),
            rv("common.support.route_present"@, 10, ProfilePriority::High, "Learners need a route for questions or corrections."@),
            rv("common.license.file_present"@, 8, ProfilePriority::Normal, "Reuse of tutorial text or code needs license clarity."@),
            rv("common.contributing.route_present"@, 7, ProfilePriority::Normal, "Tutorial corrections need contribution guidance when public."@),
            rv("common.release.route_present"@, 5, ProfilePriority::Low, "Release routing helps when tutorial steps change over time."@),
            rv("common.automation.route_present"@, 3, ProfilePriority::Low, "Automation is useful for checking examples but secondary."@),
            rv("common.security.route_present"@, 2, ProfilePriority::Low, "Security routing is useful when tutorial content touches risky setup."@),
        ],
        ProfileKind::Ml | ProfileKind::Research => seq![
            rv("common.identity.readme_present"@, 18, ProfilePriority::Critical, "An ML, data, or research repository needs clear artifact identity."@),
            rv("common.docs.route_present"@, 22, ProfilePriority::Critical, "Users need method, data, and reproduction documentation."@),
            rv("common.license.file_present"@, 16, ProfilePriority::High, "Research, model, and data reuse need licensing clarity."@),
            rv("common.quickstart.route_present"@, 14, ProfilePriority::High, "Reproduction starts with an executable first path."@),
            rv("common.release.route_present"@, 10, ProfilePriority::Normal, "Release routing helps distinguish paper, artifact, and later changes."@),
            rv("common.contributing.route_present"@, 8, ProfilePriority::Normal, "Contribution routing helps external replication fixes."@),
            rv("common.support.route_present"@, 5, ProfilePriority::Normal, "Support routing gives researchers a contact path."@),
            rv("common.security.route_present"@, 4, ProfilePriority::Low, "Security routing matters when data, models, or dependencies are involved."@),
            rv("common.automation.route_present"@, 3, ProfilePriority::Low, "Automation is useful when reproducibility checks exist."@),
        ],
        ProfileKind::Template => seq![
            rv("common.identity.readme_present"@, 18, ProfilePriority::Critical, "A template needs clear generated-project identity."@),
            rv("common.quickstart.route_present"@, 22, ProfilePriority::Critical, "Template users need a first generation path."@),
            rv("common.docs.route_present"@, 18, ProfilePriority::High, "Template options and customization need documentation routing."@),
            rv("common.license.file_present"@, 14, ProfilePriority::High, "Template reuse needs clear license terms."@),
            rv("common.contributing.route_present"@, 10, ProfilePriority::Normal, "Template maintenance often benefits from contribution guidance."@),
            rv("common.release.route_present"@, 8, ProfilePriority::Normal, "Release routing helps users choose a template version."@),
            rv("common.support.route_present"@, 5, ProfilePriority::Normal, "Support routing helps template users with generation issues."@),
            rv("common.automation.route_present"@, 3, ProfilePriority::Low, "Automation is useful if generated output is validated."@),
            rv("common.security.route_present"@, 2, ProfilePriority::Low, "Security routing is useful when templates create dependency surfaces."@),
        ],
    }
}

/// A rule definition with a non-zero weight.
fn rule(pattern_id: &'static str, weight: u16, priority: ProfilePriority, reason: &'static str) -> (d: ProfileRuleDefinition)
    requires
        weight != 0,
    ensures
        d@ == rv(pattern_id@, weight, priority, reason@),
{
    let w = StaticProfileWeight::from_registry_value(weight).unwrap();
    ProfileRuleDefinition { pattern_id, weight: w, priority, reason }
}

/// The built-in rules of `profile`.
pub fn catalog_rules(profile: ProfileKind) -> (r: Vec<ProfileRuleDefinition>)
    ensures
        rule_views(r@) == catalog(profile),
{
    let r = match profile {
        ProfileKind::Common => vec![
            rule("common.identity.readme_present", 20, ProfilePriority::Critical, "Every profile needs a visible repository identity route."),
            rule("common.docs.route_present", 20, ProfilePriority::High, "Documentation routing is a common trust path."),
            rule("common.quickstart.route_present", 20, ProfilePriority::High, "A first-run route reduces evaluation friction."),
            rule("common.license.file_present", 20, ProfilePriority::High, "License visibility is a common reuse boundary."),
            rule("common.support.route_present", 5, ProfilePriority::Normal, "Support routing helps separate questions from defects."),
            rule("common.contributing.route_present", 5, ProfilePriority::Normal, "Contribution routing helps external changes stay reproducible."),
            rule("common.security.route_present", 5, ProfilePriority::Normal, "Security routing is a common trust signal."),
            rule("common.release.route_present", 3, ProfilePriority::Low, "Release routing helps users judge change risk."),
            rule("common.automation.route_present", 2, ProfilePriority::Low, "Automation signals make maintenance state easier to inspect."),
        ],
        ProfileKind::Library => vec![
            rule("common.identity.readme_present", 15, ProfilePriority::Critical, "A library needs immediate identity and scope."),
            rule("common.docs.route_present", 22, ProfilePriority::Critical, "Library users need API and usage documentation."),
            rule("common.quickstart.route_present", 18, ProfilePriority::High, "Library adoption depends on a small first example."),
            rule("common.license.file_present", 18, ProfilePriority::High, "Reuse requires a visible license boundary."),
            rule("common.release.route_present", 10, ProfilePriority::High, "Libraries need version and compatibility context."),
            rule("common.security.route_present", 7, ProfilePriority::Normal, "Security disclosure matters for downstream users."),
            rule("common.contributing.route_present", 6, ProfilePriority::Normal, "Libraries commonly benefit from contribution guidance."),
            rule("common.support.route_present", 3, ProfilePriority::Low, "Support routing helps users report integration issues."),
            rule("common.automation.route_present", 1, ProfilePriority::Low, "Automation is useful but secondary to user-facing routes."),
        ],
        ProfileKind::Cli => vec![
            rule("common.identity.readme_present", 15, ProfilePriority::Critical, "A CLI needs immediate command purpose."),
            rule("common.quickstart.route_present", 25, ProfilePriority::Critical, "A CLI should show install and first command quickly."),
            rule("common.docs.route_present", 18, ProfilePriority::High, "CLI flags and workflows need a documentation route."),
            rule("common.license.file_present", 14, ProfilePriority::High, "CLI reuse and packaging need license clarity."),
            rule("common.release.route_present", 10, ProfilePriority::High, "CLI users need update and compatibility notes."),
            rule("common.support.route_present", 8, ProfilePriority::Normal, "CLI users need a route for environment-specific failures."),
            rule("common.automation.route_present", 5, ProfilePriority::Normal, "A visible build or CI signal helps trust installability."),
            rule("common.security.route_present", 3, ProfilePriority::Low, "Security routing is still useful for shipped binaries."),
            rule("common.contributing.route_present", 2, ProfilePriority::Low, "Contribution routing is useful after user workflows are clear."),
        ],
        ProfileKind::Infra => vec![
            rule("common.identity.readme_present", 15, ProfilePriority::Critical, "Infrastructure repositories need clear blast-radius identity."),
            rule("common.security.route_present", 22, ProfilePriority::Critical, "Infrastructure changes need a visible security route."),
            rule("common.automation.route_present", 20, ProfilePriority::Critical, "Infrastructure trust depends heavily on automation signals."),
            rule("common.docs.route_present", 14, ProfilePriority::High, "Operational repositories need runbook or architecture documentation."),
            rule("common.quickstart.route_present", 10, ProfilePriority::High, "First-run guidance should show safe local or dry-run usage."),
            rule("common.release.route_present", 8, ProfilePriority::Normal, "Release routing helps operators evaluate rollout risk."),
            rule("common.license.file_present", 5, ProfilePriority::Normal, "License clarity still matters for reuse."),
            rule("common.support.route_present", 4, ProfilePriority::Normal, "Support routing helps operational incidents find the right channel."),
            rule("common.contributing.route_present", 2, ProfilePriority::Low, "Contribution guidance is secondary to safety and operations."),
        ],
        ProfileKind::Product => vec![
            rule("common.identity.readme_present", 15, ProfilePriority::Critical, "A product repository needs immediate product identity and audience."),
            rule("common.support.route_present", 22, ProfilePriority::Critical, "Product users need a clear support and triage route."),
            rule("common.docs.route_present", 20, ProfilePriority::High, "Product repositories need user-facing documentation."),
            rule("common.quickstart.route_present", 14, ProfilePriority::High, "A first-run route helps users evaluate the product quickly."),
            rule("common.release.route_present", 12, ProfilePriority::High, "Release notes help product users understand change risk."),
            rule("common.security.route_present", 7, ProfilePriority::Normal, "Security disclosure matters when users run or depend on the product."),
            rule("common.license.file_present", 5, ProfilePriority::Normal, "License clarity still matters for distribution and reuse."),
            rule("common.automation.route_present", 3, ProfilePriority::Low, "Automation is useful but secondary to user-facing routes."),
            rule("common.contributing.route_present", 2, ProfilePriority::Low, "Contribution guidance is useful after support and docs routes are clear."),
        ],
        ProfileKind::Runtime => vec![
            rule("common.identity.readme_present", 15, ProfilePriority::Critical, "A runtime or compiler repository needs clear toolchain identity."),
            rule("common.security.route_present", 20, ProfilePriority::Critical, "Runtime and compiler users need a visible security route."),
            rule("common.release.route_present", 18, ProfilePriority::Critical, "Release trains and compatibility notes are central for runtimes."),
            rule("common.docs.route_present", 15, ProfilePriority::High, "Runtime users need build, language, and operational documentation."),
            rule("common.automation.route_present", 12, ProfilePriority::High, "A visible build or test signal matters for runtime reliability review."),
            rule("common.contributing.route_present", 8, ProfilePriority::Normal, "Runtime projects often need contribution and build guidance."),
            rule("common.quickstart.route_present", 6, ProfilePriority::Normal, "A quickstart helps users verify the toolchain locally."),
            rule("common.license.file_present", 4, ProfilePriority::Normal, "License clarity matters for redistribution."),
            rule("common.support.route_present", 2, ProfilePriority::Low, "Support routing is useful but secondary to release and security routes."),
        ],
        ProfileKind::Docs => vec![
            rule("common.identity.readme_present", 15, ProfilePriority::Critical, "A docs repository needs immediate subject identity."),
            rule("common.docs.route_present", 28, ProfilePriority::Critical, "Documentation routing is the primary product surface."),
            rule("common.quickstart.route_present", 18, ProfilePriority::High, "Readers need a first useful path into the material."),
            rule("common.support.route_present", 10, ProfilePriority::High, "Docs users need a route for questions and corrections."),
            rule("common.contributing.route_present", 10, ProfilePriority::Normal, "Docs quality often improves through contribution guidance."),
            rule("common.license.file_present", 8, ProfilePriority::Normal, "Documentation reuse needs license clarity."),
            rule("common.release.route_present", 5, ProfilePriority::Low, "Release routing matters when docs track product versions."),
            rule("common.security.route_present", 3, ProfilePriority::Low, "Security routing is less central unless docs cover sensitive systems."),
            rule("common.automation.route_present", 3, ProfilePriority::Low, "Automation is useful for docs builds but not the first route."),
        ],
        ProfileKind::Tutorial => vec![
            rule("common.identity.readme_present", 15, ProfilePriority::Critical, "A tutorial needs immediate topic identity."),
            rule("common.quickstart.route_present", 30, ProfilePriority::Critical, "Tutorial value depends on the first successful path."),
            rule("common.docs.route_present", 20, ProfilePriority::High, "Supporting documentation keeps the README from becoming a manual."),
            rule("common.support.route_present", 10, ProfilePriority::High, "Learners need a route for questions or corrections."),
            rule("common.license.file_present", 8, ProfilePriority::Normal, "Reuse of tutorial text or code needs license clarity."),
            rule("common.contributing.route_present", 7, ProfilePriority::Normal, "Tutorial corrections need contribution guidance when public."),
            rule("common.release.route_present", 5, ProfilePriority::Low, "Release routing helps when tutorial steps change over time."),
            rule("common.automation.route_present", 3, ProfilePriority::Low, "Automation is useful for checking examples but secondary."),
            rule("common.security.route_present", 2, ProfilePriority::Low, "Security routing is useful when tutorial content touches risky setup."),
        ],
        ProfileKind::Ml | ProfileKind::Research => vec![
            rule("common.identity.readme_present", 18, ProfilePriority::Critical, "An ML, data, or research repository needs clear artifact identity."),
            rule("common.docs.route_present", 22, ProfilePriority::Critical, "Users need method, data, and reproduction documentation."),
            rule("common.license.file_present", 16, ProfilePriority::High, "Research, model, and data reuse need licensing clarity."),
            rule("common.quickstart.route_present", 14, ProfilePriority::High, "Reproduction starts with an executable first path."),
            rule("common.release.route_present", 10, ProfilePriority::Normal, "Release routing helps distinguish paper, artifact, and later changes."),
            rule("common.contributing.route_present", 8, ProfilePriority::Normal, "Contribution routing helps external replication fixes."),
            rule("common.support.route_present", 5, ProfilePriority::Normal, "Support routing gives researchers a contact path."),
            rule("common.security.route_present", 4, ProfilePriority::Low, "Security routing matters when data, models, or dependencies are involved."),
            rule("common.automation.route_present", 3, ProfilePriority::Low, "Automation is useful when reproducibility checks exist."),
        ],
        ProfileKind::Template => vec![
            rule("common.identity.readme_present", 18, ProfilePriority::Critical, "A template needs clear generated-project identity."),
            rule("common.quickstart.route_present", 22, ProfilePriority::Critical, "Template users need a first generation path."),
            rule("common.docs.route_present", 18, ProfilePriority::High, "Template options and customization need documentation routing."),
            rule("common.license.file_present", 14, ProfilePriority::High, "Template reuse needs clear license terms."),
            rule("common.contributing.route_present", 10, ProfilePriority::Normal, "Template maintenance often benefits from contribution guidance."),
            rule("common.release.route_present", 8, ProfilePriority::Normal, "Release routing helps users choose a template version."),
            rule("common.support.route_present", 5, ProfilePriority::Normal, "Support routing helps template users with generation issues."),
            rule("common.automation.route_present", 3, ProfilePriority::Low, "Automation is useful if generated output is validated."),
            rule("common.security.route_present", 2, ProfilePriority::Low, "Security routing is useful when templates create dependency surfaces."),
        ],
    };
    assert(rule_views(r@) =~= catalog(profile));
    r
}

/// The sum of the weights of `rules`.
pub open spec fn total_weight(rules: Seq<RuleView>) -> nat
    decreases rules.len(),
{
    if rules.len() == 0 {
        0
    } else {
        total_weight(rules.drop_last()) + (rules.last().weight as nat)
    }
}

pub open spec fn view_ids(rules: Seq<RuleView>) -> Seq<Seq<char>> {
    rules.map_values(|v: RuleView| v.pattern_id)
}

/// The baseline ids differ pairwise: each has its own eighth and ninth characters.
proof fn lemma_baseline_ids_distinct()
    ensures
        forall|a: int, b: int|
            0 <= a < 9 && 0 <= b < 9 && a != b ==> #[trigger] baseline_pattern_ids()[a] != #[trigger] baseline_pattern_ids()[b],
{
    reveal_strlit("common.identity.readme_present");
    reveal_strlit("common.docs.route_present");
    reveal_strlit("common.quickstart.route_present");
    reveal_strlit("common.license.file_present");
    reveal_strlit("common.support.route_present");
    reveal_strlit("common.contributing.route_present");
    reveal_strlit("common.security.route_present");
    reveal_strlit("common.release.route_present");
    reveal_strlit("common.automation.route_present");
    let ids = baseline_pattern_ids();
    let keys: Seq<(char, char)> = seq![
        ('i', 'd'), ('d', 'o'), ('q', 'u'), ('l', 'i'), ('s', 'u'), ('c', 'o'), ('s', 'e'), ('r', 'e'), ('a', 'u'),
    ];
    assert forall|a: int| 0 <= a < 9 implies (ids[a][7], ids[a][8]) == #[trigger] keys[a] by {}
    assert forall|a: int, b: int|
        0 <= a < 9 && 0 <= b < 9 && a != b implies #[trigger] ids[a] != #[trigger] ids[b] by {
        assert(keys[a] != keys[b]);
        if ids[a] == ids[b] {
            assert((ids[a][7], ids[a][8]) == keys[a]);
            assert((ids[b][7], ids[b][8]) == keys[b]);
        }
    }
}

/// Each profile weights every baseline pattern exactly once, with weights
/// that total 100.
pub proof fn lemma_catalog_shape(profile: ProfileKind)
    ensures
        catalog(profile).len() == 9,
        total_weight(catalog(profile)) == 100,
        !has_repeat(view_ids(catalog(profile))),
        forall|id: Seq<char>| view_ids(catalog(profile)).contains(id) <==> baseline_pattern_ids().contains(id),
{
    lemma_baseline_ids_distinct();
    let c = catalog(profile);
    let ids = view_ids(c);
    let base = baseline_pattern_ids();
    reveal_with_fuel(total_weight, 10);
    assert(c.len() == 9);
    assert(total_weight(c) == 100);
    // Every id of the profile is a baseline id, and every baseline id is one of the profile's.
    assert forall|k: int| 0 <= k < 9 implies #[trigger] base.contains(ids[k]) by {
        assert(ids[k] == c[k].pattern_id);
    }
    assert forall|k: int| 0 <= k < 9 implies #[trigger] ids.contains(base[k]) by {
        let m = choose|m: int| 0 <= m < 9 && c[m].pattern_id == base[k];
        assert(ids[m] == base[k]);
    }
    assert forall|id: Seq<char>| ids.contains(id) <==> base.contains(id) by {
        if ids.contains(id) {
            let k = choose|k: int| 0 <= k < ids.len() && ids[k] == id;
            assert(base.contains(ids[k]));
        }
        if base.contains(id) {
            let k = choose|k: int| 0 <= k < base.len() && base[k] == id;
            assert(ids.contains(base[k]));
        }
    }
    assert(!has_repeat(ids)) by {
        if has_repeat(ids) {
            let j = choose|j: int| repeats_earlier(ids, j);
            let k = choose|k: int| 0 <= k < j && ids.take(j)[k] == ids[j];
            assert(ids[k] == ids[j]);
            let a = choose|a: int| 0 <= a < 9 && base[a] == ids[k];
            let b = choose|b: int| 0 <= b < 9 && base[b] == ids[j];
            assert(base[a] == base[b]);
        }
    }
}

/// The built-in registry: one definition per profile, in declaration order,
/// each with the profile's catalog rules.
pub fn common_profile_registry() -> (r: ProfileRegistry)
    ensures
        profiles_of(r.defs()) == all_profiles(),
        forall|i: int| 0 <= i < r.defs().len() ==> rule_views((#[trigger] r.defs()[i]).rules@) == catalog(r.defs()[i].profile),
{
    let all = ProfileKind::all();
    let mut definitions: Vec<ProfileDefinition> = Vec::new();
    let mut i: usize = 0;
    while i < all.len()
        invariant
            i <= all.len(),
            all@ == all_profiles(),
            definitions@.len() == i,
            forall|k: int| 0 <= k < i ==> (#[trigger] definitions@[k]).profile == all_profiles()[k],
            forall|k: int| 0 <= k < i ==> rule_views((#[trigger] definitions@[k]).rules@) == catalog(all_profiles()[k]),
        decreases all.len() - i,
    {
        let profile = all[i];
        let rules = catalog_rules(profile);
        definitions.push(ProfileDefinition { profile, rules });
        i = i + 1;
    }
    assert(profiles_of(definitions@) =~= all_profiles());
    proof { lemma_catalog_complete(definitions@); }
    ProfileRegistry::from_complete(definitions)
}

/// Definitions of every profile in order, each with its catalog rules, pass
/// the registry check.
proof fn lemma_catalog_complete(defs: Seq<ProfileDefinition>)
    requires
        profiles_of(defs) == all_profiles(),
        forall|k: int| 0 <= k < defs.len() ==> rule_views((#[trigger] defs[k]).rules@) == catalog(all_profiles()[k]),
    ensures
        registry_check(defs) is Ok,
{
    assert(profiles_of(defs).len() == defs.len());
    assert(defs.len() == 11);
    assert forall|i: int| 0 <= i < defs.len() implies #[trigger] crate::profiles::registry::definition_error(defs, i) is None by {
        let d = defs[i];
        assert(d.profile == all_profiles()[i]);
        lemma_catalog_shape(d.profile);
        assert(rule_views(d.rules@) == catalog(d.profile));
        assert(rule_ids(d.rules@) =~= view_ids(catalog(d.profile))) by {
            assert forall|k: int| 0 <= k < d.rules@.len() implies rule_ids(d.rules@)[k] == view_ids(catalog(d.profile))[k] by {
                assert(rule_views(d.rules@)[k] == d.rules@[k]@);
            }
        }
        assert(!profiles_of(defs).take(i).contains(d.profile)) by {
            if profiles_of(defs).take(i).contains(d.profile) {
                let m = choose|m: int| 0 <= m < i && profiles_of(defs).take(i)[m] == d.profile;
                assert(all_profiles()[m] == all_profiles()[i]);
            }
        }
        assert(d.rules@.len() == 9) by {
            assert(rule_views(d.rules@).len() == d.rules@.len());
        }
    }
    assert forall|i: int| 0 <= i < 11 implies #[trigger] profiles_of(defs).contains(all_profiles()[i]) by {
        assert(profiles_of(defs)[i] == all_profiles()[i]);
    }
}

/// The built-in rules of `profile`, as the registry holds them.
pub fn profile_rules(profile: ProfileKind) -> (r: Vec<ProfileRuleDefinition>)
    ensures
        rule_views(r@) == catalog(profile),
{
    catalog_rules(profile)
}

/// The profiles that compete as branches, each with its static order.
pub open spec fn branch_order() -> Seq<(ProfileKind, u16)> {
    seq![
        (ProfileKind::Library, 0u16),
        (ProfileKind::Infra, 0u16),
        (ProfileKind::Cli, 0u16),
        (ProfileKind::Product, 0u16),
        (ProfileKind::Runtime, 0u16),
        (ProfileKind::Docs, 0u16),
        (ProfileKind::Tutorial, 0u16),
        (ProfileKind::Ml, 0u16),
        (ProfileKind::Research, 0u16),
        (ProfileKind::Template, 0u16),
    ]
}

/// `branch_order()`.
pub fn branch_profiles() -> (r: Vec<(ProfileKind, u16)>)
    ensures
        r@ == branch_order(),
{
    let r = vec![
        (ProfileKind::Library, 0u16),
        (ProfileKind::Infra, 0u16),
        (ProfileKind::Cli, 0u16),
        (ProfileKind::Product, 0u16),
        (ProfileKind::Runtime, 0u16),
        (ProfileKind::Docs, 0u16),
        (ProfileKind::Tutorial, 0u16),
        (ProfileKind::Ml, 0u16),
        (ProfileKind::Research, 0u16),
        (ProfileKind::Template, 0u16),
    ];
    assert(r@ =~= branch_order());
    r
}

} // verus!

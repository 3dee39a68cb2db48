//! The common baseline: the built-in pattern registry, and its evaluation
//! against a repository's evidence into pattern matches, baseline rules and
//! findings.

use vstd::prelude::*;
use crate::fs::classify::ImportantFileKind;
use crate::markdown::routes::RouteKind;
use crate::patterns::model::PatternAdoptionStage;
use crate::profiles::report::{
    clone_strings, decimal, decimal_chars, opt_view, zero_padded, zero_padded_chars, GateKind,
    Severity,
};
use crate::profiles::scoring::{string_views, BaselineRuleResult, BaselineStatus};
use crate::text::{chars_of, equals_str, string_of};

verus! {

/// The pattern groups, in report order.
#[derive(Debug, Clone, Copy, PartialEq, Eq, Structural)]
pub enum PatternGroup {
    Idn,
    Doc,
    Qst,
    Sup,
    Sec,
    Ctr,
    Int,
    Aut,
    Rel,
    Own,
    Gov,
    Hyg,
    Lif,
}

/// What a piece of evidence records.
#[derive(Debug, Clone, Copy, PartialEq, Eq, Structural)]
pub enum EvidenceKind {
    ReadmePresent,
    MarkdownHeading,
    MarkdownLink,
    RouteCandidate,
    ImportantFile,
    /// Any other kind of evidence; no detector selects it.
    Other,
}

#[derive(Debug, Clone, Copy, PartialEq, Eq, Structural)]
pub enum BaselineRequirement {
    Required,
    Optional,
}

/// What evidence a pattern looks for.
#[derive(Debug, Clone, Copy, PartialEq, Eq, Structural)]
pub enum PatternDetector {
    EvidenceKind(EvidenceKind),
    Route(RouteKind),
    ReadmeRoute(RouteKind),
    ImportantFile(ImportantFileKind),
}

/// A registered pattern.
#[derive(Debug, Clone, PartialEq, Eq)]
pub struct PatternDefinition {
    pub id: &'static str,
    pub group: PatternGroup,
    pub title: &'static str,
    pub route: Option<RouteKind>,
    pub detector: PatternDetector,
    pub requirement: BaselineRequirement,
    pub adoption_stage: PatternAdoptionStage,
    pub missing_severity: Severity,
    pub missing_gate: GateKind,
    pub missing_title: &'static str,
    pub missing_message: &'static str,
    pub recommendation_title: &'static str,
    pub recommendation_message: &'static str,
}

pub struct DefinitionView {
    pub id: Seq<char>,
    pub group: PatternGroup,
    pub title: Seq<char>,
    pub route: Option<RouteKind>,
    pub detector: PatternDetector,
    pub requirement: BaselineRequirement,
    pub adoption_stage: PatternAdoptionStage,
    pub missing_severity: Severity,
    pub missing_gate: GateKind,
    pub missing_title: Seq<char>,
    pub missing_message: Seq<char>,
    pub recommendation_title: Seq<char>,
    pub recommendation_message: Seq<char>,
}

impl View for PatternDefinition {
    type V = DefinitionView;

    open spec fn view(&self) -> DefinitionView {
        DefinitionView {
            id: self.id@,
            group: self.group,
            title: self.title@,
            route: self.route,
            detector: self.detector,
            requirement: self.requirement,
            adoption_stage: self.adoption_stage,
            missing_severity: self.missing_severity,
            missing_gate: self.missing_gate,
            missing_title: self.missing_title@,
            missing_message: self.missing_message@,
            recommendation_title: self.recommendation_title@,
            recommendation_message: self.recommendation_message@,
        }
    }
}

pub open spec fn definition_views(v: Seq<PatternDefinition>) -> Seq<DefinitionView> {
    v.map_values(|d: PatternDefinition| d@)
}

/// A pattern of the common baseline.
fn baseline_pattern(
    group: PatternGroup,
    id: &'static str,
    title: &'static str,
    route: Option<RouteKind>,
    detector: PatternDetector,
    requirement: BaselineRequirement,
    missing_severity: Severity,
    missing_gate: GateKind,
    missing_title: &'static str,
    missing_message: &'static str,
    recommendation_title: &'static str,
    recommendation_message: &'static str,
) -> (d: PatternDefinition)
    ensures
        d@ == (DefinitionView {
            id: id@, group, title: title@, route, detector, requirement,
            adoption_stage: PatternAdoptionStage::CommonBaseline, missing_severity, missing_gate,
            missing_title: missing_title@, missing_message: missing_message@,
            recommendation_title: recommendation_title@, recommendation_message: recommendation_message@,
        }),
{
    PatternDefinition {
        id, group, title, route, detector, requirement,
        adoption_stage: PatternAdoptionStage::CommonBaseline, missing_severity, missing_gate,
        missing_title, missing_message, recommendation_title, recommendation_message,
    }
}

/// A candidate pattern: optional, informational, and not evaluated until
/// adopted.
fn candidate_pattern(
    group: PatternGroup,
    id: &'static str,
    title: &'static str,
    route: Option<RouteKind>,
    detector: PatternDetector,
    missing_gate: GateKind,
    recommendation_title: &'static str,
    recommendation_message: &'static str,
) -> (d: PatternDefinition)
    ensures
        d@ == (DefinitionView {
            id: id@, group, title: title@, route, detector, requirement: BaselineRequirement::Optional,
            adoption_stage: PatternAdoptionStage::Candidate, missing_severity: Severity::Info, missing_gate,
            missing_title: "Candidate pattern is not active"@,
            missing_message: "This registry candidate is not evaluated by the common baseline until calibration review adopts it."@,
            recommendation_title: recommendation_title@, recommendation_message: recommendation_message@,
        }),
{
    PatternDefinition {
        id, group, title, route, detector, requirement: BaselineRequirement::Optional,
        adoption_stage: PatternAdoptionStage::Candidate, missing_severity: Severity::Info, missing_gate,
        missing_title: "Candidate pattern is not active",
        missing_message: "This registry candidate is not evaluated by the common baseline until calibration review adopts it.",
        recommendation_title, recommendation_message,
    }
}

/// A list of pattern definitions.
#[derive(Debug, Clone, PartialEq, Eq)]
pub struct PatternRegistry {
    definitions: Vec<PatternDefinition>,
}

impl PatternRegistry {
    pub closed spec fn defs(self) -> Seq<PatternDefinition> {
        self.definitions@
    }

    pub fn new(definitions: Vec<PatternDefinition>) -> (r: Self)
        ensures
            r.defs() == definitions@,
    {
        PatternRegistry { definitions }
    }

    pub fn definitions(&self) -> (r: &[PatternDefinition])
        ensures
            r@ == self.defs(),
    {
        self.definitions.as_slice()
    }
}

/// A pattern group's title and description.
#[derive(Debug, Clone, Copy, PartialEq, Eq)]
pub struct PatternGroupDefinition {
    pub group: PatternGroup,
    pub title: &'static str,
    pub description: &'static str,
}

/// The built-in registry, in report order.
pub open spec fn common_patterns() -> Seq<DefinitionView> {
    seq![
        DefinitionView {
            id: "common.identity.readme_present"@, group: PatternGroup::Idn, title: "Root README is present"@, route: Some(RouteKind::Identity), detector: PatternDetector::EvidenceKind(EvidenceKind::ReadmePresent),
            requirement: BaselineRequirement::Required, adoption_stage: PatternAdoptionStage::CommonBaseline, missing_severity: Severity::Medium, missing_gate: GateKind::Manual,
            missing_title: "README is missing"@, missing_message: "RepoSeiri could not find a README at the repository root."@,
            recommendation_title: "Create README routing hub"@, recommendation_message: "Create a README that identifies the repository and routes users to docs, support, contributing, security, license, and release information."@,
        },
        DefinitionView {
            id: "common.docs.route_present"@, group: PatternGroup::Doc, title: "Documentation route is visible"@, route: Some(RouteKind::Docs), detector: PatternDetector::ReadmeRoute(RouteKind::Docs),
            requirement: BaselineRequirement::Required, adoption_stage: PatternAdoptionStage::CommonBaseline, missing_severity: Severity::Low, missing_gate: GateKind::Safe,
            missing_title: "Documentation route is missing"@, missing_message: "The common baseline did not detect a documentation route."@,
            recommendation_title: "Expose docs route"@, recommendation_message: "Add or expose a README link to documentation when documentation exists, or keep the finding as a planning item until documentation is created."@,
        },
        DefinitionView {
            id: "common.quickstart.route_present"@, group: PatternGroup::Qst, title: "Quickstart route is visible"@, route: Some(RouteKind::Quickstart), detector: PatternDetector::ReadmeRoute(RouteKind::Quickstart),
            requirement: BaselineRequirement::Required, adoption_stage: PatternAdoptionStage::CommonBaseline, missing_severity: Severity::Low, missing_gate: GateKind::Guarded,
            missing_title: "Quickstart route is missing"@, missing_message: "The common baseline did not detect install, usage, example, or quickstart language."@,
            recommendation_title: "Add first-run guidance"@, recommendation_message: "Add quickstart guidance only after confirming the repository's intended user workflow."@,
        },
        DefinitionView {
            id: "common.license.file_present"@, group: PatternGroup::Lif, title: "License file is present"@, route: Some(RouteKind::License), detector: PatternDetector::ImportantFile(ImportantFileKind::License),
            requirement: BaselineRequirement::Required, adoption_stage: PatternAdoptionStage::CommonBaseline, missing_severity: Severity::Low, missing_gate: GateKind::Manual,
            missing_title: "License file is missing"@, missing_message: "The common baseline did not detect a root license file."@,
            recommendation_title: "Choose a license"@, recommendation_message: "License selection is a human decision; RepoSeiri should only route or report it before a maintainer chooses the license."@,
        },
        DefinitionView {
            id: "common.support.route_present"@, group: PatternGroup::Sup, title: "Support route is visible"@, route: Some(RouteKind::Support), detector: PatternDetector::ReadmeRoute(RouteKind::Support),
            requirement: BaselineRequirement::Optional, adoption_stage: PatternAdoptionStage::CommonBaseline, missing_severity: Severity::Info, missing_gate: GateKind::Guarded,
            missing_title: "Support route is not visible"@, missing_message: "The common baseline did not detect a support or question route."@,
            recommendation_title: "Expose support route"@, recommendation_message: "Add a support route only after confirming how this repository wants to handle questions and bug reports."@,
        },
        DefinitionView {
            id: "common.contributing.route_present"@, group: PatternGroup::Ctr, title: "Contributing route is visible"@, route: Some(RouteKind::Contributing), detector: PatternDetector::ReadmeRoute(RouteKind::Contributing),
            requirement: BaselineRequirement::Optional, adoption_stage: PatternAdoptionStage::CommonBaseline, missing_severity: Severity::Info, missing_gate: GateKind::Guarded,
            missing_title: "Contributing route is not visible"@, missing_message: "The common baseline did not detect a contribution route."@,
            recommendation_title: "Expose contribution route"@, recommendation_message: "Add a contribution route when external contribution is expected; otherwise keep this as informational."@,
        },
        DefinitionView {
            id: "common.security.route_present"@, group: PatternGroup::Sec, title: "Security route is visible"@, route: Some(RouteKind::Security), detector: PatternDetector::ReadmeRoute(RouteKind::Security),
            requirement: BaselineRequirement::Optional, adoption_stage: PatternAdoptionStage::CommonBaseline, missing_severity: Severity::Info, missing_gate: GateKind::Manual,
            missing_title: "Security route is not visible"@, missing_message: "The common baseline did not detect a security disclosure route."@,
            recommendation_title: "Expose security policy route"@, recommendation_message: "Security policy content is a maintainer decision; RepoSeiri should not invent disclosure policy without confirmation."@,
        },
        DefinitionView {
            id: "common.release.route_present"@, group: PatternGroup::Rel, title: "Release route is visible"@, route: Some(RouteKind::Release), detector: PatternDetector::ReadmeRoute(RouteKind::Release),
            requirement: BaselineRequirement::Optional, adoption_stage: PatternAdoptionStage::CommonBaseline, missing_severity: Severity::Info, missing_gate: GateKind::Guarded,
            missing_title: "Release route is not visible"@, missing_message: "The common baseline did not detect changelog, release, version, or compatibility routing."@,
            recommendation_title: "Expose release route"@, recommendation_message: "Add release or changelog routing when users need update-risk context."@,
        },
        DefinitionView {
            id: "common.lifecycle.route_present"@, group: PatternGroup::Lif, title: "Lifecycle route is visible"@, route: Some(RouteKind::Lifecycle), detector: PatternDetector::ReadmeRoute(RouteKind::Lifecycle),
            requirement: BaselineRequirement::Optional, adoption_stage: PatternAdoptionStage::CommonBaseline, missing_severity: Severity::Info, missing_gate: GateKind::Manual,
            missing_title: "Lifecycle route is not visible"@, missing_message: "The common baseline did not detect maintenance, deprecation, supported-version, archival, or end-of-life routing."@,
            recommendation_title: "Expose lifecycle route"@, recommendation_message: "Route existing lifecycle guidance only after confirming the project's real maintenance, deprecation, or version-support policy."@,
        },
        DefinitionView {
            id: "common.automation.route_present"@, group: PatternGroup::Aut, title: "Automation signal is visible"@, route: Some(RouteKind::Automation), detector: PatternDetector::Route(RouteKind::Automation),
            requirement: BaselineRequirement::Optional, adoption_stage: PatternAdoptionStage::CommonBaseline, missing_severity: Severity::Info, missing_gate: GateKind::Guarded,
            missing_title: "Automation signal is not visible"@, missing_message: "The common baseline did not detect CI, workflow, badge, or automation evidence."@,
            recommendation_title: "Expose automation signal"@, recommendation_message: "Add automation evidence only when the repository has a real workflow or test signal to expose."@,
        },
        DefinitionView {
            id: "SUP-001"@, group: PatternGroup::Sup, title: "Support policy file is present"@, route: Some(RouteKind::Support), detector: PatternDetector::ImportantFile(ImportantFileKind::Support),
            requirement: BaselineRequirement::Optional, adoption_stage: PatternAdoptionStage::Candidate, missing_severity: Severity::Info, missing_gate: GateKind::Guarded,
            missing_title: "Candidate pattern is not active"@, missing_message: "This registry candidate is not evaluated by the common baseline until calibration review adopts it."@,
            recommendation_title: "Expose support policy file"@, recommendation_message: "Prefer routing an existing SUPPORT file before drafting a new support policy."@,
        },
        DefinitionView {
            id: "SEC-001"@, group: PatternGroup::Sec, title: "Security policy file is present"@, route: Some(RouteKind::Security), detector: PatternDetector::ImportantFile(ImportantFileKind::Security),
            requirement: BaselineRequirement::Optional, adoption_stage: PatternAdoptionStage::Candidate, missing_severity: Severity::Info, missing_gate: GateKind::Manual,
            missing_title: "Candidate pattern is not active"@, missing_message: "This registry candidate is not evaluated by the common baseline until calibration review adopts it."@,
            recommendation_title: "Expose security policy file"@, recommendation_message: "Prefer routing an existing SECURITY file before proposing new disclosure policy content."@,
        },
        DefinitionView {
            id: "SEC-004"@, group: PatternGroup::Sec, title: "Security automation workflow is present"@, route: Some(RouteKind::Security), detector: PatternDetector::ImportantFile(ImportantFileKind::SecurityAutomation),
            requirement: BaselineRequirement::Optional, adoption_stage: PatternAdoptionStage::Candidate, missing_severity: Severity::Info, missing_gate: GateKind::Guarded,
            missing_title: "Candidate pattern is not active"@, missing_message: "This registry candidate is not evaluated by the common baseline until calibration review adopts it."@,
            recommendation_title: "Expose security automation signal"@, recommendation_message: "Surface existing CodeQL, vulnerability scanner, fuzzing, Scorecard, or security workflow evidence without claiming security outcomes."@,
        },
        DefinitionView {
            id: "SEC-007"@, group: PatternGroup::Sec, title: "Dependency bot configuration is present"@, route: Some(RouteKind::Automation), detector: PatternDetector::ImportantFile(ImportantFileKind::DependencyBot),
            requirement: BaselineRequirement::Optional, adoption_stage: PatternAdoptionStage::Candidate, missing_severity: Severity::Info, missing_gate: GateKind::Guarded,
            missing_title: "Candidate pattern is not active"@, missing_message: "This registry candidate is not evaluated by the common baseline until calibration review adopts it."@,
            recommendation_title: "Expose dependency bot signal"@, recommendation_message: "Surface existing Dependabot or Renovate configuration as supply-chain routing evidence without inventing update policy."@,
        },
        DefinitionView {
            id: "INT-001"@, group: PatternGroup::Int, title: "Issue intake route is visible"@, route: Some(RouteKind::Support), detector: PatternDetector::ReadmeRoute(RouteKind::Support),
            requirement: BaselineRequirement::Optional, adoption_stage: PatternAdoptionStage::Candidate, missing_severity: Severity::Info, missing_gate: GateKind::Guarded,
            missing_title: "Candidate pattern is not active"@, missing_message: "This registry candidate is not evaluated by the common baseline until calibration review adopts it."@,
            recommendation_title: "Expose issue intake route"@, recommendation_message: "Route users to the repository's real bug, feature, question, or discussion intake surface."@,
        },
        DefinitionView {
            id: "INT-002"@, group: PatternGroup::Int, title: "Issue template file is present"@, route: Some(RouteKind::Intake), detector: PatternDetector::ImportantFile(ImportantFileKind::IssueTemplate),
            requirement: BaselineRequirement::Optional, adoption_stage: PatternAdoptionStage::Candidate, missing_severity: Severity::Info, missing_gate: GateKind::Guarded,
            missing_title: "Candidate pattern is not active"@, missing_message: "This registry candidate is not evaluated by the common baseline until calibration review adopts it."@,
            recommendation_title: "Expose issue template signal"@, recommendation_message: "Route users to existing issue templates before proposing new triage structure."@,
        },
        DefinitionView {
            id: "INT-003"@, group: PatternGroup::Int, title: "Issue forms YAML are present"@, route: Some(RouteKind::Intake), detector: PatternDetector::ImportantFile(ImportantFileKind::IssueForm),
            requirement: BaselineRequirement::Optional, adoption_stage: PatternAdoptionStage::Candidate, missing_severity: Severity::Info, missing_gate: GateKind::Guarded,
            missing_title: "Candidate pattern is not active"@, missing_message: "This registry candidate is not evaluated by the common baseline until calibration review adopts it."@,
            recommendation_title: "Expose issue forms signal"@, recommendation_message: "Surface structured issue forms as intake evidence; form drafts require maintainer review of labels, required fields, and taxonomy."@,
        },
        DefinitionView {
            id: "INT-010"@, group: PatternGroup::Int, title: "Pull request template is present"@, route: Some(RouteKind::Intake), detector: PatternDetector::ImportantFile(ImportantFileKind::PullRequestTemplate),
            requirement: BaselineRequirement::Optional, adoption_stage: PatternAdoptionStage::Candidate, missing_severity: Severity::Info, missing_gate: GateKind::Guarded,
            missing_title: "Candidate pattern is not active"@, missing_message: "This registry candidate is not evaluated by the common baseline until calibration review adopts it."@,
            recommendation_title: "Expose PR template signal"@, recommendation_message: "Surface existing PR template evidence; draft review policy or checklist text only after maintainer confirmation."@,
        },
        DefinitionView {
            id: "AUT-001"@, group: PatternGroup::Aut, title: "CI workflow file is present"@, route: Some(RouteKind::Automation), detector: PatternDetector::ImportantFile(ImportantFileKind::Workflow),
            requirement: BaselineRequirement::Optional, adoption_stage: PatternAdoptionStage::Candidate, missing_severity: Severity::Info, missing_gate: GateKind::Guarded,
            missing_title: "Candidate pattern is not active"@, missing_message: "This registry candidate is not evaluated by the common baseline until calibration review adopts it."@,
            recommendation_title: "Expose workflow signal"@, recommendation_message: "Surface real workflow evidence instead of implying automation that does not exist."@,
        },
        DefinitionView {
            id: "AUT-009"@, group: PatternGroup::Aut, title: "Security scan workflow is present"@, route: Some(RouteKind::Automation), detector: PatternDetector::ImportantFile(ImportantFileKind::SecurityAutomation),
            requirement: BaselineRequirement::Optional, adoption_stage: PatternAdoptionStage::Candidate, missing_severity: Severity::Info, missing_gate: GateKind::Guarded,
            missing_title: "Candidate pattern is not active"@, missing_message: "This registry candidate is not evaluated by the common baseline until calibration review adopts it."@,
            recommendation_title: "Expose security scan workflow"@, recommendation_message: "Route existing CodeQL, SAST, vulnerability scanner, Scorecard, or fuzzing workflow evidence as automation context only."@,
        },
        DefinitionView {
            id: "REL-002"@, group: PatternGroup::Rel, title: "Changelog file is present"@, route: Some(RouteKind::Release), detector: PatternDetector::ImportantFile(ImportantFileKind::Changelog),
            requirement: BaselineRequirement::Optional, adoption_stage: PatternAdoptionStage::Candidate, missing_severity: Severity::Info, missing_gate: GateKind::Guarded,
            missing_title: "Candidate pattern is not active"@, missing_message: "This registry candidate is not evaluated by the common baseline until calibration review adopts it."@,
            recommendation_title: "Expose changelog file"@, recommendation_message: "Route users to release notes when they exist, especially for update-risk review."@,
        },
        DefinitionView {
            id: "LIF-001"@, group: PatternGroup::Lif, title: "Lifecycle route is visible"@, route: Some(RouteKind::Lifecycle), detector: PatternDetector::ReadmeRoute(RouteKind::Lifecycle),
            requirement: BaselineRequirement::Optional, adoption_stage: PatternAdoptionStage::Candidate, missing_severity: Severity::Info, missing_gate: GateKind::Manual,
            missing_title: "Candidate pattern is not active"@, missing_message: "This registry candidate is not evaluated by the common baseline until calibration review adopts it."@,
            recommendation_title: "Expose lifecycle route"@, recommendation_message: "Route existing maintenance, deprecation, supported-version, archival, or end-of-life guidance without inventing lifecycle policy."@,
        },
        DefinitionView {
            id: "OWN-001"@, group: PatternGroup::Own, title: "Ownership file is present"@, route: Some(RouteKind::Ownership), detector: PatternDetector::ImportantFile(ImportantFileKind::Codeowners),
            requirement: BaselineRequirement::Optional, adoption_stage: PatternAdoptionStage::Candidate, missing_severity: Severity::Info, missing_gate: GateKind::Manual,
            missing_title: "Candidate pattern is not active"@, missing_message: "This registry candidate is not evaluated by the common baseline until calibration review adopts it."@,
            recommendation_title: "Expose ownership file"@, recommendation_message: "Report owner or CODEOWNERS evidence without inventing maintainership."@,
        },
        DefinitionView {
            id: "GOV-001"@, group: PatternGroup::Gov, title: "Governance route is visible"@, route: Some(RouteKind::Governance), detector: PatternDetector::ReadmeRoute(RouteKind::Governance),
            requirement: BaselineRequirement::Optional, adoption_stage: PatternAdoptionStage::Candidate, missing_severity: Severity::Info, missing_gate: GateKind::Manual,
            missing_title: "Candidate pattern is not active"@, missing_message: "This registry candidate is not evaluated by the common baseline until calibration review adopts it."@,
            recommendation_title: "Expose governance route"@, recommendation_message: "Route governance material when it already exists; avoid inventing project authority."@,
        },
        DefinitionView {
            id: "HYG-001"@, group: PatternGroup::Hyg, title: "Repository hygiene route or root hygiene evidence is visible"@, route: Some(RouteKind::Hygiene), detector: PatternDetector::Route(RouteKind::Hygiene),
            requirement: BaselineRequirement::Optional, adoption_stage: PatternAdoptionStage::Candidate, missing_severity: Severity::Info, missing_gate: GateKind::Guarded,
            missing_title: "Candidate pattern is not active"@, missing_message: "This registry candidate is not evaluated by the common baseline until calibration review adopts it."@,
            recommendation_title: "Expose hygiene route"@, recommendation_message: "Use hygiene signals as review context, not as an automatic quality guarantee."@,
        },
    ]
}

/// The built-in pattern registry.
pub fn common_registry() -> (r: PatternRegistry)
    ensures
        definition_views(r.defs()) == common_patterns(),
{
    let definitions = vec![
        baseline_pattern(PatternGroup::Idn, "common.identity.readme_present", "Root README is present", Some(RouteKind::Identity), PatternDetector::EvidenceKind(EvidenceKind::ReadmePresent), BaselineRequirement::Required, Severity::Medium, GateKind::Manual, "README is missing", "RepoSeiri could not find a README at the repository root.", "Create README routing hub", "Create a README that identifies the repository and routes users to docs, support, contributing, security, license, and release information."),
        baseline_pattern(PatternGroup::Doc, "common.docs.route_present", "Documentation route is visible", Some(RouteKind::Docs), PatternDetector::ReadmeRoute(RouteKind::Docs), BaselineRequirement::Required, Severity::Low, GateKind::Safe, "Documentation route is missing", "The common baseline did not detect a documentation route.", "Expose docs route", "Add or expose a README link to documentation when documentation exists, or keep the finding as a planning item until documentation is created."),
        baseline_pattern(PatternGroup::Qst, "common.quickstart.route_present", "Quickstart route is visible", Some(RouteKind::Quickstart), PatternDetector::ReadmeRoute(RouteKind::Quickstart), BaselineRequirement::Required, Severity::Low, GateKind::Guarded, "Quickstart route is missing", "The common baseline did not detect install, usage, example, or quickstart language.", "Add first-run guidance", "Add quickstart guidance only after confirming the repository's intended user workflow."),
        baseline_pattern(PatternGroup::Lif, "common.license.file_present", "License file is present", Some(RouteKind::License), PatternDetector::ImportantFile(ImportantFileKind::License), BaselineRequirement::Required, Severity::Low, GateKind::Manual, "License file is missing", "The common baseline did not detect a root license file.", "Choose a license", "License selection is a human decision; RepoSeiri should only route or report it before a maintainer chooses the license."),
        baseline_pattern(PatternGroup::Sup, "common.support.route_present", "Support route is visible", Some(RouteKind::Support), PatternDetector::ReadmeRoute(RouteKind::Support), BaselineRequirement::Optional, Severity::Info, GateKind::Guarded, "Support route is not visible", "The common baseline did not detect a support or question route.", "Expose support route", "Add a support route only after confirming how this repository wants to handle questions and bug reports."),
        baseline_pattern(PatternGroup::Ctr, "common.contributing.route_present", "Contributing route is visible", Some(RouteKind::Contributing), PatternDetector::ReadmeRoute(RouteKind::Contributing), BaselineRequirement::Optional, Severity::Info, GateKind::Guarded, "Contributing route is not visible", "The common baseline did not detect a contribution route.", "Expose contribution route", "Add a contribution route when external contribution is expected; otherwise keep this as informational."),
        baseline_pattern(PatternGroup::Sec, "common.security.route_present", "Security route is visible", Some(RouteKind::Security), PatternDetector::ReadmeRoute(RouteKind::Security), BaselineRequirement::Optional, Severity::Info, GateKind::Manual, "Security route is not visible", "The common baseline did not detect a security disclosure route.", "Expose security policy route", "Security policy content is a maintainer decision; RepoSeiri should not invent disclosure policy without confirmation."),
        baseline_pattern(PatternGroup::Rel, "common.release.route_present", "Release route is visible", Some(RouteKind::Release), PatternDetector::ReadmeRoute(RouteKind::Release), BaselineRequirement::Optional, Severity::Info, GateKind::Guarded, "Release route is not visible", "The common baseline did not detect changelog, release, version, or compatibility routing.", "Expose release route", "Add release or changelog routing when users need update-risk context."),
        baseline_pattern(PatternGroup::Lif, "common.lifecycle.route_present", "Lifecycle route is visible", Some(RouteKind::Lifecycle), PatternDetector::ReadmeRoute(RouteKind::Lifecycle), BaselineRequirement::Optional, Severity::Info, GateKind::Manual, "Lifecycle route is not visible", "The common baseline did not detect maintenance, deprecation, supported-version, archival, or end-of-life routing.", "Expose lifecycle route", "Route existing lifecycle guidance only after confirming the project's real maintenance, deprecation, or version-support policy."),
        baseline_pattern(PatternGroup::Aut, "common.automation.route_present", "Automation signal is visible", Some(RouteKind::Automation), PatternDetector::Route(RouteKind::Automation), BaselineRequirement::Optional, Severity::Info, GateKind::Guarded, "Automation signal is not visible", "The common baseline did not detect CI, workflow, badge, or automation evidence.", "Expose automation signal", "Add automation evidence only when the repository has a real workflow or test signal to expose."),
        candidate_pattern(PatternGroup::Sup, "SUP-001", "Support policy file is present", Some(RouteKind::Support), PatternDetector::ImportantFile(ImportantFileKind::Support), GateKind::Guarded, "Expose support policy file", "Prefer routing an existing SUPPORT file before drafting a new support policy."),
        candidate_pattern(PatternGroup::Sec, "SEC-001", "Security policy file is present", Some(RouteKind::Security), PatternDetector::ImportantFile(ImportantFileKind::Security), GateKind::Manual, "Expose security policy file", "Prefer routing an existing SECURITY file before proposing new disclosure policy content."),
        candidate_pattern(PatternGroup::Sec, "SEC-004", "Security automation workflow is present", Some(RouteKind::Security), PatternDetector::ImportantFile(ImportantFileKind::SecurityAutomation), GateKind::Guarded, "Expose security automation signal", "Surface existing CodeQL, vulnerability scanner, fuzzing, Scorecard, or security workflow evidence without claiming security outcomes."),
        candidate_pattern(PatternGroup::Sec, "SEC-007", "Dependency bot configuration is present", Some(RouteKind::Automation), PatternDetector::ImportantFile(ImportantFileKind::DependencyBot), GateKind::Guarded, "Expose dependency bot signal", "Surface existing Dependabot or Renovate configuration as supply-chain routing evidence without inventing update policy."),
        candidate_pattern(PatternGroup::Int, "INT-001", "Issue intake route is visible", Some(RouteKind::Support), PatternDetector::ReadmeRoute(RouteKind::Support), GateKind::Guarded, "Expose issue intake route", "Route users to the repository's real bug, feature, question, or discussion intake surface."),
        candidate_pattern(PatternGroup::Int, "INT-002", "Issue template file is present", Some(RouteKind::Intake), PatternDetector::ImportantFile(ImportantFileKind::IssueTemplate), GateKind::Guarded, "Expose issue template signal", "Route users to existing issue templates before proposing new triage structure."),
        candidate_pattern(PatternGroup::Int, "INT-003", "Issue forms YAML are present", Some(RouteKind::Intake), PatternDetector::ImportantFile(ImportantFileKind::IssueForm), GateKind::Guarded, "Expose issue forms signal", "Surface structured issue forms as intake evidence; form drafts require maintainer review of labels, required fields, and taxonomy."),
        candidate_pattern(PatternGroup::Int, "INT-010", "Pull request template is present", Some(RouteKind::Intake), PatternDetector::ImportantFile(ImportantFileKind::PullRequestTemplate), GateKind::Guarded, "Expose PR template signal", "Surface existing PR template evidence; draft review policy or checklist text only after maintainer confirmation."),
        candidate_pattern(PatternGroup::Aut, "AUT-001", "CI workflow file is present", Some(RouteKind::Automation), PatternDetector::ImportantFile(ImportantFileKind::Workflow), GateKind::Guarded, "Expose workflow signal", "Surface real workflow evidence instead of implying automation that does not exist."),
        candidate_pattern(PatternGroup::Aut, "AUT-009", "Security scan workflow is present", Some(RouteKind::Automation), PatternDetector::ImportantFile(ImportantFileKind::SecurityAutomation), GateKind::Guarded, "Expose security scan workflow", "Route existing CodeQL, SAST, vulnerability scanner, Scorecard, or fuzzing workflow evidence as automation context only."),
        candidate_pattern(PatternGroup::Rel, "REL-002", "Changelog file is present", Some(RouteKind::Release), PatternDetector::ImportantFile(ImportantFileKind::Changelog), GateKind::Guarded, "Expose changelog file", "Route users to release notes when they exist, especially for update-risk review."),
        candidate_pattern(PatternGroup::Lif, "LIF-001", "Lifecycle route is visible", Some(RouteKind::Lifecycle), PatternDetector::ReadmeRoute(RouteKind::Lifecycle), GateKind::Manual, "Expose lifecycle route", "Route existing maintenance, deprecation, supported-version, archival, or end-of-life guidance without inventing lifecycle policy."),
        candidate_pattern(PatternGroup::Own, "OWN-001", "Ownership file is present", Some(RouteKind::Ownership), PatternDetector::ImportantFile(ImportantFileKind::Codeowners), GateKind::Manual, "Expose ownership file", "Report owner or CODEOWNERS evidence without inventing maintainership."),
        candidate_pattern(PatternGroup::Gov, "GOV-001", "Governance route is visible", Some(RouteKind::Governance), PatternDetector::ReadmeRoute(RouteKind::Governance), GateKind::Manual, "Expose governance route", "Route governance material when it already exists; avoid inventing project authority."),
        candidate_pattern(PatternGroup::Hyg, "HYG-001", "Repository hygiene route or root hygiene evidence is visible", Some(RouteKind::Hygiene), PatternDetector::Route(RouteKind::Hygiene), GateKind::Guarded, "Expose hygiene route", "Use hygiene signals as review context, not as an automatic quality guarantee."),
    ];
    assert(definition_views(definitions@) =~= common_patterns());
    PatternRegistry::new(definitions)
}

/// The pattern groups with their titles and descriptions, in report order.
pub open spec fn pattern_group_table() -> Seq<(PatternGroup, Seq<char>, Seq<char>)> {
    seq![
        (PatternGroup::Idn, "Identity"@, "Repository identity, purpose, and root README presence."@),
        (PatternGroup::Doc, "Documentation"@, "Documentation routes and docs surface discoverability."@),
        (PatternGroup::Qst, "Quickstart"@, "First-run, install, example, and usage entry routes."@),
        (PatternGroup::Sup, "Support"@, "Question, help, and support routing."@),
        (PatternGroup::Sec, "Security"@, "Security policy, disclosure, and safety routing."@),
        (PatternGroup::Ctr, "Contribution"@, "Contribution and change-submission routes."@),
        (PatternGroup::Int, "Intake"@, "Issue, bug, feature, and discussion intake surfaces."@),
        (PatternGroup::Aut, "Automation"@, "CI, workflow, badge, and repeatability signals."@),
        (PatternGroup::Rel, "Release"@, "Changelog, release, version, and compatibility routes."@),
        (PatternGroup::Own, "Ownership"@, "Ownership, maintainer, and code-owner surfaces."@),
        (PatternGroup::Gov, "Governance"@, "Governance, decision, and project stewardship routes."@),
        (PatternGroup::Hyg, "Hygiene"@, "Repository hygiene, cleanup, and maintenance posture routes."@),
        (PatternGroup::Lif, "Lifecycle"@, "License, maintenance, deprecation, and supported-version boundaries needed for reuse."@),
    ]
}

/// `pattern_group_table()`.
pub fn pattern_groups() -> (r: Vec<PatternGroupDefinition>)
    ensures
        r@.len() == pattern_group_table().len(),
        forall|k: int| 0 <= k < r@.len() ==> ((#[trigger] r@[k]).group, r@[k].title@, r@[k].description@) == pattern_group_table()[k],
{
    let r = vec![
        PatternGroupDefinition { group: PatternGroup::Idn, title: "Identity", description: "Repository identity, purpose, and root README presence." },
        PatternGroupDefinition { group: PatternGroup::Doc, title: "Documentation", description: "Documentation routes and docs surface discoverability." },
        PatternGroupDefinition { group: PatternGroup::Qst, title: "Quickstart", description: "First-run, install, example, and usage entry routes." },
        PatternGroupDefinition { group: PatternGroup::Sup, title: "Support", description: "Question, help, and support routing." },
        PatternGroupDefinition { group: PatternGroup::Sec, title: "Security", description: "Security policy, disclosure, and safety routing." },
        PatternGroupDefinition { group: PatternGroup::Ctr, title: "Contribution", description: "Contribution and change-submission routes." },
        PatternGroupDefinition { group: PatternGroup::Int, title: "Intake", description: "Issue, bug, feature, and discussion intake surfaces." },
        PatternGroupDefinition { group: PatternGroup::Aut, title: "Automation", description: "CI, workflow, badge, and repeatability signals." },
        PatternGroupDefinition { group: PatternGroup::Rel, title: "Release", description: "Changelog, release, version, and compatibility routes." },
        PatternGroupDefinition { group: PatternGroup::Own, title: "Ownership", description: "Ownership, maintainer, and code-owner surfaces." },
        PatternGroupDefinition { group: PatternGroup::Gov, title: "Governance", description: "Governance, decision, and project stewardship routes." },
        PatternGroupDefinition { group: PatternGroup::Hyg, title: "Hygiene", description: "Repository hygiene, cleanup, and maintenance posture routes." },
        PatternGroupDefinition { group: PatternGroup::Lif, title: "Lifecycle", description: "License, maintenance, deprecation, and supported-version boundaries needed for reuse." },
    ];
    assert(r@.len() == pattern_group_table().len());
    r
}

/// The debug name of an important-file kind, as evidence values carry it.
pub open spec fn important_kind_name(k: ImportantFileKind) -> Seq<char> {
    match k {
        ImportantFileKind::IssueForm => "IssueForm"@,
        ImportantFileKind::IssueTemplate => "IssueTemplate"@,
        ImportantFileKind::PullRequestTemplate => "PullRequestTemplate"@,
        ImportantFileKind::DependencyBot => "DependencyBot"@,
        ImportantFileKind::SecurityAutomation => "SecurityAutomation"@,
        ImportantFileKind::Gitignore => "Gitignore"@,
        ImportantFileKind::Gitattributes => "Gitattributes"@,
        ImportantFileKind::EditorConfig => "EditorConfig"@,
        ImportantFileKind::Readme => "Readme"@,
        ImportantFileKind::License => "License"@,
        ImportantFileKind::Contributing => "Contributing"@,
        ImportantFileKind::Security => "Security"@,
        ImportantFileKind::Support => "Support"@,
        ImportantFileKind::Changelog => "Changelog"@,
        ImportantFileKind::Codeowners => "Codeowners"@,
        ImportantFileKind::CargoToml => "CargoToml"@,
        ImportantFileKind::DocsDirectory => "DocsDirectory"@,
        ImportantFileKind::Workflow => "Workflow"@,
    }
}

pub(crate) fn important_kind_str(k: ImportantFileKind) -> (r: &'static str)
    ensures
        r@ == important_kind_name(k),
{
    match k {
        ImportantFileKind::IssueForm => "IssueForm",
        ImportantFileKind::IssueTemplate => "IssueTemplate",
        ImportantFileKind::PullRequestTemplate => "PullRequestTemplate",
        ImportantFileKind::DependencyBot => "DependencyBot",
        ImportantFileKind::SecurityAutomation => "SecurityAutomation",
        ImportantFileKind::Gitignore => "Gitignore",
        ImportantFileKind::Gitattributes => "Gitattributes",
        ImportantFileKind::EditorConfig => "EditorConfig",
        ImportantFileKind::Readme => "Readme",
        ImportantFileKind::License => "License",
        ImportantFileKind::Contributing => "Contributing",
        ImportantFileKind::Security => "Security",
        ImportantFileKind::Support => "Support",
        ImportantFileKind::Changelog => "Changelog",
        ImportantFileKind::Codeowners => "Codeowners",
        ImportantFileKind::CargoToml => "CargoToml",
        ImportantFileKind::DocsDirectory => "DocsDirectory",
        ImportantFileKind::Workflow => "Workflow",
    }
}

/// Where evidence was observed.
#[derive(Debug, Clone, Copy, PartialEq, Eq, Structural)]
pub enum EvidenceScope {
    Root,
    Nested,
}

/// A piece of evidence in the legacy list.
#[derive(Debug, Clone, PartialEq, Eq)]
pub struct Evidence {
    pub id: String,
    pub kind: EvidenceKind,
    pub route: Option<RouteKind>,
    pub value: String,
}

/// A piece of evidence in the ledger.
#[derive(Debug, Clone, PartialEq, Eq)]
pub struct EvidenceRecord {
    pub id: String,
    pub scope: EvidenceScope,
    pub kind: EvidenceKind,
    pub route: Option<RouteKind>,
    pub value: String,
    pub legacy_evidence_id: Option<String>,
}

/// The evidence of a repository snapshot: the ledger when it has one, else
/// the legacy list.
#[derive(Debug, Clone, PartialEq, Eq)]
pub struct RepoEvidence {
    pub evidence: Vec<Evidence>,
    pub ledger: Vec<EvidenceRecord>,
}

/// Whether a detector selects evidence of this kind, route and value.
pub open spec fn selects(d: PatternDetector, kind: EvidenceKind, route: Option<RouteKind>, value: Seq<char>) -> bool {
    match d {
        PatternDetector::EvidenceKind(k) => kind == k,
        PatternDetector::Route(r) => route == Some(r),
        PatternDetector::ReadmeRoute(r) => route == Some(r) && (kind == EvidenceKind::MarkdownHeading
            || kind == EvidenceKind::MarkdownLink || kind == EvidenceKind::RouteCandidate),
        PatternDetector::ImportantFile(k) => kind == EvidenceKind::ImportantFile && value == important_kind_name(k),
    }
}

fn selects_evidence(d: PatternDetector, kind: EvidenceKind, route: Option<RouteKind>, value: &str) -> (r: bool)
    ensures
        r == selects(d, kind, route, value@),
{
    match d {
        PatternDetector::EvidenceKind(k) => kind == k,
        PatternDetector::Route(r) => route == Some(r),
        PatternDetector::ReadmeRoute(r) => route == Some(r) && (kind == EvidenceKind::MarkdownHeading
            || kind == EvidenceKind::MarkdownLink || kind == EvidenceKind::RouteCandidate),
        PatternDetector::ImportantFile(k) => {
            let v = chars_of(value);
            kind == EvidenceKind::ImportantFile && equals_str(v.as_slice(), important_kind_str(k))
        },
    }
}

/// The id a ledger record is reported by: its legacy id when it has one.
pub open spec fn record_id(r: EvidenceRecord) -> Seq<char> {
    match r.legacy_evidence_id {
        Some(l) => l@,
        None => r.id@,
    }
}

/// The ids of the root-scope ledger records a detector selects, in order.
pub open spec fn ledger_ids(records: Seq<EvidenceRecord>, d: PatternDetector) -> Seq<Seq<char>>
    decreases records.len(),
{
    if records.len() == 0 {
        seq![]
    } else {
        let prev = ledger_ids(records.drop_last(), d);
        let r = records.last();
        if r.scope == EvidenceScope::Root && selects(d, r.kind, r.route, r.value@) {
            prev.push(record_id(r))
        } else {
            prev
        }
    }
}

/// The ids of the legacy evidence a detector selects, in order.
pub open spec fn legacy_ids(evidence: Seq<Evidence>, d: PatternDetector) -> Seq<Seq<char>>
    decreases evidence.len(),
{
    if evidence.len() == 0 {
        seq![]
    } else {
        let prev = legacy_ids(evidence.drop_last(), d);
        let e = evidence.last();
        if selects(d, e.kind, e.route, e.value@) {
            prev.push(e.id@)
        } else {
            prev
        }
    }
}

/// The evidence a detector finds: from the ledger when it is not empty,
/// else from the legacy list.
pub open spec fn detector_evidence(s: RepoEvidence, d: PatternDetector) -> Seq<Seq<char>> {
    if s.ledger@.len() > 0 {
        ledger_ids(s.ledger@, d)
    } else {
        legacy_ids(s.evidence@, d)
    }
}

/// `detector_evidence(snapshot, detector)`.
pub fn evidence_ids_for_detector(snapshot: &RepoEvidence, detector: PatternDetector) -> (r: Vec<String>)
    ensures
        string_views(r@) == detector_evidence(*snapshot, detector),
{
    let mut out: Vec<String> = Vec::new();
    if snapshot.ledger.len() > 0 {
        let mut i: usize = 0;
        while i < snapshot.ledger.len()
            invariant
                i <= snapshot.ledger.len(),
                string_views(out@) == ledger_ids(snapshot.ledger@.take(i as int), detector),
            decreases snapshot.ledger.len() - i,
        {
            let r = &snapshot.ledger[i];
            assert(snapshot.ledger@.take(i as int + 1).drop_last() =~= snapshot.ledger@.take(i as int));
            if r.scope == EvidenceScope::Root && selects_evidence(detector, r.kind, r.route, r.value.as_str()) {
                let id = match &r.legacy_evidence_id {
                    Some(l) => l.clone(),
                    None => r.id.clone(),
                };
                out.push(id);
                assert(string_views(out@) =~= ledger_ids(snapshot.ledger@.take(i as int + 1), detector));
            }
            i = i + 1;
        }
        assert(snapshot.ledger@.take(snapshot.ledger.len() as int) =~= snapshot.ledger@);
    } else {
        let mut i: usize = 0;
        while i < snapshot.evidence.len()
            invariant
                i <= snapshot.evidence.len(),
                string_views(out@) == legacy_ids(snapshot.evidence@.take(i as int), detector),
            decreases snapshot.evidence.len() - i,
        {
            let e = &snapshot.evidence[i];
            assert(snapshot.evidence@.take(i as int + 1).drop_last() =~= snapshot.evidence@.take(i as int));
            if selects_evidence(detector, e.kind, e.route, e.value.as_str()) {
                out.push(e.id.clone());
                assert(string_views(out@) =~= legacy_ids(snapshot.evidence@.take(i as int + 1), detector));
            }
            i = i + 1;
        }
        assert(snapshot.evidence@.take(snapshot.evidence.len() as int) =~= snapshot.evidence@);
    }
    out
}

pub open spec fn detector_basis_text(d: PatternDetector) -> Seq<char> {
    match d {
        PatternDetector::EvidenceKind(_) => "evidence kind"@,
        PatternDetector::Route(_) => "trust route"@,
        PatternDetector::ReadmeRoute(_) => "README trust route"@,
        PatternDetector::ImportantFile(_) => "important file"@,
    }
}

/// How a detector finds its evidence.
pub fn detector_basis(d: PatternDetector) -> (r: &'static str)
    ensures
        r@ == detector_basis_text(d),
{
    match d {
        PatternDetector::EvidenceKind(_) => "evidence kind",
        PatternDetector::Route(_) => "trust route",
        PatternDetector::ReadmeRoute(_) => "README trust route",
        PatternDetector::ImportantFile(_) => "important file",
    }
}

/// An identifier from a prefix and a number from 1, padded to four digits.
pub open spec fn stable_id(prefix: Seq<char>, n: nat) -> Seq<char> {
    prefix + "-"@ + zero_padded(n, 4)
}

pub fn stable_id_of(prefix: &str, n: usize) -> (r: String)
    ensures
        r@ == stable_id(prefix@, n as nat),
{
    let mut out = chars_of(prefix);
    out.push('-');
    let mut digits = zero_padded_chars(n, 4);
    out.append(&mut digits);
    proof {
        reveal_strlit("-");
    }
    assert(out@ =~= prefix@ + "-"@ + zero_padded(n as nat, 4));
    string_of(out.as_slice())
}

/// The definitions the common baseline evaluates: those adopted into it, in order.
pub open spec fn active_definitions(defs: Seq<PatternDefinition>) -> Seq<PatternDefinition>
    decreases defs.len(),
{
    if defs.len() == 0 {
        seq![]
    } else {
        let prev = active_definitions(defs.drop_last());
        if defs.last().adoption_stage == PatternAdoptionStage::CommonBaseline {
            prev.push(defs.last())
        } else {
            prev
        }
    }
}

proof fn lemma_active_len(defs: Seq<PatternDefinition>)
    ensures
        active_definitions(defs).len() <= defs.len(),
    decreases defs.len(),
{
    if defs.len() > 0 {
        lemma_active_len(defs.drop_last());
    }
}

pub open spec fn derefs(v: Seq<&PatternDefinition>) -> Seq<PatternDefinition> {
    v.map_values(|d: &PatternDefinition| *d)
}

impl PatternRegistry {
    /// The definitions the common baseline evaluates.
    pub fn evaluation_definitions(&self) -> (r: Vec<&PatternDefinition>)
        ensures
            derefs(r@) == active_definitions(self.defs()),
    {
        let mut out: Vec<&PatternDefinition> = Vec::new();
        let mut i: usize = 0;
        while i < self.definitions.len()
            invariant
                i <= self.definitions.len(),
                derefs(out@) == active_definitions(self.definitions@.take(i as int)),
            decreases self.definitions.len() - i,
        {
            assert(self.definitions@.take(i as int + 1).drop_last() =~= self.definitions@.take(i as int));
            if self.definitions[i].adoption_stage.active_in_common_baseline() {
                out.push(&self.definitions[i]);
                assert(derefs(out@) =~= active_definitions(self.definitions@.take(i as int + 1)));
            }
            i = i + 1;
        }
        assert(self.definitions@.take(self.definitions.len() as int) =~= self.definitions@);
        out
    }
}

#[derive(Debug, Clone, Copy, PartialEq, Eq, Structural)]
pub enum PatternOutcome {
    Present,
    Missing,
}

/// The outcome of one evaluated pattern.
#[derive(Debug, Clone, PartialEq, Eq)]
pub struct PatternMatch {
    pub id: String,
    pub pattern_id: String,
    pub title: String,
    pub route: Option<RouteKind>,
    pub outcome: PatternOutcome,
    pub evidence_ids: Vec<String>,
    pub basis: String,
}

/// The `k`th (from 0) evaluated definition's match: present exactly when its
/// detector finds evidence.
pub open spec fn match_for(m: PatternMatch, k: int, d: PatternDefinition, s: RepoEvidence) -> bool {
    let ids = detector_evidence(s, d.detector);
    &&& m.id@ == stable_id("pattern-match"@, (k + 1) as nat)
    &&& m.pattern_id@ == d.id@
    &&& m.title@ == d.title@
    &&& m.route == d.route
    &&& m.outcome == (if ids.len() == 0 { PatternOutcome::Missing } else { PatternOutcome::Present })
    &&& string_views(m.evidence_ids@) == ids
    &&& m.basis@ == detector_basis_text(d.detector)
}

fn pattern_match(k: usize, d: &PatternDefinition, snapshot: &RepoEvidence) -> (m: PatternMatch)
    requires
        k < usize::MAX,
    ensures
        match_for(m, k as int, *d, *snapshot),
{
    let evidence_ids = evidence_ids_for_detector(snapshot, d.detector);
    let outcome = if evidence_ids.len() == 0 { PatternOutcome::Missing } else { PatternOutcome::Present };
    PatternMatch {
        id: stable_id_of("pattern-match", k + 1),
        pattern_id: d.id.to_owned(),
        title: d.title.to_owned(),
        route: d.route,
        outcome,
        evidence_ids,
        basis: detector_basis(d.detector).to_owned(),
    }
}

impl PatternRegistry {
    /// Each evaluated definition's match, in order.
    pub fn evaluate_patterns(&self, snapshot: &RepoEvidence) -> (r: Vec<PatternMatch>)
        ensures
            r@.len() == active_definitions(self.defs()).len(),
            forall|k: int| 0 <= k < r@.len() ==> match_for(#[trigger] r@[k], k, active_definitions(self.defs())[k], *snapshot),
    {
        let defs = self.evaluation_definitions();
        let mut out: Vec<PatternMatch> = Vec::new();
        let mut k: usize = 0;
        proof {
            lemma_active_len(self.defs());
            assert(derefs(defs@).len() == defs@.len());
        }
        while k < defs.len()
            invariant
                k <= defs.len(),
                derefs(defs@) == active_definitions(self.defs()),
                defs@.len() <= self.defs().len(),
                out@.len() == k,
                forall|m: int| 0 <= m < k ==> match_for(#[trigger] out@[m], m, derefs(defs@)[m], *snapshot),
            decreases defs.len() - k,
        {
            assert(derefs(defs@)[k as int] == *defs@[k as int]);
            out.push(pattern_match(k, defs[k], snapshot));
            k = k + 1;
        }
        out
    }
}


/// A definition's status: present exactly when its detector finds evidence.
pub open spec fn status_of(s: RepoEvidence, d: PatternDefinition) -> BaselineStatus {
    if detector_evidence(s, d.detector).len() == 0 { BaselineStatus::Missing } else { BaselineStatus::Present }
}

/// How many of the first `n` definitions are missing.
pub open spec fn missing_before(defs: Seq<PatternDefinition>, s: RepoEvidence, n: int) -> nat
    decreases n,
{
    if n <= 0 {
        0
    } else {
        missing_before(defs, s, n - 1) + if status_of(s, defs[n - 1]) == BaselineStatus::Missing { 1nat } else { 0 }
    }
}

/// How many of the first `n` definitions have this requirement and status.
pub open spec fn summary_count(defs: Seq<PatternDefinition>, s: RepoEvidence, n: int, req: BaselineRequirement, st: BaselineStatus) -> nat
    decreases n,
{
    if n <= 0 {
        0
    } else {
        summary_count(defs, s, n - 1, req, st) + if defs[n - 1].requirement == req && status_of(s, defs[n - 1]) == st { 1nat } else { 0 }
    }
}

proof fn lemma_counts_bounded(defs: Seq<PatternDefinition>, s: RepoEvidence, n: int)
    requires
        0 <= n,
    ensures
        missing_before(defs, s, n) <= n,
        forall|req: BaselineRequirement, st: BaselineStatus| #[trigger] summary_count(defs, s, n, req, st) <= n,
    decreases n,
{
    if n > 0 {
        lemma_counts_bounded(defs, s, n - 1);
        assert forall|req: BaselineRequirement, st: BaselineStatus| #[trigger] summary_count(defs, s, n, req, st) <= n by {
            assert(summary_count(defs, s, n - 1, req, st) <= n - 1);
        }
    }
}

proof fn lemma_missing_monotone(defs: Seq<PatternDefinition>, s: RepoEvidence, a: int, b: int)
    requires
        0 <= a <= b,
    ensures
        missing_before(defs, s, a) <= missing_before(defs, s, b),
    decreases b - a,
{
    if a < b {
        lemma_missing_monotone(defs, s, a, b - 1);
    }
}

#[derive(Debug, Clone, Copy, PartialEq, Eq, Structural)]
pub struct BaselineSummary {
    pub required_present: usize,
    pub required_missing: usize,
    pub optional_present: usize,
    pub optional_missing: usize,
}

#[derive(Debug, Clone, PartialEq, Eq)]
pub struct Recommendation {
    pub id: String,
    pub gate: GateKind,
    pub title: String,
    pub message: String,
}

#[derive(Debug, Clone, PartialEq, Eq)]
pub struct Finding {
    pub id: String,
    pub severity: Severity,
    pub title: String,
    pub message: String,
    pub evidence_ids: Vec<String>,
    pub recommendation: Option<Recommendation>,
}

/// One evaluated pattern as a baseline rule.
#[derive(Debug, Clone, PartialEq, Eq)]
pub struct BaselineRule {
    pub rule_id: String,
    pub pattern_id: String,
    pub title: String,
    pub route: Option<RouteKind>,
    pub requirement: BaselineRequirement,
    pub status: BaselineStatus,
    pub severity: Severity,
    pub evidence_ids: Vec<String>,
    pub finding_id: Option<String>,
    pub message: String,
}

/// The matches, summary, rules and findings of a baseline evaluation.
#[derive(Debug, Clone, PartialEq, Eq)]
pub struct BaselineEvaluation {
    pub pattern_matches: Vec<PatternMatch>,
    pub summary: BaselineSummary,
    pub rules: Vec<BaselineRule>,
    pub findings: Vec<Finding>,
}

pub open spec fn observed_message() -> Seq<char> {
    "Pattern observed in common baseline evidence."@
}

/// The `k`th evaluated definition's rule, when `m` definitions before it
/// are missing.
pub open spec fn rule_for(r: BaselineRule, k: int, d: PatternDefinition, s: RepoEvidence, m: nat) -> bool {
    let status = status_of(s, d);
    &&& r.rule_id@ == stable_id("baseline-rule"@, (k + 1) as nat)
    &&& r.pattern_id@ == d.id@
    &&& r.title@ == d.title@
    &&& r.route == d.route
    &&& r.requirement == d.requirement
    &&& r.status == status
    &&& r.severity == d.missing_severity
    &&& string_views(r.evidence_ids@) == detector_evidence(s, d.detector)
    &&& opt_view(r.finding_id) == (if status == BaselineStatus::Missing { Some(stable_id("finding"@, m + 1)) } else { None::<Seq<char>> })
    &&& r.message@ == (if status == BaselineStatus::Present { observed_message() } else { d.missing_message@ })
}

/// The finding of a missing definition, the `m`th (from 0) missing one.
pub open spec fn finding_for(f: Finding, d: PatternDefinition, s: RepoEvidence, m: nat) -> bool {
    &&& f.id@ == stable_id("finding"@, m + 1)
    &&& f.severity == d.missing_severity
    &&& f.title@ == d.missing_title@
    &&& f.message@ == d.missing_message@
    &&& string_views(f.evidence_ids@) == detector_evidence(s, d.detector)
    &&& f.recommendation matches Some(rec) && rec.id@ == stable_id("rec"@, m + 1) && rec.gate == d.missing_gate
        && rec.title@ == d.recommendation_title@ && rec.message@ == d.recommendation_message@
}

/// A baseline evaluation of `s` under definitions `registry_defs`: each
/// adopted definition's match and rule in order, a finding for each missing
/// one, and the counts by requirement and status.
pub open spec fn evaluation_of(r: BaselineEvaluation, registry_defs: Seq<PatternDefinition>, s: RepoEvidence) -> bool {
            let defs = active_definitions(registry_defs);
        let n = defs.len() as int;
        &&& r.pattern_matches@.len() == n
        &&& (forall|k: int| 0 <= k < n ==> match_for(#[trigger] r.pattern_matches@[k], k, defs[k], s))
        &&& r.rules@.len() == n
        &&& (forall|k: int| 0 <= k < n ==> rule_for(#[trigger] r.rules@[k], k, defs[k], s, missing_before(defs, s, k)))
        &&& r.findings@.len() == missing_before(defs, s, n)
        &&& (forall|k: int| 0 <= k < n && status_of(s, #[trigger] defs[k]) == BaselineStatus::Missing ==>
            finding_for(r.findings@[missing_before(defs, s, k) as int], defs[k], s, missing_before(defs, s, k)))
        &&& r.summary.required_present == summary_count(defs, s, n, BaselineRequirement::Required, BaselineStatus::Present)
        &&& r.summary.required_missing == summary_count(defs, s, n, BaselineRequirement::Required, BaselineStatus::Missing)
        &&& r.summary.optional_present == summary_count(defs, s, n, BaselineRequirement::Optional, BaselineStatus::Present)
        &&& r.summary.optional_missing == summary_count(defs, s, n, BaselineRequirement::Optional, BaselineStatus::Missing)
}

/// Evaluates the registry's adopted definitions: each one's match, its rule
/// (present or missing with its message), a finding with a recommendation
/// for each missing one, and the counts by requirement and status.
pub fn evaluate_with_registry(snapshot: &RepoEvidence, registry: &PatternRegistry) -> (r: BaselineEvaluation)
    ensures
        evaluation_of(r, registry.defs(), *snapshot),
{
    let defs = registry.evaluation_definitions();
    let pattern_matches = registry.evaluate_patterns(snapshot);
    let ghost active = active_definitions(registry.defs());
    proof {
        lemma_active_len(registry.defs());
        assert(derefs(defs@).len() == defs@.len());
    }
    let mut findings: Vec<Finding> = Vec::new();
    let mut rules: Vec<BaselineRule> = Vec::new();
    let mut summary = BaselineSummary { required_present: 0, required_missing: 0, optional_present: 0, optional_missing: 0 };
    let mut k: usize = 0;
    while k < defs.len()
        invariant
            k <= defs.len(),
            derefs(defs@) == active,
            active == active_definitions(registry.defs()),
            pattern_matches@.len() == active.len(),
            forall|j: int| 0 <= j < active.len() ==> match_for(#[trigger] pattern_matches@[j], j, active[j], *snapshot),
            rules@.len() == k,
            forall|j: int| 0 <= j < k ==> rule_for(#[trigger] rules@[j], j, active[j], *snapshot, missing_before(active, *snapshot, j)),
            findings@.len() == missing_before(active, *snapshot, k as int),
            forall|j: int| 0 <= j < k && status_of(*snapshot, #[trigger] active[j]) == BaselineStatus::Missing ==>
                finding_for(findings@[missing_before(active, *snapshot, j) as int], active[j], *snapshot, missing_before(active, *snapshot, j)),
            forall|j: int| 0 <= j < k && status_of(*snapshot, #[trigger] active[j]) == BaselineStatus::Missing ==>
                missing_before(active, *snapshot, j) < missing_before(active, *snapshot, k as int),
            summary.required_present == summary_count(active, *snapshot, k as int, BaselineRequirement::Required, BaselineStatus::Present),
            summary.required_missing == summary_count(active, *snapshot, k as int, BaselineRequirement::Required, BaselineStatus::Missing),
            summary.optional_present == summary_count(active, *snapshot, k as int, BaselineRequirement::Optional, BaselineStatus::Present),
            summary.optional_missing == summary_count(active, *snapshot, k as int, BaselineRequirement::Optional, BaselineStatus::Missing),
        decreases defs.len() - k,
    {
        let d = defs[k];
        assert(derefs(defs@)[k as int] == *d);
        let pm = &pattern_matches[k];
        proof { lemma_counts_bounded(active, *snapshot, k as int); }
        let status = match pm.outcome {
            PatternOutcome::Present => BaselineStatus::Present,
            PatternOutcome::Missing => BaselineStatus::Missing,
        };
        match (d.requirement, status) {
            (BaselineRequirement::Required, BaselineStatus::Present) => summary.required_present = summary.required_present + 1,
            (BaselineRequirement::Required, BaselineStatus::Missing) => summary.required_missing = summary.required_missing + 1,
            (BaselineRequirement::Optional, BaselineStatus::Present) => summary.optional_present = summary.optional_present + 1,
            (BaselineRequirement::Optional, BaselineStatus::Missing) => summary.optional_missing = summary.optional_missing + 1,
        }
        let finding_id = if status == BaselineStatus::Missing {
            let number = findings.len() + 1;
            let id = stable_id_of("finding", number);
            let ghost before = findings@;
            findings.push(Finding {
                id: stable_id_of("finding", number),
                severity: d.missing_severity,
                title: d.missing_title.to_owned(),
                message: d.missing_message.to_owned(),
                evidence_ids: clone_strings(&pm.evidence_ids),
                recommendation: Some(Recommendation {
                    id: stable_id_of("rec", number),
                    gate: d.missing_gate,
                    title: d.recommendation_title.to_owned(),
                    message: d.recommendation_message.to_owned(),
                }),
            });
            assert(forall|j: int| 0 <= j < before.len() ==> findings@[j] == before[j]);
            assert(finding_for(findings@[before.len() as int], active[k as int], *snapshot, missing_before(active, *snapshot, k as int)));
            Some(id)
        } else {
            None
        };
        let message = if status == BaselineStatus::Present {
            "Pattern observed in common baseline evidence.".to_owned()
        } else {
            d.missing_message.to_owned()
        };
        proof {
            assert forall|j: int| 0 <= j < k + 1 && status_of(*snapshot, #[trigger] active[j]) == BaselineStatus::Missing implies
                missing_before(active, *snapshot, j) < missing_before(active, *snapshot, k as int + 1) by {
                lemma_missing_monotone(active, *snapshot, j + 1, k as int + 1);
            }
        }
        rules.push(BaselineRule {
            rule_id: stable_id_of("baseline-rule", k + 1),
            pattern_id: d.id.to_owned(),
            title: d.title.to_owned(),
            route: d.route,
            requirement: d.requirement,
            status,
            severity: d.missing_severity,
            evidence_ids: clone_strings(&pm.evidence_ids),
            finding_id,
            message,
        });
        k = k + 1;
    }
    BaselineEvaluation { pattern_matches, summary, rules, findings }
}

/// The common baseline evaluated on a snapshot's evidence.
pub fn evaluate_common_baseline(snapshot: &RepoEvidence) -> (r: BaselineEvaluation)
    ensures
        exists|defs: Seq<PatternDefinition>| #[trigger] definition_views(defs) == common_patterns() && evaluation_of(r, defs, *snapshot),
{
    let registry = common_registry();
    let r = evaluate_with_registry(snapshot, &registry);
    assert(definition_views(registry.defs()) == common_patterns() && evaluation_of(r, registry.defs(), *snapshot));
    r
}

/// A baseline rule as profile scoring reads it.
pub fn profile_baseline_rule(rule: &BaselineRule) -> (r: BaselineRuleResult)
    ensures
        r.pattern_id@ == rule.pattern_id@,
        r.title@ == rule.title@,
        r.route == rule.route,
        r.status == rule.status,
        string_views(r.evidence_ids@) == string_views(rule.evidence_ids@),
        opt_view(r.finding_id) == opt_view(rule.finding_id),
{
    BaselineRuleResult {
        pattern_id: rule.pattern_id.clone(),
        title: rule.title.clone(),
        route: rule.route,
        status: rule.status,
        evidence_ids: clone_strings(&rule.evidence_ids),
        finding_id: match &rule.finding_id {
            Some(id) => Some(id.clone()),
            None => None,
        },
    }
}

} // verus!

//! The pattern registry as a document: per-group counts, one entry per
//! pattern, and its Markdown rendering.

use vstd::prelude::*;
use crate::markdown::routes::RouteKind;
use crate::patterns::baseline::{
    common_registry, detector_basis, detector_basis_text, important_kind_name, important_kind_str,
    pattern_group_table, pattern_groups, BaselineRequirement, EvidenceKind, PatternDefinition,
    PatternDetector, PatternGroup, PatternRegistry, common_patterns, definition_views, DefinitionView,
};
use crate::patterns::model::PatternAdoptionStage;
use crate::profiles::report::{decimal, decimal_chars, GateKind, Severity};
use crate::text::{chars_of, has_prefix, string_of};

verus! {

/// A group's code, as pattern ids carry it.
pub open spec fn group_code(g: PatternGroup) -> Seq<char> {
    match g {
        PatternGroup::Idn => "IDN"@,
        PatternGroup::Doc => "DOC"@,
        PatternGroup::Qst => "QST"@,
        PatternGroup::Sup => "SUP"@,
        PatternGroup::Sec => "SEC"@,
        PatternGroup::Ctr => "CTR"@,
        PatternGroup::Int => "INT"@,
        PatternGroup::Aut => "AUT"@,
        PatternGroup::Rel => "REL"@,
        PatternGroup::Own => "OWN"@,
        PatternGroup::Gov => "GOV"@,
        PatternGroup::Hyg => "HYG"@,
        PatternGroup::Lif => "LIF"@,
    }
}

/// `group_code(g)`.
pub fn group_code_str(g: PatternGroup) -> (r: &'static str)
    ensures
        r@ == group_code(g),
{
    match g {
        PatternGroup::Idn => "IDN",
        PatternGroup::Doc => "DOC",
        PatternGroup::Qst => "QST",
        PatternGroup::Sup => "SUP",
        PatternGroup::Sec => "SEC",
        PatternGroup::Ctr => "CTR",
        PatternGroup::Int => "INT",
        PatternGroup::Aut => "AUT",
        PatternGroup::Rel => "REL",
        PatternGroup::Own => "OWN",
        PatternGroup::Gov => "GOV",
        PatternGroup::Hyg => "HYG",
        PatternGroup::Lif => "LIF",
    }
}

/// A route's name.
pub open spec fn route_name(r: RouteKind) -> Seq<char> {
    match r {
        RouteKind::Hygiene => "Hygiene"@,
        RouteKind::Quickstart => "Quickstart"@,
        RouteKind::Docs => "Docs"@,
        RouteKind::Intake => "Intake"@,
        RouteKind::Lifecycle => "Lifecycle"@,
        RouteKind::Support => "Support"@,
        RouteKind::Contributing => "Contributing"@,
        RouteKind::Security => "Security"@,
        RouteKind::Release => "Release"@,
        RouteKind::Governance => "Governance"@,
        RouteKind::License => "License"@,
        RouteKind::Ownership => "Ownership"@,
        RouteKind::Automation => "Automation"@,
        RouteKind::Identity => "Identity"@,
        RouteKind::Unknown => "Unknown"@,
    }
}

/// `route_name(r)`.
pub fn route_name_str(r: RouteKind) -> (s: &'static str)
    ensures
        s@ == route_name(r),
{
    match r {
        RouteKind::Hygiene => "Hygiene",
        RouteKind::Quickstart => "Quickstart",
        RouteKind::Docs => "Docs",
        RouteKind::Intake => "Intake",
        RouteKind::Lifecycle => "Lifecycle",
        RouteKind::Support => "Support",
        RouteKind::Contributing => "Contributing",
        RouteKind::Security => "Security",
        RouteKind::Release => "Release",
        RouteKind::Governance => "Governance",
        RouteKind::License => "License",
        RouteKind::Ownership => "Ownership",
        RouteKind::Automation => "Automation",
        RouteKind::Identity => "Identity",
        RouteKind::Unknown => "Unknown",
    }
}

/// An evidence kind's name.
pub open spec fn evidence_kind_name(k: EvidenceKind) -> Seq<char> {
    match k {
        EvidenceKind::ReadmePresent => "ReadmePresent"@,
        EvidenceKind::MarkdownHeading => "MarkdownHeading"@,
        EvidenceKind::MarkdownLink => "MarkdownLink"@,
        EvidenceKind::RouteCandidate => "RouteCandidate"@,
        EvidenceKind::ImportantFile => "ImportantFile"@,
        EvidenceKind::Other => "Other"@,
    }
}

fn evidence_kind_str(k: EvidenceKind) -> (r: &'static str)
    ensures
        r@ == evidence_kind_name(k),
{
    match k {
        EvidenceKind::ReadmePresent => "ReadmePresent",
        EvidenceKind::MarkdownHeading => "MarkdownHeading",
        EvidenceKind::MarkdownLink => "MarkdownLink",
        EvidenceKind::RouteCandidate => "RouteCandidate",
        EvidenceKind::ImportantFile => "ImportantFile",
        EvidenceKind::Other => "Other",
    }
}

/// How a detector is described: its basis and what it looks for.
pub open spec fn detector_label_text(d: PatternDetector) -> Seq<char> {
    match d {
        PatternDetector::EvidenceKind(k) => "evidence kind:"@ + evidence_kind_name(k),
        PatternDetector::Route(r) => "trust route:"@ + route_name(r),
        PatternDetector::ReadmeRoute(r) => "README route:"@ + route_name(r),
        PatternDetector::ImportantFile(k) => "important file:"@ + important_kind_name(k),
    }
}

fn push_str(out: &mut Vec<char>, s: &str)
    ensures
        final(out)@ == old(out)@ + s@,
{
    let mut t = chars_of(s);
    out.append(&mut t);
}

/// `detector_label_text(d)`.
pub fn detector_label(d: PatternDetector) -> (r: String)
    ensures
        r@ == detector_label_text(d),
{
    let mut out: Vec<char> = Vec::new();
    match d {
        PatternDetector::EvidenceKind(k) => {
            push_str(&mut out, "evidence kind:");
            push_str(&mut out, evidence_kind_str(k));
        },
        PatternDetector::Route(r) => {
            push_str(&mut out, "trust route:");
            push_str(&mut out, route_name_str(r));
        },
        PatternDetector::ReadmeRoute(r) => {
            push_str(&mut out, "README route:");
            push_str(&mut out, route_name_str(r));
        },
        PatternDetector::ImportantFile(k) => {
            push_str(&mut out, "important file:");
            push_str(&mut out, important_kind_str(k));
        },
    }
    string_of(out.as_slice())
}

/// How many of the first `n` definitions are in group `g`.
pub open spec fn group_count(defs: Seq<DefinitionView>, g: PatternGroup, n: int) -> nat
    decreases n,
{
    if n <= 0 {
        0
    } else {
        group_count(defs, g, n - 1) + if defs[n - 1].group == g { 1nat } else { 0nat }
    }
}

/// How many of the first `n` definitions are in group `g` at `stage`.
pub open spec fn stage_count(defs: Seq<DefinitionView>, g: PatternGroup, stage: PatternAdoptionStage, n: int) -> nat
    decreases n,
{
    if n <= 0 {
        0
    } else {
        stage_count(defs, g, stage, n - 1) + if defs[n - 1].group == g && defs[n - 1].adoption_stage == stage { 1nat } else { 0nat }
    }
}

/// The counts of a group: patterns, baseline patterns, candidates.
fn count_group(defs: &[PatternDefinition], g: PatternGroup) -> (r: (usize, usize, usize))
    ensures
        r.0 == group_count(definition_views(defs@), g, defs@.len() as int),
        r.1 == stage_count(definition_views(defs@), g, PatternAdoptionStage::CommonBaseline, defs@.len() as int),
        r.2 == stage_count(definition_views(defs@), g, PatternAdoptionStage::Candidate, defs@.len() as int),
{
    let mut all: usize = 0;
    let mut baseline: usize = 0;
    let mut candidate: usize = 0;
    let mut i: usize = 0;
    while i < defs.len()
        invariant
            i <= defs@.len(),
            all == group_count(definition_views(defs@), g, i as int),
            baseline == stage_count(definition_views(defs@), g, PatternAdoptionStage::CommonBaseline, i as int),
            candidate == stage_count(definition_views(defs@), g, PatternAdoptionStage::Candidate, i as int),
            all <= i && baseline <= i && candidate <= i,
        decreases defs.len() - i,
    {
        if defs[i].group == g {
            all = all + 1;
            match defs[i].adoption_stage {
                PatternAdoptionStage::CommonBaseline => { baseline = baseline + 1; },
                PatternAdoptionStage::Candidate => { candidate = candidate + 1; },
            }
        }
        i = i + 1;
    }
    (all, baseline, candidate)
}

/// A group's entry in the registry document.
#[derive(Debug, Clone, PartialEq, Eq)]
pub struct PatternGroupDocument {
    pub code: &'static str,
    pub title: &'static str,
    pub description: &'static str,
    pub pattern_count: usize,
    pub baseline_count: usize,
    pub candidate_count: usize,
}

/// A pattern's entry in the registry document.
#[derive(Debug, Clone, PartialEq, Eq)]
pub struct PatternDocument {
    pub id: &'static str,
    pub group: PatternGroup,
    pub title: &'static str,
    pub route: Option<RouteKind>,
    pub detector_kind: &'static str,
    pub detector: String,
    pub requirement: BaselineRequirement,
    pub adoption_stage: &'static str,
    pub active_in_common_baseline: bool,
    pub missing_gate: GateKind,
    pub missing_severity: Severity,
}

/// The registry document: versions, groups, patterns and the boundary of
/// what it claims.
#[derive(Debug, Clone, PartialEq, Eq)]
pub struct PatternRegistryDocument {
    pub schema_version: String,
    pub registry_version: &'static str,
    pub groups: Vec<PatternGroupDocument>,
    pub patterns: Vec<PatternDocument>,
    pub claim_boundary: &'static str,
}

pub open spec fn registry_version() -> Seq<char> {
    "pattern_registry.v2"@
}

pub open spec fn claim_boundary() -> Seq<char> {
    "Registry patterns are deterministic review rules and candidates. They are not popularity, trust, security, or quality guarantees."@
}

/// The entry of group `entry` (code, title, description) over `defs`.
pub open spec fn group_document_of(doc: PatternGroupDocument, entry: (PatternGroup, Seq<char>, Seq<char>), defs: Seq<DefinitionView>) -> bool {
    &&& doc.code@ == group_code(entry.0)
    &&& doc.title@ == entry.1
    &&& doc.description@ == entry.2
    &&& doc.pattern_count == group_count(defs, entry.0, defs.len() as int)
    &&& doc.baseline_count == stage_count(defs, entry.0, PatternAdoptionStage::CommonBaseline, defs.len() as int)
    &&& doc.candidate_count == stage_count(defs, entry.0, PatternAdoptionStage::Candidate, defs.len() as int)
}

/// The entry of definition `d`.
pub open spec fn pattern_document_of(p: PatternDocument, d: PatternDefinition) -> bool {
    &&& p.id@ == d.id@
    &&& p.group == d.group
    &&& p.title@ == d.title@
    &&& p.route == d.route
    &&& p.detector_kind@ == detector_basis_text(d.detector)
    &&& p.detector@ == detector_label_text(d.detector)
    &&& p.requirement == d.requirement
    &&& p.adoption_stage@ == d.adoption_stage.label()
    &&& p.active_in_common_baseline == (d.adoption_stage == PatternAdoptionStage::CommonBaseline)
    &&& p.missing_gate == d.missing_gate
    &&& p.missing_severity == d.missing_severity
}

/// The document of a registry: one entry per group in report order with
/// its counts, and one per definition in registry order. The schema
/// version is the caller's.
pub fn registry_document(registry: &PatternRegistry, schema_version: &str) -> (r: PatternRegistryDocument)
    ensures
        r.schema_version@ == schema_version@,
        r.registry_version@ == registry_version(),
        r.claim_boundary@ == claim_boundary(),
        r.groups@.len() == pattern_group_table().len(),
        forall|k: int| 0 <= k < r.groups@.len() ==> group_document_of(#[trigger] r.groups@[k], pattern_group_table()[k], definition_views(registry.defs())),
        r.patterns@.len() == registry.defs().len(),
        forall|k: int| 0 <= k < r.patterns@.len() ==> pattern_document_of(#[trigger] r.patterns@[k], registry.defs()[k]),
{
    let defs = registry.definitions();
    let table = pattern_groups();
    let mut groups: Vec<PatternGroupDocument> = Vec::new();
    let mut k: usize = 0;
    while k < table.len()
        invariant
            defs@ == registry.defs(),
            table@.len() == pattern_group_table().len(),
            forall|m: int| 0 <= m < table@.len() ==> ((#[trigger] table@[m]).group, table@[m].title@, table@[m].description@) == pattern_group_table()[m],
            k <= table@.len(),
            groups@.len() == k,
            forall|m: int| 0 <= m < k ==> group_document_of(#[trigger] groups@[m], pattern_group_table()[m], definition_views(registry.defs())),
        decreases table.len() - k,
    {
        let entry = table[k];
        let (all, baseline, candidate) = count_group(defs, entry.group);
        groups.push(PatternGroupDocument {
            code: group_code_str(entry.group),
            title: entry.title,
            description: entry.description,
            pattern_count: all,
            baseline_count: baseline,
            candidate_count: candidate,
        });
        assert(((table@[k as int]).group, table@[k as int].title@, table@[k as int].description@) == pattern_group_table()[k as int]);
        k = k + 1;
    }
    let mut patterns: Vec<PatternDocument> = Vec::new();
    let mut i: usize = 0;
    while i < defs.len()
        invariant
            defs@ == registry.defs(),
            i <= defs@.len(),
            patterns@.len() == i,
            forall|m: int| 0 <= m < i ==> pattern_document_of(#[trigger] patterns@[m], registry.defs()[m]),
        decreases defs.len() - i,
    {
        let d = &defs[i];
        patterns.push(PatternDocument {
            id: d.id,
            group: d.group,
            title: d.title,
            route: d.route,
            detector_kind: detector_basis(d.detector),
            detector: detector_label(d.detector),
            requirement: d.requirement,
            adoption_stage: d.adoption_stage.as_str(),
            active_in_common_baseline: d.adoption_stage.active_in_common_baseline(),
            missing_gate: d.missing_gate,
            missing_severity: d.missing_severity,
        });
        i = i + 1;
    }
    PatternRegistryDocument {
        schema_version: string_of(chars_of(schema_version).as_slice()),
        registry_version: "pattern_registry.v2",
        groups,
        patterns,
        claim_boundary: "Registry patterns are deterministic review rules and candidates. They are not popularity, trust, security, or quality guarantees.",
    }
}


/// A route as the Markdown rendering names it.
pub open spec fn route_text(route: Option<RouteKind>) -> Seq<char> {
    match route {
        Some(r) => route_name(r),
        None => "none"@,
    }
}

/// A group's summary line.
pub open spec fn group_summary_line(entry: (PatternGroup, Seq<char>, Seq<char>), defs: Seq<DefinitionView>) -> Seq<char> {
    "- `"@ + group_code(entry.0) + "` "@ + entry.1 + ": `"@ + decimal(group_count(defs, entry.0, defs.len() as int))
        + "` patterns (`"@ + decimal(stage_count(defs, entry.0, PatternAdoptionStage::CommonBaseline, defs.len() as int))
        + "` baseline / `"@ + decimal(stage_count(defs, entry.0, PatternAdoptionStage::Candidate, defs.len() as int))
        + "` candidate)\n"@
}

/// The summary lines of the first `n` groups.
pub open spec fn group_summary_lines(defs: Seq<DefinitionView>, n: int) -> Seq<char>
    decreases n,
{
    if n <= 0 {
        Seq::empty()
    } else {
        group_summary_lines(defs, n - 1) + group_summary_line(pattern_group_table()[n - 1], defs)
    }
}

/// A pattern's line.
pub open spec fn pattern_line(d: DefinitionView) -> Seq<char> {
    "- `"@ + d.id + "` `"@ + d.adoption_stage.label() + "` route `"@ + route_text(d.route) + "` detector `"@
        + detector_label_text(d.detector) + "`: "@ + d.title + "\n"@
}

/// The lines of the first `n` definitions that are in group `g`.
pub open spec fn group_pattern_lines(defs: Seq<DefinitionView>, g: PatternGroup, n: int) -> Seq<char>
    decreases n,
{
    if n <= 0 {
        Seq::empty()
    } else {
        group_pattern_lines(defs, g, n - 1) + if defs[n - 1].group == g { pattern_line(defs[n - 1]) } else { Seq::empty() }
    }
}

/// A group's section: heading, description, then its patterns, or a note
/// that it has none.
pub open spec fn group_section(entry: (PatternGroup, Seq<char>, Seq<char>), defs: Seq<DefinitionView>) -> Seq<char> {
    "## "@ + group_code(entry.0) + " - "@ + entry.1 + "\n\n"@ + entry.2 + "\n\n"@
        + if group_count(defs, entry.0, defs.len() as int) == 0 {
            "- No registered patterns.\n\n"@
        } else {
            group_pattern_lines(defs, entry.0, defs.len() as int) + "\n"@
        }
}

/// The sections of the first `n` groups.
pub open spec fn group_sections(defs: Seq<DefinitionView>, n: int) -> Seq<char>
    decreases n,
{
    if n <= 0 {
        Seq::empty()
    } else {
        group_sections(defs, n - 1) + group_section(pattern_group_table()[n - 1], defs)
    }
}

/// The registry in Markdown: title, versions and boundary, the group
/// summary, then one section per group.
pub open spec fn registry_markdown(schema_version: Seq<char>, defs: Seq<DefinitionView>) -> Seq<char> {
    "# RepoSeiri Pattern Registry\n\n"@ + "- Schema: `"@ + schema_version + "`\n"@
        + "- Registry: `"@ + registry_version() + "`\n"@ + "- Boundary: "@ + claim_boundary() + "\n\n"@
        + "## Groups\n\n"@ + group_summary_lines(defs, 13) + "\n"@ + group_sections(defs, 13)
}

fn push_chars(out: &mut Vec<char>, v: Vec<char>)
    ensures
        final(out)@ == old(out)@ + v@,
{
    let mut v = v;
    out.append(&mut v);
}

fn summary_line(defs: &[PatternDefinition], g: PatternGroup, title: &str) -> (r: Vec<char>)
    ensures
        r@ == "- `"@ + group_code(g) + "` "@ + title@ + ": `"@ + decimal(group_count(definition_views(defs@), g, defs@.len() as int))
            + "` patterns (`"@ + decimal(stage_count(definition_views(defs@), g, PatternAdoptionStage::CommonBaseline, defs@.len() as int))
            + "` baseline / `"@ + decimal(stage_count(definition_views(defs@), g, PatternAdoptionStage::Candidate, defs@.len() as int))
            + "` candidate)\n"@,
{
    let (all, baseline, candidate) = count_group(defs, g);
    let mut out: Vec<char> = Vec::new();
    push_str(&mut out, "- `");
    push_str(&mut out, group_code_str(g));
    push_str(&mut out, "` ");
    push_str(&mut out, title);
    push_str(&mut out, ": `");
    push_chars(&mut out, decimal_chars(all));
    push_str(&mut out, "` patterns (`");
    push_chars(&mut out, decimal_chars(baseline));
    push_str(&mut out, "` baseline / `");
    push_chars(&mut out, decimal_chars(candidate));
    push_str(&mut out, "` candidate)\n");
    out
}

fn pattern_line_chars(d: &PatternDefinition) -> (r: Vec<char>)
    ensures
        r@ == pattern_line(d@),
{
    let mut out: Vec<char> = Vec::new();
    push_str(&mut out, "- `");
    push_str(&mut out, d.id);
    push_str(&mut out, "` `");
    push_str(&mut out, d.adoption_stage.as_str());
    push_str(&mut out, "` route `");
    match d.route {
        Some(r) => push_str(&mut out, route_name_str(r)),
        None => push_str(&mut out, "none"),
    }
    push_str(&mut out, "` detector `");
    let label = detector_label(d.detector);
    push_str(&mut out, label.as_str());
    push_str(&mut out, "`: ");
    push_str(&mut out, d.title);
    push_str(&mut out, "\n");
    out
}

fn section_chars(defs: &[PatternDefinition], g: PatternGroup, title: &str, description: &str) -> (r: Vec<char>)
    ensures
        r@ == group_section((g, title@, description@), definition_views(defs@)),
{
    let mut out: Vec<char> = Vec::new();
    push_str(&mut out, "## ");
    push_str(&mut out, group_code_str(g));
    push_str(&mut out, " - ");
    push_str(&mut out, title);
    push_str(&mut out, "\n\n");
    push_str(&mut out, description);
    push_str(&mut out, "\n\n");
    let ghost head = out@;
    let (all, _, _) = count_group(defs, g);
    if all == 0 {
        push_str(&mut out, "- No registered patterns.\n\n");
        return out;
    }
    let mut lines: Vec<char> = Vec::new();
    let mut i: usize = 0;
    while i < defs.len()
        invariant
            i <= defs@.len(),
            lines@ == group_pattern_lines(definition_views(defs@), g, i as int),
        decreases defs.len() - i,
    {
        if defs[i].group == g {
            push_chars(&mut lines, pattern_line_chars(&defs[i]));
        } else {
            assert(lines@ + Seq::<char>::empty() =~= lines@);
        }
        i = i + 1;
    }
    push_chars(&mut out, lines);
    push_str(&mut out, "\n");
    out
}

/// The registry in Markdown: `registry_markdown` of its definitions, under
/// the caller's schema version.
pub fn render_registry_markdown(registry: &PatternRegistry, schema_version: &str) -> (r: String)
    ensures
        r@ == registry_markdown(schema_version@, definition_views(registry.defs())),
{
    let defs = registry.definitions();
    let table = pattern_groups();
    let mut out: Vec<char> = Vec::new();
    push_str(&mut out, "# RepoSeiri Pattern Registry\n\n");
    push_str(&mut out, "- Schema: `");
    push_str(&mut out, schema_version);
    push_str(&mut out, "`\n");
    push_str(&mut out, "- Registry: `");
    push_str(&mut out, "pattern_registry.v2");
    push_str(&mut out, "`\n");
    push_str(&mut out, "- Boundary: ");
    push_str(&mut out, "Registry patterns are deterministic review rules and candidates. They are not popularity, trust, security, or quality guarantees.");
    push_str(&mut out, "\n\n");
    push_str(&mut out, "## Groups\n\n");
    let ghost head = out@;
    let mut summary: Vec<char> = Vec::new();
    let mut k: usize = 0;
    while k < table.len()
        invariant
            defs@ == registry.defs(),
            table@.len() == pattern_group_table().len(),
            forall|m: int| 0 <= m < table@.len() ==> ((#[trigger] table@[m]).group, table@[m].title@, table@[m].description@) == pattern_group_table()[m],
            k <= table@.len(),
            summary@ == group_summary_lines(definition_views(defs@), k as int),
        decreases table.len() - k,
    {
        let entry = table[k];
        assert((entry.group, entry.title@, entry.description@) == pattern_group_table()[k as int]);
        push_chars(&mut summary, summary_line(defs, entry.group, entry.title));
        k = k + 1;
    }
    let mut sections: Vec<char> = Vec::new();
    let mut k2: usize = 0;
    while k2 < table.len()
        invariant
            defs@ == registry.defs(),
            table@.len() == pattern_group_table().len(),
            forall|m: int| 0 <= m < table@.len() ==> ((#[trigger] table@[m]).group, table@[m].title@, table@[m].description@) == pattern_group_table()[m],
            k2 <= table@.len(),
            sections@ == group_sections(definition_views(defs@), k2 as int),
        decreases table.len() - k2,
    {
        let entry = table[k2];
        assert((entry.group, entry.title@, entry.description@) == pattern_group_table()[k2 as int]);
        push_chars(&mut sections, section_chars(defs, entry.group, entry.title, entry.description));
        k2 = k2 + 1;
    }
    push_chars(&mut out, summary);
    push_str(&mut out, "\n");
    push_chars(&mut out, sections);
    string_of(out.as_slice())
}

/// The built-in registry in Markdown.
pub fn render_common_registry_markdown(schema_version: &str) -> (r: String)
    ensures
        r@ == registry_markdown(schema_version@, common_patterns()),
{
    let registry = common_registry();
    render_registry_markdown(&registry, schema_version)
}

proof fn lemma_group_count_positive(defs: Seq<DefinitionView>, g: PatternGroup, n: int, i: int)
    requires
        0 <= i < n <= defs.len(),
        defs[i].group == g,
    ensures
        group_count(defs, g, n) > 0,
    decreases n,
{
    if i < n - 1 {
        lemma_group_count_positive(defs, g, n - 1, i);
    }
}

/// The common registry's Markdown opens with the registry's title, and
/// every group of the group table has at least one common pattern, so each
/// group's section lists that group's patterns (none reads "No registered
/// patterns").
pub proof fn lemma_common_registry_markdown_layout(schema_version: Seq<char>)
    ensures
        has_prefix(registry_markdown(schema_version, common_patterns()), "# RepoSeiri Pattern Registry\n\n"@),
        forall|k: int| 0 <= k < pattern_group_table().len() ==>
            group_count(common_patterns(), #[trigger] pattern_group_table()[k].0, common_patterns().len() as int) > 0,
        forall|k: int| 0 <= k < pattern_group_table().len() ==>
            #[trigger] group_section(pattern_group_table()[k], common_patterns())
                == "## "@ + group_code(pattern_group_table()[k].0) + " - "@ + pattern_group_table()[k].1 + "\n\n"@
                    + pattern_group_table()[k].2 + "\n\n"@
                    + group_pattern_lines(common_patterns(), pattern_group_table()[k].0, common_patterns().len() as int) + "\n"@,
{
    let title = "# RepoSeiri Pattern Registry\n\n"@;
    let whole = registry_markdown(schema_version, common_patterns());
    let rest = whole.subrange(title.len() as int, whole.len() as int);
    assert(whole =~= title + rest);
    assert(whole.subrange(0, title.len() as int) =~= title);
    let defs = common_patterns();
    let table = pattern_group_table();
    let n = defs.len() as int;
    assert(n == 25);
    assert(table.len() == 13);
    let witness = seq![0int, 1, 2, 4, 6, 5, 14, 9, 7, 22, 23, 24, 3];
    assert forall|k: int| 0 <= k < table.len() implies group_count(defs, #[trigger] table[k].0, n) > 0 by {
        let i = witness[k];
        assert(defs[i].group == table[k].0);
        lemma_group_count_positive(defs, table[k].0, n, i);
    }
}

/// The indices of the first `n` definitions that are in group `g`, in order.
pub open spec fn group_indices(defs: Seq<DefinitionView>, g: PatternGroup, n: int) -> Seq<int>
    decreases n,
{
    if n <= 0 {
        Seq::empty()
    } else {
        group_indices(defs, g, n - 1) + if defs[n - 1].group == g { seq![n - 1] } else { Seq::<int>::empty() }
    }
}

/// The lines of the definitions at `idx`, in order.
pub open spec fn lines_at(defs: Seq<DefinitionView>, idx: Seq<int>) -> Seq<char>
    decreases idx.len(),
{
    if idx.len() == 0 {
        Seq::empty()
    } else {
        lines_at(defs, idx.drop_last()) + pattern_line(defs[idx.last()])
    }
}

/// The definitions that the sections of the first `m` groups list, by index,
/// in the order they are listed.
pub open spec fn listed_indices(defs: Seq<DefinitionView>, m: int) -> Seq<int>
    decreases m,
{
    if m <= 0 {
        Seq::empty()
    } else {
        listed_indices(defs, m - 1) + group_indices(defs, pattern_group_table()[m - 1].0, defs.len() as int)
    }
}

proof fn lemma_group_lines(defs: Seq<DefinitionView>, g: PatternGroup, n: int)
    requires
        0 <= n,
    ensures
        group_pattern_lines(defs, g, n) == lines_at(defs, group_indices(defs, g, n)),
    decreases n,
{
    if n > 0 {
        lemma_group_lines(defs, g, n - 1);
        let prev = group_indices(defs, g, n - 1);
        if defs[n - 1].group == g {
            let idx = prev + seq![n - 1];
            assert(idx.drop_last() =~= prev);
            assert(idx.last() == n - 1);
        } else {
            assert(prev + Seq::<int>::empty() =~= prev);
        }
    }
}

proof fn lemma_group_indices(defs: Seq<DefinitionView>, g: PatternGroup, n: int)
    requires
        0 <= n <= defs.len(),
    ensures
        group_indices(defs, g, n).no_duplicates(),
        forall|x: int| group_indices(defs, g, n).contains(x) <==> (0 <= x < n && defs[x].group == g),
    decreases n,
{
    if n > 0 {
        lemma_group_indices(defs, g, n - 1);
        let prev = group_indices(defs, g, n - 1);
        if defs[n - 1].group == g {
            let next = prev + seq![n - 1];
            assert forall|x: int| next.contains(x) <==> (0 <= x < n && defs[x].group == g) by {
                if next.contains(x) {
                    let j = choose|j: int| 0 <= j < next.len() && next[j] == x;
                    if j < prev.len() {
                        assert(prev[j] == x);
                        assert(prev.contains(x));
                    } else {
                        assert(next[j] == n - 1);
                    }
                }
                if 0 <= x < n && defs[x].group == g {
                    if x < n - 1 {
                        assert(prev.contains(x));
                        let j = choose|j: int| 0 <= j < prev.len() && prev[j] == x;
                        assert(next[j] == x);
                    } else {
                        assert(next[prev.len() as int] == x);
                    }
                }
            }
            assert forall|i: int, j: int| 0 <= i < next.len() && 0 <= j < next.len() && i != j implies next[i] != next[j] by {
                if i < prev.len() && j < prev.len() {
                } else if i < prev.len() {
                    assert(prev.contains(next[i]));
                } else if j < prev.len() {
                    assert(prev.contains(next[j]));
                }
            }
        } else {
            assert(prev + Seq::<int>::empty() =~= prev);
        }
    }
}

/// No two of the first `m` groups of the table are the same group.
pub open spec fn distinct_groups(m: int) -> bool {
    forall|a: int, b: int| 0 <= a < b < m ==> pattern_group_table()[a].0 != pattern_group_table()[b].0
}

proof fn lemma_listed_indices(defs: Seq<DefinitionView>, m: int)
    requires
        0 <= m <= pattern_group_table().len(),
        distinct_groups(m),
    ensures
        listed_indices(defs, m).no_duplicates(),
        forall|x: int| listed_indices(defs, m).contains(x) <==>
            (0 <= x < defs.len() && exists|k: int| 0 <= k < m && pattern_group_table()[k].0 == defs[x].group),
    decreases m,
{
    if m > 0 {
        lemma_listed_indices(defs, m - 1);
        let g = pattern_group_table()[m - 1].0;
        lemma_group_indices(defs, g, defs.len() as int);
        let prev = listed_indices(defs, m - 1);
        let block = group_indices(defs, g, defs.len() as int);
        let next = prev + block;
        assert forall|x: int| next.contains(x) <==>
            (0 <= x < defs.len() && exists|k: int| 0 <= k < m && pattern_group_table()[k].0 == defs[x].group) by {
            if next.contains(x) {
                let j = choose|j: int| 0 <= j < next.len() && next[j] == x;
                if j < prev.len() {
                    assert(prev[j] == x);
                    assert(prev.contains(x));
                } else {
                    assert(block[j - prev.len()] == x);
                    assert(block.contains(x));
                    assert(pattern_group_table()[m - 1].0 == defs[x].group);
                }
            }
            if 0 <= x < defs.len() && exists|k: int| 0 <= k < m && pattern_group_table()[k].0 == defs[x].group {
                let k = choose|k: int| 0 <= k < m && pattern_group_table()[k].0 == defs[x].group;
                if k < m - 1 {
                    assert(prev.contains(x));
                    let j = choose|j: int| 0 <= j < prev.len() && prev[j] == x;
                    assert(next[j] == x);
                } else {
                    assert(block.contains(x));
                    let j = choose|j: int| 0 <= j < block.len() && block[j] == x;
                    assert(next[prev.len() + j] == x);
                }
            }
        }
        assert forall|i: int, j: int| 0 <= i < next.len() && 0 <= j < next.len() && i != j implies next[i] != next[j] by {
            if i < prev.len() && j >= prev.len() {
                let x = next[i];
                assert(prev.contains(x));
                assert(block.contains(next[j]));
                if x == next[j] {
                    let k = choose|k: int| 0 <= k < m - 1 && pattern_group_table()[k].0 == defs[x].group;
                    assert(pattern_group_table()[m - 1].0 == defs[x].group);
                }
            } else if j < prev.len() && i >= prev.len() {
                let x = next[j];
                assert(prev.contains(x));
                assert(block.contains(next[i]));
                if x == next[i] {
                    let k = choose|k: int| 0 <= k < m - 1 && pattern_group_table()[k].0 == defs[x].group;
                    assert(pattern_group_table()[m - 1].0 == defs[x].group);
                }
            } else if i >= prev.len() && j >= prev.len() {
                assert(block[i - prev.len()] != block[j - prev.len()]);
            }
        }
    }
}

/// In the common registry's Markdown every registered pattern is listed
/// exactly once: the sections, in group order, list the patterns by a
/// sequence of indices that holds each index of the registry once, and each
/// section's pattern lines are the lines of its group's patterns, in
/// registry order.
pub proof fn lemma_common_registry_lists_each_pattern_once()
    ensures
        listed_indices(common_patterns(), pattern_group_table().len() as int).no_duplicates(),
        forall|x: int| #[trigger] listed_indices(common_patterns(), pattern_group_table().len() as int).contains(x)
            <==> 0 <= x < common_patterns().len(),
        forall|k: int| 0 <= k < pattern_group_table().len() ==>
            group_pattern_lines(common_patterns(), #[trigger] pattern_group_table()[k].0, common_patterns().len() as int)
                == lines_at(common_patterns(), group_indices(common_patterns(), pattern_group_table()[k].0, common_patterns().len() as int)),
{
    let defs = common_patterns();
    let table = pattern_group_table();
    assert(table.len() == 13);
    assert(defs.len() == 25);
    assert(distinct_groups(13));
    lemma_listed_indices(defs, 13);
    let slot = seq![0int, 1, 2, 12, 3, 5, 4, 8, 12, 7, 3, 4, 4, 4, 6, 6, 6, 6, 7, 7, 8, 12, 9, 10, 11];
    assert forall|x: int| 0 <= x < 25 implies exists|k: int| 0 <= k < 13 && #[trigger] pattern_group_table()[k].0 == (#[trigger] common_patterns()[x]).group by {
        assert(pattern_group_table()[slot[x]].0 == common_patterns()[x].group);
    }
    assert forall|k: int| 0 <= k < table.len() implies
        group_pattern_lines(defs, #[trigger] table[k].0, defs.len() as int)
            == lines_at(defs, group_indices(defs, table[k].0, defs.len() as int)) by {
        lemma_group_lines(defs, table[k].0, defs.len() as int);
    }
}

} // verus!

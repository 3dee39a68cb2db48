//! Profile scoring: baseline outcomes weighted by the catalog, and the
//! purpose signals that speak for a profile.

use vstd::prelude::*;
use crate::fs::classify::ImportantFileKind;
use crate::fs::records::{FileKind, FileRecord};
use crate::markdown::routes::RouteKind;
use crate::profiles::registry::ProfileKind;
use crate::profiles::signals::{
    contains_signal, contains_signal_spec, is_purpose_signal, path_signal, path_signal_chars,
    primary_artifact, primary_artifact_chars, purpose_labels, str_views,
};
use crate::profiles::weight::StaticProfileWeight;
use crate::text::{ascii_lower, chars_of, replace_char, replace_chars, to_ascii_lower};

verus! {

/// Whether a baseline rule was observed.
#[derive(Debug, Clone, Copy, PartialEq, Eq, Structural)]
pub enum BaselineStatus {
    Present,
    Missing,
}

/// A baseline rule's outcome, as profile scoring reads it.
#[derive(Debug, Clone, PartialEq, Eq)]
pub struct BaselineRuleResult {
    pub pattern_id: String,
    pub title: String,
    pub route: Option<RouteKind>,
    pub status: BaselineStatus,
    pub evidence_ids: Vec<String>,
    pub finding_id: Option<String>,
}

/// A rule counts as present only when it is present and cites evidence.
pub open spec fn backed_status(rule: BaselineRuleResult) -> BaselineStatus {
    if rule.status == BaselineStatus::Present && rule.evidence_ids@.len() > 0 {
        BaselineStatus::Present
    } else {
        BaselineStatus::Missing
    }
}

/// `backed_status(rule)`.
pub fn evidence_backed_status(rule: &BaselineRuleResult) -> (r: BaselineStatus)
    ensures
        r == backed_status(*rule),
{
    if rule.status == BaselineStatus::Present && rule.evidence_ids.len() > 0 {
        BaselineStatus::Present
    } else {
        BaselineStatus::Missing
    }
}

/// One rule's status and weight, as the score reads it.
#[derive(Debug, Clone, Copy, PartialEq, Eq)]
pub struct ProfileScoringInput {
    pub status: BaselineStatus,
    pub weight: StaticProfileWeight,
}

/// What a profile score rests on.
#[derive(Debug, Clone, Copy, PartialEq, Eq, Structural)]
pub enum ProfileEvidenceBasis {
    RepositoryEvidence,
}

/// Where profile weights come from.
#[derive(Debug, Clone, Copy, PartialEq, Eq, Structural)]
pub enum ProfileWeightBasis {
    StaticProfileRegistry,
}

/// The weighted score of a profile's rules.
#[derive(Debug, Clone, PartialEq, Eq)]
pub struct ProfileScoreView {
    pub evidence_basis: ProfileEvidenceBasis,
    pub weight_basis: ProfileWeightBasis,
    pub earned_weight: u32,
    pub total_weight: u32,
    pub score_x100: u8,
    pub present_rules: usize,
    pub missing_rules: usize,
    pub note: String,
}

pub open spec fn weight_sum(v: Seq<ProfileScoringInput>) -> nat
    decreases v.len(),
{
    if v.len() == 0 {
        0
    } else {
        weight_sum(v.drop_last()) + (v.last().weight.value() as nat)
    }
}

pub open spec fn earned_sum(v: Seq<ProfileScoringInput>) -> nat
    decreases v.len(),
{
    if v.len() == 0 {
        0
    } else {
        earned_sum(v.drop_last()) + if v.last().status == BaselineStatus::Present {
            v.last().weight.value() as nat
        } else {
            0
        }
    }
}

pub open spec fn status_count(v: Seq<ProfileScoringInput>, st: BaselineStatus) -> nat
    decreases v.len(),
{
    if v.len() == 0 {
        0
    } else {
        status_count(v.drop_last(), st) + if v.last().status == st { 1nat } else { 0 }
    }
}

/// Earned weight as a percentage of the total, rounded down; the product
/// saturates at `u32::MAX`, and no weight gives 0.
pub open spec fn weighted_score(earned: nat, total: nat) -> nat {
    if total == 0 {
        0
    } else {
        let product = if earned * 100 > u32::MAX { u32::MAX as nat } else { earned * 100 };
        let q = product / total;
        if q > 100 { 100 } else { q }
    }
}

proof fn lemma_earned_le_total(v: Seq<ProfileScoringInput>)
    ensures
        earned_sum(v) <= weight_sum(v),
    decreases v.len(),
{
    if v.len() > 0 {
        lemma_earned_le_total(v.drop_last());
    }
}

pub open spec fn score_note() -> Seq<char> {
    "Score view uses repository evidence and static profile-registry weights only. Calibration estimates remain review-only suggestions until separately adopted; this is not a popularity, trust, security, or quality guarantee."@
}

/// The score of `inputs`: total and earned weight, the percentage earned,
/// and how many rules are present and missing.
pub fn score_view(inputs: &[ProfileScoringInput]) -> (r: ProfileScoreView)
    requires
        weight_sum(inputs@) <= u32::MAX,
    ensures
        r.evidence_basis == ProfileEvidenceBasis::RepositoryEvidence,
        r.weight_basis == ProfileWeightBasis::StaticProfileRegistry,
        r.total_weight == weight_sum(inputs@),
        r.earned_weight == earned_sum(inputs@),
        r.score_x100 == weighted_score(earned_sum(inputs@), weight_sum(inputs@)),
        r.present_rules == status_count(inputs@, BaselineStatus::Present),
        r.missing_rules == status_count(inputs@, BaselineStatus::Missing),
        r.note@ == score_note(),
{
    let mut total: u32 = 0;
    let mut earned: u32 = 0;
    let mut present: usize = 0;
    let mut missing: usize = 0;
    let mut i: usize = 0;
    while i < inputs.len()
        invariant
            i <= inputs.len(),
            weight_sum(inputs@) <= u32::MAX,
            total == weight_sum(inputs@.take(i as int)),
            earned == earned_sum(inputs@.take(i as int)),
            present == status_count(inputs@.take(i as int), BaselineStatus::Present),
            missing == status_count(inputs@.take(i as int), BaselineStatus::Missing),
            present + missing == i,
        decreases inputs.len() - i,
    {
        let input = inputs[i];
        let w = input.weight.get();
        proof {
            let next = inputs@.take(i as int + 1);
            assert(next.drop_last() =~= inputs@.take(i as int));
            lemma_prefix_weight(inputs@, i as int + 1);
            lemma_earned_le_total(inputs@.take(i as int));
        }
        total = total + w;
        if input.status == BaselineStatus::Present {
            earned = earned + w;
            present = present + 1;
        } else {
            missing = missing + 1;
        }
        i = i + 1;
    }
    assert(inputs@.take(inputs.len() as int) =~= inputs@);
    let product: u32 = if earned > u32::MAX / 100 { u32::MAX } else { earned * 100 };
    let q: u32 = if total == 0 { 0 } else { product / total };
    let score_x100: u8 = if q > 100 { 100 } else { q as u8 };
    ProfileScoreView {
        evidence_basis: ProfileEvidenceBasis::RepositoryEvidence,
        weight_basis: ProfileWeightBasis::StaticProfileRegistry,
        earned_weight: earned,
        total_weight: total,
        score_x100,
        present_rules: present,
        missing_rules: missing,
        note: "Score view uses repository evidence and static profile-registry weights only. Calibration estimates remain review-only suggestions until separately adopted; this is not a popularity, trust, security, or quality guarantee.".to_owned(),
    }
}

/// A prefix weighs no more than the whole.
proof fn lemma_prefix_weight(v: Seq<ProfileScoringInput>, n: int)
    requires
        0 <= n <= v.len(),
    ensures
        weight_sum(v.take(n)) <= weight_sum(v),
    decreases v.len() - n,
{
    if n < v.len() {
        lemma_prefix_weight(v, n + 1);
        assert(v.take(n + 1).drop_last() =~= v.take(n));
    } else {
        assert(v.take(n) =~= v);
    }
}

/// What profile scoring reads of an analysed repository.
#[derive(Debug, Clone, PartialEq, Eq)]
pub struct ProfileSnapshot {
    /// Routes the analysis shows: by a root or inherited assessment, by the
    /// README's routing, or by an evidence fact (what `shown_routes` gives
    /// for the analysis's assessments and facts).
    pub shown_routes: Vec<RouteKind>,
    pub important_files: Vec<ImportantFileKind>,
    pub files: Vec<FileRecord>,
    /// The README's heading texts, link texts and targets, and route
    /// candidate texts and targets.
    pub readme_texts: Vec<String>,
}

/// A route is shown by a present baseline rule or by the analysis.
pub open spec fn route_shown(snapshot: Option<&ProfileSnapshot>, baseline: Seq<BaselineRuleResult>, route: RouteKind) -> bool {
    (exists|i: int| 0 <= i < baseline.len() && (#[trigger] baseline[i]).route == Some(route)
        && baseline[i].status == BaselineStatus::Present)
    || (snapshot matches Some(s) && s.shown_routes@.contains(route))
}

pub open spec fn file_present(snapshot: Option<&ProfileSnapshot>, kind: ImportantFileKind) -> bool {
    snapshot matches Some(s) && s.important_files@.contains(kind)
}

/// A path with `/` separators, ASCII-lower-cased.
pub open spec fn normalized_path(p: Seq<char>) -> Seq<char> {
    ascii_lower(replace_char(p, '\\', '/'))
}

/// A walked file or directory outside fixture, test and build trees whose
/// path matches a needle.
pub open spec fn file_signal(r: FileRecord, needles: Seq<Seq<char>>) -> bool {
    let path = normalized_path(r.path@);
    &&& (r.kind == FileKind::Directory || r.kind == FileKind::File)
    &&& primary_artifact(path)
    &&& exists|k: int| 0 <= k < needles.len() && path_signal(path, #[trigger] needles[k])
}

/// Some walked path of the repository names a needle.
pub open spec fn path_names(s: ProfileSnapshot, needles: Seq<Seq<char>>) -> bool {
    exists|i: int| 0 <= i < s.files@.len() && file_signal(#[trigger] s.files@[i], needles)
}

/// Some README text of the repository names a needle as a word.
pub open spec fn text_names(s: ProfileSnapshot, needles: Seq<Seq<char>>) -> bool {
    exists|t: int| 0 <= t < s.readme_texts@.len() && contains_signal_spec(#[trigger] s.readme_texts@[t]@, needles)
}

/// Some file path or README text of the repository names a needle.
pub open spec fn words_found(snapshot: Option<&ProfileSnapshot>, needles: Seq<Seq<char>>) -> bool {
    snapshot matches Some(s) && (path_names(*s, needles) || text_names(*s, needles))
}

/// `route_shown(snapshot, baseline, route)`.
pub fn has_route(snapshot: Option<&ProfileSnapshot>, baseline: &[BaselineRuleResult], route: RouteKind) -> (r: bool)
    ensures
        r == route_shown(snapshot, baseline@, route),
{
    let mut i: usize = 0;
    while i < baseline.len()
        invariant
            i <= baseline.len(),
            forall|k: int| 0 <= k < i ==> !((#[trigger] baseline@[k]).route == Some(route)
                && baseline@[k].status == BaselineStatus::Present),
        decreases baseline.len() - i,
    {
        if baseline[i].route == Some(route) && baseline[i].status == BaselineStatus::Present {
            return true;
        }
        i = i + 1;
    }
    match snapshot {
        None => false,
        Some(s) => {
            let mut k: usize = 0;
            while k < s.shown_routes.len()
                invariant
                    snapshot == Some(s),
                    k <= s.shown_routes.len(),
                    forall|m: int| 0 <= m < k ==> s.shown_routes@[m] != route,
                decreases s.shown_routes.len() - k,
            {
                if s.shown_routes[k] == route {
                    assert(s.shown_routes@.contains(route) && s.shown_routes@[k as int] == route);
                    return true;
                }
                k = k + 1;
            }
            false
        },
    }
}

/// `file_present(snapshot, kind)`.
pub fn has_important_file(snapshot: Option<&ProfileSnapshot>, kind: ImportantFileKind) -> (r: bool)
    ensures
        r == file_present(snapshot, kind),
{
    match snapshot {
        None => false,
        Some(s) => {
            let mut k: usize = 0;
            while k < s.important_files.len()
                invariant
                    snapshot == Some(s),
                    k <= s.important_files.len(),
                    forall|m: int| 0 <= m < k ==> s.important_files@[m] != kind,
                decreases s.important_files.len() - k,
            {
                if s.important_files[k] == kind {
                    assert(s.important_files@[k as int] == kind);
                    return true;
                }
                k = k + 1;
            }
            false
        },
    }
}

/// `file_signal(record, needles)`.
fn record_signal(record: &FileRecord, needles: &[&str]) -> (r: bool)
    ensures
        r == file_signal(*record, str_views(needles@)),
{
    if !(record.kind == FileKind::Directory || record.kind == FileKind::File) {
        return false;
    }
    let raw = chars_of(record.path.as_str());
    let slashed = replace_chars(raw.as_slice(), '\\', '/');
    let path = to_ascii_lower(slashed.as_slice());
    if !primary_artifact_chars(path.as_slice()) {
        return false;
    }
    let mut k: usize = 0;
    while k < needles.len()
        invariant
            k <= needles.len(),
            path@ == normalized_path(record.path@),
            primary_artifact(path@),
            record.kind == FileKind::Directory || record.kind == FileKind::File,
            forall|m: int| 0 <= m < k ==> !path_signal(path@, #[trigger] str_views(needles@)[m]),
        decreases needles.len() - k,
    {
        assert(str_views(needles@)[k as int] == needles@[k as int]@);
        if path_signal_chars(path.as_slice(), needles[k]) {
            assert(path_signal(path@, str_views(needles@)[k as int]));
            return true;
        }
        k = k + 1;
    }
    false
}

/// `words_found(snapshot, needles)`.
pub fn path_or_readme_contains(snapshot: Option<&ProfileSnapshot>, needles: &[&str]) -> (r: bool)
    ensures
        r == words_found(snapshot, str_views(needles@)),
{
    match snapshot {
        None => false,
        Some(s) => {
            let mut i: usize = 0;
            while i < s.files.len()
                invariant
                    snapshot == Some(s),
                    i <= s.files.len(),
                    forall|m: int| 0 <= m < i ==> !file_signal(#[trigger] s.files@[m], str_views(needles@)),
                decreases s.files.len() - i,
            {
                if record_signal(&s.files[i], needles) {
                    assert(file_signal(s.files@[i as int], str_views(needles@)));
                    return true;
                }
                i = i + 1;
            }
            let mut t: usize = 0;
            while t < s.readme_texts.len()
                invariant
                    snapshot == Some(s),
                    t <= s.readme_texts.len(),
                    forall|m: int| 0 <= m < s.files@.len() ==> !file_signal(#[trigger] s.files@[m], str_views(needles@)),
                    forall|m: int| 0 <= m < t ==> !contains_signal_spec(#[trigger] s.readme_texts@[m]@, str_views(needles@)),
                decreases s.readme_texts.len() - t,
            {
                if contains_signal(s.readme_texts[t].as_str(), needles) {
                    assert(contains_signal_spec(s.readme_texts@[t as int]@, str_views(needles@)));
                    return true;
                }
                t = t + 1;
            }
            false
        },
    }
}

/// What a signal checks.
#[derive(Debug, Clone, PartialEq, Eq)]
pub enum SignalCheck {
    Route(RouteKind),
    File(ImportantFileKind),
    Words(Vec<&'static str>),
}

/// A labelled, weighted signal.
#[derive(Debug, Clone, PartialEq, Eq)]
pub struct ProfileSignal {
    pub label: &'static str,
    pub weight: u32,
    pub check: SignalCheck,
}

pub enum CheckView {
    Route(RouteKind),
    File(ImportantFileKind),
    Words(Seq<Seq<char>>),
}

pub struct SignalView {
    pub label: Seq<char>,
    pub weight: u32,
    pub check: CheckView,
}

pub open spec fn check_view(c: SignalCheck) -> CheckView {
    match c {
        SignalCheck::Route(r) => CheckView::Route(r),
        SignalCheck::File(k) => CheckView::File(k),
        SignalCheck::Words(w) => CheckView::Words(str_views(w@)),
    }
}

impl View for ProfileSignal {
    type V = SignalView;

    open spec fn view(&self) -> SignalView {
        SignalView { label: self.label@, weight: self.weight, check: check_view(self.check) }
    }
}

pub open spec fn signal_views(v: Seq<ProfileSignal>) -> Seq<SignalView> {
    v.map_values(|s: ProfileSignal| s@)
}

fn signal(label: &'static str, weight: u32, check: SignalCheck) -> (s: ProfileSignal)
    ensures
        s@ == (SignalView { label: label@, weight, check: check_view(check) }),
{
    ProfileSignal { label, weight, check }
}

/// The signals that speak for each profile, in order.
pub open spec fn signal_table(profile: ProfileKind) -> Seq<SignalView> {
    match profile {
        ProfileKind::Library => seq![
            SignalView { label: "package manifest"@, weight: 12, check: CheckView::File(ImportantFileKind::CargoToml) },
            SignalView { label: "docs route"@, weight: 16, check: CheckView::Route(RouteKind::Docs) },
            SignalView { label: "quickstart route"@, weight: 16, check: CheckView::Route(RouteKind::Quickstart) },
            SignalView { label: "release route"@, weight: 10, check: CheckView::Route(RouteKind::Release) },
            SignalView { label: "license boundary"@, weight: 12, check: CheckView::Route(RouteKind::License) },
            SignalView { label: "examples or API wording"@, weight: 8, check: CheckView::Words(seq!["examples"@, "api"@, "sdk"@, "client"@]) },
        ],
        ProfileKind::Cli => seq![
            SignalView { label: "first command or quickstart"@, weight: 18, check: CheckView::Route(RouteKind::Quickstart) },
            SignalView { label: "release route"@, weight: 12, check: CheckView::Route(RouteKind::Release) },
            SignalView { label: "support route"@, weight: 10, check: CheckView::Route(RouteKind::Support) },
            SignalView { label: "automation signal"@, weight: 8, check: CheckView::Route(RouteKind::Automation) },
            SignalView { label: "binary or command path"@, weight: 12, check: CheckView::Words(seq!["src/main.rs"@, "bin/"@, "cmd/"@, "cli"@, "command"@]) },
        ],
        ProfileKind::Infra => seq![
            SignalView { label: "workflow automation"@, weight: 16, check: CheckView::Route(RouteKind::Automation) },
            SignalView { label: "security route"@, weight: 16, check: CheckView::Route(RouteKind::Security) },
            SignalView { label: "ops docs route"@, weight: 12, check: CheckView::Route(RouteKind::Docs) },
            SignalView { label: "ownership route"@, weight: 10, check: CheckView::Route(RouteKind::Ownership) },
            SignalView { label: "deployment or infra path"@, weight: 14, check: CheckView::Words(seq!["helm"@, "k8s"@, "kubernetes"@, "terraform"@, "deploy"@, "operator"@]) },
        ],
        ProfileKind::Product => seq![
            SignalView { label: "support route"@, weight: 18, check: CheckView::Route(RouteKind::Support) },
            SignalView { label: "docs route"@, weight: 14, check: CheckView::Route(RouteKind::Docs) },
            SignalView { label: "release route"@, weight: 12, check: CheckView::Route(RouteKind::Release) },
            SignalView { label: "quickstart route"@, weight: 8, check: CheckView::Route(RouteKind::Quickstart) },
            SignalView { label: "app or product wording"@, weight: 12, check: CheckView::Words(seq!["app"@, "web"@, "ui"@, "product"@, "screenshot"@]) },
        ],
        ProfileKind::Runtime => seq![
            SignalView { label: "security route"@, weight: 16, check: CheckView::Route(RouteKind::Security) },
            SignalView { label: "release route"@, weight: 16, check: CheckView::Route(RouteKind::Release) },
            SignalView { label: "governance route"@, weight: 12, check: CheckView::Route(RouteKind::Governance) },
            SignalView { label: "build automation"@, weight: 10, check: CheckView::Route(RouteKind::Automation) },
            SignalView { label: "runtime or compiler path"@, weight: 12, check: CheckView::Words(seq!["runtime"@, "compiler"@, "toolchain"@, "fuzz"@, "tests"@]) },
        ],
        ProfileKind::Docs => seq![
            SignalView { label: "docs route"@, weight: 20, check: CheckView::Route(RouteKind::Docs) },
            SignalView { label: "docs directory"@, weight: 14, check: CheckView::File(ImportantFileKind::DocsDirectory) },
            SignalView { label: "contribution route"@, weight: 10, check: CheckView::Route(RouteKind::Contributing) },
            SignalView { label: "governance route"@, weight: 8, check: CheckView::Route(RouteKind::Governance) },
            SignalView { label: "spec or guide wording"@, weight: 10, check: CheckView::Words(seq!["spec"@, "guide"@, "manual"@, "proposal"@]) },
        ],
        ProfileKind::Tutorial => seq![
            SignalView { label: "quickstart route"@, weight: 20, check: CheckView::Route(RouteKind::Quickstart) },
            SignalView { label: "docs route"@, weight: 12, check: CheckView::Route(RouteKind::Docs) },
            SignalView { label: "support route"@, weight: 10, check: CheckView::Route(RouteKind::Support) },
            SignalView { label: "examples or tutorial path"@, weight: 14, check: CheckView::Words(seq!["examples"@, "tutorial"@, "lesson"@, "notebook"@, "sample"@]) },
        ],
        ProfileKind::Ml => seq![
            SignalView { label: "docs route"@, weight: 14, check: CheckView::Route(RouteKind::Docs) },
            SignalView { label: "license boundary"@, weight: 12, check: CheckView::Route(RouteKind::License) },
            SignalView { label: "quickstart route"@, weight: 10, check: CheckView::Route(RouteKind::Quickstart) },
            SignalView { label: "model data or paper path"@, weight: 18, check: CheckView::Words(seq!["model"@, "dataset"@, "data"@, "notebook"@]) },
            SignalView { label: "release or artifact route"@, weight: 8, check: CheckView::Route(RouteKind::Release) },
        ],
        ProfileKind::Research => seq![
            SignalView { label: "research artifact path"@, weight: 18, check: CheckView::Words(seq!["paper"@, "papers"@, "experiment"@, "experiments"@, "research"@]) },
        ],
        ProfileKind::Template => seq![
            SignalView { label: "quickstart route"@, weight: 16, check: CheckView::Route(RouteKind::Quickstart) },
            SignalView { label: "automation signal"@, weight: 12, check: CheckView::Route(RouteKind::Automation) },
            SignalView { label: "release route"@, weight: 10, check: CheckView::Route(RouteKind::Release) },
            SignalView { label: "template or action path"@, weight: 18, check: CheckView::Words(seq!["template"@, "action.yml"@, "cookiecutter"@, "scaffold"@, "generator"@]) },
        ],
        ProfileKind::Common => seq![
            SignalView { label: "identity route"@, weight: 16, check: CheckView::Route(RouteKind::Identity) },
            SignalView { label: "docs route"@, weight: 16, check: CheckView::Route(RouteKind::Docs) },
            SignalView { label: "license boundary"@, weight: 16, check: CheckView::Route(RouteKind::License) },
        ],
    }
}

/// `signal_table(profile)`.
pub fn profile_signals(profile: ProfileKind) -> (r: Vec<ProfileSignal>)
    ensures
        signal_views(r@) == signal_table(profile),
{
    match profile {
        ProfileKind::Library => {
            let words: Vec<&'static str> = vec!["examples", "api", "sdk", "client"];
            assert(str_views(words@) =~= seq!["examples"@, "api"@, "sdk"@, "client"@]);
            let r = vec![
                signal("package manifest", 12, SignalCheck::File(ImportantFileKind::CargoToml)),
                signal("docs route", 16, SignalCheck::Route(RouteKind::Docs)),
                signal("quickstart route", 16, SignalCheck::Route(RouteKind::Quickstart)),
                signal("release route", 10, SignalCheck::Route(RouteKind::Release)),
                signal("license boundary", 12, SignalCheck::Route(RouteKind::License)),
                signal("examples or API wording", 8, SignalCheck::Words(words)),
            ];
            assert(signal_views(r@) =~= signal_table(profile));
            r
        },
        ProfileKind::Cli => {
            let words: Vec<&'static str> = vec!["src/main.rs", "bin/", "cmd/", "cli", "command"];
            assert(str_views(words@) =~= seq!["src/main.rs"@, "bin/"@, "cmd/"@, "cli"@, "command"@]);
            let r = vec![
                signal("first command or quickstart", 18, SignalCheck::Route(RouteKind::Quickstart)),
                signal("release route", 12, SignalCheck::Route(RouteKind::Release)),
                signal("support route", 10, SignalCheck::Route(RouteKind::Support)),
                signal("automation signal", 8, SignalCheck::Route(RouteKind::Automation)),
                signal("binary or command path", 12, SignalCheck::Words(words)),
            ];
            assert(signal_views(r@) =~= signal_table(profile));
            r
        },
        ProfileKind::Infra => {
            let words: Vec<&'static str> = vec!["helm", "k8s", "kubernetes", "terraform", "deploy", "operator"];
            assert(str_views(words@) =~= seq!["helm"@, "k8s"@, "kubernetes"@, "terraform"@, "deploy"@, "operator"@]);
            let r = vec![
                signal("workflow automation", 16, SignalCheck::Route(RouteKind::Automation)),
                signal("security route", 16, SignalCheck::Route(RouteKind::Security)),
                signal("ops docs route", 12, SignalCheck::Route(RouteKind::Docs)),
                signal("ownership route", 10, SignalCheck::Route(RouteKind::Ownership)),
                signal("deployment or infra path", 14, SignalCheck::Words(words)),
            ];
            assert(signal_views(r@) =~= signal_table(profile));
            r
        },
        ProfileKind::Product => {
            let words: Vec<&'static str> = vec!["app", "web", "ui", "product", "screenshot"];
            assert(str_views(words@) =~= seq!["app"@, "web"@, "ui"@, "product"@, "screenshot"@]);
            let r = vec![
                signal("support route", 18, SignalCheck::Route(RouteKind::Support)),
                signal("docs route", 14, SignalCheck::Route(RouteKind::Docs)),
                signal("release route", 12, SignalCheck::Route(RouteKind::Release)),
                signal("quickstart route", 8, SignalCheck::Route(RouteKind::Quickstart)),
                signal("app or product wording", 12, SignalCheck::Words(words)),
            ];
            assert(signal_views(r@) =~= signal_table(profile));
            r
        },
        ProfileKind::Runtime => {
            let words: Vec<&'static str> = vec!["runtime", "compiler", "toolchain", "fuzz", "tests"];
            assert(str_views(words@) =~= seq!["runtime"@, "compiler"@, "toolchain"@, "fuzz"@, "tests"@]);
            let r = vec![
                signal("security route", 16, SignalCheck::Route(RouteKind::Security)),
                signal("release route", 16, SignalCheck::Route(RouteKind::Release)),
                signal("governance route", 12, SignalCheck::Route(RouteKind::Governance)),
                signal("build automation", 10, SignalCheck::Route(RouteKind::Automation)),
                signal("runtime or compiler path", 12, SignalCheck::Words(words)),
            ];
            assert(signal_views(r@) =~= signal_table(profile));
            r
        },
        ProfileKind::Docs => {
            let words: Vec<&'static str> = vec!["spec", "guide", "manual", "proposal"];
            assert(str_views(words@) =~= seq!["spec"@, "guide"@, "manual"@, "proposal"@]);
            let r = vec![
                signal("docs route", 20, SignalCheck::Route(RouteKind::Docs)),
                signal("docs directory", 14, SignalCheck::File(ImportantFileKind::DocsDirectory)),
                signal("contribution route", 10, SignalCheck::Route(RouteKind::Contributing)),
                signal("governance route", 8, SignalCheck::Route(RouteKind::Governance)),
                signal("spec or guide wording", 10, SignalCheck::Words(words)),
            ];
            assert(signal_views(r@) =~= signal_table(profile));
            r
        },
        ProfileKind::Tutorial => {
            let words: Vec<&'static str> = vec!["examples", "tutorial", "lesson", "notebook", "sample"];
            assert(str_views(words@) =~= seq!["examples"@, "tutorial"@, "lesson"@, "notebook"@, "sample"@]);
            let r = vec![
                signal("quickstart route", 20, SignalCheck::Route(RouteKind::Quickstart)),
                signal("docs route", 12, SignalCheck::Route(RouteKind::Docs)),
                signal("support route", 10, SignalCheck::Route(RouteKind::Support)),
                signal("examples or tutorial path", 14, SignalCheck::Words(words)),
            ];
            assert(signal_views(r@) =~= signal_table(profile));
            r
        },
        ProfileKind::Ml => {
            let words: Vec<&'static str> = vec!["model", "dataset", "data", "notebook"];
            assert(str_views(words@) =~= seq!["model"@, "dataset"@, "data"@, "notebook"@]);
            let r = vec![
                signal("docs route", 14, SignalCheck::Route(RouteKind::Docs)),
                signal("license boundary", 12, SignalCheck::Route(RouteKind::License)),
                signal("quickstart route", 10, SignalCheck::Route(RouteKind::Quickstart)),
                signal("model data or paper path", 18, SignalCheck::Words(words)),
                signal("release or artifact route", 8, SignalCheck::Route(RouteKind::Release)),
            ];
            assert(signal_views(r@) =~= signal_table(profile));
            r
        },
        ProfileKind::Research => {
            let words: Vec<&'static str> = vec!["paper", "papers", "experiment", "experiments", "research"];
            assert(str_views(words@) =~= seq!["paper"@, "papers"@, "experiment"@, "experiments"@, "research"@]);
            let r = vec![
                signal("research artifact path", 18, SignalCheck::Words(words)),
            ];
            assert(signal_views(r@) =~= signal_table(profile));
            r
        },
        ProfileKind::Template => {
            let words: Vec<&'static str> = vec!["template", "action.yml", "cookiecutter", "scaffold", "generator"];
            assert(str_views(words@) =~= seq!["template"@, "action.yml"@, "cookiecutter"@, "scaffold"@, "generator"@]);
            let r = vec![
                signal("quickstart route", 16, SignalCheck::Route(RouteKind::Quickstart)),
                signal("automation signal", 12, SignalCheck::Route(RouteKind::Automation)),
                signal("release route", 10, SignalCheck::Route(RouteKind::Release)),
                signal("template or action path", 18, SignalCheck::Words(words)),
            ];
            assert(signal_views(r@) =~= signal_table(profile));
            r
        },
        ProfileKind::Common => {

            let r = vec![
                signal("identity route", 16, SignalCheck::Route(RouteKind::Identity)),
                signal("docs route", 16, SignalCheck::Route(RouteKind::Docs)),
                signal("license boundary", 16, SignalCheck::Route(RouteKind::License)),
            ];
            assert(signal_views(r@) =~= signal_table(profile));
            r
        },
    }
}

/// Each signal weighs at most 20, and a profile has at most six signals.
proof fn lemma_signal_bounds(profile: ProfileKind)
    ensures
        signal_table(profile).len() <= 6,
        forall|k: int| 0 <= k < signal_table(profile).len() ==> (#[trigger] signal_table(profile)[k]).weight <= 20,
{
}

/// Whether a signal's check holds of the repository.
pub open spec fn signal_holds(snapshot: Option<&ProfileSnapshot>, baseline: Seq<BaselineRuleResult>, c: CheckView) -> bool {
    match c {
        CheckView::Route(r) => route_shown(snapshot, baseline, r),
        CheckView::File(k) => file_present(snapshot, k),
        CheckView::Words(n) => words_found(snapshot, n),
    }
}

/// Weighed signals: the weight that held, the weight in all, and the
/// labels that held and did not, in order.
pub struct Tally {
    pub score: nat,
    pub total: nat,
    pub matched: Seq<Seq<char>>,
    pub missing: Seq<Seq<char>>,
}

/// The purpose signals of `t`, weighed in order: each adds its weight to the
/// total, and to the score with its label matched when it holds, else its
/// label is missing. Signals that do not speak to purpose are passed over.
pub open spec fn tally(snapshot: Option<&ProfileSnapshot>, baseline: Seq<BaselineRuleResult>, t: Seq<SignalView>) -> Tally
    decreases t.len(),
{
    if t.len() == 0 {
        Tally { score: 0, total: 0, matched: seq![], missing: seq![] }
    } else {
        let prev = tally(snapshot, baseline, t.drop_last());
        let s = t.last();
        if !purpose_labels().contains(s.label) {
            prev
        } else if signal_holds(snapshot, baseline, s.check) {
            Tally {
                score: prev.score + (s.weight as nat),
                total: prev.total + (s.weight as nat),
                matched: prev.matched.push(s.label),
                missing: prev.missing,
            }
        } else {
            Tally {
                score: prev.score,
                total: prev.total + (s.weight as nat),
                matched: prev.matched,
                missing: prev.missing.push(s.label),
            }
        }
    }
}

/// The held weight as a percentage of all purpose weight, rounded down; 0
/// when no purpose signal applies.
pub open spec fn evidence_score(score: nat, total: nat) -> nat {
    if total == 0 {
        0
    } else {
        score * 100 / total
    }
}

pub open spec fn string_views(v: Seq<String>) -> Seq<Seq<char>> {
    v.map_values(|s: String| s@)
}

/// How strongly the repository's own evidence speaks for `profile`: the
/// evidence score of its purpose signals, with the labels that held and
/// those that did not.
pub fn profile_signal_score(
    snapshot: Option<&ProfileSnapshot>,
    baseline: &[BaselineRuleResult],
    profile: ProfileKind,
) -> (r: (u8, Vec<String>, Vec<String>))
    ensures
        r.0 as nat == evidence_score(
            tally(snapshot, baseline@, signal_table(profile)).score,
            tally(snapshot, baseline@, signal_table(profile)).total,
        ),
        r.0 <= 100,
        string_views(r.1@) == tally(snapshot, baseline@, signal_table(profile)).matched,
        string_views(r.2@) == tally(snapshot, baseline@, signal_table(profile)).missing,
{
    let table = profile_signals(profile);
    let ghost t = signal_table(profile);
    proof { lemma_signal_bounds(profile); }
    let mut score: u32 = 0;
    let mut total: u32 = 0;
    let mut matched: Vec<String> = Vec::new();
    let mut missing: Vec<String> = Vec::new();
    let mut i: usize = 0;
    while i < table.len()
        invariant
            i <= table.len(),
            t == signal_table(profile),
            signal_views(table@) == t,
            t.len() <= 6,
            forall|k: int| 0 <= k < t.len() ==> (#[trigger] t[k]).weight <= 20,
            score == tally(snapshot, baseline@, t.take(i as int)).score,
            total == tally(snapshot, baseline@, t.take(i as int)).total,
            score <= total <= 20 * i,
            string_views(matched@) == tally(snapshot, baseline@, t.take(i as int)).matched,
            string_views(missing@) == tally(snapshot, baseline@, t.take(i as int)).missing,
        decreases table.len() - i,
    {
        let sig = &table[i];
        proof {
            assert(signal_views(table@)[i as int] == table@[i as int]@);
            assert(t.take(i as int + 1).drop_last() =~= t.take(i as int));
            assert(t.take(i as int + 1).last() == t[i as int]);
        }
        if is_purpose_signal(sig.label) {
            let holds = match &sig.check {
                SignalCheck::Route(r) => has_route(snapshot, baseline, *r),
                SignalCheck::File(k) => has_important_file(snapshot, *k),
                SignalCheck::Words(w) => path_or_readme_contains(snapshot, w.as_slice()),
            };
            total = total + sig.weight;
            if holds {
                score = score + sig.weight;
                matched.push(sig.label.to_owned());
                assert(string_views(matched@) =~= tally(snapshot, baseline@, t.take(i as int + 1)).matched);
            } else {
                missing.push(sig.label.to_owned());
                assert(string_views(missing@) =~= tally(snapshot, baseline@, t.take(i as int + 1)).missing);
            }
        }
        i = i + 1;
    }
    assert(t.take(table.len() as int) =~= t);
    let evidence: u8 = if total == 0 {
        0
    } else {
        assert((score as int) * 100 / (total as int) <= 100) by (nonlinear_arith)
            requires
                score <= total,
                total > 0,
        ;
        ((score * 100) / total) as u8
    };
    (evidence, matched, missing)
}

/// How a route assessment of the analysis shows its route.
#[derive(Debug, Clone, Copy, PartialEq, Eq, Structural)]
pub struct RouteAssessmentFlags {
    pub route: RouteKind,
    pub root_structured: bool,
    pub inherited: bool,
    pub readme_routed: bool,
}

/// Every route, in the order of `RouteKind`'s variants.
pub open spec fn all_routes() -> Seq<RouteKind> {
    seq![
        RouteKind::Hygiene, RouteKind::Quickstart, RouteKind::Docs, RouteKind::Intake, RouteKind::Lifecycle,
        RouteKind::Support, RouteKind::Contributing, RouteKind::Security, RouteKind::Release, RouteKind::Governance,
        RouteKind::License, RouteKind::Ownership, RouteKind::Automation, RouteKind::Identity, RouteKind::Unknown,
    ]
}

/// The analysis shows `route`: an assessment of it is root-structured,
/// inherited or routed from the README, or an evidence fact names it.
pub open spec fn analysis_shows(assessments: Seq<RouteAssessmentFlags>, fact_routes: Seq<Option<RouteKind>>, route: RouteKind) -> bool {
    (exists|i: int| 0 <= i < assessments.len() && (#[trigger] assessments[i]).route == route
        && (assessments[i].root_structured || assessments[i].inherited || assessments[i].readme_routed))
    || fact_routes.contains(Some(route))
}

fn shows(assessments: &[RouteAssessmentFlags], fact_routes: &[Option<RouteKind>], route: RouteKind) -> (r: bool)
    ensures
        r == analysis_shows(assessments@, fact_routes@, route),
{
    let mut i: usize = 0;
    while i < assessments.len()
        invariant
            i <= assessments@.len(),
            forall|k: int| 0 <= k < i ==> !((#[trigger] assessments@[k]).route == route
                && (assessments@[k].root_structured || assessments@[k].inherited || assessments@[k].readme_routed)),
        decreases assessments.len() - i,
    {
        let a = assessments[i];
        if a.route == route && (a.root_structured || a.inherited || a.readme_routed) {
            return true;
        }
        i = i + 1;
    }
    let mut j: usize = 0;
    while j < fact_routes.len()
        invariant
            j <= fact_routes@.len(),
            forall|k: int| 0 <= k < j ==> fact_routes@[k] != Some(route),
            !(exists|k: int| 0 <= k < assessments@.len() && (#[trigger] assessments@[k]).route == route
                && (assessments@[k].root_structured || assessments@[k].inherited || assessments@[k].readme_routed)),
        decreases fact_routes.len() - j,
    {
        if fact_routes[j] == Some(route) {
            assert(fact_routes@[j as int] == Some(route));
            return true;
        }
        j = j + 1;
    }
    false
}

/// A route's place among `all_routes()`.
pub open spec fn variant_index(r: RouteKind) -> int {
    match r {
        RouteKind::Hygiene => 0,
        RouteKind::Quickstart => 1,
        RouteKind::Docs => 2,
        RouteKind::Intake => 3,
        RouteKind::Lifecycle => 4,
        RouteKind::Support => 5,
        RouteKind::Contributing => 6,
        RouteKind::Security => 7,
        RouteKind::Release => 8,
        RouteKind::Governance => 9,
        RouteKind::License => 10,
        RouteKind::Ownership => 11,
        RouteKind::Automation => 12,
        RouteKind::Identity => 13,
        RouteKind::Unknown => 14,
    }
}

/// The routes the analysis shows (what `ProfileSnapshot::shown_routes`
/// holds): each shown route once, in route order.
pub fn shown_routes(assessments: &[RouteAssessmentFlags], fact_routes: &[Option<RouteKind>]) -> (r: Vec<RouteKind>)
    ensures
        forall|route: RouteKind| #[trigger] r@.contains(route) <==> analysis_shows(assessments@, fact_routes@, route),
        forall|a: int, b: int| 0 <= a < b < r@.len() ==> variant_index(#[trigger] r@[a]) < variant_index(#[trigger] r@[b]),
{
    let all = vec![
        RouteKind::Hygiene, RouteKind::Quickstart, RouteKind::Docs, RouteKind::Intake, RouteKind::Lifecycle,
        RouteKind::Support, RouteKind::Contributing, RouteKind::Security, RouteKind::Release, RouteKind::Governance,
        RouteKind::License, RouteKind::Ownership, RouteKind::Automation, RouteKind::Identity, RouteKind::Unknown,
    ];
    assert(all@ =~= all_routes());
    let mut out: Vec<RouteKind> = Vec::new();
    let mut i: usize = 0;
    while i < all.len()
        invariant
            i <= all@.len(),
            all@ == all_routes(),
            forall|k: int| 0 <= k < all@.len() ==> variant_index(#[trigger] all@[k]) == k,
            forall|route: RouteKind| #[trigger] out@.contains(route) <==>
                (variant_index(route) < i && analysis_shows(assessments@, fact_routes@, route)),
            forall|a: int, b: int| 0 <= a < b < out@.len() ==> variant_index(#[trigger] out@[a]) < variant_index(#[trigger] out@[b]),
            forall|a: int| 0 <= a < out@.len() ==> variant_index(#[trigger] out@[a]) < i,
        decreases all.len() - i,
    {
        let route = all[i];
        assert(variant_index(route) == i);
        if shows(assessments, fact_routes, route) {
            let ghost before = out@;
            out.push(route);
            assert forall|x: RouteKind| #[trigger] out@.contains(x) <==>
                (variant_index(x) < i + 1 && analysis_shows(assessments@, fact_routes@, x)) by {
                if out@.contains(x) {
                    let j = choose|j: int| 0 <= j < out@.len() && out@[j] == x;
                    if j < before.len() {
                        assert(before.contains(x));
                    }
                }
                if variant_index(x) < i + 1 && analysis_shows(assessments@, fact_routes@, x) {
                    if variant_index(x) < i {
                        assert(before.contains(x));
                        let j = choose|j: int| 0 <= j < before.len() && before[j] == x;
                        assert(out@[j] == x);
                    } else {
                        assert(x == route);
                        assert(out@[before.len() as int] == x);
                    }
                }
            }
        } else {
            assert forall|x: RouteKind| #[trigger] out@.contains(x) <==>
                (variant_index(x) < i + 1 && analysis_shows(assessments@, fact_routes@, x)) by {
                if variant_index(x) == i as int {
                    assert(x == route);
                }
            }
        }
        i = i + 1;
    }
    out
}

impl ProfileSnapshot {
    /// The snapshot of an analysis: the routes its assessments and facts
    /// show (`shown_routes`), and its files and README texts as given.
    pub fn from_observations(
        assessments: &[RouteAssessmentFlags],
        fact_routes: &[Option<RouteKind>],
        important_files: Vec<ImportantFileKind>,
        files: Vec<FileRecord>,
        readme_texts: Vec<String>,
    ) -> (r: Self)
        ensures
            forall|route: RouteKind| #[trigger] r.shown_routes@.contains(route) <==> analysis_shows(assessments@, fact_routes@, route),
            r.important_files == important_files,
            r.files == files,
            r.readme_texts == readme_texts,
    {
        ProfileSnapshot { shown_routes: shown_routes(assessments, fact_routes), important_files, files, readme_texts }
    }
}

} // verus!

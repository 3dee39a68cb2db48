//! Document selection for the document index: scan limits, the role of a
//! repository file as documentation, README link keys, the order in which
//! candidates are read, and the budget that decides which ones are read.

use vstd::prelude::*;
use crate::text::{
    ascii_lower, chars_of, contains_char, equals_str, has_char, has_infix, has_prefix, has_suffix,
    last_path_segment, last_segment, replace_char, replace_chars, same_chars, slice_of,
    starts_with_str, string_of, to_ascii_lower, trim, trimmed, ends_with_str, lex_lt, lex_less,
    lemma_lex_total, lemma_lex_transitive,
};

verus! {

/// Limits for scanning one Markdown document.
#[derive(Debug, Clone, Copy, PartialEq, Eq, Structural)]
pub struct DocumentScanOptions {
    pub max_source_bytes: usize,
    pub max_events: usize,
    pub max_diagnostics: usize,
}

impl Default for DocumentScanOptions {
    fn default() -> (r: Self)
        ensures
            r == (DocumentScanOptions { max_source_bytes: 2097152, max_events: 65_536, max_diagnostics: 1_024 }),
    {
        DocumentScanOptions { max_source_bytes: 2097152, max_events: 65_536, max_diagnostics: 1_024 }
    }
}

/// `x`, or `usize::MAX` where it does not fit.
pub open spec fn saturate(x: int) -> usize {
    if x > usize::MAX { usize::MAX } else { x as usize }
}

impl DocumentScanOptions {
    /// Limits that a source of `source_bytes` bytes always meets: at most
    /// `2 * source_bytes + 1` events and `source_bytes + 1` diagnostics,
    /// each saturating at `usize::MAX`.
    pub fn derived_for_source(source_bytes: usize) -> (r: Self)
        ensures
            r.max_source_bytes == source_bytes,
            r.max_events == saturate(2 * source_bytes + 1),
            r.max_diagnostics == saturate(source_bytes + 1),
    {
        let doubled = match source_bytes.checked_mul(2) {
            Some(d) => d,
            None => usize::MAX,
        };
        DocumentScanOptions {
            max_source_bytes: source_bytes,
            max_events: doubled.saturating_add(1),
            max_diagnostics: source_bytes.saturating_add(1),
        }
    }
}

/// Limits for indexing the documents of a repository.
#[derive(Debug, Clone, Copy, PartialEq, Eq, Structural)]
pub struct DocumentIndexOptions {
    pub max_documents: usize,
    pub max_total_source_bytes: usize,
    pub document: DocumentScanOptions,
}

impl Default for DocumentIndexOptions {
    fn default() -> (r: Self)
        ensures
            r == (DocumentIndexOptions {
                max_documents: 256,
                max_total_source_bytes: 4194304,
                document: DocumentScanOptions { max_source_bytes: 2097152, max_events: 65_536, max_diagnostics: 1_024 },
            }),
    {
        DocumentIndexOptions {
            max_documents: 256,
            max_total_source_bytes: 4194304,
            document: DocumentScanOptions::default(),
        }
    }
}

/// What a repository file is, as documentation.
#[derive(Debug, Clone, Copy, PartialEq, Eq, Structural)]
pub enum DocumentRole {
    RootReadme,
    SecurityPolicy,
    SupportPolicy,
    ContributionGuide,
    ReleaseNotes,
    Governance,
    GithubConfiguration,
    Documentation,
    OtherMarkdown,
}

/// The rank of a role among roles, in declaration order.
pub open spec fn role_rank(role: DocumentRole) -> u8 {
    match role {
        DocumentRole::RootReadme => 0,
        DocumentRole::SecurityPolicy => 1,
        DocumentRole::SupportPolicy => 2,
        DocumentRole::ContributionGuide => 3,
        DocumentRole::ReleaseNotes => 4,
        DocumentRole::Governance => 5,
        DocumentRole::GithubConfiguration => 6,
        DocumentRole::Documentation => 7,
        DocumentRole::OtherMarkdown => 8,
    }
}

pub open spec fn is_root_readme(path: Seq<char>) -> bool {
    path == "README.md"@ || path == "Readme.md"@ || path == "readme.md"@ || path == "README"@
}

pub open spec fn is_markdown(path: Seq<char>) -> bool {
    is_root_readme(path) || has_suffix(ascii_lower(path), ".md"@)
}

/// A lower-cased path that configures GitHub.
pub open spec fn is_github_configuration(lower: Seq<char>) -> bool {
    has_prefix(lower, ".github/"@) || lower == "codeowners"@ || lower == "docs/codeowners"@
        || lower == "renovate.json"@ || lower == ".renovaterc"@ || lower == ".renovaterc.json"@
}

/// The documentation role of a repository path, if it has one.
pub open spec fn document_role(path: Seq<char>) -> Option<DocumentRole> {
    let normalized = replace_char(path, '\\', '/');
    let lower = ascii_lower(normalized);
    let name = last_segment(lower);
    if is_root_readme(normalized) {
        Some(DocumentRole::RootReadme)
    } else if name == "security.md"@ || name == "security"@ {
        Some(DocumentRole::SecurityPolicy)
    } else if name == "support.md"@ || name == "support"@ {
        Some(DocumentRole::SupportPolicy)
    } else if name == "contributing.md"@ || name == "contributing"@ {
        Some(DocumentRole::ContributionGuide)
    } else if name == "changelog.md"@ || name == "changes.md"@ || name == "releases.md"@ {
        Some(DocumentRole::ReleaseNotes)
    } else if name == "governance.md"@ || name == "governance"@ {
        Some(DocumentRole::Governance)
    } else if is_github_configuration(lower) {
        Some(DocumentRole::GithubConfiguration)
    } else if has_prefix(lower, "docs/"@) && is_markdown(normalized) {
        Some(DocumentRole::Documentation)
    } else if is_markdown(normalized) {
        Some(DocumentRole::OtherMarkdown)
    } else {
        None
    }
}

/// `is_root_readme(path)`.
pub fn is_root_readme_path(path: &[char]) -> (r: bool)
    ensures
        r == is_root_readme(path@),
{
    equals_str(path, "README.md") || equals_str(path, "Readme.md") || equals_str(path, "readme.md")
        || equals_str(path, "README")
}

/// `is_markdown(path)`.
pub fn is_markdown_path(path: &[char]) -> (r: bool)
    ensures
        r == is_markdown(path@),
{
    if is_root_readme_path(path) {
        return true;
    }
    let lower = to_ascii_lower(path);
    ends_with_str(lower.as_slice(), ".md")
}

/// `is_github_configuration(lower)`.
pub fn is_github_configuration_candidate(lower: &[char]) -> (r: bool)
    ensures
        r == is_github_configuration(lower@),
{
    starts_with_str(lower, ".github/") || equals_str(lower, "codeowners") || equals_str(lower, "docs/codeowners")
        || equals_str(lower, "renovate.json") || equals_str(lower, ".renovaterc") || equals_str(lower, ".renovaterc.json")
}

/// The documentation role of a repository path (`\` read as `/`).
pub fn classify_document_role(path: &str) -> (r: Option<DocumentRole>)
    ensures
        r == document_role(path@),
{
    let raw = chars_of(path);
    let normalized_v = replace_chars(raw.as_slice(), '\\', '/');
    let normalized = normalized_v.as_slice();
    let lower_v = to_ascii_lower(normalized);
    let lower = lower_v.as_slice();
    let name_v = last_path_segment(lower);
    let name = name_v.as_slice();
    if is_root_readme_path(normalized) {
        Some(DocumentRole::RootReadme)
    } else if equals_str(name, "security.md") || equals_str(name, "security") {
        Some(DocumentRole::SecurityPolicy)
    } else if equals_str(name, "support.md") || equals_str(name, "support") {
        Some(DocumentRole::SupportPolicy)
    } else if equals_str(name, "contributing.md") || equals_str(name, "contributing") {
        Some(DocumentRole::ContributionGuide)
    } else if equals_str(name, "changelog.md") || equals_str(name, "changes.md") || equals_str(name, "releases.md") {
        Some(DocumentRole::ReleaseNotes)
    } else if equals_str(name, "governance.md") || equals_str(name, "governance") {
        Some(DocumentRole::Governance)
    } else if is_github_configuration_candidate(lower) {
        Some(DocumentRole::GithubConfiguration)
    } else if starts_with_str(lower, "docs/") && is_markdown_path(normalized) {
        Some(DocumentRole::Documentation)
    } else if is_markdown_path(normalized) {
        Some(DocumentRole::OtherMarkdown)
    } else {
        None
    }
}


/// What precedes the first `#` or `?` of `s` (all of `s` where it holds
/// neither): the first item of `s.split(['#', '?'])`.
pub open spec fn before_delimiter(s: Seq<char>) -> Seq<char>
    decreases s.len(),
{
    if s.len() == 0 || s[0] == '#' || s[0] == '?' {
        Seq::empty()
    } else {
        seq![s[0]] + before_delimiter(s.drop_first())
    }
}

/// `s` with every leading `./` removed (`trim_start_matches("./")`).
pub open spec fn strip_dot_slash(s: Seq<char>) -> Seq<char>
    decreases s.len(),
{
    if s.len() >= 2 && s[0] == '.' && s[1] == '/' {
        strip_dot_slash(s.subrange(2, s.len() as int))
    } else {
        s
    }
}

/// The key under which a README link target names a repository file:
/// none for an empty, fragment-only, web or mail target; else the target
/// before its fragment or query, without leading `./`, with `/` for `\`,
/// lower-cased, when that is not empty.
pub open spec fn link_target_key(target: Seq<char>) -> Option<Seq<char>> {
    let t = trim(target);
    let lower = ascii_lower(t);
    if t.len() == 0 || has_prefix(t, "#"@) || has_prefix(lower, "http://"@) || has_prefix(lower, "https://"@)
        || has_prefix(lower, "mailto:"@) {
        None
    } else {
        let path = replace_char(strip_dot_slash(before_delimiter(t)), '\\', '/');
        if path.len() == 0 {
            None
        } else {
            Some(ascii_lower(path))
        }
    }
}

/// `before_delimiter(s)`.
pub fn cut_at_fragment(s: &[char]) -> (out: Vec<char>)
    ensures
        out@ == before_delimiter(s@),
{
    let mut i: usize = 0;
    assert(s@.skip(0) =~= s@);
    while i < s.len() && s[i] != '#' && s[i] != '?'
        invariant
            i <= s.len(),
            before_delimiter(s@) == s@.take(i as int) + before_delimiter(s@.skip(i as int)),
        decreases s.len() - i,
    {
        let ghost rest = s@.skip(i as int);
        assert(rest[0] == s@[i as int]);
        assert(rest.drop_first() =~= s@.skip(i + 1));
        assert(s@.take(i as int).push(s@[i as int]) =~= s@.take(i + 1));
        assert(s@.take(i as int) + (seq![s@[i as int]] + before_delimiter(s@.skip(i + 1)))
            =~= s@.take(i + 1) + before_delimiter(s@.skip(i + 1)));
        i = i + 1;
    }
    if i < s.len() {
        assert(s@.skip(i as int)[0] == s@[i as int]);
    }
    assert(s@.take(i as int) + before_delimiter(s@.skip(i as int)) =~= s@.subrange(0, i as int));
    slice_of(s, 0, i)
}

/// `strip_dot_slash(s)`.
pub fn strip_leading_dot_slash(s: &[char]) -> (out: Vec<char>)
    ensures
        out@ == strip_dot_slash(s@),
{
    let mut i: usize = 0;
    assert(s@.subrange(0, s.len() as int) =~= s@);
    while 2 <= s.len() - i && s[i] == '.' && s[i + 1] == '/'
        invariant
            i <= s.len(),
            strip_dot_slash(s@) == strip_dot_slash(s@.subrange(i as int, s.len() as int)),
        decreases s.len() - i,
    {
        let ghost rest = s@.subrange(i as int, s.len() as int);
        assert(rest[0] == '.' && rest[1] == '/');
        assert(rest.subrange(2, rest.len() as int) =~= s@.subrange(i + 2, s.len() as int));
        i = i + 2;
    }
    proof {
        let rest = s@.subrange(i as int, s.len() as int);
        if rest.len() >= 2 {
            assert(rest[0] == s@[i as int] && rest[1] == s@[i + 1]);
        }
    }
    slice_of(s, i, s.len())
}

/// `link_target_key(target)`: the key of a local README link target.
pub fn local_target_key(target: &str) -> (r: Option<String>)
    ensures
        match link_target_key(target@) {
            Some(k) => r matches Some(s) && s@ == k,
            None => r is None,
        },
{
    let raw = chars_of(target);
    let t_v = trimmed(raw.as_slice());
    let t = t_v.as_slice();
    let lower_v = to_ascii_lower(t);
    let lower = lower_v.as_slice();
    if t.len() == 0 || starts_with_str(t, "#") || starts_with_str(lower, "http://") || starts_with_str(lower, "https://")
        || starts_with_str(lower, "mailto:") {
        return None;
    }
    let cut = cut_at_fragment(t);
    let stripped = strip_leading_dot_slash(cut.as_slice());
    let path = replace_chars(stripped.as_slice(), '\\', '/');
    if path.len() == 0 {
        return None;
    }
    let key = to_ascii_lower(path.as_slice());
    Some(string_of(key.as_slice()))
}

/// The words that mark a link as a badge.
pub open spec fn badge_markers() -> Seq<Seq<char>> {
    seq!["badge"@, "shields.io"@, "github/actions"@, "actions/workflows"@, "ci"@]
}

pub open spec fn str_views(v: Seq<&str>) -> Seq<Seq<char>> {
    v.map_values(|s: &str| s@)
}

/// Some needle occurs in `value`.
pub open spec fn contains_some(value: Seq<char>, needles: Seq<Seq<char>>) -> bool {
    exists|k: int| 0 <= k < needles.len() && has_infix(value, #[trigger] needles[k])
}

/// An image whose alt text and target, joined by a space and lower-cased,
/// mention a badge marker.
pub open spec fn is_badge(alt: Seq<char>, target: Seq<char>) -> bool {
    contains_some(ascii_lower(alt + seq![' '] + target), badge_markers())
}

/// Whether some needle occurs in `value`.
pub fn contains_any(value: &str, needles: &[&str]) -> (r: bool)
    ensures
        r == contains_some(value@, str_views(needles@)),
{
    let v = chars_of(value);
    contains_any_chars(v.as_slice(), needles)
}

fn contains_any_chars(v: &[char], needles: &[&str]) -> (r: bool)
    ensures
        r == contains_some(v@, str_views(needles@)),
{
    let mut i: usize = 0;
    while i < needles.len()
        invariant
            i <= needles.len(),
            forall|k: int| 0 <= k < i ==> !has_infix(v@, #[trigger] str_views(needles@)[k]),
        decreases needles.len() - i,
    {
        let n = chars_of(needles[i]);
        if crate::text::contains(v, n.as_slice()) {
            assert(str_views(needles@)[i as int] == needles@[i as int]@);
            return true;
        }
        i = i + 1;
    }
    false
}

/// `is_badge(alt, target)`.
pub fn looks_like_badge(alt: &str, target: &str) -> (r: bool)
    ensures
        r == is_badge(alt@, target@),
{
    let mut combined = chars_of(alt);
    combined.push(' ');
    let mut t = chars_of(target);
    combined.append(&mut t);
    assert(combined@ =~= alt@ + seq![' '] + target@);
    let lower = to_ascii_lower(combined.as_slice());
    let markers: Vec<&'static str> = vec!["badge", "shields.io", "github/actions", "actions/workflows", "ci"];
    assert(str_views(markers@) =~= badge_markers());
    contains_any_chars(lower.as_slice(), markers.as_slice())
}

/// A document's repository path and its text.
#[derive(Debug, Clone, PartialEq, Eq)]
pub struct SourceDocument {
    path: String,
    text: String,
}

impl SourceDocument {
    pub closed spec fn path_view(&self) -> Seq<char> {
        self.path@
    }

    pub closed spec fn text_view(&self) -> Seq<char> {
        self.text@
    }

    pub fn new(path: String, text: String) -> (r: Self)
        ensures
            r.path_view() == path@,
            r.text_view() == text@,
    {
        SourceDocument { path, text }
    }

    pub fn path(&self) -> (r: &str)
        ensures
            r@ == self.path_view(),
    {
        self.path.as_str()
    }

    pub fn text(&self) -> (r: &str)
        ensures
            r@ == self.text_view(),
    {
        self.text.as_str()
    }
}


/// What the index does with the next candidate document.
#[derive(Debug, Clone, Copy, PartialEq, Eq, Structural)]
pub enum BudgetDecision {
    /// The document limit is reached.
    SkipDocumentBudget,
    /// The declared size exceeds the source bytes left.
    SkipByteBudget,
    /// Read at most `remaining` bytes of it.
    Read { remaining: usize },
}

/// The documents read so far and the source bytes they used.
#[derive(Debug, Clone, Copy, PartialEq, Eq, Structural)]
pub struct DocumentBudget {
    pub indexed_documents: usize,
    pub used_source_bytes: usize,
}

/// `a - b`, or zero where `b` exceeds `a`.
pub open spec fn saturating_sub_spec(a: usize, b: usize) -> usize {
    if b >= a { 0 } else { (a - b) as usize }
}

/// The declared size of a file as a `usize`, saturating.
pub open spec fn declared_usize(declared: u64) -> usize {
    if declared > usize::MAX { usize::MAX } else { declared as usize }
}

pub open spec fn budget_decision(budget: DocumentBudget, declared: u64, options: DocumentIndexOptions) -> BudgetDecision {
    let remaining = saturating_sub_spec(options.max_total_source_bytes, budget.used_source_bytes);
    if budget.indexed_documents >= options.max_documents {
        BudgetDecision::SkipDocumentBudget
    } else if declared_usize(declared) > remaining {
        BudgetDecision::SkipByteBudget
    } else {
        BudgetDecision::Read { remaining }
    }
}

/// The budget has not been overdrawn.
pub open spec fn within_budget(budget: DocumentBudget, options: DocumentIndexOptions) -> bool {
    budget.indexed_documents <= options.max_documents && budget.used_source_bytes <= options.max_total_source_bytes
}

/// The budget after a document of `bytes` bytes was read.
pub open spec fn recorded(budget: DocumentBudget, bytes: usize) -> DocumentBudget {
    DocumentBudget {
        indexed_documents: (budget.indexed_documents + 1) as usize,
        used_source_bytes: saturate(budget.used_source_bytes + bytes),
    }
}

impl DocumentBudget {
    pub fn new() -> (r: Self)
        ensures
            r == (DocumentBudget { indexed_documents: 0, used_source_bytes: 0 }),
    {
        DocumentBudget { indexed_documents: 0, used_source_bytes: 0 }
    }

    /// `budget_decision(self, declared_bytes, options)`.
    pub fn decide(&self, declared_bytes: u64, options: &DocumentIndexOptions) -> (r: BudgetDecision)
        ensures
            r == budget_decision(*self, declared_bytes, *options),
    {
        if self.indexed_documents >= options.max_documents {
            return BudgetDecision::SkipDocumentBudget;
        }
        let declared: usize = if declared_bytes > usize::MAX as u64 {
            usize::MAX
        } else {
            declared_bytes as usize
        };
        let remaining = options.max_total_source_bytes.saturating_sub(self.used_source_bytes);
        if declared > remaining {
            BudgetDecision::SkipByteBudget
        } else {
            BudgetDecision::Read { remaining }
        }
    }

    /// Counts a document of `bytes` source bytes as read.
    pub fn record(&mut self, bytes: usize)
        requires
            old(self).indexed_documents < usize::MAX,
        ensures
            *final(self) == recorded(*old(self), bytes),
    {
        self.used_source_bytes = self.used_source_bytes.saturating_add(bytes);
        self.indexed_documents = self.indexed_documents + 1;
    }
}

/// The scan limits of one Markdown document when `remaining` source bytes
/// are left: the per-document limit, cut down to `remaining`.
pub fn markdown_limits(options: &DocumentIndexOptions, remaining: usize) -> (r: DocumentScanOptions)
    ensures
        r == (DocumentScanOptions {
            max_source_bytes: if options.document.max_source_bytes <= remaining { options.document.max_source_bytes } else { remaining },
            ..options.document
        }),
{
    let mut limits = options.document;
    if remaining < limits.max_source_bytes {
        limits.max_source_bytes = remaining;
    }
    limits
}

/// Reading what a `Read` decision allows keeps the index within its
/// document and byte budgets.
pub proof fn lemma_budget_respected(budget: DocumentBudget, declared: u64, options: DocumentIndexOptions, bytes: usize)
    requires
        within_budget(budget, options),
        budget_decision(budget, declared, options) matches BudgetDecision::Read { remaining } && bytes <= remaining,
    ensures
        within_budget(recorded(budget, bytes), options),
{
}


/// A repository file that may be indexed as a document.
#[derive(Debug, PartialEq, Eq)]
pub struct DocumentCandidate {
    pub path: String,
    pub role: DocumentRole,
    /// The path is primary repository content (not vendored, generated or
    /// test fixture material).
    pub primary: bool,
    pub declared_bytes: u64,
}

pub open spec fn is_root_policy_role(role: DocumentRole) -> bool {
    role == DocumentRole::SecurityPolicy || role == DocumentRole::SupportPolicy
        || role == DocumentRole::ContributionGuide || role == DocumentRole::ReleaseNotes
        || role == DocumentRole::Governance
}

pub open spec fn string_views(v: Seq<String>) -> Seq<Seq<char>> {
    v.map_values(|s: String| s@)
}

/// The reading priority of a candidate: the root README first, then root
/// policy documents, documents the README links to, the docs landing page,
/// primary content, and the rest; within each tier by role.
pub open spec fn selection_rank_spec(path: Seq<char>, role: DocumentRole, primary: bool, links: Seq<Seq<char>>) -> (u8, u8) {
    let normalized = ascii_lower(replace_char(path, '\\', '/'));
    if role == DocumentRole::RootReadme {
        (0, 0)
    } else if !has_char(normalized, '/') && is_root_policy_role(role) {
        (1, role_rank(role))
    } else if links.contains(normalized) {
        (2, role_rank(role))
    } else if normalized == "docs/readme.md"@ || normalized == "docs/index.md"@ {
        (3, role_rank(role))
    } else if primary {
        (4, role_rank(role))
    } else {
        (5, role_rank(role))
    }
}

fn rank_of_role(role: DocumentRole) -> (r: u8)
    ensures
        r == role_rank(role),
{
    match role {
        DocumentRole::RootReadme => 0,
        DocumentRole::SecurityPolicy => 1,
        DocumentRole::SupportPolicy => 2,
        DocumentRole::ContributionGuide => 3,
        DocumentRole::ReleaseNotes => 4,
        DocumentRole::Governance => 5,
        DocumentRole::GithubConfiguration => 6,
        DocumentRole::Documentation => 7,
        DocumentRole::OtherMarkdown => 8,
    }
}

fn links_contain(links: &[String], key: &[char]) -> (r: bool)
    ensures
        r == string_views(links@).contains(key@),
{
    let mut i: usize = 0;
    while i < links.len()
        invariant
            i <= links.len(),
            forall|k: int| 0 <= k < i ==> string_views(links@)[k] != key@,
        decreases links.len() - i,
    {
        let l = chars_of(links[i].as_str());
        if same_chars(l.as_slice(), key) {
            assert(string_views(links@)[i as int] == key@);
            return true;
        }
        i = i + 1;
    }
    false
}

/// `selection_rank_spec` of a candidate, given the README's link keys.
pub fn selection_rank(candidate: &DocumentCandidate, readme_links: &[String]) -> (r: (u8, u8))
    ensures
        r == selection_rank_spec(candidate.path@, candidate.role, candidate.primary, string_views(readme_links@)),
{
    let raw = chars_of(candidate.path.as_str());
    let slashed = replace_chars(raw.as_slice(), '\\', '/');
    let normalized_v = to_ascii_lower(slashed.as_slice());
    let normalized = normalized_v.as_slice();
    let role = candidate.role;
    if role == DocumentRole::RootReadme {
        return (0, 0);
    }
    let rank = rank_of_role(role);
    let root_policy = role == DocumentRole::SecurityPolicy || role == DocumentRole::SupportPolicy
        || role == DocumentRole::ContributionGuide || role == DocumentRole::ReleaseNotes
        || role == DocumentRole::Governance;
    if !contains_char(normalized, '/') && root_policy {
        (1, rank)
    } else if links_contain(readme_links, normalized) {
        (2, rank)
    } else if equals_str(normalized, "docs/readme.md") || equals_str(normalized, "docs/index.md") {
        (3, rank)
    } else if candidate.primary {
        (4, rank)
    } else {
        (5, rank)
    }
}


impl Clone for DocumentCandidate {
    fn clone(&self) -> (r: Self)
        ensures
            r == *self,
    {
        let path = self.path.clone();
        assert(vstd::pervasive::cloned(self.path, path));
        DocumentCandidate { path, role: self.role, primary: self.primary, declared_bytes: self.declared_bytes }
    }
}

/// Order by rank, then by path.
pub open spec fn key_lt(a: (u8, u8), pa: Seq<char>, b: (u8, u8), pb: Seq<char>) -> bool {
    a.0 < b.0 || (a.0 == b.0 && (a.1 < b.1 || (a.1 == b.1 && lex_lt(pa, pb))))
}

pub open spec fn candidate_rank(c: DocumentCandidate, links: Seq<Seq<char>>) -> (u8, u8) {
    selection_rank_spec(c.path@, c.role, c.primary, links)
}

pub open spec fn candidate_lt(a: DocumentCandidate, b: DocumentCandidate, links: Seq<Seq<char>>) -> bool {
    key_lt(candidate_rank(a, links), a.path@, candidate_rank(b, links), b.path@)
}

/// Strictly increasing in reading order.
pub open spec fn in_reading_order(s: Seq<DocumentCandidate>, links: Seq<Seq<char>>) -> bool {
    forall|i: int, j: int| 0 <= i < j < s.len() ==> candidate_lt(#[trigger] s[i], #[trigger] s[j], links)
}

/// No candidate before `k` has the path of candidate `k`.
pub open spec fn first_with_path(s: Seq<DocumentCandidate>, k: int) -> bool {
    forall|m: int| 0 <= m < k ==> (#[trigger] s[m]).path@ != s[k].path@
}

proof fn lemma_key_order(a: (u8, u8), pa: Seq<char>, b: (u8, u8), pb: Seq<char>)
    ensures
        pa != pb ==> key_lt(a, pa, b, pb) || key_lt(b, pb, a, pa),
        !(key_lt(a, pa, b, pb) && key_lt(b, pb, a, pa)),
{
    lemma_lex_total(pa, pb);
}

proof fn lemma_key_transitive(a: (u8, u8), pa: Seq<char>, b: (u8, u8), pb: Seq<char>, c: (u8, u8), pc: Seq<char>)
    requires
        key_lt(a, pa, b, pb),
        key_lt(b, pb, c, pc),
    ensures
        key_lt(a, pa, c, pc),
{
    if a == b && b == c {
        lemma_lex_transitive(pa, pb, pc);
    }
}

fn key_less(a: (u8, u8), pa: &[char], b: (u8, u8), pb: &[char]) -> (r: bool)
    ensures
        r == key_lt(a, pa@, b, pb@),
{
    a.0 < b.0 || (a.0 == b.0 && (a.1 < b.1 || (a.1 == b.1 && lex_less(pa, pb))))
}

fn path_present(out: &Vec<DocumentCandidate>, p: &[char]) -> (r: bool)
    ensures
        r == exists|j: int| 0 <= j < out@.len() && (#[trigger] out@[j]).path@ == p@,
{
    let mut j: usize = 0;
    while j < out.len()
        invariant
            j <= out.len(),
            forall|m: int| 0 <= m < j ==> (#[trigger] out@[m]).path@ != p@,
        decreases out.len() - j,
    {
        let q = chars_of(out[j].path.as_str());
        if same_chars(q.as_slice(), p) {
            return true;
        }
        j = j + 1;
    }
    false
}

pub open spec fn ranks_match(ranks: Seq<(u8, u8)>, out: Seq<DocumentCandidate>, links: Seq<Seq<char>>) -> bool {
    ranks.len() == out.len() && forall|j: int| 0 <= j < out.len() ==> #[trigger] ranks[j] == candidate_rank(out[j], links)
}

/// Output candidate `j` is the first input candidate with its path.
pub open spec fn drawn_at(out: Seq<DocumentCandidate>, cs: Seq<DocumentCandidate>, j: int) -> bool {
    exists|k: int| #![trigger cs[k]] 0 <= k < cs.len() && out[j] == cs[k] && first_with_path(cs, k)
}

/// Each output candidate is the first input candidate with its path.
pub open spec fn drawn_from(out: Seq<DocumentCandidate>, cs: Seq<DocumentCandidate>) -> bool {
    forall|j: int| 0 <= j < out.len() ==> #[trigger] drawn_at(out, cs, j)
}

/// The path of input candidate `k` is that of an output candidate.
pub open spec fn covered_at(out: Seq<DocumentCandidate>, cs: Seq<DocumentCandidate>, k: int) -> bool {
    exists|j: int| #![trigger out[j]] 0 <= j < out.len() && out[j].path@ == cs[k].path@
}

/// Each of the first `n` input paths is the path of an output candidate.
pub open spec fn covers(out: Seq<DocumentCandidate>, cs: Seq<DocumentCandidate>, n: int) -> bool {
    forall|k: int| 0 <= k < n ==> #[trigger] covered_at(out, cs, k)
}

/// Inserts `c` at its place in reading order; no candidate of `out` has its path.
fn insert_in_order(
    out: &mut Vec<DocumentCandidate>,
    ranks: &mut Vec<(u8, u8)>,
    c: &DocumentCandidate,
    cp: &[char],
    rank: (u8, u8),
    Ghost(links): Ghost<Seq<Seq<char>>>,
)
    requires
        in_reading_order(old(out)@, links),
        ranks_match(old(ranks)@, old(out)@, links),
        rank == candidate_rank(*c, links),
        cp@ == c.path@,
        forall|j: int| 0 <= j < old(out)@.len() ==> (#[trigger] old(out)@[j]).path@ != c.path@,
    ensures
        in_reading_order(final(out)@, links),
        ranks_match(final(ranks)@, final(out)@, links),
        exists|at: int| 0 <= at <= old(out)@.len() && final(out)@ == old(out)@.insert(at, *c),
{
    let ghost before = out@;
    let ghost rank_before = ranks@;
    let mut j: usize = 0;
    while j < out.len() && key_less(ranks[j], chars_of(out[j].path.as_str()).as_slice(), rank, cp)
        invariant
            j <= out@.len(),
            out@ == before,
            ranks@ == rank_before,
            ranks_match(rank_before, before, links),
            forall|m: int| 0 <= m < j ==> key_lt(#[trigger] rank_before[m], before[m].path@, rank, cp@),
        decreases out.len() - j,
    {
        j = j + 1;
    }
    let ghost at = j as int;
    let item = c.clone();
    out.insert(j, item);
    ranks.insert(j, rank);
    proof {
        let after = out@;
        assert(after =~= before.insert(at, *c));
        assert(ranks@ =~= rank_before.insert(at, rank));
        assert forall|j2: int| 0 <= j2 < after.len() implies #[trigger] ranks@[j2] == candidate_rank(after[j2], links) by {
            if j2 < at {
                assert(ranks@[j2] == rank_before[j2]);
            } else if j2 > at {
                assert(ranks@[j2] == rank_before[j2 - 1]);
            }
        }
        if at < before.len() {
            lemma_key_order(rank_before[at], before[at].path@, rank, cp@);
        }
        assert forall|p: int, q: int| 0 <= p < q < after.len() implies candidate_lt(#[trigger] after[p], #[trigger] after[q], links) by {
            if q == at {
                assert(after[p] == before[p]);
                assert(key_lt(rank_before[p], before[p].path@, rank, cp@));
            } else if p == at {
                assert(after[q] == before[q - 1]);
                if q - 1 > at {
                    assert(candidate_lt(before[at], before[q - 1], links));
                    lemma_key_transitive(rank, cp@, rank_before[at], before[at].path@,
                        rank_before[q - 1], before[q - 1].path@);
                }
            } else if p < at && q > at {
                assert(after[p] == before[p]);
                assert(after[q] == before[q - 1]);
            } else if p > at {
                assert(after[p] == before[p - 1]);
                assert(after[q] == before[q - 1]);
            } else {
                assert(after[p] == before[p]);
                assert(after[q] == before[q]);
            }
        }
    }
}

/// Inserting the first candidate with a new path keeps the output drawn
/// from, and covering, the candidates seen so far.
proof fn lemma_insert_tracks(before: Seq<DocumentCandidate>, at: int, cs: Seq<DocumentCandidate>, i: int)
    requires
        0 <= i < cs.len(),
        0 <= at <= before.len(),
        drawn_from(before, cs),
        covers(before, cs, i),
        forall|j: int| 0 <= j < before.len() ==> (#[trigger] before[j]).path@ != cs[i].path@,
    ensures
        drawn_from(before.insert(at, cs[i]), cs),
        covers(before.insert(at, cs[i]), cs, i + 1),
{
    let after = before.insert(at, cs[i]);
    assert(first_with_path(cs, i)) by {
        assert forall|m: int| 0 <= m < i implies (#[trigger] cs[m]).path@ != cs[i].path@ by {
            assert(covered_at(before, cs, m));
        }
    }
    assert forall|j2: int| 0 <= j2 < after.len() implies #[trigger] drawn_at(after, cs, j2) by {
        if j2 < at {
            assert(after[j2] == before[j2]);
            assert(drawn_at(before, cs, j2));
        } else if j2 > at {
            assert(after[j2] == before[j2 - 1]);
            assert(drawn_at(before, cs, j2 - 1));
        } else {
            assert(after[j2] == cs[i]);
        }
    }
    assert forall|k: int| 0 <= k < i + 1 implies #[trigger] covered_at(after, cs, k) by {
        if k < i {
            assert(covered_at(before, cs, k));
            let jm = choose|jm: int| #![trigger before[jm]] 0 <= jm < before.len() && before[jm].path@ == cs[k].path@;
            if jm < at {
                assert(after[jm] == before[jm]);
            } else {
                assert(after[jm + 1] == before[jm]);
            }
        } else {
            assert(after[at] == cs[i]);
        }
    }
}

/// Skipping a candidate whose path is already in the output.
proof fn lemma_skip_covers(before: Seq<DocumentCandidate>, cs: Seq<DocumentCandidate>, i: int, jm: int)
    requires
        0 <= i < cs.len(),
        covers(before, cs, i),
        0 <= jm < before.len(),
        before[jm].path@ == cs[i].path@,
    ensures
        covers(before, cs, i + 1),
{
    assert forall|k: int| 0 <= k < i + 1 implies #[trigger] covered_at(before, cs, k) by {
        if k == i {
            assert(before[jm].path@ == cs[k].path@);
        }
    }
}

/// The candidates in reading order: one per path (the first given with
/// it), ordered by `selection_rank`, then by path.
pub fn order_candidates(candidates: &[DocumentCandidate], readme_links: &[String]) -> (out: Vec<DocumentCandidate>)
    ensures
        in_reading_order(out@, string_views(readme_links@)),
        drawn_from(out@, candidates@),
        covers(out@, candidates@, candidates@.len() as int),
{
    let ghost links = string_views(readme_links@);
    let mut out: Vec<DocumentCandidate> = Vec::new();
    let mut ranks: Vec<(u8, u8)> = Vec::new();
    let mut i: usize = 0;
    while i < candidates.len()
        invariant
            links == string_views(readme_links@),
            i <= candidates.len(),
            ranks_match(ranks@, out@, links),
            in_reading_order(out@, links),
            drawn_from(out@, candidates@),
            covers(out@, candidates@, i as int),
        decreases candidates.len() - i,
    {
        let ghost before = out@;
        let c = &candidates[i];
        let cp = chars_of(c.path.as_str());
        if !path_present(&out, cp.as_slice()) {
            let rank = selection_rank(c, readme_links);
            insert_in_order(&mut out, &mut ranks, c, cp.as_slice(), rank, Ghost(links));
            proof {
                let at = choose|at: int| 0 <= at <= before.len() && out@ == before.insert(at, *c);
                lemma_insert_tracks(before, at, candidates@, i as int);
            }
        } else {
            proof {
                let jm = choose|jm: int| 0 <= jm < before.len() && (#[trigger] before[jm]).path@ == cp@;
                lemma_skip_covers(before, candidates@, i as int, jm);
            }
        }
        i = i + 1;
    }
    out
}

} // verus!

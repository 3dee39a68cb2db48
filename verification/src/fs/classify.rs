//! Important-file classification of walked records by path shape.

use vstd::prelude::*;
use crate::fs::records::{FileKind, FileRecord};
use crate::text::{
    ascii_lower, chars_of, contains_str, ends_with_str, equals_str, has_infix, has_prefix,
    has_suffix, last_path_segment, last_segment, lex_less, lex_lt, lemma_lex_total,
    lemma_lex_transitive, replace_char, replace_chars, starts_with_str, to_ascii_lower,
};

verus! {

#[derive(Debug, Clone, Copy, PartialEq, Eq, Structural)]
pub enum ImportantFileKind {
    IssueForm,
    IssueTemplate,
    PullRequestTemplate,
    DependencyBot,
    SecurityAutomation,
    Gitignore,
    Gitattributes,
    EditorConfig,
    Readme,
    License,
    Contributing,
    Security,
    Support,
    Changelog,
    Codeowners,
    CargoToml,
    DocsDirectory,
    Workflow,
}

/// A record that the classifier singled out.
#[derive(Debug, Clone, PartialEq, Eq)]
pub struct ImportantFile {
    pub path: String,
    pub kind: ImportantFileKind,
}

pub open spec fn is_issue_template_config_spec(p: Seq<char>) -> bool {
    has_suffix(p, "/config.yml"@) || has_suffix(p, "/config.yaml"@)
}

pub open spec fn is_yaml(p: Seq<char>) -> bool {
    has_suffix(p, ".yml"@) || has_suffix(p, ".yaml"@)
}

pub open spec fn is_issue_form_spec(p: Seq<char>) -> bool {
    has_prefix(p, ".github/issue_template/"@) && !is_issue_template_config_spec(p) && is_yaml(p)
}

pub open spec fn is_issue_template_spec(p: Seq<char>) -> bool {
    p == "issue_template.md"@ || p == ".github/issue_template.md"@ || (has_prefix(
        p,
        ".github/issue_template/"@,
    ) && !is_issue_template_config_spec(p) && has_suffix(p, ".md"@))
}

pub open spec fn is_pull_request_template_spec(p: Seq<char>) -> bool {
    p == "pull_request_template.md"@ || p == ".github/pull_request_template.md"@ || has_prefix(
        p,
        ".github/pull_request_template/"@,
    )
}

pub open spec fn is_dependency_bot_spec(p: Seq<char>) -> bool {
    p == ".github/dependabot.yml"@ || p == ".github/dependabot.yaml"@ || p == "renovate.json"@
        || p == ".github/renovate.json"@ || p == ".renovaterc"@ || p == ".renovaterc.json"@
}

pub open spec fn is_security_workflow_name(name: Seq<char>) -> bool {
    has_infix(name, "codeql"@) || has_infix(name, "security"@) || has_infix(name, "scorecard"@)
        || has_infix(name, "sast"@) || has_infix(name, "govulncheck"@) || has_infix(name, "vuln"@)
        || has_infix(name, "fuzz"@)
}

pub open spec fn is_security_automation_spec(p: Seq<char>) -> bool {
    has_prefix(p, ".github/workflows/"@) && is_yaml(p) && is_security_workflow_name(last_segment(p))
}

/// The lower-cased, `/`-separated form of a record path.
pub open spec fn lowered_path(path: Seq<char>) -> Seq<char> {
    ascii_lower(replace_char(path, '\\', '/'))
}

/// The kind of important file a record is, if any.
pub open spec fn important_kind(path: Seq<char>, kind: FileKind) -> Option<ImportantFileKind> {
    let lower = lowered_path(path);
    let base = last_segment(lower);
    if kind == FileKind::File && is_issue_form_spec(lower) {
        Some(ImportantFileKind::IssueForm)
    } else if kind == FileKind::File && is_issue_template_spec(lower) {
        Some(ImportantFileKind::IssueTemplate)
    } else if kind == FileKind::File && is_pull_request_template_spec(lower) {
        Some(ImportantFileKind::PullRequestTemplate)
    } else if kind == FileKind::File && is_dependency_bot_spec(lower) {
        Some(ImportantFileKind::DependencyBot)
    } else if kind == FileKind::File && is_security_automation_spec(lower) {
        Some(ImportantFileKind::SecurityAutomation)
    } else if kind == FileKind::File && base == ".gitignore"@ {
        Some(ImportantFileKind::Gitignore)
    } else if kind == FileKind::File && base == ".gitattributes"@ {
        Some(ImportantFileKind::Gitattributes)
    } else if kind == FileKind::File && base == ".editorconfig"@ {
        Some(ImportantFileKind::EditorConfig)
    } else if kind == FileKind::File && has_prefix(base, "readme"@) {
        Some(ImportantFileKind::Readme)
    } else if kind == FileKind::File && (base == "license"@ || base == "license.md"@ || base == "copying"@) {
        Some(ImportantFileKind::License)
    } else if kind == FileKind::File && (base == "contributing.md"@ || base == "contributing"@) {
        Some(ImportantFileKind::Contributing)
    } else if kind == FileKind::File && (base == "security.md"@ || base == "security"@) {
        Some(ImportantFileKind::Security)
    } else if kind == FileKind::File && (base == "support.md"@ || base == "support"@) {
        Some(ImportantFileKind::Support)
    } else if kind == FileKind::File && (base == "changelog.md"@ || base == "changelog"@ || base == "changes.md"@) {
        Some(ImportantFileKind::Changelog)
    } else if kind == FileKind::File && base == "codeowners"@ {
        Some(ImportantFileKind::Codeowners)
    } else if kind == FileKind::File && base == "cargo.toml"@ {
        Some(ImportantFileKind::CargoToml)
    } else if kind == FileKind::Directory && base == "docs"@ {
        Some(ImportantFileKind::DocsDirectory)
    } else if kind == FileKind::File && has_prefix(lower, ".github/workflows/"@) && is_yaml(lower) {
        Some(ImportantFileKind::Workflow)
    } else {
        None
    }
}

/// The GitHub places are told apart by the lower-cased, `/`-separated path:
/// a YAML file under `.github/issue_template/` other than its `config` is an
/// issue form; a Markdown file there, or `issue_template.md` at the root or
/// in `.github/`, an issue template; `pull_request_template.md` at the root
/// or in `.github/`, or anything under `.github/pull_request_template/`, a
/// pull-request template; the Dependabot and Renovate configurations a
/// dependency bot; and a YAML workflow whose file name mentions CodeQL,
/// security, Scorecard, SAST, govulncheck, vulnerabilities or fuzzing,
/// security automation.
#[verifier::spinoff_prover]
pub proof fn lemma_github_place_kinds(path: Seq<char>)
    ensures
        ({
            let lp = lowered_path(path);
            let nm = last_segment(lp);
            let file = important_kind(path, FileKind::File);
            &&& (has_prefix(lp, ".github/issue_template/"@) && (has_suffix(lp, ".yml"@)
                || has_suffix(lp, ".yaml"@)) && !has_suffix(lp, "/config.yml"@)
                && !has_suffix(lp, "/config.yaml"@)) ==> file == Some(ImportantFileKind::IssueForm)
            &&& ("issue_template.md"@ == lp || ".github/issue_template.md"@ == lp || (has_prefix(
                lp,
                ".github/issue_template/"@,
            ) && has_suffix(lp, ".md"@) && !has_suffix(lp, "/config.yml"@)
                && !has_suffix(lp, "/config.yaml"@))) ==> file == Some(ImportantFileKind::IssueTemplate)
            &&& ("pull_request_template.md"@ == lp || ".github/pull_request_template.md"@ == lp
                || has_prefix(lp, ".github/pull_request_template/"@)) ==> file == Some(
                ImportantFileKind::PullRequestTemplate,
            )
            &&& (".github/dependabot.yml"@ == lp || ".github/dependabot.yaml"@ == lp || lp
                == "renovate.json"@ || ".github/renovate.json"@ == lp || ".renovaterc"@ == lp
                || ".renovaterc.json"@ == lp) ==> file == Some(ImportantFileKind::DependencyBot)
            &&& (has_prefix(lp, ".github/workflows/"@) && (has_suffix(lp, ".yml"@) || has_suffix(
                lp,
                ".yaml"@,
            )) && (has_infix(nm, "codeql"@) || has_infix(nm, "security"@) || has_infix(
                nm,
                "scorecard"@,
            ) || has_infix(nm, "sast"@) || has_infix(nm, "govulncheck"@) || has_infix(
                nm,
                "vuln"@,
            ) || has_infix(nm, "fuzz"@))) ==> file == Some(ImportantFileKind::SecurityAutomation)
        }),
{
    reveal_strlit(".github/issue_template/");
    reveal_strlit(".yml");
    reveal_strlit(".yaml");
    reveal_strlit("/config.yml");
    reveal_strlit("/config.yaml");
    reveal_strlit("issue_template.md");
    reveal_strlit(".github/issue_template.md");
    reveal_strlit(".md");
    reveal_strlit("pull_request_template.md");
    reveal_strlit(".github/pull_request_template.md");
    reveal_strlit(".github/pull_request_template/");
    reveal_strlit(".github/dependabot.yml");
    reveal_strlit(".github/dependabot.yaml");
    reveal_strlit("renovate.json");
    reveal_strlit(".github/renovate.json");
    reveal_strlit(".renovaterc");
    reveal_strlit(".renovaterc.json");
    reveal_strlit(".github/workflows/");
    let lower = lowered_path(path);
    let n = lower.len() as int;
    if has_prefix(lower, ".github/issue_template/"@) {
        assert(lower.subrange(0, 23)[8] == lower[8]);
        assert(lower.subrange(0, 23)[22] == lower[22]);
        assert(lower.subrange(0, 23)[0] == lower[0]);
        assert(lower[8] == 'i' && lower[22] == '/' && lower[0] == '.');
    }
    if has_suffix(lower, ".md"@) {
        assert(lower.subrange(n - 3, n)[2] == lower[n - 1]);
        assert(lower[n - 1] == 'd');
    }
    if has_suffix(lower, ".yml"@) {
        assert(lower.subrange(n - 4, n)[3] == lower[n - 1]);
        assert(lower[n - 1] == 'l');
    }
    if has_suffix(lower, ".yaml"@) {
        assert(lower.subrange(n - 5, n)[4] == lower[n - 1]);
        assert(lower[n - 1] == 'l');
    }
    if has_prefix(lower, ".github/pull_request_template/"@) {
        assert(lower.subrange(0, 30)[8] == lower[8]);
        assert(lower[8] == 'p');
    }
    if has_prefix(lower, ".github/workflows/"@) {
        assert(lower.subrange(0, 18)[8] == lower[8]);
        assert(lower.subrange(0, 18)[1] == lower[1]);
        assert(lower[8] == 'w' && lower[1] == 'g');
    }
}

/// The path names one of the GitHub template, bot-configuration or
/// security-workflow places, which the classifier tells apart first.
pub open spec fn github_place(lower: Seq<char>) -> bool {
    is_issue_form_spec(lower) || is_issue_template_spec(lower) || is_pull_request_template_spec(lower)
        || is_dependency_bot_spec(lower) || is_security_automation_spec(lower)
}

/// Outside the GitHub template, bot and security-workflow places, a record
/// is classified by its lower-cased base name: `.gitignore`,
/// `.gitattributes`, `.editorconfig`, a name starting with `readme`,
/// `license`/`license.md`/`copying`, `contributing(.md)`, `security(.md)`,
/// `support(.md)`, `changelog(.md)`/`changes.md`, `codeowners` and
/// `cargo.toml` name files of their kind, and `docs` a docs directory; any
/// other YAML file under `.github/workflows/` is a workflow.
#[verifier::spinoff_prover]
pub proof fn lemma_base_name_kinds(path: Seq<char>)
    requires
        !github_place(lowered_path(path)),
    ensures
        ({
            let base = last_segment(lowered_path(path));
            let file = important_kind(path, FileKind::File);
            &&& ".gitignore"@ == base ==> file == Some(ImportantFileKind::Gitignore)
            &&& ".gitattributes"@ == base ==> file == Some(ImportantFileKind::Gitattributes)
            &&& ".editorconfig"@ == base ==> file == Some(ImportantFileKind::EditorConfig)
            &&& 6 <= base.len() && base.subrange(0, 6) == "readme"@ ==> file == Some(ImportantFileKind::Readme)
            &&& "license"@ == base ==> file == Some(ImportantFileKind::License)
            &&& "license.md"@ == base ==> file == Some(ImportantFileKind::License)
            &&& "copying"@ == base ==> file == Some(ImportantFileKind::License)
            &&& "contributing.md"@ == base ==> file == Some(ImportantFileKind::Contributing)
            &&& "contributing"@ == base ==> file == Some(ImportantFileKind::Contributing)
            &&& "security.md"@ == base ==> file == Some(ImportantFileKind::Security)
            &&& "security"@ == base ==> file == Some(ImportantFileKind::Security)
            &&& "support.md"@ == base ==> file == Some(ImportantFileKind::Support)
            &&& "support"@ == base ==> file == Some(ImportantFileKind::Support)
            &&& "changelog.md"@ == base ==> file == Some(ImportantFileKind::Changelog)
            &&& "changelog"@ == base ==> file == Some(ImportantFileKind::Changelog)
            &&& "changes.md"@ == base ==> file == Some(ImportantFileKind::Changelog)
            &&& "codeowners"@ == base ==> file == Some(ImportantFileKind::Codeowners)
            &&& "cargo.toml"@ == base ==> file == Some(ImportantFileKind::CargoToml)
            &&& "docs"@ == base ==> important_kind(path, FileKind::Directory) == Some(
                ImportantFileKind::DocsDirectory,
            )
            &&& (has_prefix(lowered_path(path), ".github/workflows/"@) && is_yaml(lowered_path(path))
                && !(6 <= base.len() && base.subrange(0, 6) == "readme"@)) ==> file == Some(ImportantFileKind::Workflow)
        }),
{
    reveal_strlit(".gitignore");
    reveal_strlit(".gitattributes");
    reveal_strlit(".editorconfig");
    reveal_strlit("readme");
    reveal_strlit("license");
    reveal_strlit("license.md");
    reveal_strlit("copying");
    reveal_strlit("contributing.md");
    reveal_strlit("contributing");
    reveal_strlit("security.md");
    reveal_strlit("security");
    reveal_strlit("support.md");
    reveal_strlit("support");
    reveal_strlit("changelog.md");
    reveal_strlit("changelog");
    reveal_strlit("changes.md");
    reveal_strlit("codeowners");
    reveal_strlit("cargo.toml");
    reveal_strlit("docs");
    let base = last_segment(lowered_path(path));
    let lower = lowered_path(path);
    if has_prefix(lower, ".github/workflows/"@) && is_yaml(lower) && !has_prefix(base, "readme"@) {
        reveal_strlit(".yml");
        reveal_strlit(".yaml");
        let n = lower.len() as int;
        if has_suffix(lower, ".yml"@) {
            assert(lower.subrange(n - 4, n)[3] == lower[n - 1]);
            assert(lower.subrange(n - 4, n)[2] == lower[n - 2]);
            assert(lower.subrange(n - 4, n)[1] == lower[n - 3]);
        } else {
            assert(lower.subrange(n - 5, n)[4] == lower[n - 1]);
            assert(lower.subrange(n - 5, n)[3] == lower[n - 2]);
            assert(lower.subrange(n - 5, n)[2] == lower[n - 3]);
        }
        assert(lower[n - 1] == 'l' && lower[n - 2] == 'm');
        assert(lower[n - 3] == 'y' || lower[n - 3] == 'a');
        crate::text::lemma_last_index_before(lower, '/', n);
        let at = crate::text::last_index_before(lower, '/', n);
        assert(at < n - 3);
        let m = base.len() as int;
        assert(m == n - at - 1);
        assert(base[m - 1] == lower[n - 1]);
        assert(base[m - 2] == lower[n - 2]);
        assert(base[m - 3] == lower[n - 3]);
    }
    if has_prefix(base, "readme"@) {
        assert(base.subrange(0, 6)[0] == base[0]);
        assert(base[0] == 'r');
    }
    if base == ".gitignore"@ {
        assert(base[0] == '.' && base[1] == 'g' && base.len() == 10);
        assert(important_kind(path, FileKind::File) == Some(ImportantFileKind::Gitignore));
    }
    if base == ".gitattributes"@ {
        assert(base[0] == '.' && base[1] == 'g' && base[4] == 'a' && base.len() == 14);
        assert(important_kind(path, FileKind::File) == Some(ImportantFileKind::Gitattributes));
    }
    if base == ".editorconfig"@ {
        assert(base[0] == '.' && base[1] == 'e' && base.len() == 13);
        assert(important_kind(path, FileKind::File) == Some(ImportantFileKind::EditorConfig));
    }
    if base == "license"@ {
        assert(base[0] == 'l' && base[1] == 'i' && base.len() == 7);
        assert(important_kind(path, FileKind::File) == Some(ImportantFileKind::License));
    }
    if base == "license.md"@ {
        assert(base[0] == 'l' && base[1] == 'i' && base.len() == 10);
        assert(important_kind(path, FileKind::File) == Some(ImportantFileKind::License));
    }
    if base == "copying"@ {
        assert(base[0] == 'c' && base[1] == 'o' && base.len() == 7);
        assert(important_kind(path, FileKind::File) == Some(ImportantFileKind::License));
    }
    if base == "contributing.md"@ {
        assert(base[0] == 'c' && base[1] == 'o' && base.len() == 15);
        assert(important_kind(path, FileKind::File) == Some(ImportantFileKind::Contributing));
    }
    if base == "contributing"@ {
        assert(base[0] == 'c' && base[1] == 'o' && base.len() == 12);
        assert(important_kind(path, FileKind::File) == Some(ImportantFileKind::Contributing));
    }
    if base == "security.md"@ {
        assert(base[0] == 's' && base[1] == 'e' && base.len() == 11);
        assert(important_kind(path, FileKind::File) == Some(ImportantFileKind::Security));
    }
    if base == "security"@ {
        assert(base[0] == 's' && base[1] == 'e' && base.len() == 8);
        assert(important_kind(path, FileKind::File) == Some(ImportantFileKind::Security));
    }
    if base == "support.md"@ {
        assert(base[0] == 's' && base[1] == 'u' && base.len() == 10);
        assert(important_kind(path, FileKind::File) == Some(ImportantFileKind::Support));
    }
    if base == "support"@ {
        assert(base[0] == 's' && base[1] == 'u' && base.len() == 7);
        assert(important_kind(path, FileKind::File) == Some(ImportantFileKind::Support));
    }
    if base == "changelog.md"@ {
        assert(base[0] == 'c' && base[1] == 'h' && base.len() == 12);
        assert(important_kind(path, FileKind::File) == Some(ImportantFileKind::Changelog));
    }
    if base == "changelog"@ {
        assert(base[0] == 'c' && base[1] == 'h' && base.len() == 9);
        assert(important_kind(path, FileKind::File) == Some(ImportantFileKind::Changelog));
    }
    if base == "changes.md"@ {
        assert(base[0] == 'c' && base[1] == 'h' && base.len() == 10);
        assert(important_kind(path, FileKind::File) == Some(ImportantFileKind::Changelog));
    }
    if base == "codeowners"@ {
        assert(base[0] == 'c' && base[1] == 'o' && base.len() == 10);
        assert(important_kind(path, FileKind::File) == Some(ImportantFileKind::Codeowners));
    }
    if base == "cargo.toml"@ {
        assert(base[0] == 'c' && base[1] == 'a' && base.len() == 10);
        assert(important_kind(path, FileKind::File) == Some(ImportantFileKind::CargoToml));
    }
    if base == "docs"@ {
        assert(base[0] == 'd' && base[1] == 'o' && base.len() == 4);
    }
}

pub fn is_issue_template_config(path: &[char]) -> (r: bool)
    ensures
        r == is_issue_template_config_spec(path@),
{
    ends_with_str(path, "/config.yml") || ends_with_str(path, "/config.yaml")
}

fn is_yaml_path(path: &[char]) -> (r: bool)
    ensures
        r == is_yaml(path@),
{
    ends_with_str(path, ".yml") || ends_with_str(path, ".yaml")
}

pub fn is_issue_form_path(path: &[char]) -> (r: bool)
    ensures
        r == is_issue_form_spec(path@),
{
    starts_with_str(path, ".github/issue_template/") && !is_issue_template_config(path)
        && is_yaml_path(path)
}

pub fn is_issue_template_path(path: &[char]) -> (r: bool)
    ensures
        r == is_issue_template_spec(path@),
{
    equals_str(path, "issue_template.md") || equals_str(path, ".github/issue_template.md") || (
    starts_with_str(path, ".github/issue_template/") && !is_issue_template_config(path)
        && ends_with_str(path, ".md"))
}

pub fn is_pull_request_template_path(path: &[char]) -> (r: bool)
    ensures
        r == is_pull_request_template_spec(path@),
{
    equals_str(path, "pull_request_template.md") || equals_str(
        path,
        ".github/pull_request_template.md",
    ) || starts_with_str(path, ".github/pull_request_template/")
}

pub fn is_dependency_bot_path(path: &[char]) -> (r: bool)
    ensures
        r == is_dependency_bot_spec(path@),
{
    equals_str(path, ".github/dependabot.yml") || equals_str(path, ".github/dependabot.yaml")
        || equals_str(path, "renovate.json") || equals_str(path, ".github/renovate.json")
        || equals_str(path, ".renovaterc") || equals_str(path, ".renovaterc.json")
}

pub fn is_security_automation_path(path: &[char]) -> (r: bool)
    ensures
        r == is_security_automation_spec(path@),
{
    if !(starts_with_str(path, ".github/workflows/") && is_yaml_path(path)) {
        return false;
    }
    let name = last_path_segment(path);
    let n = name.as_slice();
    contains_str(n, "codeql") || contains_str(n, "security") || contains_str(n, "scorecard")
        || contains_str(n, "sast") || contains_str(n, "govulncheck") || contains_str(n, "vuln")
        || contains_str(n, "fuzz")
}

/// `important_kind(record.path@, record.kind)`.
pub fn important_file(record: &FileRecord) -> (r: Option<ImportantFileKind>)
    ensures
        r == important_kind(record.path@, record.kind),
{
    let raw = chars_of(record.path.as_str());
    let slashed = replace_chars(raw.as_slice(), '\\', '/');
    let lower_v = to_ascii_lower(slashed.as_slice());
    let lower = lower_v.as_slice();
    let base_v = last_path_segment(lower);
    let base = base_v.as_slice();
    let file = record.kind == FileKind::File;
    if file && is_issue_form_path(lower) {
        return Some(ImportantFileKind::IssueForm);
    }
    if file && is_issue_template_path(lower) {
        return Some(ImportantFileKind::IssueTemplate);
    }
    if file && is_pull_request_template_path(lower) {
        return Some(ImportantFileKind::PullRequestTemplate);
    }
    if file && is_dependency_bot_path(lower) {
        return Some(ImportantFileKind::DependencyBot);
    }
    if file && is_security_automation_path(lower) {
        return Some(ImportantFileKind::SecurityAutomation);
    }
    if file && equals_str(base, ".gitignore") {
        Some(ImportantFileKind::Gitignore)
    } else if file && equals_str(base, ".gitattributes") {
        Some(ImportantFileKind::Gitattributes)
    } else if file && equals_str(base, ".editorconfig") {
        Some(ImportantFileKind::EditorConfig)
    } else if file && starts_with_str(base, "readme") {
        Some(ImportantFileKind::Readme)
    } else if file && (equals_str(base, "license") || equals_str(base, "license.md") || equals_str(base, "copying")) {
        Some(ImportantFileKind::License)
    } else if file && (equals_str(base, "contributing.md") || equals_str(base, "contributing")) {
        Some(ImportantFileKind::Contributing)
    } else if file && (equals_str(base, "security.md") || equals_str(base, "security")) {
        Some(ImportantFileKind::Security)
    } else if file && (equals_str(base, "support.md") || equals_str(base, "support")) {
        Some(ImportantFileKind::Support)
    } else if file && (equals_str(base, "changelog.md") || equals_str(base, "changelog") || equals_str(base, "changes.md")) {
        Some(ImportantFileKind::Changelog)
    } else if file && equals_str(base, "codeowners") {
        Some(ImportantFileKind::Codeowners)
    } else if file && equals_str(base, "cargo.toml") {
        Some(ImportantFileKind::CargoToml)
    } else if record.kind == FileKind::Directory && equals_str(base, "docs") {
        Some(ImportantFileKind::DocsDirectory)
    } else if file && starts_with_str(lower, ".github/workflows/") && is_yaml_path(lower) {
        Some(ImportantFileKind::Workflow)
    } else {
        None
    }
}

/// Position of a kind in the classifier's order.
pub open spec fn kind_rank(k: ImportantFileKind) -> nat {
    match k {
        ImportantFileKind::IssueForm => 0,
        ImportantFileKind::IssueTemplate => 1,
        ImportantFileKind::PullRequestTemplate => 2,
        ImportantFileKind::DependencyBot => 3,
        ImportantFileKind::SecurityAutomation => 4,
        ImportantFileKind::Gitignore => 5,
        ImportantFileKind::Gitattributes => 6,
        ImportantFileKind::EditorConfig => 7,
        ImportantFileKind::Readme => 8,
        ImportantFileKind::License => 9,
        ImportantFileKind::Contributing => 10,
        ImportantFileKind::Security => 11,
        ImportantFileKind::Support => 12,
        ImportantFileKind::Changelog => 13,
        ImportantFileKind::Codeowners => 14,
        ImportantFileKind::CargoToml => 15,
        ImportantFileKind::DocsDirectory => 16,
        ImportantFileKind::Workflow => 17,
    }
}

fn rank_of(k: ImportantFileKind) -> (r: u8)
    ensures
        r == kind_rank(k),
{
    match k {
        ImportantFileKind::IssueForm => 0,
        ImportantFileKind::IssueTemplate => 1,
        ImportantFileKind::PullRequestTemplate => 2,
        ImportantFileKind::DependencyBot => 3,
        ImportantFileKind::SecurityAutomation => 4,
        ImportantFileKind::Gitignore => 5,
        ImportantFileKind::Gitattributes => 6,
        ImportantFileKind::EditorConfig => 7,
        ImportantFileKind::Readme => 8,
        ImportantFileKind::License => 9,
        ImportantFileKind::Contributing => 10,
        ImportantFileKind::Security => 11,
        ImportantFileKind::Support => 12,
        ImportantFileKind::Changelog => 13,
        ImportantFileKind::Codeowners => 14,
        ImportantFileKind::CargoToml => 15,
        ImportantFileKind::DocsDirectory => 16,
        ImportantFileKind::Workflow => 17,
    }
}

/// `a` comes strictly before `b`: by kind, then by path.
pub open spec fn important_lt(a: ImportantFile, b: ImportantFile) -> bool {
    kind_rank(a.kind) < kind_rank(b.kind) || (kind_rank(a.kind) == kind_rank(b.kind) && lex_lt(a.path@, b.path@))
}

pub open spec fn important_sorted(s: Seq<ImportantFile>) -> bool {
    forall|i: int, j: int| 0 <= i < j < s.len() ==> !important_lt(#[trigger] s[j], #[trigger] s[i])
}

fn important_less(a: &ImportantFile, b: &ImportantFile) -> (r: bool)
    ensures
        r == important_lt(*a, *b),
{
    let ra = rank_of(a.kind);
    let rb = rank_of(b.kind);
    if ra != rb {
        return ra < rb;
    }
    let x = chars_of(a.path.as_str());
    let y = chars_of(b.path.as_str());
    lex_less(x.as_slice(), y.as_slice())
}

proof fn lemma_important_total(a: ImportantFile, b: ImportantFile)
    ensures
        !(important_lt(a, b) && important_lt(b, a)),
        !important_lt(a, b) && !important_lt(b, a) ==> kind_rank(a.kind) == kind_rank(b.kind) && a.path@ == b.path@,
{
    lemma_lex_total(a.path@, b.path@);
}

proof fn lemma_important_transitive(a: ImportantFile, b: ImportantFile, c: ImportantFile)
    requires
        important_lt(a, b),
        important_lt(b, c),
    ensures
        important_lt(a, c),
{
    if kind_rank(a.kind) == kind_rank(b.kind) && kind_rank(b.kind) == kind_rank(c.kind) {
        lemma_lex_transitive(a.path@, b.path@, c.path@);
    }
}

/// The important files among the records, ordered by kind and then path
/// (records of equal rank keep their order).
pub open spec fn important_of(records: Seq<FileRecord>) -> Seq<ImportantFile>
    decreases records.len(),
{
    if records.len() == 0 {
        Seq::<ImportantFile>::empty()
    } else {
        let prev = important_of(records.drop_last());
        let r = records.last();
        match important_kind(r.path@, r.kind) {
            Some(kind) => prev.push(ImportantFile { path: r.path, kind }),
            None => prev,
        }
    }
}

/// The important files among `records`, sorted by kind and then path.
pub fn classify_important_files(records: &[FileRecord]) -> (out: Vec<ImportantFile>)
    ensures
        out@.to_multiset() == important_of(records@).to_multiset(),
        important_sorted(out@),
{
    broadcast use vstd::seq_lib::group_to_multiset_ensures, vstd::multiset::lemma_multiset_empty_len;
    let mut out: Vec<ImportantFile> = Vec::new();
    let mut i: usize = 0;
    assert(records@.subrange(0, 0) =~= Seq::<FileRecord>::empty());
    assert(out@.to_multiset() =~= important_of(records@.subrange(0, 0)).to_multiset());
    while i < records.len()
        invariant
            i <= records.len(),
            out@.to_multiset() == important_of(records@.subrange(0, i as int)).to_multiset(),
            important_sorted(out@),
        decreases records.len() - i,
    {
        let ghost pre = records@.subrange(0, i as int);
        assert(records@.subrange(0, i + 1).drop_last() =~= pre);
        assert(records@.subrange(0, i + 1).last() == records@[i as int]);
        let record = &records[i];
        match important_file(record) {
            Some(kind) => {
                let x = ImportantFile { path: record.path.clone(), kind };
                let ghost out_before = out@;
                let mut p: usize = 0;
                while p < out.len() && !important_less(&x, &out[p])
                    invariant
                        p <= out.len(),
                        out@ == out_before,
                        forall|k: int| 0 <= k < p ==> !important_lt(x, #[trigger] out@[k]),
                    decreases out.len() - p,
                {
                    p = p + 1;
                }
                let ghost at = p as int;
                out.insert(p, x);
                proof {
                    let after = out@;
                    assert(after =~= out_before.insert(at, x));
                    vstd::seq_lib::to_multiset_insert(out_before, at, x);
                    vstd::seq_lib::to_multiset_build(important_of(pre), x);
                    assert forall|a: int, b: int| 0 <= a < b < after.len() implies !important_lt(#[trigger] after[b], #[trigger] after[a]) by {
                        if b == at {
                            assert(after[a] == out_before[a]);
                            lemma_important_total(x, out_before[a]);
                        } else if a == at {
                            assert(after[b] == out_before[b - 1]);
                            assert(important_lt(x, out_before[at]));
                            lemma_important_total(x, out_before[at]);
                            if b - 1 > at {
                                assert(!important_lt(out_before[b - 1], out_before[at]));
                                if important_lt(out_before[b - 1], x) {
                                    lemma_important_transitive(out_before[b - 1], x, out_before[at]);
                                }
                            }
                        } else if a < at && b > at {
                            assert(after[a] == out_before[a]);
                            assert(after[b] == out_before[b - 1]);
                        } else if a > at {
                            assert(after[a] == out_before[a - 1]);
                            assert(after[b] == out_before[b - 1]);
                        } else {
                            assert(after[a] == out_before[a]);
                            assert(after[b] == out_before[b]);
                        }
                    }
                }
            },
            None => {},
        }
        i = i + 1;
    }
    assert(records@.subrange(0, records.len() as int) =~= records@);
    out
}

} // verus!

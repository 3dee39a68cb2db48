//! Which GitHub configuration files the parser reads, and how each is read.

use vstd::prelude::*;
use crate::text::{ascii_lower, chars_of, ends_with_str, equals_str, has_prefix, has_suffix, replace_char, replace_chars, starts_with_str, to_ascii_lower};

verus! {

/// The kinds of GitHub configuration documents.
#[derive(Debug, Clone, Copy, PartialEq, Eq, Structural)]
pub enum GithubDocumentKind {
    IssueForm,
    Workflow,
    DependencyBot,
    Codeowners,
}

/// A path with `\` as `/`, lower-cased in ASCII.
pub open spec fn normalized_config_path(path: Seq<char>) -> Seq<char> {
    ascii_lower(replace_char(path, '\\', '/'))
}

pub open spec fn yaml_name(p: Seq<char>) -> bool {
    has_suffix(p, ".yml"@) || has_suffix(p, ".yaml"@)
}

/// The document kind of a repository path: issue forms (not the chooser's
/// `config` file) and workflows by directory and YAML suffix, dependency
/// bots and code owners by exact name.
pub open spec fn document_kind(path: Seq<char>) -> Option<GithubDocumentKind> {
    let p = normalized_config_path(path);
    if has_prefix(p, ".github/issue_template/"@) && !has_suffix(p, "/config.yml"@) && !has_suffix(p, "/config.yaml"@) && yaml_name(p) {
        Some(GithubDocumentKind::IssueForm)
    } else if has_prefix(p, ".github/workflows/"@) && yaml_name(p) {
        Some(GithubDocumentKind::Workflow)
    } else if p == ".github/dependabot.yml"@ || p == ".github/dependabot.yaml"@ || p == "renovate.json"@
        || p == ".github/renovate.json"@ || p == ".renovaterc"@ || p == ".renovaterc.json"@ {
        Some(GithubDocumentKind::DependencyBot)
    } else if p == "codeowners"@ || p == ".github/codeowners"@ || p == "docs/codeowners"@ {
        Some(GithubDocumentKind::Codeowners)
    } else {
        None
    }
}

/// `document_kind(path)`.
pub fn github_document_kind(path: &str) -> (r: Option<GithubDocumentKind>)
    ensures
        r == document_kind(path@),
{
    let raw = chars_of(path);
    let slashed = replace_chars(raw.as_slice(), '\\', '/');
    let lower = to_ascii_lower(slashed.as_slice());
    let p = lower.as_slice();
    let yaml = ends_with_str(p, ".yml") || ends_with_str(p, ".yaml");
    if starts_with_str(p, ".github/issue_template/") && !ends_with_str(p, "/config.yml")
        && !ends_with_str(p, "/config.yaml") && yaml {
        Some(GithubDocumentKind::IssueForm)
    } else if starts_with_str(p, ".github/workflows/") && yaml {
        Some(GithubDocumentKind::Workflow)
    } else if equals_str(p, ".github/dependabot.yml") || equals_str(p, ".github/dependabot.yaml")
        || equals_str(p, "renovate.json") || equals_str(p, ".github/renovate.json")
        || equals_str(p, ".renovaterc") || equals_str(p, ".renovaterc.json") {
        Some(GithubDocumentKind::DependencyBot)
    } else if equals_str(p, "codeowners") || equals_str(p, ".github/codeowners") || equals_str(p, "docs/codeowners") {
        Some(GithubDocumentKind::Codeowners)
    } else {
        None
    }
}

/// A dependency-bot path that names a Renovate file.
pub open spec fn renovate_path(path: Seq<char>) -> bool {
    let p = ascii_lower(path);
    p == "renovate.json"@ || p == ".github/renovate.json"@ || p == ".renovaterc"@ || p == ".renovaterc.json"@
}

/// `renovate_path(path)`.
pub fn is_renovate_path(path: &str) -> (r: bool)
    ensures
        r == renovate_path(path@),
{
    let raw = chars_of(path);
    let lower = to_ascii_lower(raw.as_slice());
    let p = lower.as_slice();
    equals_str(p, "renovate.json") || equals_str(p, ".github/renovate.json") || equals_str(p, ".renovaterc")
        || equals_str(p, ".renovaterc.json")
}

} // verus!

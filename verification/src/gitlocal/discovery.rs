//! Repository discovery decisions: what a `.git` file and a `commondir`
//! file point to, which kind of root an analysis runs in, and how paths are
//! shown relative to the analysis root.

use vstd::prelude::*;
use crate::fs::path::{component_text, component_views, first_bad, from_rooted_result, joined_components, strip_components, ComponentView, PathComponent, RepoPathError, RepoRelativePath};
use crate::gitlocal::gowork::{lines_of, split_lines};
use crate::fs::containment::views;
use crate::text::{chars_of, has_prefix, slice_of, starts_with_str, string_of, trim, trimmed};

verus! {

/// How far an analysis reaches.
#[derive(Debug, Clone, Copy, PartialEq, Eq, Structural)]
pub enum AnalysisScope {
    Repository,
    Workspace,
    Subtree,
}

/// What kind of root an analysis runs in.
#[derive(Debug, Clone, Copy, PartialEq, Eq, Structural)]
pub enum RepositoryRootKind {
    Worktree,
    LinkedWorktree,
    Bare,
    Subtree,
    NoGit,
    MalformedGit,
}

/// A subtree scope below the worktree root is a subtree; otherwise a
/// worktree found through a `.git` file is linked, and one with a `.git`
/// directory is plain.
pub open spec fn root_kind_spec(scope: AnalysisScope, analysis_root_is_worktree: bool, linked: bool) -> RepositoryRootKind {
    if scope == AnalysisScope::Subtree && !analysis_root_is_worktree {
        RepositoryRootKind::Subtree
    } else if linked {
        RepositoryRootKind::LinkedWorktree
    } else {
        RepositoryRootKind::Worktree
    }
}

/// `root_kind_spec(..)`.
pub fn root_kind(scope: AnalysisScope, analysis_root_is_worktree: bool, linked: bool) -> (r: RepositoryRootKind)
    ensures
        r == root_kind_spec(scope, analysis_root_is_worktree, linked),
{
    if scope == AnalysisScope::Subtree && !analysis_root_is_worktree {
        RepositoryRootKind::Subtree
    } else if linked {
        RepositoryRootKind::LinkedWorktree
    } else {
        RepositoryRootKind::Worktree
    }
}

/// What a `.git` file names: its first line after `gitdir:`, trimmed, when
/// that is not empty.
pub open spec fn gitfile_spec(body: Seq<char>) -> Option<Seq<char>> {
    let lines = lines_of(body);
    if lines.len() == 0 || !has_prefix(lines[0], "gitdir:"@) {
        None
    } else {
        let value = trim(lines[0].subrange(7, lines[0].len() as int));
        if value.len() == 0 { None } else { Some(value) }
    }
}

/// `gitfile_spec(body)`.
pub fn gitfile_target(body: &str) -> (r: Option<String>)
    ensures
        match r {
            Some(s) => gitfile_spec(body@) == Some(s@),
            None => gitfile_spec(body@) is None,
        },
{
    let chars = chars_of(body);
    let lines = split_lines(chars.as_slice());
    if lines.len() == 0 {
        return None;
    }
    assert(views(lines@)[0] == lines@[0]@);
    let first = lines[0].as_slice();
    proof {
        reveal_strlit("gitdir:");
    }
    if !starts_with_str(first, "gitdir:") {
        return None;
    }
    let rest = slice_of(first, 7, first.len());
    let value = trimmed(rest.as_slice());
    if value.len() == 0 {
        return None;
    }
    Some(string_of(value.as_slice()))
}

/// What a `commondir` file names: its text, trimmed, when not empty.
pub open spec fn commondir_spec(body: Seq<char>) -> Option<Seq<char>> {
    if trim(body).len() == 0 { None } else { Some(trim(body)) }
}

/// `commondir_spec(body)`.
pub fn commondir_target(body: &str) -> (r: Option<String>)
    ensures
        match r {
            Some(s) => commondir_spec(body@) == Some(s@),
            None => commondir_spec(body@) is None,
        },
{
    let chars = chars_of(body);
    let value = trimmed(chars.as_slice());
    if value.len() == 0 {
        None
    } else {
        Some(string_of(value.as_slice()))
    }
}

/// How a path below the analysis root is shown: `/`-joined, `.` for the
/// root itself, and a placeholder for a path outside the root or one with a
/// component that is not a plain UTF-8 name.
pub open spec fn public_path_spec(root: Seq<ComponentView>, path: Seq<ComponentView>) -> Seq<char> {
    match from_rooted_result(root, path) {
        Ok(s) => s,
        Err(RepoPathError::OutsideRepository) => "<outside-analysis-root>"@,
        Err(RepoPathError::NonNormalComponent) => "<invalid-repository-path>"@,
        Err(RepoPathError::NonUtf8) => "<non-utf8-repository-path>"@,
        Err(RepoPathError::Empty) => "."@,
    }
}

/// A name component as the platform gives it: not empty, and without a
/// `/` in it.
pub open spec fn plain_name(c: ComponentView) -> bool {
    c matches ComponentView::Normal(t, _) ==> t.len() > 0 && !t.contains('/')
}

proof fn lemma_all_normal(rest: Seq<ComponentView>)
    requires
        first_bad(rest) is None,
    ensures
        forall|i: int| 0 <= i < rest.len() ==> (#[trigger] rest[i]) is Normal,
    decreases rest.len(),
{
    if rest.len() > 0 {
        lemma_all_normal(rest.drop_first());
        assert forall|i: int| 0 <= i < rest.len() implies (#[trigger] rest[i]) is Normal by {
            if i > 0 {
                assert(rest[i] == rest.drop_first()[i - 1]);
            }
        }
    }
}

proof fn lemma_joined_head(cs: Seq<ComponentView>)
    requires
        cs.len() > 0,
        component_text(cs[0]).len() > 0,
    ensures
        joined_components(cs).len() > 0,
        joined_components(cs)[0] == component_text(cs[0])[0],
    decreases cs.len(),
{
    if cs.len() > 1 {
        lemma_joined_head(cs.drop_last());
        assert(cs.drop_last()[0] == cs[0]);
    }
}

/// A path shown in public output never starts at the host's root: it is a
/// placeholder, `.`, or a path relative to the analysis root whose segments
/// are plain names (no root, prefix, `.` or `..` component).
pub proof fn lemma_public_path_is_relative(root: Seq<ComponentView>, path: Seq<ComponentView>)
    requires
        forall|i: int| 0 <= i < path.len() ==> plain_name(#[trigger] path[i]),
    ensures
        public_path_spec(root, path).len() > 0,
        public_path_spec(root, path)[0] != '/',
        from_rooted_result(root, path) matches Ok(_) ==> (strip_components(root, path) matches Some(rest)
            && forall|i: int| 0 <= i < rest.len() ==> (#[trigger] rest[i]) is Normal),
{
    reveal_strlit("<outside-analysis-root>");
    reveal_strlit("<invalid-repository-path>");
    reveal_strlit("<non-utf8-repository-path>");
    reveal_strlit(".");
    match strip_components(root, path) {
        None => {},
        Some(rest) => {
            if first_bad(rest) is None {
                lemma_all_normal(rest);
                if rest.len() > 0 {
                    assert(rest[0] == path[root.len() as int]);
                    assert(plain_name(path[root.len() as int]));
                    let t = component_text(rest[0]);
                    assert(t.len() > 0);
                    lemma_joined_head(rest);
                    if t[0] == '/' {
                        assert(t.contains('/'));
                    }
                }
            }
        },
    }
}

/// `public_path_spec(root, path)`.
pub fn public_relative_path(root: &[PathComponent], path: &[PathComponent]) -> (r: String)
    ensures
        r@ == public_path_spec(component_views(root@), component_views(path@)),
{
    match RepoRelativePath::from_rooted(root, path) {
        Ok(p) => p.into_string(),
        Err(RepoPathError::OutsideRepository) => "<outside-analysis-root>".to_owned(),
        Err(RepoPathError::NonNormalComponent) => "<invalid-repository-path>".to_owned(),
        Err(RepoPathError::NonUtf8) => "<non-utf8-repository-path>".to_owned(),
        Err(RepoPathError::Empty) => ".".to_owned(),
    }
}

/// Why discovering a repository failed, as a diagnostic reports it.
#[derive(Debug, Clone, Copy, PartialEq, Eq, Structural)]
pub enum DiscoveryFailure {
    Io { permission_denied: bool },
    NotDirectory,
    GitFileTooLarge,
    MalformedGitFile,
    InvalidGitDirectory,
}

#[derive(Debug, Clone, Copy, PartialEq, Eq, Structural)]
pub enum GitDiagnosticKind {
    MalformedGitFile,
    EscapedMetadataBoundary,
    PermissionDenied,
    Io,
    AlternateObjectDirectoryDisabled,
    PackedReferencesTooLarge,
    ShallowRepository,
    PartialRepository,
    MalformedHead,
    MalformedReference,
    ObjectDecodeFailed,
}

/// The diagnostic kind of a discovery failure.
pub fn discovery_diagnostic_kind(failure: DiscoveryFailure) -> (r: GitDiagnosticKind)
    ensures
        r == match failure {
            DiscoveryFailure::GitFileTooLarge | DiscoveryFailure::MalformedGitFile => GitDiagnosticKind::MalformedGitFile,
            DiscoveryFailure::InvalidGitDirectory => GitDiagnosticKind::EscapedMetadataBoundary,
            DiscoveryFailure::Io { permission_denied: true } => GitDiagnosticKind::PermissionDenied,
            DiscoveryFailure::Io { permission_denied: false } | DiscoveryFailure::NotDirectory => GitDiagnosticKind::Io,
        },
{
    match failure {
        DiscoveryFailure::GitFileTooLarge | DiscoveryFailure::MalformedGitFile => GitDiagnosticKind::MalformedGitFile,
        DiscoveryFailure::InvalidGitDirectory => GitDiagnosticKind::EscapedMetadataBoundary,
        DiscoveryFailure::Io { permission_denied } => if permission_denied {
            GitDiagnosticKind::PermissionDenied
        } else {
            GitDiagnosticKind::Io
        },
        DiscoveryFailure::NotDirectory => GitDiagnosticKind::Io,
    }
}

/// The description of a discovery failure other than a read error.
pub fn discovery_failure_message(failure: DiscoveryFailure) -> (r: Option<&'static str>)
    ensures
        r matches Some(m) ==> m@ == match failure {
            DiscoveryFailure::NotDirectory => "repository path is not a directory"@,
            DiscoveryFailure::GitFileTooLarge => "gitfile exceeds 4096 bytes"@,
            DiscoveryFailure::MalformedGitFile => "gitfile is malformed"@,
            _ => "git metadata directory is invalid"@,
        },
        r is None <==> failure is Io,
{
    match failure {
        DiscoveryFailure::Io { .. } => None,
        DiscoveryFailure::NotDirectory => Some("repository path is not a directory"),
        DiscoveryFailure::GitFileTooLarge => Some("gitfile exceeds 4096 bytes"),
        DiscoveryFailure::MalformedGitFile => Some("gitfile is malformed"),
        DiscoveryFailure::InvalidGitDirectory => Some("git metadata directory is invalid"),
    }
}

} // verus!

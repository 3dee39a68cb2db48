use reposeiri::fs::path::PathComponent;
use reposeiri::gitlocal::discovery::{
    commondir_target, discovery_diagnostic_kind, gitfile_target, public_relative_path, root_kind,
    AnalysisScope, DiscoveryFailure, GitDiagnosticKind, RepositoryRootKind,
};
use reposeiri::gitlocal::observe::{
    begin_observation, sort_references_by_name, CommitItem, CoverageIncompleteReason,
    CoverageStatus, GitDiagnostic, GitObservationState, GitReadBudget, GitReferenceObservation,
    ReferenceItem, RepositoryFacts,
};
use reposeiri::gitlocal::refs::GitReferenceKind;

fn normal(text: &str) -> PathComponent {
    PathComponent::Normal { text: text.to_string(), utf8: true }
}

#[test]
fn gitfiles_name_their_directory_on_the_first_line() {
    assert_eq!(gitfile_target("gitdir: ../.git/worktrees/a\n").as_deref(), Some("../.git/worktrees/a"));
    assert_eq!(gitfile_target("gitdir:   \n"), None);
    assert_eq!(gitfile_target("\ngitdir: x"), None);
    assert_eq!(gitfile_target(""), None);
    assert_eq!(commondir_target("  ../..\n").as_deref(), Some("../.."));
    assert_eq!(commondir_target(" \n"), None);
}

#[test]
fn root_kinds_and_public_paths() {
    assert_eq!(root_kind(AnalysisScope::Subtree, false, true), RepositoryRootKind::Subtree);
    assert_eq!(root_kind(AnalysisScope::Subtree, true, true), RepositoryRootKind::LinkedWorktree);
    assert_eq!(root_kind(AnalysisScope::Repository, false, false), RepositoryRootKind::Worktree);
    let root = vec![PathComponent::RootDir, normal("repo")];
    let inside = vec![PathComponent::RootDir, normal("repo"), normal(".git"), normal("worktrees")];
    assert_eq!(public_relative_path(&root, &inside), ".git/worktrees");
    assert_eq!(public_relative_path(&root, &root), ".");
    assert_eq!(public_relative_path(&root, &[PathComponent::RootDir, normal("other")]), "<outside-analysis-root>");
    let odd = vec![PathComponent::RootDir, normal("repo"), PathComponent::Normal { text: "x".to_string(), utf8: false }];
    assert_eq!(public_relative_path(&root, &odd), "<non-utf8-repository-path>");
    assert_eq!(
        discovery_diagnostic_kind(DiscoveryFailure::Io { permission_denied: true }),
        GitDiagnosticKind::PermissionDenied
    );
    assert_eq!(discovery_diagnostic_kind(DiscoveryFailure::GitFileTooLarge), GitDiagnosticKind::MalformedGitFile);
}

fn facts() -> RepositoryFacts {
    RepositoryFacts {
        discovery_diagnostic: None,
        has_git_dir: true,
        shallow: false,
        partial: false,
        alternates: false,
        packed_refs_too_large: false,
    }
}

#[test]
fn preflight_stops_on_alternates_and_large_packed_refs() {
    let (observation, open) = begin_observation(&facts());
    assert!(open);
    assert_eq!(observation.commits_coverage, CoverageStatus::Complete);
    let mut alternates = facts();
    alternates.alternates = true;
    let (observation, open) = begin_observation(&alternates);
    assert!(!open);
    assert_eq!(observation.refs_coverage, CoverageStatus::Partial(CoverageIncompleteReason::UnsupportedSyntax));
    assert_eq!(observation.diagnostics[0].path, "objects/info/alternates");
    let mut shallow = facts();
    shallow.shallow = true;
    shallow.partial = true;
    let (observation, open) = begin_observation(&shallow);
    assert!(open);
    assert_eq!(observation.diagnostics.len(), 2);
    assert_eq!(observation.commits_coverage, CoverageStatus::Partial(CoverageIncompleteReason::Unavailable));
    assert!(!observation.reads_commits());
    let mut broken = facts();
    broken.discovery_diagnostic = Some(GitDiagnostic { kind: GitDiagnosticKind::MalformedGitFile, path: ".git".to_string() });
    let (observation, open) = begin_observation(&broken);
    assert!(!open);
    assert_eq!(observation.state, GitObservationState::Unknown);
    assert_eq!(observation.diagnostics.len(), 1);
}

#[test]
fn reference_budget_limits_tags_and_sorts_by_name() {
    let budget = GitReadBudget { max_refs: 3, max_tags: 1, max_commit_headers: 1 };
    let (mut observation, _) = begin_observation(&facts());
    let mut counter = observation.start_references(budget).unwrap();
    let parsed = |name: &str| ReferenceItem::Parsed { name: name.to_string(), target: "t".to_string() };
    observation.observe_reference(&mut counter, budget, parsed("refs/tags/v2"));
    observation.observe_reference(&mut counter, budget, parsed("refs/tags/v1"));
    observation.observe_reference(&mut counter, budget, parsed("refs/heads/main"));
    observation.finish_references(counter, budget);
    assert_eq!(observation.references.len(), 2);
    assert_eq!(observation.references[0].name, "refs/heads/main");
    assert_eq!(observation.references[0].kind, GitReferenceKind::LocalBranch);
    assert_eq!(observation.references[1].name, "refs/tags/v2");
    assert_eq!(observation.refs_coverage, CoverageStatus::Partial(CoverageIncompleteReason::LimitExceeded));
    assert_eq!(observation.tags_coverage, CoverageStatus::Partial(CoverageIncompleteReason::LimitExceeded));
    let none = GitReadBudget { max_refs: 0, ..budget };
    assert!(observation.start_references(none).is_none());
}

#[test]
fn commit_budget_records_headers_with_minute_offsets() {
    let budget = GitReadBudget { max_refs: 1, max_tags: 1, max_commit_headers: 1 };
    let (mut observation, _) = begin_observation(&facts());
    assert!(observation.start_commits(budget));
    assert!(observation.observe_commit(CommitItem::Header { object_id: "abc".to_string(), seconds: 1_700_000_000, offset_seconds: 5_400 }));
    observation.finish_commits(budget);
    assert_eq!(observation.commits[0].committed_at.seconds_since_epoch, 1_700_000_000);
    assert_eq!(observation.commits[0].committed_at.offset_minutes, 90);
    assert_eq!(observation.commits_coverage, CoverageStatus::Partial(CoverageIncompleteReason::LimitExceeded));
    assert!(!observation.observe_commit(CommitItem::WalkFailed));
    assert_eq!(observation.diagnostics.last().unwrap().kind, GitDiagnosticKind::ObjectDecodeFailed);
    let sorted = sort_references_by_name(vec![
        GitReferenceObservation { name: "b".to_string(), target: String::new(), kind: GitReferenceKind::Other },
        GitReferenceObservation { name: "a".to_string(), target: String::new(), kind: GitReferenceKind::Other },
    ]);
    assert_eq!(sorted[0].name, "a");
}

use reposeiri::fs::records::{FileKind, FileRecord, IgnoredPathReason, IgnoredShallowRecord};
use reposeiri::fs::walker::{
    ignore_reason, sort_records_by_path, EntryAdmission, IgnorePolicy, ScanOptions,
    WalkCompletion, WalkLimitKind, WalkState, WalkTruncation, DEFAULT_IGNORED_NAMES,
};

fn record(path: &str, kind: FileKind, size_bytes: u64) -> FileRecord {
    FileRecord {
        path: path.to_string(),
        kind,
        size_bytes,
    }
}

#[test]
fn ignore_policy_sorts_and_dedups_additional_names() {
    let policy = IgnorePolicy::with_additional_names(vec![
        "vendor".to_string(),
        "cache".to_string(),
        "vendor".to_string(),
        "a".to_string(),
    ]);
    let names: Vec<&str> = policy.additional_names().iter().map(String::as_str).collect();
    assert_eq!(names, vec!["a", "cache", "vendor"]);
    assert!(policy.ignores("vendor"));
    assert!(policy.ignores(".git"));
    assert!(!policy.ignores("src"));
    assert_eq!(policy.clone(), policy);
}

#[test]
fn every_default_name_is_ignored() {
    let policy = IgnorePolicy::default();
    for name in DEFAULT_IGNORED_NAMES {
        assert!(policy.ignores(name), "{name}");
    }
    assert!(!policy.ignores("docs"));
}

#[test]
fn ignore_reasons_follow_the_name() {
    let options = ScanOptions {
        ignore_policy: IgnorePolicy::with_additional_names(vec!["vendor".to_string()]),
        ..ScanOptions::default()
    };
    assert_eq!(ignore_reason(".git", &options), Some(IgnoredPathReason::GitMetadata));
    assert_eq!(ignore_reason("target", &options), Some(IgnoredPathReason::BuildOutput));
    assert_eq!(ignore_reason("node_modules", &options), Some(IgnoredPathReason::DependencyTree));
    assert_eq!(ignore_reason(".venv", &options), Some(IgnoredPathReason::VirtualEnvironment));
    assert_eq!(ignore_reason(".vscode", &options), Some(IgnoredPathReason::EditorState));
    assert_eq!(ignore_reason("dist", &options), Some(IgnoredPathReason::DistributionOutput));
    assert_eq!(ignore_reason("vendor", &options), Some(IgnoredPathReason::UserConfigured));
    assert_eq!(ignore_reason("src", &options), None);
}

#[test]
fn default_scan_options_match_documented_limits() {
    let options = ScanOptions::default();
    assert_eq!(options.max_depth, 32);
    assert_eq!(options.max_entries, 100_000);
    assert_eq!(options.max_ignored_records, 4_096);
    assert!(options.ignore_policy.additional_names().is_empty());
}

#[test]
fn walk_state_records_ignores_and_sorts() {
    let options = ScanOptions {
        max_depth: 1,
        max_entries: 3,
        max_ignored_records: 1,
        ..ScanOptions::default()
    };
    let mut state = WalkState::new();
    assert!(!state.is_finished());
    assert_eq!(
        state.screen(".git", ".git".to_string(), FileKind::Directory, &options),
        EntryAdmission::Ignored
    );
    assert_eq!(
        state.screen("target", "target".to_string(), FileKind::Directory, &options),
        EntryAdmission::Ignored
    );
    assert_eq!(state.ignored_entries, 2);
    assert!(state.ignored_records_truncated);
    assert_eq!(
        state.ignored_shallow,
        vec![IgnoredShallowRecord {
            path: ".git".to_string(),
            kind: FileKind::Directory,
            reason: IgnoredPathReason::GitMetadata,
        }]
    );
    assert_eq!(
        state.screen("src", "src".to_string(), FileKind::Directory, &options),
        EntryAdmission::Admitted
    );
    assert!(state.record("src".to_string(), FileKind::Directory, 0, 1, &options) == false);
    assert!(state.is_finished());
    assert_eq!(
        state.completion,
        Some(WalkCompletion::Truncated(WalkTruncation {
            kind: WalkLimitKind::Depth,
            path: "src".to_string(),
            limit: 1,
        }))
    );
    let mut state = WalkState::new();
    assert!(state.record("b.md".to_string(), FileKind::File, 5, 1, &options) == false);
    assert!(state.record("a".to_string(), FileKind::Directory, 0, 0, &options));
    assert!(state.record("a/z.md".to_string(), FileKind::File, 7, 1, &options) == false);
    assert_eq!(
        state.screen("c.md", "c.md".to_string(), FileKind::File, &options),
        EntryAdmission::LimitReached
    );
    let (records, summary, shallow) = state.finish(&options);
    assert_eq!(
        records,
        vec![
            record("a", FileKind::Directory, 0),
            record("a/z.md", FileKind::File, 7),
            record("b.md", FileKind::File, 5),
        ]
    );
    assert_eq!(summary.visited_entries, 3);
    assert_eq!(summary.max_depth_reached, 1);
    assert!(!summary.completion.is_complete());
    assert_eq!(
        summary.completion,
        WalkCompletion::Truncated(WalkTruncation {
            kind: WalkLimitKind::Entries,
            path: "c.md".to_string(),
            limit: 3,
        })
    );
    assert!(shallow.is_empty());
}

#[test]
fn complete_walk_reports_complete() {
    let options = ScanOptions::default();
    let mut state = WalkState::new();
    assert!(state.record("README.md".to_string(), FileKind::File, 10, 1, &options) == false);
    let (records, summary, _) = state.finish(&options);
    assert_eq!(records.len(), 1);
    assert!(summary.completion.is_complete());
    assert_eq!(summary.max_depth, 32);
    assert_eq!(summary.ignored_entries, 0);
}

#[test]
fn sorting_is_stable_by_path() {
    let sorted = sort_records_by_path(vec![
        record("b", FileKind::File, 1),
        record("a/c", FileKind::File, 2),
        record("a", FileKind::Directory, 0),
        record("b", FileKind::File, 3),
        record("A", FileKind::File, 4),
    ]);
    let keys: Vec<(&str, u64)> = sorted.iter().map(|r| (r.path.as_str(), r.size_bytes)).collect();
    assert_eq!(keys, vec![("A", 4), ("a", 0), ("a/c", 2), ("b", 1), ("b", 3)]);
}

#[test]
fn repository_root_borrows_its_own_path() {
    let root = reposeiri::fs::walker::RepositoryRoot::from_path_buf(std::path::PathBuf::from("repo/root"));
    assert_eq!(root.as_path(), std::path::Path::new("repo/root"));
    assert_eq!(root.into_path_buf(), std::path::PathBuf::from("repo/root"));
}

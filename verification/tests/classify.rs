use reposeiri::fs::classify::{
    classify_important_files, important_file, is_dependency_bot_path, is_issue_form_path,
    is_issue_template_config, is_issue_template_path, is_pull_request_template_path,
    is_security_automation_path, ImportantFile, ImportantFileKind,
};
use reposeiri::fs::records::{FileKind, FileRecord};

fn file(path: &str) -> FileRecord {
    FileRecord {
        path: path.to_string(),
        kind: FileKind::File,
        size_bytes: 1,
    }
}

fn chars(s: &str) -> Vec<char> {
    s.chars().collect()
}

#[test]
fn path_predicates_match_their_shapes() {
    assert!(is_issue_template_config(&chars(".github/issue_template/config.yml")));
    assert!(!is_issue_template_config(&chars(".github/issue_template/bug.yml")));
    assert!(is_issue_form_path(&chars(".github/issue_template/bug.yaml")));
    assert!(!is_issue_form_path(&chars(".github/issue_template/config.yaml")));
    assert!(is_issue_template_path(&chars(".github/issue_template/bug.md")));
    assert!(is_issue_template_path(&chars("issue_template.md")));
    assert!(is_pull_request_template_path(&chars(".github/pull_request_template/x.md")));
    assert!(is_dependency_bot_path(&chars("renovate.json")));
    assert!(!is_dependency_bot_path(&chars("docs/renovate.json")));
    assert!(is_security_automation_path(&chars(".github/workflows/codeql.yml")));
    assert!(!is_security_automation_path(&chars(".github/workflows/ci.yml")));
}

#[test]
fn important_file_kinds() {
    let cases = [
        (".github/ISSUE_TEMPLATE/bug.yml", Some(ImportantFileKind::IssueForm)),
        (".github\\ISSUE_TEMPLATE\\bug.md", Some(ImportantFileKind::IssueTemplate)),
        (".github/pull_request_template.md", Some(ImportantFileKind::PullRequestTemplate)),
        (".github/dependabot.yml", Some(ImportantFileKind::DependencyBot)),
        (".github/workflows/fuzz-nightly.yaml", Some(ImportantFileKind::SecurityAutomation)),
        (".github/workflows/ci.yml", Some(ImportantFileKind::Workflow)),
        ("sub/.gitignore", Some(ImportantFileKind::Gitignore)),
        (".gitattributes", Some(ImportantFileKind::Gitattributes)),
        (".editorconfig", Some(ImportantFileKind::EditorConfig)),
        ("README.rst", Some(ImportantFileKind::Readme)),
        ("COPYING", Some(ImportantFileKind::License)),
        ("CONTRIBUTING.md", Some(ImportantFileKind::Contributing)),
        ("SECURITY.md", Some(ImportantFileKind::Security)),
        ("SUPPORT", Some(ImportantFileKind::Support)),
        ("CHANGES.md", Some(ImportantFileKind::Changelog)),
        (".github/CODEOWNERS", Some(ImportantFileKind::Codeowners)),
        ("crates/x/Cargo.toml", Some(ImportantFileKind::CargoToml)),
        ("src/main.rs", None),
    ];
    for (path, expected) in cases {
        assert_eq!(important_file(&file(path)), expected, "{path}");
    }
    let docs = FileRecord {
        path: "docs".to_string(),
        kind: FileKind::Directory,
        size_bytes: 0,
    };
    assert_eq!(important_file(&docs), Some(ImportantFileKind::DocsDirectory));
    assert_eq!(important_file(&file("docs")), None);
}

#[test]
fn classification_orders_by_kind_then_path() {
    let out = classify_important_files(&[
        file("SECURITY.md"),
        file("README.md"),
        file("src/lib.rs"),
        file("docs/README.md"),
        file(".github/workflows/ci.yml"),
    ]);
    assert_eq!(
        out,
        vec![
            ImportantFile { path: "README.md".to_string(), kind: ImportantFileKind::Readme },
            ImportantFile { path: "docs/README.md".to_string(), kind: ImportantFileKind::Readme },
            ImportantFile { path: "SECURITY.md".to_string(), kind: ImportantFileKind::Security },
            ImportantFile { path: ".github/workflows/ci.yml".to_string(), kind: ImportantFileKind::Workflow },
        ]
    );
}

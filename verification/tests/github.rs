use reposeiri::github::codeowners::StructuredParseOptions;
use reposeiri::github::dependabot::{parse_dependabot, DependencyBotProvider, StaticValue};
use reposeiri::github::documents::{github_document_kind, is_renovate_path, GithubDocumentKind};
use reposeiri::github::issue_form::parse_issue_form;
use reposeiri::github::owners_file::parse_codeowners;
use reposeiri::github::renovate::{parse_renovate, renovate_from_json, JsonValue};
use reposeiri::github::source::{parse_github_source, GithubDocument};
use reposeiri::github::workflow::{parse_workflow, ActionReferenceKind};
use reposeiri::github::yaml::{tokenize, GithubDiagnosticKind, GithubParseStatus, StructuredBudgetKind};

fn options() -> StructuredParseOptions {
    StructuredParseOptions::default()
}

#[test]
fn document_kinds_follow_paths() {
    assert_eq!(github_document_kind(".github/ISSUE_TEMPLATE/bug.yml"), Some(GithubDocumentKind::IssueForm));
    assert_eq!(github_document_kind(".github/ISSUE_TEMPLATE/config.yml"), None);
    assert_eq!(github_document_kind(".github/workflows/ci.yaml"), Some(GithubDocumentKind::Workflow));
    assert_eq!(github_document_kind(".github\\workflows\\ci.yml"), Some(GithubDocumentKind::Workflow));
    assert_eq!(github_document_kind(".github/dependabot.yml"), Some(GithubDocumentKind::DependencyBot));
    assert_eq!(github_document_kind("renovate.json"), Some(GithubDocumentKind::DependencyBot));
    assert_eq!(github_document_kind("CODEOWNERS"), Some(GithubDocumentKind::Codeowners));
    assert_eq!(github_document_kind("docs/CODEOWNERS"), Some(GithubDocumentKind::Codeowners));
    assert_eq!(github_document_kind("README.md"), None);
    assert!(is_renovate_path(".renovaterc.json"));
    assert!(!is_renovate_path(".github/dependabot.yml"));
}

#[test]
fn tokenizer_reads_keys_values_and_indentation() {
    let lines = tokenize("name: CI\non:\n  push:\n", &options()).unwrap();
    assert_eq!(lines.len(), 3);
    assert_eq!(lines[0].indent, 0);
    assert_eq!(lines[0].key.as_deref(), Some("name"));
    assert_eq!(lines[0].value.as_deref(), Some("CI"));
    assert_eq!(lines[0].span.byte_start, 0);
    assert_eq!(lines[0].span.byte_end, 8);
    assert_eq!(lines[1].value, None);
    assert_eq!(lines[2].indent, 2);
    assert_eq!(lines[2].key.as_deref(), Some("push"));
    assert_eq!(lines[2].span.line, 3);
    assert_eq!(lines[2].span.byte_start, 13);
}

#[test]
fn tokenizer_unquotes_and_skips_comments_and_block_scalars() {
    let source = "# comment\nrun: |\n  echo hi\n  echo again\nname: \"quoted\"\n- item\n";
    let lines = tokenize(source, &options()).unwrap();
    assert_eq!(lines.len(), 3);
    assert_eq!(lines[0].value.as_deref(), Some("|"));
    assert_eq!(lines[1].value.as_deref(), Some("quoted"));
    assert!(lines[2].is_list);
    assert_eq!(lines[2].key, None);
    assert_eq!(lines[2].value.as_deref(), Some("item"));
}

#[test]
fn tokenizer_refuses_unsupported_syntax() {
    for source in ["a:\n\tb: c\n", " a: b\n", "a: &anchor\n", "-\n", "no colon here\n"] {
        let failure = tokenize(source, &options()).unwrap_err();
        assert_eq!(failure.status, GithubParseStatus::UnsupportedSyntax, "{source:?}");
        assert_eq!(failure.diagnostic.kind, GithubDiagnosticKind::UnsupportedSyntax);
    }
}

#[test]
fn tokenizer_holds_the_node_budget() {
    let mut tight = options();
    tight.max_nodes = 1;
    let failure = tokenize("a: 1\nb: 2\n", &tight).unwrap_err();
    assert_eq!(failure.status, GithubParseStatus::BudgetExceeded(StructuredBudgetKind::Nodes));
    assert_eq!(failure.diagnostic.span.line, 2);
}

#[test]
fn dependabot_updates_are_read() {
    let source = "version: 2\nupdates:\n  - package-ecosystem: \"cargo\"\n    directory: \"/\"\n    schedule:\n      interval: \"weekly\"\n    open-pull-requests-limit: 5\n  - package-ecosystem: npm\n    directory: ${{ inputs.dir }}\n";
    let bot = parse_dependabot(source, &options()).unwrap();
    assert_eq!(bot.provider, DependencyBotProvider::Dependabot);
    // An update's fields run to the end of the `updates` section (or to a
    // `- type:` item), so the first item takes the lines of the second.
    assert_eq!(bot.updates.len(), 1);
    let first = &bot.updates[0];
    assert_eq!(first.ecosystem.as_deref(), Some("cargo"));
    assert_eq!(first.directory.as_deref(), Some("/"));
    assert_eq!(first.schedule.as_deref(), Some("weekly"));
    assert_eq!(first.open_pull_requests_limit, StaticValue::Literal(5));
    assert_eq!(first.span.line, 3);
    assert_eq!(first.directory_values, vec![StaticValue::Literal("/".to_string())]);
}

#[test]
fn dependabot_update_limit_expression_and_omission() {
    let source = "updates:
  - package-ecosystem: npm
    open-pull-requests-limit: ${{ vars.limit }}
";
    let bot = parse_dependabot(source, &options()).unwrap();
    assert!(matches!(bot.updates[0].open_pull_requests_limit, StaticValue::Expression { .. }));
    let bot = parse_dependabot("updates:
  - package-ecosystem: npm
", &options()).unwrap();
    assert!(matches!(bot.updates[0].open_pull_requests_limit, StaticValue::Unknown(_)));
    assert_eq!(bot.updates[0].directory, None);
}

#[test]
fn renovate_rules_become_updates() {
    let source = "{\"packageRules\":[{\"matchManagers\":[\"cargo\"],\"matchPaths\":[\"crates/**\",\"xtask/**\"],\"schedule\":\"before 5am\",\"prConcurrentLimit\":3},5,{\"schedule\":\"{{ weekly }}\",\"prHourlyLimit\":-1}]}";
    let (bot, diagnostics) = parse_renovate(source, &options()).unwrap();
    assert!(diagnostics.is_empty());
    assert_eq!(bot.provider, DependencyBotProvider::Renovate);
    assert_eq!(bot.updates.len(), 2);
    let first = &bot.updates[0];
    assert_eq!(first.ecosystem.as_deref(), Some("cargo"));
    assert_eq!(first.directory.as_deref(), Some("crates/**"));
    assert_eq!(first.schedule.as_deref(), Some("before 5am"));
    assert_eq!(first.directory_values.len(), 2);
    assert_eq!(first.directory_values[1], StaticValue::Literal("xtask/**".to_string()));
    assert_eq!(first.open_pull_requests_limit, StaticValue::Literal(3));
    let second = &bot.updates[1];
    assert_eq!(second.ecosystem, None);
    assert!(matches!(second.ecosystem_value, StaticValue::Unknown(_)));
    assert!(matches!(second.schedule_value, StaticValue::Expression { .. }));
    assert!(matches!(second.open_pull_requests_limit, StaticValue::Unsupported { .. }));
}

#[test]
fn renovate_without_rules_has_no_updates() {
    let (bot, _) = parse_renovate("{\"extends\":[\"config:base\"]}", &options()).unwrap();
    assert!(bot.updates.is_empty());
}

#[test]
fn renovate_parse_errors_point_at_the_parser_position() {
    let failure = parse_renovate("{\n  \"a\": ]\n}", &options()).unwrap_err();
    assert_eq!(failure.status, GithubParseStatus::Malformed);
    assert_eq!(failure.diagnostic.kind, GithubDiagnosticKind::MalformedValue);
    assert_eq!(failure.diagnostic.span.line, 2);
    let failure = renovate_from_json(Err((2, 3)), "ab\ncdef\n", &options()).unwrap_err();
    assert_eq!(failure.diagnostic.span.line, 2);
    assert_eq!(failure.diagnostic.span.column, 3);
    assert_eq!(failure.diagnostic.span.byte_start, 5);
    let failure = renovate_from_json(Err((9, 1)), "ab\n", &options()).unwrap_err();
    assert_eq!(failure.diagnostic.span.byte_start, 3);
}

#[test]
fn renovate_documents_are_held_to_budgets() {
    let mut tight = options();
    tight.max_depth = 1;
    let failure = parse_renovate("{\"a\":{\"b\":{\"c\":1}}}", &tight).unwrap_err();
    assert_eq!(failure.status, GithubParseStatus::BudgetExceeded(StructuredBudgetKind::Depth));
    let mut tight = options();
    tight.max_scalar_bytes = 3;
    let failure = renovate_from_json(Ok(JsonValue::Text("long".to_string())), "\"long\"", &tight).unwrap_err();
    assert_eq!(failure.status, GithubParseStatus::BudgetExceeded(StructuredBudgetKind::ScalarBytes));
    let mut tight = options();
    tight.max_nodes = 2;
    let failure = parse_renovate("[1,2,3]", &tight).unwrap_err();
    assert_eq!(failure.status, GithubParseStatus::BudgetExceeded(StructuredBudgetKind::Nodes));
}

#[test]
fn codeowners_lines_are_compiled() {
    let source = "# owners\n*.rs @rust\n\n/docs/ @docs @team\n";
    let (owners, diagnostics) = parse_codeowners(source, &options()).unwrap();
    assert!(diagnostics.is_empty());
    assert_eq!(owners.entries.len(), 2);
    assert_eq!(owners.entries[0].pattern, "*.rs");
    assert_eq!(owners.entries[0].span.line, 2);
    assert_eq!(owners.entries[1].owners, vec!["@docs".to_string(), "@team".to_string()]);
    assert_eq!(owners.entries[1].span.byte_start, 21);
}

#[test]
fn codeowners_line_without_owner_is_malformed() {
    let failure = parse_codeowners("*.rs @rust\n/docs/\n", &options()).unwrap_err();
    assert_eq!(failure.status, GithubParseStatus::Malformed);
    assert_eq!(failure.diagnostic.kind, GithubDiagnosticKind::MissingCodeowner);
    assert_eq!(failure.diagnostic.span.line, 2);
}

#[test]
fn codeowners_words_are_held_to_the_scalar_budget() {
    let mut tight = options();
    tight.max_scalar_bytes = 4;
    let failure = parse_codeowners("*.rs @someone\n", &tight).unwrap_err();
    assert_eq!(failure.status, GithubParseStatus::BudgetExceeded(StructuredBudgetKind::ScalarBytes));
}

#[test]
fn workflow_jobs_steps_and_triggers_are_read() {
    let source = "name: CI\non: [push, pull_request]\npermissions: read-all\njobs:\n  test:\n    runs-on: ubuntu-latest\n    steps:\n      - uses: actions/checkout@v4\n      - run: cargo test\n";
    let workflow = parse_workflow(source, &options()).unwrap();
    assert_eq!(workflow.name.as_deref(), Some("CI"));
    let triggers: Vec<&str> = workflow.triggers.iter().map(|t| t.name.as_str()).collect();
    assert_eq!(triggers, vec!["push", "pull_request"]);
    assert_eq!(workflow.jobs.len(), 1);
    let job = &workflow.jobs[0];
    assert_eq!(job.id, "test");
    assert_eq!(job.steps.len(), 2);
    let uses = job.steps[0].uses.as_ref().unwrap();
    assert!(matches!(uses.kind, ActionReferenceKind::TagOrBranch(_)));
    assert!(job.steps[1].has_run_script);
    assert!(!job.steps[0].has_run_script);
}

#[test]
fn issue_form_fields_are_read() {
    let source = "name: Bug\ndescription: File a bug\nbody:\n  - type: input\n    id: version\n    validations:\n      required: true\n";
    let (form, diagnostics) = parse_issue_form(source, &options()).unwrap();
    assert!(diagnostics.is_empty());
    assert_eq!(form.name.as_deref(), Some("Bug"));
    assert_eq!(form.description.as_deref(), Some("File a bug"));
    assert_eq!(form.fields.len(), 1);
    assert_eq!(form.fields[0].id.as_deref(), Some("version"));
    assert_eq!(form.fields[0].required, Some(true));
}

#[test]
fn issue_form_unknown_key_is_a_diagnostic() {
    let source = "name: Bug\ndescription: d\nflavour: odd\nbody:\n  - type: textarea\n";
    let (form, diagnostics) = parse_issue_form(source, &options()).unwrap();
    assert_eq!(form.unknown_top_level_keys, vec!["flavour".to_string()]);
    assert_eq!(diagnostics.len(), 1);
    assert_eq!(diagnostics[0].kind, GithubDiagnosticKind::UnknownField);
}

#[test]
fn source_over_budget_or_not_utf8_fails() {
    let mut tight = options();
    tight.max_source_bytes = 3;
    let outcome = parse_github_source(b"abcd", "CODEOWNERS", GithubDocumentKind::Codeowners, &tight);
    assert_eq!(outcome.status, GithubParseStatus::BudgetExceeded(StructuredBudgetKind::SourceBytes));
    assert!(outcome.document.is_none());
    let outcome = parse_github_source(&[b'*', b' ', 0xff], "CODEOWNERS", GithubDocumentKind::Codeowners, &options());
    assert_eq!(outcome.status, GithubParseStatus::InvalidUtf8);
    assert_eq!(outcome.diagnostics.len(), 1);
    assert_eq!(outcome.diagnostics[0].span.byte_end, 2);
}

#[test]
fn source_is_dispatched_by_kind_and_path() {
    let outcome = parse_github_source(b"*.rs @rust\n", "CODEOWNERS", GithubDocumentKind::Codeowners, &options());
    assert_eq!(outcome.status, GithubParseStatus::Parsed);
    assert!(matches!(outcome.document, Some(GithubDocument::Codeowners(_))));
    let outcome = parse_github_source(b"{\"packageRules\":[]}", "renovate.json", GithubDocumentKind::DependencyBot, &options());
    assert_eq!(outcome.status, GithubParseStatus::Parsed);
    match outcome.document {
        Some(GithubDocument::DependencyBot(bot)) => assert_eq!(bot.provider, DependencyBotProvider::Renovate),
        other => panic!("unexpected {other:?}"),
    }
    let outcome = parse_github_source(b"version: 2\n", ".github/dependabot.yml", GithubDocumentKind::DependencyBot, &options());
    match outcome.document {
        Some(GithubDocument::DependencyBot(bot)) => assert_eq!(bot.provider, DependencyBotProvider::Dependabot),
        other => panic!("unexpected {other:?}"),
    }
    let outcome = parse_github_source(b"name: Bug\nflavour: odd\n", ".github/ISSUE_TEMPLATE/bug.yml", GithubDocumentKind::IssueForm, &options());
    assert_eq!(outcome.status, GithubParseStatus::ParsedPartial);
    let outcome = parse_github_source(b"a:\n\tb\n", ".github/workflows/ci.yml", GithubDocumentKind::Workflow, &options());
    assert_eq!(outcome.status, GithubParseStatus::UnsupportedSyntax);
}

#[test]
fn source_with_too_many_diagnostics_fails_on_that_budget() {
    let mut tight = options();
    tight.max_diagnostics = 0;
    let outcome = parse_github_source(b"name: Bug\nflavour: odd\n", ".github/ISSUE_TEMPLATE/bug.yml", GithubDocumentKind::IssueForm, &tight);
    assert_eq!(outcome.status, GithubParseStatus::BudgetExceeded(StructuredBudgetKind::Diagnostics));
    assert_eq!(outcome.diagnostics[0].kind, GithubDiagnosticKind::BudgetExceeded(StructuredBudgetKind::Diagnostics));
}

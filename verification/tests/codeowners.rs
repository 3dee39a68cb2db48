use reposeiri::github::codeowners::{
    compile_pattern, strip_line_ending, CodeownersOp, CodeownersPatternError,
    StructuredParseOptions,
};

#[test]
fn default_parse_limits() {
    let options = StructuredParseOptions::default();
    assert_eq!(options.max_source_bytes, 512 * 1024);
    assert_eq!(options.max_nodes, 4_096);
    assert_eq!(options.max_depth, 32);
    assert_eq!(options.max_scalar_bytes, 8 * 1024);
    assert_eq!(options.max_diagnostics, 128);
}

#[test]
fn patterns_compile_to_steps() {
    assert_eq!(
        compile_pattern("/docs/**/*.md", 1, 4096),
        Ok(vec![
            CodeownersOp::Root,
            CodeownersOp::Literal("docs".to_string()),
            CodeownersOp::Slash,
            CodeownersOp::DoubleStar,
            CodeownersOp::Slash,
            CodeownersOp::Star,
            CodeownersOp::Literal(".md".to_string()),
        ])
    );
    assert_eq!(compile_pattern("*", 2, 4096), Ok(vec![CodeownersOp::Star]));
    assert_eq!(compile_pattern("/", 1, 4096), Ok(vec![CodeownersOp::Root]));
}

#[test]
fn unsupported_and_over_budget_patterns() {
    for pattern in ["!x", "\\#x", "a[b]", "a]", "a\\b", "é"] {
        assert_eq!(
            compile_pattern(pattern, 1, 4096),
            Err(CodeownersPatternError::UnsupportedPattern),
            "{pattern}"
        );
    }
    assert_eq!(compile_pattern("", 1, 4096), Err(CodeownersPatternError::NodeBudgetExceeded));
    assert_eq!(compile_pattern("a", 65, 4096), Err(CodeownersPatternError::NodeBudgetExceeded));
    assert_eq!(compile_pattern("a/b", 1, 1), Err(CodeownersPatternError::NodeBudgetExceeded));
    assert_eq!(compile_pattern("a/b", 1, 2).map(|ops| ops.len()), Ok(3));
}

#[test]
fn line_endings() {
    assert_eq!(strip_line_ending("a\r\n"), "a");
    assert_eq!(strip_line_ending("a\n"), "a");
    assert_eq!(strip_line_ending("a\r"), "a");
    assert_eq!(strip_line_ending("a\n\r"), "a\n");
    assert_eq!(strip_line_ending(""), "");
}

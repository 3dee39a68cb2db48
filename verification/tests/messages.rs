use reposeiri::markdown::events::MarkdownError;
use reposeiri::patterns::baseline::PatternGroup;
use reposeiri::patterns::model::{PatternFixtureKind, PatternPackLoadError};
use reposeiri::patterns::predicate::PredicateProgramError;

#[test]
fn predicate_errors_read_as_sentences() {
    assert_eq!(
        PredicateProgramError::TooManyAtoms { actual: 70, limit: 64 }.message(),
        "predicate has 70 atoms; limit is 64"
    );
    assert_eq!(
        PredicateProgramError::InvalidThreshold { index: 3, arity: 2, minimum: 5 }.message(),
        "predicate operation 3 has threshold 5 outside 1..=2"
    );
    assert_eq!(
        PredicateProgramError::StackUnderflow { index: 0 }.message(),
        "predicate operation 0 underflows its stack"
    );
    assert_eq!(
        PredicateProgramError::FinalStackDepth { depth: 2 }.message(),
        "predicate program finishes with stack depth 2"
    );
}

#[test]
fn pack_load_errors_read_as_sentences() {
    assert_eq!(
        PatternPackLoadError::Json { line: 12, column: 7 }.message(),
        "failed to parse executable pattern pack at line 12, column 7"
    );
    assert_eq!(
        PatternPackLoadError::Io("NotFound".to_string()).message(),
        "failed to read executable pattern pack: NotFound"
    );
    assert_eq!(
        PatternPackLoadError::InvalidPredicate(PredicateProgramError::UnknownAtom { index: 1, atom: 9 }).message(),
        "executable pattern predicate is invalid: predicate operation 1 references atom 9"
    );
    assert_eq!(
        PatternPackLoadError::MissingFixtureClass { group: PatternGroup::Sec, kind: PatternFixtureKind::Partial }.message(),
        "pattern group SEC is missing a Partial executable fixture"
    );
    assert_eq!(
        PatternPackLoadError::MissingGroupDefinition(PatternGroup::Lif).message(),
        "pattern group LIF has no data definition"
    );
    assert_eq!(PatternPackLoadError::Fingerprint.message(), "failed to fingerprint executable pattern pack");
    assert_eq!(
        PatternPackLoadError::InvalidFixturePath.message(),
        "executable fixture path is not a bounded relative path"
    );
}

#[test]
fn markdown_errors_read_as_sentences() {
    let limit = MarkdownError::SourceLimitExceeded { path: "README.md".to_string(), bytes: 10, limit: 4 };
    assert_eq!(limit.message(), "markdown README.md has 10 bytes and exceeds source limit 4");
    let events = MarkdownError::EventLimitExceeded { path: "a.md".to_string(), limit: 3 };
    assert_eq!(events.message(), "markdown a.md exceeds event limit 3");
    let utf8 = MarkdownError::InvalidUtf8 { path: std::path::PathBuf::from("a.md"), valid_up_to: 17 };
    assert_eq!(utf8.message(), "repository markdown is not valid UTF-8 after byte 17");
    let io = MarkdownError::Io {
        path: std::path::PathBuf::from("a.md"),
        source: std::io::Error::new(std::io::ErrorKind::Other, "disk gone"),
    };
    assert_eq!(io.message(), "failed to read repository markdown: disk gone");
}

//! One GitHub configuration file from its bytes: the source budget, UTF-8,
//! the parser its kind calls for, and the diagnostics budget.

use vstd::prelude::*;
use vstd::utf8::{decode_utf8, encode_utf8, valid_utf8};
use crate::github::codeowners::StructuredParseOptions;
use crate::github::dependabot::{dependabot_items, parse_dependabot, update_of, DependencyBot, DependencyBotProvider};
use crate::github::documents::{is_renovate_path, renovate_path, GithubDocumentKind};
use crate::github::issue_form::{body_items, first_bad_flag, form_of, issue_form_diagnostics, malformed_at, parse_issue_form, IssueForm};
use crate::github::owners_file::{codeowners_spec, entry_view, parse_codeowners, skip_view, CodeownerEntry, Codeowners, CodeownersSkippedLine};
use crate::github::renovate::{json_document, parse_renovate, renovate_result};
use crate::github::workflow::{parse_workflow, workflow_of, Workflow};
use crate::github::yaml::{
    over_budget, tokenize_spec, GithubDiagnostic, GithubDiagnosticKind, GithubParseStatus, ParseFailure,
    StructuredBudgetKind,
};
use crate::markdown::diagnostics::{byte_len, SourceSpan};
use crate::utf8::decode_bytes;

verus! {

/// A parsed GitHub configuration document.
#[derive(Debug)]
pub enum GithubDocument {
    IssueForm(IssueForm),
    Workflow(Workflow),
    DependencyBot(DependencyBot),
    Codeowners(Codeowners),
}

/// What parsing one file gave: its status, its diagnostics, and the
/// document where it parsed.
#[derive(Debug)]
pub struct GithubParseOutcome {
    pub status: GithubParseStatus,
    pub diagnostics: Vec<GithubDiagnostic>,
    pub document: Option<GithubDocument>,
}

pub open spec fn no_span() -> SourceSpan {
    SourceSpan { line: 1, column: 1, byte_start: 0, byte_end: 0 }
}

/// `r` failed with `status` and the one diagnostic `d`.
pub open spec fn failed_with(r: GithubParseOutcome, status: GithubParseStatus, d: GithubDiagnostic) -> bool {
    &&& r.status == status
    &&& r.diagnostics@ == seq![d]
    &&& r.document is None
}

pub open spec fn too_many_diagnostics() -> GithubDiagnostic {
    GithubDiagnostic { kind: GithubDiagnosticKind::BudgetExceeded(StructuredBudgetKind::Diagnostics), span: no_span() }
}

/// The outcome of a parser's result: a document within the diagnostics
/// budget is parsed (partially, where it has diagnostics); a failure is
/// reported as it came, unless no diagnostic at all is allowed.
pub open spec fn outcome_from(r: GithubParseOutcome, res: Result<(GithubDocument, Vec<GithubDiagnostic>), ParseFailure>, o: StructuredParseOptions) -> bool {
    match res {
        Ok((doc, d)) => if d@.len() <= o.max_diagnostics {
            &&& r.status == (if d@.len() == 0 { GithubParseStatus::Parsed } else { GithubParseStatus::ParsedPartial })
            &&& r.diagnostics@ == d@
            &&& r.document == Some(doc)
        } else {
            failed_with(r, GithubParseStatus::BudgetExceeded(StructuredBudgetKind::Diagnostics), too_many_diagnostics())
        },
        Err(f) => if o.max_diagnostics == 0 {
            failed_with(r, GithubParseStatus::BudgetExceeded(StructuredBudgetKind::Diagnostics), too_many_diagnostics())
        } else {
            failed_with(r, f.status, f.diagnostic)
        },
    }
}

/// `outcome_from(res)`.
pub fn parse_outcome(res: Result<(GithubDocument, Vec<GithubDiagnostic>), ParseFailure>, options: &StructuredParseOptions) -> (r: GithubParseOutcome)
    ensures
        outcome_from(r, res, *options),
{
    match res {
        Ok((doc, d)) => {
            if d.len() <= options.max_diagnostics {
                let status = if d.len() == 0 { GithubParseStatus::Parsed } else { GithubParseStatus::ParsedPartial };
                GithubParseOutcome { status, diagnostics: d, document: Some(doc) }
            } else {
                let diag = GithubDiagnostic { kind: GithubDiagnosticKind::BudgetExceeded(StructuredBudgetKind::Diagnostics), span: SourceSpan { line: 1, column: 1, byte_start: 0, byte_end: 0 } };
                {
                    let out = GithubParseOutcome { status: GithubParseStatus::BudgetExceeded(StructuredBudgetKind::Diagnostics), diagnostics: vec![diag], document: None };
                    assert(out.diagnostics@ =~= seq![diag]);
                    out
                }
            }
        },
        Err(f) => {
            if options.max_diagnostics == 0 {
                let diag = GithubDiagnostic { kind: GithubDiagnosticKind::BudgetExceeded(StructuredBudgetKind::Diagnostics), span: SourceSpan { line: 1, column: 1, byte_start: 0, byte_end: 0 } };
                {
                    let out = GithubParseOutcome { status: GithubParseStatus::BudgetExceeded(StructuredBudgetKind::Diagnostics), diagnostics: vec![diag], document: None };
                    assert(out.diagnostics@ =~= seq![diag]);
                    out
                }
            } else {
                {
                    let out = GithubParseOutcome { status: f.status, diagnostics: vec![f.diagnostic], document: None };
                    assert(out.diagnostics@ =~= seq![f.diagnostic]);
                    out
                }
            }
        },
    }
}

/// The dependency-bot result inside a document result.
pub open spec fn bot_result(res: Result<(GithubDocument, Vec<GithubDiagnostic>), ParseFailure>) -> Result<(DependencyBot, Vec<GithubDiagnostic>), ParseFailure> {
    match res {
        Ok((GithubDocument::DependencyBot(b), d)) => Ok((b, d)),
        Ok(_) => Err(over_budget(StructuredBudgetKind::Nodes, no_span())),
        Err(f) => Err(f),
    }
}

/// `res` is what the parser for `kind` gives for the text `t` at `path`.
pub open spec fn parsed_as(t: Seq<char>, path: Seq<char>, kind: GithubDocumentKind, o: StructuredParseOptions, res: Result<(GithubDocument, Vec<GithubDiagnostic>), ParseFailure>) -> bool {
    match kind {
        GithubDocumentKind::IssueForm => match tokenize_spec(t, o) {
            Err(f) => res == Err::<(GithubDocument, Vec<GithubDiagnostic>), ParseFailure>(f),
            Ok(l) => match first_bad_flag(l, body_items(l)) {
                Some(span) => res == Err::<(GithubDocument, Vec<GithubDiagnostic>), ParseFailure>(malformed_at(span)),
                None => res matches Ok((GithubDocument::IssueForm(form), d)) && form_of(form, l) && d@ == issue_form_diagnostics(l),
            },
        },
        GithubDocumentKind::Workflow => match tokenize_spec(t, o) {
            Err(f) => res == Err::<(GithubDocument, Vec<GithubDiagnostic>), ParseFailure>(f),
            Ok(l) => res matches Ok((GithubDocument::Workflow(w), d)) && workflow_of(w, l) && d@.len() == 0,
        },
        GithubDocumentKind::DependencyBot => if renovate_path(path) {
            &&& (res is Err || res matches Ok((GithubDocument::DependencyBot(_), _)))
            &&& renovate_result(bot_result(res), json_document(t), t, o)
        } else {
            match tokenize_spec(t, o) {
                Err(f) => res == Err::<(GithubDocument, Vec<GithubDiagnostic>), ParseFailure>(f),
                Ok(l) => res matches Ok((GithubDocument::DependencyBot(bot), d)) && d@.len() == 0
                    && bot.provider == DependencyBotProvider::Dependabot
                    && bot.updates@.len() == dependabot_items(l).len()
                    && forall|m: int| 0 <= m < bot.updates@.len() ==>
                        update_of(#[trigger] bot.updates@[m], l, dependabot_items(l)[m].0, dependabot_items(l)[m].1),
            }
        },
        GithubDocumentKind::Codeowners => match codeowners_spec(t, o) {
            Err(f) => res == Err::<(GithubDocument, Vec<GithubDiagnostic>), ParseFailure>(f),
            Ok(st) => res matches Ok((GithubDocument::Codeowners(c), d)) && d@ == st.diags
                && c.entries@.map_values(|e: CodeownerEntry| entry_view(e)) == st.entries
                && c.skipped@.map_values(|k: CodeownersSkippedLine| skip_view(k)) == st.skipped,
        },
    }
}

/// `n` is the longest prefix of `b` that is valid UTF-8.
pub open spec fn valid_prefix(b: Seq<u8>, n: int) -> bool {
    &&& 0 <= n <= b.len()
    &&& valid_utf8(b.take(n))
    &&& forall|j: int| n < j <= b.len() ==> !valid_utf8(#[trigger] b.take(j))
}

/// `std::str::from_utf8`, and on an error its `valid_up_to`: the longest
/// prefix of the bytes that is valid UTF-8, which is all of them where
/// they are valid.
#[verifier::external_body]
fn utf8_valid_up_to(bytes: &[u8]) -> (r: usize)
    ensures
        valid_prefix(bytes@, r as int),
{
    match std::str::from_utf8(bytes) {
        Ok(_) => bytes.len(),
        Err(e) => e.valid_up_to(),
    }
}

/// One GitHub configuration file of `kind` at `path`, from its bytes:
/// over the source budget it fails on that budget; bytes that are not
/// UTF-8 fail where the valid prefix ends; else the outcome of what the
/// kind's parser gives for the text (Renovate's JSON for Renovate paths,
/// the YAML reader for the other dependency bots).
pub fn parse_github_source(source: &[u8], path: &str, kind: GithubDocumentKind, options: &StructuredParseOptions) -> (r: GithubParseOutcome)
    requires
        source@.len() < usize::MAX,
    ensures
        source@.len() > options.max_source_bytes ==> failed_with(r, GithubParseStatus::BudgetExceeded(StructuredBudgetKind::SourceBytes),
            GithubDiagnostic { kind: GithubDiagnosticKind::BudgetExceeded(StructuredBudgetKind::SourceBytes), span: no_span() }),
        source@.len() <= options.max_source_bytes && !valid_utf8(source@) ==> r.status == GithubParseStatus::InvalidUtf8
            && r.document is None && r.diagnostics@.len() == 1 && r.diagnostics@[0].kind == GithubDiagnosticKind::InvalidUtf8
            && r.diagnostics@[0].span.line == 1 && r.diagnostics@[0].span.column == 1 && r.diagnostics@[0].span.byte_start == 0
            && valid_prefix(source@, r.diagnostics@[0].span.byte_end as int),
        source@.len() <= options.max_source_bytes && valid_utf8(source@) ==> exists|res: Result<(GithubDocument, Vec<GithubDiagnostic>), ParseFailure>|
            #[trigger] parsed_as(decode_utf8(source@), path@, kind, *options, res) && outcome_from(r, res, *options),
{
    if source.len() > options.max_source_bytes {
        let diag = GithubDiagnostic { kind: GithubDiagnosticKind::BudgetExceeded(StructuredBudgetKind::SourceBytes), span: SourceSpan { line: 1, column: 1, byte_start: 0, byte_end: 0 } };
        let out = GithubParseOutcome { status: GithubParseStatus::BudgetExceeded(StructuredBudgetKind::SourceBytes), diagnostics: vec![diag], document: None };
        assert(out.diagnostics@ =~= seq![diag]);
        return out;
    }
    let text = match decode_bytes(vstd::slice::slice_to_vec(source)) {
        Some(text) => text,
        None => {
            let end = utf8_valid_up_to(source);
            let diag = GithubDiagnostic { kind: GithubDiagnosticKind::InvalidUtf8, span: SourceSpan { line: 1, column: 1, byte_start: 0, byte_end: end } };
            let out = GithubParseOutcome { status: GithubParseStatus::InvalidUtf8, diagnostics: vec![diag], document: None };
            assert(out.diagnostics@ =~= seq![diag]);
            return out;
        },
    };
    proof {
        vstd::utf8::decode_utf8_encode_utf8(source@);
        assert(byte_len(text@) == source@.len());
    }
    let t = text.as_str();
    let res: Result<(GithubDocument, Vec<GithubDiagnostic>), ParseFailure> = match kind {
        GithubDocumentKind::IssueForm => match parse_issue_form(t, options) {
            Ok((form, d)) => Ok((GithubDocument::IssueForm(form), d)),
            Err(f) => Err(f),
        },
        GithubDocumentKind::Workflow => match parse_workflow(t, options) {
            Ok(w) => Ok((GithubDocument::Workflow(w), Vec::new())),
            Err(f) => Err(f),
        },
        GithubDocumentKind::DependencyBot => if is_renovate_path(path) {
            match parse_renovate(t, options) {
                Ok((bot, d)) => Ok((GithubDocument::DependencyBot(bot), d)),
                Err(f) => Err(f),
            }
        } else {
            match parse_dependabot(t, options) {
                Ok(bot) => Ok((GithubDocument::DependencyBot(bot), Vec::new())),
                Err(f) => Err(f),
            }
        },
        GithubDocumentKind::Codeowners => match parse_codeowners(t, options) {
            Ok((c, d)) => Ok((GithubDocument::Codeowners(c), d)),
            Err(f) => Err(f),
        },
    };
    let ghost g = res;
    assert(parsed_as(decode_utf8(source@), path@, kind, *options, g));
    parse_outcome(res, options)
}

} // verus!
